use minivmm::device::Device;
use minivmm::dispatch::{
    handle_exit, run_events, ExitEvent, Observation, StepStatus, CONSOLE_PORT, SENTINEL_BYTE,
};

fn fresh() -> (Device, Vec<Observation>) {
    (Device::new(0x0, 0x1000), Vec::new())
}

#[test]
fn console_ascii_byte_is_echoed() {
    let (mut d, mut out) = fresh();
    let e = ExitEvent::PortIoOut { port: CONSOLE_PORT, bytes: vec![0x41] };
    let s = handle_exit(&mut d, &e, &mut out);
    assert_eq!(s, StepStatus::Running);
    assert_eq!(out, vec![Observation::ConsoleChar { byte: 0x41 }]);
}

#[test]
fn console_boundary_byte_127_is_echoed() {
    let (mut d, mut out) = fresh();
    let e = ExitEvent::PortIoOut { port: CONSOLE_PORT, bytes: vec![127] };
    handle_exit(&mut d, &e, &mut out);
    assert_eq!(out, vec![Observation::ConsoleChar { byte: 127 }]);
}

#[test]
fn console_non_ascii_byte_is_reported_not_echoed() {
    let (mut d, mut out) = fresh();
    let e = ExitEvent::PortIoOut { port: CONSOLE_PORT, bytes: vec![200] };
    let s = handle_exit(&mut d, &e, &mut out);
    assert_eq!(s, StepStatus::Running);
    assert_eq!(out, vec![Observation::ConsoleNonAscii { byte: 200 }]);
}

#[test]
fn console_boundary_byte_128_is_reported() {
    let (mut d, mut out) = fresh();
    let e = ExitEvent::PortIoOut { port: CONSOLE_PORT, bytes: vec![128] };
    handle_exit(&mut d, &e, &mut out);
    assert_eq!(out, vec![Observation::ConsoleNonAscii { byte: 128 }]);
}

#[test]
fn sentinel_on_console_echoes_then_notices() {
    let (mut d, mut out) = fresh();
    let e = ExitEvent::PortIoOut { port: CONSOLE_PORT, bytes: vec![SENTINEL_BYTE] };
    handle_exit(&mut d, &e, &mut out);
    assert_eq!(
        out,
        vec![
            Observation::ConsoleChar { byte: SENTINEL_BYTE },
            Observation::SentinelNotice,
        ]
    );
}

#[test]
fn sentinel_on_any_port_draws_the_notice() {
    let (mut d, mut out) = fresh();
    let e = ExitEvent::PortIoOut { port: 0x10, bytes: vec![SENTINEL_BYTE] };
    handle_exit(&mut d, &e, &mut out);
    assert_eq!(out, vec![Observation::SentinelNotice]);
}

#[test]
fn other_port_is_otherwise_ignored() {
    let (mut d, mut out) = fresh();
    let e = ExitEvent::PortIoOut { port: 0x10, bytes: vec![0x41] };
    let s = handle_exit(&mut d, &e, &mut out);
    assert_eq!(s, StepStatus::Running);
    assert!(out.is_empty());
}

#[test]
fn halt_emits_shutdown_notice() {
    let (mut d, mut out) = fresh();
    let s = handle_exit(&mut d, &ExitEvent::Halt, &mut out);
    assert_eq!(s, StepStatus::Halted);
    assert_eq!(out, vec![Observation::ShutdownNotice]);
}

#[test]
fn unrecognized_exit_is_fatal() {
    let (mut d, mut out) = fresh();
    let s = handle_exit(&mut d, &ExitEvent::Other, &mut out);
    assert_eq!(s, StepStatus::Fatal);
    assert!(out.is_empty());
}

#[test]
fn mmio_write_is_forwarded_to_the_device() {
    let (mut d, mut out) = fresh();
    let e = ExitEvent::MmioWrite { addr: 0x30, bytes: vec![0x5A] };
    let s = handle_exit(&mut d, &e, &mut out);
    assert_eq!(s, StepStatus::Running);
    assert!(out.is_empty());
    assert_eq!(d.read(0x30), 0x5A);
}

#[test]
fn mmio_read_serves_the_stored_byte() {
    let (mut d, mut out) = fresh();
    d.write(0x30, &vec![0x5A]);
    let e = ExitEvent::MmioRead { addr: 0x30, len: 1 };
    let s = handle_exit(&mut d, &e, &mut out);
    assert_eq!(s, StepStatus::Running);
    assert_eq!(out, vec![Observation::MmioReadValue { byte: 0x5A }]);
}

#[test]
fn mmio_read_out_of_range_is_reported() {
    let (mut d, mut out) = fresh();
    let e = ExitEvent::MmioRead { addr: 0x2000, len: 1 };
    let s = handle_exit(&mut d, &e, &mut out);
    assert_eq!(s, StepStatus::Running);
    assert_eq!(out, vec![Observation::MmioReadOutOfRange { addr: 0x2000 }]);
}

#[test]
fn console_scenario_prints_char_notice_and_shutdown() {
    // The guest writes 'A' to the console port, then the sentinel byte,
    // then halts.
    let (mut d, mut out) = fresh();
    let events = vec![
        ExitEvent::PortIoOut { port: CONSOLE_PORT, bytes: vec![0x41] },
        ExitEvent::PortIoOut { port: CONSOLE_PORT, bytes: vec![0x42] },
        ExitEvent::Halt,
    ];
    let s = run_events(&mut d, &events, &mut out);
    assert_eq!(s, StepStatus::Halted);
    assert_eq!(
        out,
        vec![
            Observation::ConsoleChar { byte: 0x41 },
            Observation::ConsoleChar { byte: 0x42 },
            Observation::SentinelNotice,
            Observation::ShutdownNotice,
        ]
    );
}

#[test]
fn mmio_scenario_reads_back_the_written_byte() {
    // The guest stores 0xFF at device address 0x10, loads it back, halts.
    let (mut d, mut out) = fresh();
    let events = vec![
        ExitEvent::MmioWrite { addr: 0x10, bytes: vec![0xFF] },
        ExitEvent::MmioRead { addr: 0x10, len: 1 },
        ExitEvent::Halt,
    ];
    let s = run_events(&mut d, &events, &mut out);
    assert_eq!(s, StepStatus::Halted);
    assert_eq!(
        out,
        vec![
            Observation::MmioReadValue { byte: 0xFF },
            Observation::ShutdownNotice,
        ]
    );
}

#[test]
fn mmio_scenario_straddling_the_end_keeps_in_range_bytes() {
    // Four bytes written starting two bytes before the end of the window:
    // the two in-range bytes stick, the rest are dropped, nothing crashes.
    let (mut d, mut out) = fresh();
    let events = vec![
        ExitEvent::MmioWrite { addr: 0xFFE, bytes: vec![0x11, 0x22, 0x33, 0x44] },
        ExitEvent::MmioRead { addr: 0xFFE, len: 1 },
        ExitEvent::MmioRead { addr: 0xFFF, len: 1 },
        ExitEvent::MmioRead { addr: 0x1000, len: 1 },
        ExitEvent::Halt,
    ];
    let s = run_events(&mut d, &events, &mut out);
    assert_eq!(s, StepStatus::Halted);
    assert_eq!(
        out,
        vec![
            Observation::MmioReadValue { byte: 0x11 },
            Observation::MmioReadValue { byte: 0x22 },
            Observation::MmioReadOutOfRange { addr: 0x1000 },
            Observation::ShutdownNotice,
        ]
    );
}

#[test]
fn events_after_the_halt_are_not_handled() {
    let (mut d, mut out) = fresh();
    let events = vec![
        ExitEvent::Halt,
        ExitEvent::PortIoOut { port: CONSOLE_PORT, bytes: vec![0x41] },
    ];
    let s = run_events(&mut d, &events, &mut out);
    assert_eq!(s, StepStatus::Halted);
    assert_eq!(out, vec![Observation::ShutdownNotice]);
}

#[test]
fn unrecognized_exit_aborts_the_run() {
    let (mut d, mut out) = fresh();
    let events = vec![
        ExitEvent::PortIoOut { port: CONSOLE_PORT, bytes: vec![0x41] },
        ExitEvent::Other,
        ExitEvent::Halt,
    ];
    let s = run_events(&mut d, &events, &mut out);
    assert_eq!(s, StepStatus::Fatal);
    assert_eq!(out, vec![Observation::ConsoleChar { byte: 0x41 }]);
}

#[test]
fn io_only_trace_leaves_the_guest_running() {
    // However many recognized I/O events the guest produces, the loop never
    // reaches the halted state on its own.
    let (mut d, mut out) = fresh();
    let mut events = Vec::new();
    for i in 0..100u64 {
        events.push(ExitEvent::MmioWrite { addr: i, bytes: vec![i as u8] });
        events.push(ExitEvent::MmioRead { addr: i, len: 1 });
        events.push(ExitEvent::PortIoOut { port: CONSOLE_PORT, bytes: vec![0x2E] });
    }
    let s = run_events(&mut d, &events, &mut out);
    assert_eq!(s, StepStatus::Running);
}

#[test]
fn empty_trace_leaves_the_guest_running() {
    let (mut d, mut out) = fresh();
    let s = run_events(&mut d, &Vec::new(), &mut out);
    assert_eq!(s, StepStatus::Running);
    assert!(out.is_empty());
}
