//! The exit-dispatch state machine.
//!
//! Resuming the virtual CPU blocks until the guest traps back to the host
//! with an exit event. The dispatcher classifies each event, updates the
//! device model, and emits the observable effects: console characters,
//! reports, and notices. The surrounding program owns the resume loop; it
//! hands every event to [`handle_exit`] and stops when the returned status
//! is no longer [`StepStatus::Running`].

use vstd::prelude::*;
use crate::device::{Device, write_bytes_spec};

verus! {

/// The I/O port whose writes are treated as the console.
pub const CONSOLE_PORT: u16 = 0x3f8;

/// The byte whose arrival on any port draws the distinguishing notice.
pub const SENTINEL_BYTE: u8 = 0x42;

/// Why a resume of the virtual CPU returned control to the host.
pub enum ExitEvent {
    /// The guest wrote `bytes` to I/O port `port`.
    PortIoOut { port: u16, bytes: Vec<u8> },
    /// The guest executed a halt instruction.
    Halt,
    /// The guest stored `bytes` at unmapped guest-physical address `addr`.
    MmioWrite { addr: u64, bytes: Vec<u8> },
    /// The guest loaded `len` bytes from unmapped guest-physical `addr`.
    MmioRead { addr: u64, len: usize },
    /// Any exit reason the dispatcher does not recognize.
    Other,
}

/// An observable effect of handling one exit event, in the order produced.
#[derive(Clone, Copy, Debug, PartialEq, Eq, Structural)]
pub enum Observation {
    /// A printable byte written to the console port, echoed as a character.
    ConsoleChar { byte: u8 },
    /// A console-port byte outside the printable range, reported by value.
    ConsoleNonAscii { byte: u8 },
    /// The distinguishing notice for the sentinel byte.
    SentinelNotice,
    /// The shutdown notice emitted when the guest halts.
    ShutdownNotice,
    /// The byte the device served for a memory-mapped read.
    MmioReadValue { byte: u8 },
    /// A memory-mapped read outside the device's window.
    MmioReadOutOfRange { addr: u64 },
}

/// What the dispatcher tells its caller after one event.
#[derive(Clone, Copy, Debug, PartialEq, Eq, Structural)]
pub enum StepStatus {
    /// Resume the virtual CPU and hand back the next event.
    Running,
    /// The guest halted; the loop is over.
    Halted,
    /// An unrecognized exit: abort, reporting the reason.
    Fatal,
}

/// A port write must carry at least one byte; the first byte is what the
/// console and the sentinel check interpret.
pub open spec fn event_wf(e: ExitEvent) -> bool {
    e matches ExitEvent::PortIoOut { bytes, .. } ==> bytes@.len() >= 1
}

/// The effects of a write of `bytes` to `port`: the console echoes or
/// reports the first byte when the port is the console port, and the
/// sentinel notice follows whenever the first byte is the sentinel,
/// whatever the port. Writes to other ports are otherwise ignored.
pub open spec fn port_write_observations(port: u16, bytes: Seq<u8>) -> Seq<Observation>
    recommends
        bytes.len() >= 1,
{
    (if port == CONSOLE_PORT {
        if bytes[0] < 128 {
            seq![Observation::ConsoleChar { byte: bytes[0] }]
        } else {
            seq![Observation::ConsoleNonAscii { byte: bytes[0] }]
        }
    } else {
        Seq::<Observation>::empty()
    }) + (if bytes[0] == SENTINEL_BYTE {
        seq![Observation::SentinelNotice]
    } else {
        Seq::<Observation>::empty()
    })
}

/// The effects of a memory-mapped read at `addr` against a device whose
/// window starts at `base` and holds `contents`: the stored byte when the
/// address is in range, an out-of-range report when it is not.
pub open spec fn mmio_read_observations(contents: Seq<u8>, base: u64, addr: u64) -> Seq<
    Observation,
> {
    if base <= addr && addr - base < contents.len() {
        seq![Observation::MmioReadValue { byte: contents[addr - base] }]
    } else {
        seq![Observation::MmioReadOutOfRange { addr }]
    }
}

/// The observable effects of handling one exit event.
pub open spec fn step_observations(contents: Seq<u8>, base: u64, e: ExitEvent) -> Seq<
    Observation,
> {
    match e {
        ExitEvent::PortIoOut { port, bytes } => port_write_observations(port, bytes@),
        ExitEvent::Halt => seq![Observation::ShutdownNotice],
        ExitEvent::MmioWrite { .. } => Seq::empty(),
        ExitEvent::MmioRead { addr, .. } => mmio_read_observations(contents, base, addr),
        ExitEvent::Other => Seq::empty(),
    }
}

/// The device's buffer after one exit event: only a memory-mapped write
/// changes it.
pub open spec fn step_contents(contents: Seq<u8>, base: u64, e: ExitEvent) -> Seq<u8> {
    match e {
        ExitEvent::MmioWrite { addr, bytes } => write_bytes_spec(contents, base, addr, bytes@),
        _ => contents,
    }
}

/// The status after one exit event: a halt ends the loop, an unrecognized
/// exit aborts it, everything else keeps the guest running.
pub open spec fn step_status(e: ExitEvent) -> StepStatus {
    match e {
        ExitEvent::Halt => StepStatus::Halted,
        ExitEvent::Other => StepStatus::Fatal,
        _ => StepStatus::Running,
    }
}

/// Handle one exit event: update the device, append the event's observable
/// effects to `out` in order, and say whether the loop goes on.
pub fn handle_exit(device: &mut Device, event: &ExitEvent, out: &mut Vec<Observation>) -> (s:
    StepStatus)
    requires
        event_wf(*event),
    ensures
        final(device).base() == old(device).base(),
        final(device).contents() == step_contents(
            old(device).contents(),
            old(device).base(),
            *event,
        ),
        final(out)@ == old(out)@ + step_observations(
            old(device).contents(),
            old(device).base(),
            *event,
        ),
        s == step_status(*event),
{
    let ghost contents0 = device.contents();
    let ghost base0 = device.base();
    let ghost out0 = out@;
    match event {
        ExitEvent::PortIoOut { port, bytes } => {
            let b = bytes[0];
            if *port == CONSOLE_PORT {
                if b < 128 {
                    out.push(Observation::ConsoleChar { byte: b });
                } else {
                    out.push(Observation::ConsoleNonAscii { byte: b });
                }
            }
            if b == SENTINEL_BYTE {
                out.push(Observation::SentinelNotice);
            }
            proof {
                assert(out@ =~= out0 + step_observations(contents0, base0, *event));
            }
            StepStatus::Running
        },
        ExitEvent::Halt => {
            out.push(Observation::ShutdownNotice);
            proof {
                assert(out@ =~= out0 + step_observations(contents0, base0, *event));
            }
            StepStatus::Halted
        },
        ExitEvent::MmioWrite { addr, bytes } => {
            device.write(*addr, bytes);
            proof {
                assert(out@ =~= out0 + step_observations(contents0, base0, *event));
            }
            StepStatus::Running
        },
        ExitEvent::MmioRead { addr, .. } => {
            match device.read_checked(*addr) {
                Some(b) => out.push(Observation::MmioReadValue { byte: b }),
                None => out.push(Observation::MmioReadOutOfRange { addr: *addr }),
            }
            proof {
                assert(out@ =~= out0 + step_observations(contents0, base0, *event));
            }
            StepStatus::Running
        },
        ExitEvent::Other => {
            proof {
                assert(out@ =~= out0 + step_observations(contents0, base0, *event));
            }
            StepStatus::Fatal
        },
    }
}

/// Every event of a trace is well-formed.
pub open spec fn events_wf(es: Seq<ExitEvent>) -> bool {
    forall|i: int| 0 <= i < es.len() ==> event_wf(es[i])
}

/// The status the dispatch loop is left in after consuming a trace of exit
/// events in order: the first halt or unrecognized exit ends the loop, and a
/// trace of nothing but I/O events leaves the guest running.
pub open spec fn run_status(es: Seq<ExitEvent>) -> StepStatus
    decreases es.len(),
{
    if es.len() == 0 {
        StepStatus::Running
    } else if step_status(es[0]) == StepStatus::Running {
        run_status(es.skip(1))
    } else {
        step_status(es[0])
    }
}

/// The device's buffer after the dispatch loop consumes a trace.
pub open spec fn run_contents(contents: Seq<u8>, base: u64, es: Seq<ExitEvent>) -> Seq<u8>
    decreases es.len(),
{
    if es.len() == 0 {
        contents
    } else if step_status(es[0]) == StepStatus::Running {
        run_contents(step_contents(contents, base, es[0]), base, es.skip(1))
    } else {
        step_contents(contents, base, es[0])
    }
}

/// The observable effects of the dispatch loop consuming a trace, in order.
pub open spec fn run_observations(contents: Seq<u8>, base: u64, es: Seq<ExitEvent>) -> Seq<
    Observation,
>
    decreases es.len(),
{
    if es.len() == 0 {
        Seq::empty()
    } else if step_status(es[0]) == StepStatus::Running {
        step_observations(contents, base, es[0]) + run_observations(
            step_contents(contents, base, es[0]),
            base,
            es.skip(1),
        )
    } else {
        step_observations(contents, base, es[0])
    }
}

/// Run the dispatch loop over a finite trace of exit events: handle them in
/// order, strictly one at a time, stopping at the first halt or unrecognized
/// exit. Events after the stopping point are not handled.
pub fn run_events(device: &mut Device, events: &Vec<ExitEvent>, out: &mut Vec<Observation>) -> (s:
    StepStatus)
    requires
        events_wf(events@),
    ensures
        s == run_status(events@),
        final(device).base() == old(device).base(),
        final(device).contents() == run_contents(
            old(device).contents(),
            old(device).base(),
            events@,
        ),
        final(out)@ == old(out)@ + run_observations(
            old(device).contents(),
            old(device).base(),
            events@,
        ),
{
    let ghost contents0 = device.contents();
    let ghost base0 = device.base();
    let ghost out0 = out@;
    let mut status = StepStatus::Running;
    let mut i: usize = 0;
    proof {
        assert(events@.skip(0) =~= events@);
        assert(out@.skip(out0.len() as int) =~= Seq::<Observation>::empty());
        assert(Seq::<Observation>::empty() + run_observations(contents0, base0, events@)
            =~= run_observations(contents0, base0, events@));
    }
    while i < events.len() && status == StepStatus::Running
        invariant
            events_wf(events@),
            i <= events.len(),
            device.base() == base0,
            out0.len() <= out@.len(),
            out@.subrange(0, out0.len() as int) == out0,
            status == StepStatus::Running ==> run_status(events@) == run_status(
                events@.skip(i as int),
            ),
            status == StepStatus::Running ==> run_contents(contents0, base0, events@)
                == run_contents(device.contents(), base0, events@.skip(i as int)),
            status == StepStatus::Running ==> run_observations(contents0, base0, events@)
                == out@.skip(out0.len() as int) + run_observations(
                device.contents(),
                base0,
                events@.skip(i as int),
            ),
            status != StepStatus::Running ==> status == run_status(events@),
            status != StepStatus::Running ==> device.contents() == run_contents(
                contents0,
                base0,
                events@,
            ),
            status != StepStatus::Running ==> out@ == out0 + run_observations(
                contents0,
                base0,
                events@,
            ),
        decreases events.len() - i,
    {
        let ghost pre_contents = device.contents();
        let ghost pre_out = out@;
        let ghost rest = events@.skip(i as int);
        proof {
            assert(rest[0] == events@[i as int]);
            assert(rest.skip(1) =~= events@.skip(i as int + 1));
        }
        status = handle_exit(device, &events[i], out);
        proof {
            assert(out@.subrange(0, out0.len() as int) =~= out0);
            if status == StepStatus::Running {
                assert(out@.skip(out0.len() as int) =~= pre_out.skip(out0.len() as int)
                    + step_observations(pre_contents, base0, events@[i as int]));
                assert(out@.skip(out0.len() as int) + run_observations(
                    device.contents(),
                    base0,
                    events@.skip(i as int + 1),
                ) =~= pre_out.skip(out0.len() as int) + run_observations(
                    pre_contents,
                    base0,
                    events@.skip(i as int),
                ));
            } else {
                assert(run_observations(pre_contents, base0, rest) == step_observations(
                    pre_contents,
                    base0,
                    events@[i as int],
                ));
                assert(out@ =~= out0 + (pre_out.skip(out0.len() as int) + step_observations(
                    pre_contents,
                    base0,
                    events@[i as int],
                )));
            }
        }
        i += 1;
    }
    proof {
        if status == StepStatus::Running {
            assert(events@.skip(i as int) =~= Seq::<ExitEvent>::empty());
            assert(out@ =~= out0 + out@.skip(out0.len() as int));
        }
    }
    status
}

/// Console writes echo printable bytes and report the rest, never both. A
/// write to the console port whose first byte lies in the printable range
/// `[0, 127]` is reproduced verbatim as that character, and no non-ASCII
/// report appears; a first byte in `[128, 255]` produces the non-ASCII
/// report carrying the numeric value, and no character is ever echoed.
pub proof fn lemma_console_echo(port: u16, bytes: Seq<u8>)
    requires
        port == CONSOLE_PORT,
        bytes.len() >= 1,
    ensures
        bytes[0] < 128 ==> port_write_observations(port, bytes)[0] == (Observation::ConsoleChar {
            byte: bytes[0],
        }),
        bytes[0] < 128 ==> forall|k: int|
            0 <= k < port_write_observations(port, bytes).len() ==> !(port_write_observations(
                port,
                bytes,
            )[k] is ConsoleNonAscii),
        bytes[0] >= 128 ==> port_write_observations(port, bytes) =~= seq![
            Observation::ConsoleNonAscii { byte: bytes[0] },
        ],
        bytes[0] >= 128 ==> forall|k: int|
            0 <= k < port_write_observations(port, bytes).len() ==> !(port_write_observations(
                port,
                bytes,
            )[k] is ConsoleChar),
{
}

/// A port write whose first byte is the sentinel always ends with the
/// distinguishing notice — whatever the port, and independently of which
/// console branch fired before it.
pub proof fn lemma_sentinel_notice(port: u16, bytes: Seq<u8>)
    requires
        bytes.len() >= 1,
        bytes[0] == SENTINEL_BYTE,
    ensures
        port_write_observations(port, bytes).len() >= 1,
        port_write_observations(port, bytes).last() == Observation::SentinelNotice,
{
}

/// A trace of nothing but recognized I/O events leaves the guest running:
/// the dispatch loop never reaches the halted state on its own, however many
/// port or memory-mapped accesses the guest performs.
pub proof fn lemma_io_only_trace_keeps_running(es: Seq<ExitEvent>)
    requires
        forall|i: int| 0 <= i < es.len() ==> step_status(es[i]) == StepStatus::Running,
    ensures
        run_status(es) == StepStatus::Running,
    decreases es.len(),
{
    if es.len() > 0 {
        assert forall|i: int| 0 <= i < es.skip(1).len() implies step_status(es.skip(1)[i])
            == StepStatus::Running by {
            assert(es.skip(1)[i] == es[i + 1]);
        }
        lemma_io_only_trace_keeps_running(es.skip(1));
    }
}

/// There is a halt event at position `i` of the trace, and every event
/// before it keeps the loop running.
pub open spec fn halt_reached_at(es: Seq<ExitEvent>, i: int) -> bool {
    &&& 0 <= i < es.len()
    &&& es[i] is Halt
    &&& forall|j: int| 0 <= j < i ==> step_status(es[j]) == StepStatus::Running
}

proof fn lemma_halted_implies_halt_event(es: Seq<ExitEvent>)
    requires
        run_status(es) == StepStatus::Halted,
    ensures
        exists|i: int| halt_reached_at(es, i),
    decreases es.len(),
{
    if step_status(es[0]) == StepStatus::Running {
        let tail = es.skip(1);
        lemma_halted_implies_halt_event(tail);
        let it = choose|i: int| halt_reached_at(tail, i);
        assert(es[it + 1] == tail[it]);
        assert forall|j: int| 0 <= j < it + 1 implies step_status(es[j])
            == StepStatus::Running by {
            if j >= 1 {
                assert(tail[j - 1] == es[j]);
            }
        }
        assert(halt_reached_at(es, it + 1));
    } else {
        assert(es[0] is Halt);
        assert(halt_reached_at(es, 0));
    }
}

proof fn lemma_halt_event_implies_halted(es: Seq<ExitEvent>, i: int)
    requires
        halt_reached_at(es, i),
    ensures
        run_status(es) == StepStatus::Halted,
    decreases i,
{
    if i > 0 {
        let tail = es.skip(1);
        assert(step_status(es[0]) == StepStatus::Running);
        assert(tail[i - 1] == es[i]);
        assert forall|j: int| 0 <= j < i - 1 implies step_status(tail[j])
            == StepStatus::Running by {
            assert(tail[j] == es[j + 1]);
        }
        assert(halt_reached_at(tail, i - 1));
        lemma_halt_event_implies_halted(tail, i - 1);
    }
}

/// The dispatch loop reaches the halted state exactly when the guest halts:
/// the trace holds a halt event preceded only by recognized I/O events. In
/// particular the loop never halts of itself, and an unrecognized exit
/// before the halt aborts the loop instead.
pub proof fn lemma_halted_iff_halt_event(es: Seq<ExitEvent>)
    ensures
        run_status(es) == StepStatus::Halted <==> exists|i: int| halt_reached_at(es, i),
{
    if run_status(es) == StepStatus::Halted {
        lemma_halted_implies_halt_event(es);
    }
    if exists|i: int| halt_reached_at(es, i) {
        let i0 = choose|i: int| halt_reached_at(es, i);
        lemma_halt_event_implies_halted(es, i0);
    }
}

} // verus!
