use minivmm::memory::{
    build_memory_image, region_config, DEVICE_MMIO_BASE, DEVICE_WINDOW_SIZE, GUEST_LOAD_ADDR,
    GUEST_MEM_SIZE, GUEST_MEM_SLOT,
};
use minivmm::vcpu::{flat_segments, initial_cpu_state, INITIAL_RFLAGS};

#[test]
fn image_holds_payload_then_zeros() {
    let payload = vec![0xDE, 0xAD, 0xBE];
    let image = build_memory_image(&payload, 8);
    assert_eq!(image, vec![0xDE, 0xAD, 0xBE, 0, 0, 0, 0, 0]);
}

#[test]
fn payload_may_fill_the_whole_image() {
    let payload = vec![1, 2, 3, 4];
    let image = build_memory_image(&payload, 4);
    assert_eq!(image, vec![1, 2, 3, 4]);
}

#[test]
fn empty_payload_gives_a_zeroed_image() {
    let image = build_memory_image(&Vec::new(), 5);
    assert_eq!(image, vec![0, 0, 0, 0, 0]);
}

#[test]
fn image_has_the_requested_size() {
    let payload = vec![7u8; 16];
    let image = build_memory_image(&payload, GUEST_MEM_SIZE);
    assert_eq!(image.len(), GUEST_MEM_SIZE);
    assert_eq!(image[15], 7);
    assert_eq!(image[16], 0);
}

#[test]
fn region_config_pins_every_field() {
    let r = region_config(GUEST_LOAD_ADDR, GUEST_MEM_SIZE as u64, 0x7F00_0000_1000);
    assert_eq!(r.slot, GUEST_MEM_SLOT);
    assert_eq!(r.slot, 0);
    assert_eq!(r.guest_phys_addr, 0x1000);
    assert_eq!(r.memory_size, 0x1000);
    assert_eq!(r.userspace_addr, 0x7F00_0000_1000);
    assert_eq!(r.flags, 0);
}

#[test]
fn layout_constants_describe_the_address_space() {
    assert_eq!(DEVICE_MMIO_BASE, 0x0);
    assert_eq!(DEVICE_WINDOW_SIZE, 0x1000);
    assert_eq!(GUEST_LOAD_ADDR, 0x1000);
    assert_eq!(GUEST_MEM_SIZE, 0x1000);
}

#[test]
fn segments_start_flat() {
    let s = flat_segments();
    for seg in [&s.cs, &s.ss, &s.ds, &s.es, &s.fs, &s.gs] {
        assert_eq!(seg.base, 0);
        assert_eq!(seg.selector, 0);
    }
}

#[test]
fn cpu_starts_at_the_entry_point_with_reserved_flag() {
    let r = initial_cpu_state(GUEST_LOAD_ADDR);
    assert_eq!(r.rip, 0x1000);
    assert_eq!(r.rflags, 0x2);
    assert_eq!(INITIAL_RFLAGS, 0x2);
}
