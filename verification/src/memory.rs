//! The guest memory image and its registration record.
//!
//! Guest-physical `[0x0, 0x1000)` is the device window, intercepted and
//! emulated; `[0x1000, 0x2000)` is plain RAM holding the guest's code. The
//! image built here is copied into the host buffer that backs that RAM, and
//! the registration record carries the fields the virtualization backend
//! needs to map the buffer into the guest's physical address space.

use vstd::prelude::*;

verus! {

/// First guest-physical address of the device's memory-mapped window.
pub const DEVICE_MMIO_BASE: u64 = 0x0;

/// Size in bytes of the device's window and backing buffer.
pub const DEVICE_WINDOW_SIZE: usize = 0x1000;

/// Guest-physical address where the code image is loaded and execution
/// begins.
pub const GUEST_LOAD_ADDR: u64 = 0x1000;

/// Size in bytes of the guest's RAM region.
pub const GUEST_MEM_SIZE: usize = 0x1000;

/// The slot id under which the one RAM region is registered.
pub const GUEST_MEM_SLOT: u32 = 0;

/// What registering a guest memory region tells the virtualization backend:
/// which slot, where the region sits in guest-physical space, how large it
/// is, which host buffer backs it, and the region's flags.
pub struct RegionConfig {
    pub slot: u32,
    pub guest_phys_addr: u64,
    pub memory_size: u64,
    pub userspace_addr: u64,
    pub flags: u32,
}

/// The guest's initial RAM contents: the code payload copied verbatim to
/// the front of a zero-initialized buffer of `size` bytes.
pub fn build_memory_image(payload: &Vec<u8>, size: usize) -> (image: Vec<u8>)
    requires
        payload@.len() <= size,
    ensures
        image@.len() == size,
        forall|i: int| 0 <= i < payload@.len() ==> image@[i] == payload@[i],
        forall|i: int| payload@.len() <= i < size ==> image@[i] == 0u8,
{
    let mut image: Vec<u8> = Vec::new();
    let mut i: usize = 0;
    while i < payload.len()
        invariant
            i <= payload@.len() <= size,
            image@.len() == i,
            forall|j: int| 0 <= j < i ==> image@[j] == payload@[j],
        decreases payload@.len() - i,
    {
        image.push(payload[i]);
        i += 1;
    }
    while image.len() < size
        invariant
            payload@.len() <= image@.len() <= size,
            forall|j: int| 0 <= j < payload@.len() ==> image@[j] == payload@[j],
            forall|j: int| payload@.len() <= j < image@.len() ==> image@[j] == 0u8,
        decreases size - image.len(),
    {
        image.push(0u8);
    }
    image
}

/// The registration record for the single RAM region: slot `0`, no flags,
/// `size` bytes of the host buffer at `host_addr` mapped at guest-physical
/// `guest_base`.
pub fn region_config(guest_base: u64, size: u64, host_addr: u64) -> (r: RegionConfig)
    ensures
        r.slot == GUEST_MEM_SLOT,
        r.guest_phys_addr == guest_base,
        r.memory_size == size,
        r.userspace_addr == host_addr,
        r.flags == 0,
{
    RegionConfig {
        slot: GUEST_MEM_SLOT,
        guest_phys_addr: guest_base,
        memory_size: size,
        userspace_addr: host_addr,
        flags: 0,
    }
}

} // verus!
