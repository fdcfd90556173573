//! The virtual CPU's initial architectural state.
//!
//! Before the first resume the CPU is placed into flat, unsegmented
//! execution: every segment's base and selector is zero, the instruction
//! pointer is the guest-physical load address, and the flags register holds
//! only the architecture's mandatory reserved bit. The surrounding program
//! fetches the backend's register sets, overwrites exactly the fields
//! modeled here, and writes the sets back, leaving every other descriptor
//! attribute at the backend's defaults. This runs once; there is no reset.

use vstd::prelude::*;

verus! {

/// The flags-register value at startup: bit 1, the mandatory reserved bit,
/// set and every other bit clear.
pub const INITIAL_RFLAGS: u64 = 0x2;

/// The two fields of one segment register that initialization touches.
pub struct SegmentInit {
    pub base: u64,
    pub selector: u16,
}

/// The initial values of the six segment registers: code, stack, the two
/// data segments, and the two extra segments.
pub struct SegmentsInit {
    pub cs: SegmentInit,
    pub ss: SegmentInit,
    pub ds: SegmentInit,
    pub es: SegmentInit,
    pub fs: SegmentInit,
    pub gs: SegmentInit,
}

/// The two general-register fields that initialization touches.
pub struct CpuInit {
    pub rip: u64,
    pub rflags: u64,
}

/// Every segment's base and selector at startup is zero: flat, unsegmented
/// execution.
pub open spec fn segments_flat(s: SegmentsInit) -> bool {
    &&& s.cs.base == 0 && s.cs.selector == 0
    &&& s.ss.base == 0 && s.ss.selector == 0
    &&& s.ds.base == 0 && s.ds.selector == 0
    &&& s.es.base == 0 && s.es.selector == 0
    &&& s.fs.base == 0 && s.fs.selector == 0
    &&& s.gs.base == 0 && s.gs.selector == 0
}

/// The segment-register values for flat execution: all bases and selectors
/// zero.
pub fn flat_segments() -> (s: SegmentsInit)
    ensures
        segments_flat(s),
{
    SegmentsInit {
        cs: SegmentInit { base: 0, selector: 0 },
        ss: SegmentInit { base: 0, selector: 0 },
        ds: SegmentInit { base: 0, selector: 0 },
        es: SegmentInit { base: 0, selector: 0 },
        fs: SegmentInit { base: 0, selector: 0 },
        gs: SegmentInit { base: 0, selector: 0 },
    }
}

/// The general-register values for the first resume: execution starts at
/// `entry` with only the mandatory reserved flag bit set.
pub fn initial_cpu_state(entry: u64) -> (r: CpuInit)
    ensures
        r.rip == entry,
        r.rflags == INITIAL_RFLAGS,
{
    CpuInit { rip: entry, rflags: INITIAL_RFLAGS }
}

} // verus!
