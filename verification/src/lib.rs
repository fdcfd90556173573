//! A minimal hardware-virtualized guest execution engine.
//!
//! The library holds the verified core of a small virtual-machine monitor:
//! the memory-mapped device model, the exit-dispatch state machine, the
//! initial virtual-CPU register state, and the guest memory image. The
//! surrounding program owns the virtualization backend (the kernel's VM and
//! VCPU handles) and feeds each exit event into the dispatcher here.

pub mod device;
pub mod dispatch;
pub mod memory;
pub mod vcpu;
