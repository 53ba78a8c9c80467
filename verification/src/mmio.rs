//! Register writes that the drivers compute and the kernel performs.
use vstd::prelude::*;

verus! {

/// A 32-bit write to a memory-mapped register.
#[derive(Clone, Copy, PartialEq, Eq, Structural, Debug)]
pub struct MmioWrite {
    pub addr: u64,
    pub val: u32,
}

/// A byte written to an I/O port.
#[derive(Clone, Copy, PartialEq, Eq, Structural, Debug)]
pub struct PortWrite {
    pub port: u16,
    pub val: u8,
}

} // verus!
