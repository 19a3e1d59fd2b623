use vstd::prelude::*;

verus! {

/// Number of general-purpose integer registers.
pub const NUM_REGS: usize = 32;

/// Native integer width of the emulated processor.
#[derive(Clone, Copy, Debug, PartialEq, Eq, Structural)]
pub enum Xlen {
    Bit32,
    Bit64,
}

/// The largest value a register can hold under `xlen`.
pub open spec fn xmask(xlen: Xlen) -> u64 {
    match xlen {
        Xlen::Bit32 => 0xffff_ffffu64,
        Xlen::Bit64 => 0xffff_ffff_ffff_ffffu64,
    }
}

/// Executable form of `xmask`.
pub fn mask_of(xlen: Xlen) -> (r: u64)
    ensures
        r == xmask(xlen),
{
    match xlen {
        Xlen::Bit32 => 0xffff_ffffu64,
        Xlen::Bit64 => 0xffff_ffff_ffff_ffffu64,
    }
}

} // verus!
