//! A RISC-V hart (RV32/RV64 with the M and C extensions and Zicsr) with its MMU:
//! instruction decoding, execution with precise traps, Sv32/Sv39 address translation
//! with an optional translation cache, and physical memory with memory-mapped devices.
use vstd::prelude::*;

pub mod alu;
pub mod bytes;
pub mod cpu;
pub mod decode;
pub mod emulator;
pub mod memory;
pub mod mmu;
pub mod regs;
pub mod trap;
pub mod walk;

verus! {

} // verus!
