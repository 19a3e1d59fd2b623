use vstd::prelude::*;

verus! {

/// Privilege level of the hart.
#[derive(Clone, Copy, Debug, PartialEq, Eq, Structural)]
pub enum Priv {
    User,
    Supervisor,
    Machine,
}

/// Kind of memory access, as seen by address translation.
#[derive(Clone, Copy, Debug, PartialEq, Eq, Structural)]
pub enum Access {
    Fetch,
    Load,
    Store,
}

/// Synchronous exception causes.
#[derive(Clone, Copy, Debug, PartialEq, Eq, Structural)]
pub enum TrapCause {
    InstructionAddressMisaligned,
    InstructionAccessFault,
    IllegalInstruction,
    Breakpoint,
    LoadAddressMisaligned,
    LoadAccessFault,
    StoreAddressMisaligned,
    StoreAccessFault,
    EnvironmentCallFromUMode,
    EnvironmentCallFromSMode,
    EnvironmentCallFromMMode,
    InstructionPageFault,
    LoadPageFault,
    StorePageFault,
}

/// A trap descriptor: its cause and the value written to the trap-value register.
#[derive(Clone, Copy, Debug, PartialEq, Eq, Structural)]
pub struct Trap {
    pub cause: TrapCause,
    pub tval: u64,
}

/// The exception code that the cause register receives.
pub open spec fn cause_code_spec(c: TrapCause) -> u64 {
    match c {
        TrapCause::InstructionAddressMisaligned => 0,
        TrapCause::InstructionAccessFault => 1,
        TrapCause::IllegalInstruction => 2,
        TrapCause::Breakpoint => 3,
        TrapCause::LoadAddressMisaligned => 4,
        TrapCause::LoadAccessFault => 5,
        TrapCause::StoreAddressMisaligned => 6,
        TrapCause::StoreAccessFault => 7,
        TrapCause::EnvironmentCallFromUMode => 8,
        TrapCause::EnvironmentCallFromSMode => 9,
        TrapCause::EnvironmentCallFromMMode => 11,
        TrapCause::InstructionPageFault => 12,
        TrapCause::LoadPageFault => 13,
        TrapCause::StorePageFault => 15,
    }
}

pub fn cause_code(c: TrapCause) -> (r: u64)
    ensures
        r == cause_code_spec(c),
{
    match c {
        TrapCause::InstructionAddressMisaligned => 0,
        TrapCause::InstructionAccessFault => 1,
        TrapCause::IllegalInstruction => 2,
        TrapCause::Breakpoint => 3,
        TrapCause::LoadAddressMisaligned => 4,
        TrapCause::LoadAccessFault => 5,
        TrapCause::StoreAddressMisaligned => 6,
        TrapCause::StoreAccessFault => 7,
        TrapCause::EnvironmentCallFromUMode => 8,
        TrapCause::EnvironmentCallFromSMode => 9,
        TrapCause::EnvironmentCallFromMMode => 11,
        TrapCause::InstructionPageFault => 12,
        TrapCause::LoadPageFault => 13,
        TrapCause::StorePageFault => 15,
    }
}

/// The page-fault cause for an access kind.
pub open spec fn page_fault_spec(a: Access) -> TrapCause {
    match a {
        Access::Fetch => TrapCause::InstructionPageFault,
        Access::Load => TrapCause::LoadPageFault,
        Access::Store => TrapCause::StorePageFault,
    }
}

pub fn page_fault(a: Access) -> (r: TrapCause)
    ensures
        r == page_fault_spec(a),
{
    match a {
        Access::Fetch => TrapCause::InstructionPageFault,
        Access::Load => TrapCause::LoadPageFault,
        Access::Store => TrapCause::StorePageFault,
    }
}

} // verus!
