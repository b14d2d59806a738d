//! The trap taxonomy: interrupts, exceptions, and the union of the two that
//! the executor and the trap path exchange.

use vstd::prelude::*;

verus! {

/// Machine- and supervisor-mode interrupts. Only the machine-mode entries are
/// ever raised by the modeled devices; the supervisor entries exist as values.
#[derive(Debug, Clone, Copy, PartialEq, Eq, Structural)]
pub enum Interrupt {
    SSoftInterrupt,
    MSoftInterrupt,
    STimerInterrupt,
    MTimerInterrupt,
    SExternalInterrupt,
    MExternalInterrupt,
}

impl Interrupt {
    /// The architectural cause code of the interrupt.
    pub open spec fn spec_code(self) -> u32 {
        match self {
            Interrupt::SSoftInterrupt => 1,
            Interrupt::MSoftInterrupt => 3,
            Interrupt::STimerInterrupt => 5,
            Interrupt::MTimerInterrupt => 7,
            Interrupt::SExternalInterrupt => 9,
            Interrupt::MExternalInterrupt => 11,
        }
    }

    /// Returns the architectural cause code of the interrupt.
    pub fn code(self) -> (r: u32)
        ensures
            r == self.spec_code(),
    {
        match self {
            Interrupt::SSoftInterrupt => 1,
            Interrupt::MSoftInterrupt => 3,
            Interrupt::STimerInterrupt => 5,
            Interrupt::MTimerInterrupt => 7,
            Interrupt::SExternalInterrupt => 9,
            Interrupt::MExternalInterrupt => 11,
        }
    }

    /// Delivery priority: ExternalM > ExternalS > SoftM > SoftS > TimerM >
    /// TimerS. A larger rank wins.
    pub open spec fn spec_rank(self) -> int {
        match self {
            Interrupt::MExternalInterrupt => 5,
            Interrupt::SExternalInterrupt => 4,
            Interrupt::MSoftInterrupt => 3,
            Interrupt::SSoftInterrupt => 2,
            Interrupt::MTimerInterrupt => 1,
            Interrupt::STimerInterrupt => 0,
        }
    }

    /// Returns the delivery priority rank of the interrupt.
    pub fn rank(self) -> (r: u32)
        ensures
            r == self.spec_rank(),
    {
        match self {
            Interrupt::MExternalInterrupt => 5,
            Interrupt::SExternalInterrupt => 4,
            Interrupt::MSoftInterrupt => 3,
            Interrupt::SSoftInterrupt => 2,
            Interrupt::MTimerInterrupt => 1,
            Interrupt::STimerInterrupt => 0,
        }
    }
}

/// Synchronous exception codes, as the ISA numbers them.
#[derive(Debug, Clone, Copy, PartialEq, Eq, Structural)]
pub enum Exception {
    InstructionAddressMissaligned,
    InstructionAccessFault,
    IllegalInstruction,
    Breakpoint,
    LoadAddressMisaligned,
    LoadAccessFault,
    StoreAddressMisaligned,
    StoreAccessFault,
    UEnvironmentCall,
    SEnvironmentCall,
    MEnvironmentCall,
    InstructionPageFault,
    LoadPageFault,
    StorePageFault,
}

impl Exception {
    /// The architectural cause code of the exception.
    pub open spec fn spec_code(self) -> u32 {
        match self {
            Exception::InstructionAddressMissaligned => 0,
            Exception::InstructionAccessFault => 1,
            Exception::IllegalInstruction => 2,
            Exception::Breakpoint => 3,
            Exception::LoadAddressMisaligned => 4,
            Exception::LoadAccessFault => 5,
            Exception::StoreAddressMisaligned => 6,
            Exception::StoreAccessFault => 7,
            Exception::UEnvironmentCall => 8,
            Exception::SEnvironmentCall => 9,
            Exception::MEnvironmentCall => 11,
            Exception::InstructionPageFault => 12,
            Exception::LoadPageFault => 13,
            Exception::StorePageFault => 14,
        }
    }

    /// Returns the architectural cause code of the exception.
    pub fn code(self) -> (r: u32)
        ensures
            r == self.spec_code(),
    {
        match self {
            Exception::InstructionAddressMissaligned => 0,
            Exception::InstructionAccessFault => 1,
            Exception::IllegalInstruction => 2,
            Exception::Breakpoint => 3,
            Exception::LoadAddressMisaligned => 4,
            Exception::LoadAccessFault => 5,
            Exception::StoreAddressMisaligned => 6,
            Exception::StoreAccessFault => 7,
            Exception::UEnvironmentCall => 8,
            Exception::SEnvironmentCall => 9,
            Exception::MEnvironmentCall => 11,
            Exception::InstructionPageFault => 12,
            Exception::LoadPageFault => 13,
            Exception::StorePageFault => 14,
        }
    }
}

/// What an instruction or the fetch path can raise: either an asynchronous
/// interrupt or a synchronous exception.
#[derive(Debug, Clone, Copy, PartialEq, Eq, Structural)]
pub enum ExceptionInterrupt {
    Interrupt(Interrupt),
    Exception(Exception),
}

} // verus!
