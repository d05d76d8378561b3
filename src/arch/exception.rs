//! Exceptions and interrupts taken by the hypervisor itself.

use vstd::prelude::*;

use super::context::GeneralRegisters;

verus! {

/// Exception vectors the handler tells apart.
pub const EXCEPTION_NMI: u64 = 2;
pub const EXCEPTION_PAGE_FAULT: u64 = 14;
pub const IRQ_START: u64 = 32;
pub const IRQ_END: u64 = 255;

/// The frame the exception entry pushes.
#[derive(Clone, Copy, Debug)]
pub struct TrapFrame {
    pub regs: GeneralRegisters,
    pub num: u64,
    pub error_code: u64,
    pub rip: u64,
    pub cs: u64,
    pub rflags: u64,
    pub rsp: u64,
    pub ss: u64,
}

/// What the hypervisor does with an exception it takes.
#[derive(Debug, Clone, Copy, PartialEq, Eq, Structural)]
pub enum ExceptionAction {
    /// An NMI: note it and go on.
    WarnNmi,
    /// A page fault in the hypervisor: stop.
    PanicPageFault,
    /// An external interrupt: none is expected, stop.
    PanicInterrupt,
    /// Any other exception: stop.
    PanicException,
}

/// Decides what to do with the exception in `frame`; the vector is the
/// low byte of `num`.
pub fn exception_handler(frame: &TrapFrame) -> (r: ExceptionAction)
    ensures
        frame.num & 0xff == EXCEPTION_NMI ==> r == ExceptionAction::WarnNmi,
        frame.num & 0xff == EXCEPTION_PAGE_FAULT ==> r == ExceptionAction::PanicPageFault,
        IRQ_START <= frame.num & 0xff ==> r == ExceptionAction::PanicInterrupt,
        (frame.num & 0xff) < IRQ_START && frame.num & 0xff != EXCEPTION_NMI && frame.num & 0xff
            != EXCEPTION_PAGE_FAULT ==> r == ExceptionAction::PanicException,
{
    let vector = frame.num & 0xff;
    if vector == EXCEPTION_NMI {
        handle_nmi()
    } else if vector == EXCEPTION_PAGE_FAULT {
        handle_page_fault(frame)
    } else if vector >= IRQ_START {
        ExceptionAction::PanicInterrupt
    } else {
        ExceptionAction::PanicException
    }
}

/// An NMI taken by the hypervisor is only reported.
pub fn handle_nmi() -> (r: ExceptionAction)
    ensures
        r == ExceptionAction::WarnNmi,
{
    ExceptionAction::WarnNmi
}

/// A page fault in the hypervisor is fatal.
pub fn handle_page_fault(frame: &TrapFrame) -> (r: ExceptionAction)
    ensures
        r == ExceptionAction::PanicPageFault,
{
    ExceptionAction::PanicPageFault
}

} // verus!
