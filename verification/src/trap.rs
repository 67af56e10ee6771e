//! Trap classification: which kind of device interrupt a trap was, which
//! driver an external message belongs to, and when a trap gives up the CPU.

use vstd::prelude::*;
use crate::memlayout::{UART0_IRQ, VIRTIO0_IRQ};
use crate::vma::FaultKind;

verus! {

/// The kinds of interrupt the kernel handles.
#[derive(Clone, Copy, Debug, PartialEq, Eq, Structural)]
pub enum Intr {
    Timer,
    Device,
}

/// The interrupt causes a trap can report.
#[derive(Clone, Copy, Debug, PartialEq, Eq, Structural)]
pub enum Interrupt {
    SupervisorSoft,
    SupervisorTimer,
    SupervisorExternal,
    Other,
}

/// The driver an external message is handed to.
#[derive(Clone, Copy, Debug, PartialEq, Eq, Structural)]
pub enum IrqTarget {
    Uart,
    Disk,
    Unexpected,
}

/// The kind of a device interrupt: external messages are device
/// interrupts, the forwarded software interrupt is the timer tick, and
/// anything else is not a device interrupt.
pub fn devintr_kind(intr: Interrupt) -> (r: Option<Intr>)
    ensures
        r == (match intr {
            Interrupt::SupervisorExternal => Some(Intr::Device),
            Interrupt::SupervisorSoft => Some(Intr::Timer),
            _ => None::<Intr>,
        }),
{
    match intr {
        Interrupt::SupervisorExternal => Some(Intr::Device),
        Interrupt::SupervisorSoft => Some(Intr::Timer),
        _ => None,
    }
}

/// The driver of external message `msg`.
pub fn irq_target(msg: u32) -> (t: IrqTarget)
    ensures
        t == (if msg == UART0_IRQ {
            IrqTarget::Uart
        } else if msg == VIRTIO0_IRQ {
            IrqTarget::Disk
        } else {
            IrqTarget::Unexpected
        }),
{
    if msg == UART0_IRQ {
        IrqTarget::Uart
    } else if msg == VIRTIO0_IRQ {
        IrqTarget::Disk
    } else {
        IrqTarget::Unexpected
    }
}

/// Whether a trap from user space gives up the CPU: on a timer tick, or
/// on a device interrupt that left kernel tasks ready on this CPU.
pub fn user_should_yield(which: Option<Intr>, tasks_ready: bool) -> (y: bool)
    ensures
        y == (which == Some(Intr::Timer) || (which == Some(Intr::Device) && tasks_ready)),
{
    match which {
        Some(Intr::Timer) => true,
        Some(Intr::Device) => tasks_ready,
        None => false,
    }
}

/// Whether a trap in the kernel gives up the CPU: on a timer tick that
/// interrupted a running process.
pub fn kernel_should_yield(which: Option<Intr>, proc_running: bool) -> (y: bool)
    ensures
        y == (which == Some(Intr::Timer) && proc_running),
{
    match which {
        Some(Intr::Timer) => proc_running,
        _ => false,
    }
}

/// The causes a trap from user space can report.
#[derive(Clone, Copy, Debug, PartialEq, Eq, Structural)]
pub enum TrapCause {
    UserEnvCall,
    StorePageFault,
    LoadPageFault,
    InstructionPageFault,
    OtherException,
    Interrupt(Interrupt),
}

/// What a trap from user space does.
#[derive(Clone, Copy, Debug, PartialEq, Eq, Structural)]
pub enum UserTrap {
    /// A system call from a process already killed: it exits with -1.
    Exit,
    /// Run the system call, then resume at `epc`, past the `ecall`.
    Syscall { epc: usize },
    /// Resolve the copy-on-write fault at `va`, inside the heap; if that
    /// fails the process is killed.
    Cow { va: usize },
    /// Resolve the page fault of kind `kind` at `va` from the process's
    /// mappings; if that fails the process is killed.
    PageFault { va: usize, kind: FaultKind },
    /// A device interrupt of this kind, handled.
    Device(Intr),
    /// An unexpected cause: the process is killed.
    Kill,
}

/// Decides what a trap from user space with cause `cause` does, for a
/// process that is `killed` or not, that trapped at `epc` with trap value
/// `stval` (the faulting address) and has a heap of `sz` bytes. Stores
/// below the heap's end are copy-on-write faults; the other page faults
/// go to the mappings.
pub fn usertrap(cause: TrapCause, killed: bool, epc: usize, stval: usize, sz: usize) -> (r: UserTrap)
    requires
        cause == TrapCause::UserEnvCall ==> epc + 4 <= usize::MAX,
    ensures
        r == (match cause {
            TrapCause::UserEnvCall => if killed {
                UserTrap::Exit
            } else {
                UserTrap::Syscall { epc: (epc + 4) as usize }
            },
            TrapCause::StorePageFault => if stval < sz {
                UserTrap::Cow { va: stval }
            } else {
                UserTrap::PageFault { va: stval, kind: FaultKind::Store }
            },
            TrapCause::LoadPageFault => UserTrap::PageFault { va: stval, kind: FaultKind::Load },
            TrapCause::InstructionPageFault => UserTrap::PageFault { va: stval, kind: FaultKind::Instruction },
            TrapCause::OtherException => UserTrap::Kill,
            TrapCause::Interrupt(i) => match i {
                Interrupt::SupervisorExternal => UserTrap::Device(Intr::Device),
                Interrupt::SupervisorSoft => UserTrap::Device(Intr::Timer),
                _ => UserTrap::Kill,
            },
        }),
{
    match cause {
        TrapCause::UserEnvCall => {
            if killed {
                UserTrap::Exit
            } else {
                UserTrap::Syscall { epc: epc + 4 }
            }
        },
        TrapCause::StorePageFault => {
            if stval < sz {
                UserTrap::Cow { va: stval }
            } else {
                UserTrap::PageFault { va: stval, kind: FaultKind::Store }
            }
        },
        TrapCause::LoadPageFault => UserTrap::PageFault { va: stval, kind: FaultKind::Load },
        TrapCause::InstructionPageFault => UserTrap::PageFault { va: stval, kind: FaultKind::Instruction },
        TrapCause::OtherException => UserTrap::Kill,
        TrapCause::Interrupt(i) => match devintr_kind(i) {
            Some(k) => UserTrap::Device(k),
            None => UserTrap::Kill,
        },
    }
}

/// What a trap taken in the kernel does: a device interrupt is handled,
/// anything else is a kernel fault (`None`, on which the kernel panics).
pub fn kerneltrap(cause: TrapCause) -> (r: Option<Intr>)
    ensures
        r == (match cause {
            TrapCause::Interrupt(i) => match i {
                Interrupt::SupervisorExternal => Some(Intr::Device),
                Interrupt::SupervisorSoft => Some(Intr::Timer),
                _ => None::<Intr>,
            },
            _ => None::<Intr>,
        }),
{
    match cause {
        TrapCause::Interrupt(i) => devintr_kind(i),
        _ => None,
    }
}

} // verus!
