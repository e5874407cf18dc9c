//! Capability contracts that each supported CPU architecture provides, so
//! that the process code above them stays architecture-independent.
use vstd::prelude::*;

pub mod x86_64;

verus! {

/// The CPU state saved and restored when switching processes.
///
/// Loaded onto a CPU, a context made by `new(entry, stack)` resumes execution
/// at `entry` with `stack` as its stack pointer. Each pointer reads back the
/// last value written to it, and writing one leaves the other alone.
pub trait Context: Sized + Default + Clone {
    /// The instruction pointer execution resumes at.
    spec fn spec_instruction_pointer(&self) -> u64;

    /// The stack pointer execution resumes with.
    spec fn spec_stack_pointer(&self) -> u64;

    /// A context that starts at `entry_point` on the stack `stack_pointer`.
    fn new(entry_point: u64, stack_pointer: u64) -> (r: Self)
        ensures
            r.spec_instruction_pointer() == entry_point,
            r.spec_stack_pointer() == stack_pointer,
    ;

    /// Moves the instruction pointer to `addr`.
    fn set_instruction_pointer(&mut self, addr: u64)
        ensures
            final(self).spec_instruction_pointer() == addr,
            final(self).spec_stack_pointer() == old(self).spec_stack_pointer(),
    ;

    /// Moves the stack pointer to `addr`.
    fn set_stack_pointer(&mut self, addr: u64)
        ensures
            final(self).spec_stack_pointer() == addr,
            final(self).spec_instruction_pointer() == old(self).spec_instruction_pointer(),
    ;

    /// The instruction pointer.
    fn instruction_pointer(&self) -> (r: u64)
        ensures
            r == self.spec_instruction_pointer(),
    ;

    /// The stack pointer.
    fn stack_pointer(&self) -> (r: u64)
        ensures
            r == self.spec_stack_pointer(),
    ;
}

/// A per-line interrupt controller.
///
/// Enabling a line lets later `is_pending` calls observe the hardware's events
/// on it; disabling suppresses delivery but keeps the pending status; clearing
/// resets the pending status and may be repeated.
pub trait InterruptController {
    /// Whether delivery on line `irq` is enabled.
    spec fn spec_enabled(&self, irq: u32) -> bool;

    /// Whether an interrupt is pending on line `irq`.
    spec fn spec_pending(&self, irq: u32) -> bool;

    /// Enables delivery on line `irq`.
    fn enable(&mut self, irq: u32)
        ensures
            final(self).spec_enabled(irq),
            final(self).spec_pending(irq) == old(self).spec_pending(irq),
    ;

    /// Disables delivery on line `irq`, keeping its pending status.
    fn disable(&mut self, irq: u32)
        ensures
            !final(self).spec_enabled(irq),
            final(self).spec_pending(irq) == old(self).spec_pending(irq),
    ;

    /// Whether an interrupt is pending on line `irq`.
    fn is_pending(&self, irq: u32) -> (r: bool)
        ensures
            r == self.spec_pending(irq),
    ;

    /// Clears the pending status of line `irq`.
    fn clear(&mut self, irq: u32)
        ensures
            !final(self).spec_pending(irq),
            final(self).spec_enabled(irq) == old(self).spec_enabled(irq),
    ;
}

/// CPU-wide operations.
///
/// The global interrupt mask is toggled by privileged instructions, which
/// cannot be written in this verified crate; each architecture's boot code
/// supplies them next to its entry point.
pub trait CpuOps {
    /// The logical identifier of the calling core; one fixed value on a
    /// single-core build.
    spec fn spec_cpu_id() -> u32;

    /// The logical identifier of the calling core.
    fn cpu_id() -> (r: u32)
        ensures
            r == Self::spec_cpu_id(),
    ;
}

} // verus!
