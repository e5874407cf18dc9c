//! x86_64 support: the CPU operations and the register frame as a context.
use vstd::prelude::*;

use crate::arch::{Context, CpuOps};
use crate::process::StackFrame;

verus! {

/// x86_64 CPU operations. No interrupt controller is provided for this
/// architecture yet: nothing here implements `InterruptController`.
pub struct X86_64;

impl CpuOps for X86_64 {
    /// Always 0: the kernel runs on a single core and does not read the local
    /// APIC yet.
    open spec fn spec_cpu_id() -> u32 {
        0
    }

    fn cpu_id() -> (r: u32) {
        0
    }
}

impl Context for StackFrame {
    open spec fn spec_instruction_pointer(&self) -> u64 {
        self.rip
    }

    open spec fn spec_stack_pointer(&self) -> u64 {
        self.rsp
    }

    fn new(entry_point: u64, stack_pointer: u64) -> (r: Self) {
        let mut frame = StackFrame::new();
        frame.rip = entry_point;
        frame.rsp = stack_pointer;
        frame
    }

    fn set_instruction_pointer(&mut self, addr: u64) {
        self.rip = addr;
    }

    fn set_stack_pointer(&mut self, addr: u64) {
        self.rsp = addr;
    }

    fn instruction_pointer(&self) -> (r: u64) {
        self.rip
    }

    fn stack_pointer(&self) -> (r: u64) {
        self.rsp
    }
}

} // verus!
