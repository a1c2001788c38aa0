//! The observer of the discovery run: it only learns how many tests the
//! bootloader holds.

use crate::error::TracerError;
use crate::hook::{hook_kind, BeforeExecutionData, HookKind};
use crate::memory::{get_vm_hook_params, hook_param_bytes, MemoryImage};
use crate::word::be_value;
use vstd::prelude::*;

verus! {

/// The number that a test count hook reports over `memory`: the low 32 bits
/// of word 0 of the parameter window.
pub open spec fn reported_test_count(memory: &MemoryImage) -> u32 {
    (be_value(hook_param_bytes(memory, 0)) % 0x1_0000_0000) as u32
}

/// Tracer that returns the number of tests in the bootloader.
pub struct TestCountTracer {
    /// The number of tests, written once.
    test_count: Option<u32>,
}

impl View for TestCountTracer {
    type V = Option<u32>;

    closed spec fn view(&self) -> Option<u32> {
        self.test_count
    }
}

impl TestCountTracer {
    /// A tracer that has seen no test count yet.
    pub fn new() -> (tracer: TestCountTracer)
        ensures
            tracer@ is None,
    {
        TestCountTracer { test_count: None }
    }

    /// The number of tests, once the bootloader has reported it.
    pub fn test_count(&self) -> (test_count: Option<u32>)
        ensures
            test_count == self@,
    {
        self.test_count
    }

    /// Records the number of tests that the bootloader reports. The number
    /// is written once: a second report is a fault and changes nothing.
    pub fn parse_test_count(&mut self, memory: &MemoryImage) -> (outcome: Result<(), TracerError>)
        ensures
            old(self)@ is None ==> outcome is Ok && final(self)@ == Some(
                reported_test_count(memory),
            ),
            old(self)@ is Some ==> outcome == Err::<(), TracerError>(
                TracerError::TestCountAlreadySet,
            ) && final(self)@ == old(self)@,
    {
        if self.test_count.is_some() {
            return Err(TracerError::TestCountAlreadySet);
        }
        let vm_hook_params = get_vm_hook_params(memory);
        self.test_count = Some(vm_hook_params[0].low_u32());
        Ok(())
    }

    /// Looks at an instruction that is about to execute: a test count hook
    /// is recorded, anything else is passed over.
    pub fn before_execution(&mut self, data: &BeforeExecutionData, memory: &MemoryImage) -> (outcome:
        Result<(), TracerError>)
        ensures
            hook_kind(*data) != HookKind::TestCount ==> outcome is Ok && final(self)@ == old(self)@,
            hook_kind(*data) == HookKind::TestCount && old(self)@ is None ==> outcome is Ok
                && final(self)@ == Some(reported_test_count(memory)),
            hook_kind(*data) == HookKind::TestCount && old(self)@ is Some ==> outcome == Err::<
                (),
                TracerError,
            >(TracerError::TestCountAlreadySet) && final(self)@ == old(self)@,
    {
        match HookKind::from_opcode(data) {
            HookKind::TestCount => self.parse_test_count(memory),
            _ => Ok(()),
        }
    }
}

} // verus!
