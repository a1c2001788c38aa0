//! The observer of one run: it follows the hooks that the bootloader raises
//! and settles the run's verdict.

use crate::error::TracerError;
use crate::hook::{
    decode_hook, decode_params, hook_of, hook_params, BeforeExecutionData, HookKind, HookView,
    TestVmHook,
};
use crate::memory::{get_vm_hook_params, hook_param_bytes, MemoryImage};
use crate::text::{decimal_digits, test_hook_as_string, text_of, u256_to_decimal};
use crate::word::{be_value, Word};
use vstd::prelude::*;
use vstd::string::*;

verus! {

/// How one test ended: its name, where the bootloader gave one, and either
/// success or the reason of the failure.
#[derive(Debug, PartialEq, Eq)]
pub struct TestResult {
    pub test_name: String,
    pub result: Result<(), String>,
}

/// What a `TestResult` holds, as mathematical values.
pub struct TestResultView {
    pub test_name: Seq<char>,
    pub result: Result<(), Seq<char>>,
}

impl View for TestResult {
    type V = TestResultView;

    open spec fn view(&self) -> TestResultView {
        TestResultView {
            test_name: self.test_name@,
            result: result_text(self.result),
        }
    }
}

impl Clone for TestResult {
    fn clone(&self) -> (copy: TestResult)
        ensures
            copy@ == self@,
    {
        TestResult {
            test_name: self.test_name.clone(),
            result: match &self.result {
                Ok(_) => Ok(()),
                Err(reason) => Err(reason.clone()),
            },
        }
    }
}

/// The verdict on one run.
#[derive(Clone, Debug, PartialEq, Eq)]
pub enum TestVerdict {
    /// The test passed.
    Pass,
    /// The test failed, for this reason.
    Fail(String),
    /// The run has not ended, and nothing has failed so far.
    Pending,
}

/// What a `TestVerdict` holds, as mathematical values.
pub enum VerdictView {
    Pass,
    Fail(Seq<char>),
    Pending,
}

impl View for TestVerdict {
    type V = VerdictView;

    open spec fn view(&self) -> VerdictView {
        match *self {
            TestVerdict::Pass => VerdictView::Pass,
            TestVerdict::Fail(reason) => VerdictView::Fail(reason@),
            TestVerdict::Pending => VerdictView::Pending,
        }
    }
}

/// Why the interpreter stopped.
#[derive(Clone, Copy, Debug, PartialEq, Eq, Structural)]
pub enum VmExecutionStopReason {
    /// The VM ran until it had nothing left to execute.
    VmFinished,
    /// An observer asked for the stop.
    TracerRequestedStop,
}

/// What an observer answers when the interpreter asks whether to go on.
#[derive(Clone, Copy, Debug, PartialEq, Eq, Structural)]
pub enum TracerExecutionStatus {
    Continue,
    Stop(TracerExecutionStopReason),
}

/// Why an observer asks the interpreter to stop.
#[derive(Clone, Copy, Debug, PartialEq, Eq, Structural)]
pub enum TracerExecutionStopReason {
    Finish,
}

/// The machine as a run left it.
#[derive(Clone, Debug, PartialEq, Eq)]
pub struct TerminalState {
    /// Why the interpreter stopped.
    pub stop_reason: VmExecutionStopReason,
    /// Whether the VM has no frame left to execute.
    pub execution_has_ended: bool,
    /// The program counter of the last frame.
    pub pc: u16,
    /// The overflow, or less-than, flag.
    pub overflow_or_less_than_flag: bool,
    /// The reason of the halt, where the data that the bootloader returned
    /// were read and report unexpected behaviour of the VM. Whether they
    /// have to be read, `BootloaderTestTracer::reads_halt_reason` tells.
    pub halt_reason: Option<String>,
}

/// What a `TerminalState` holds, as mathematical values.
pub struct TerminalStateView {
    pub stop_reason: VmExecutionStopReason,
    pub execution_has_ended: bool,
    pub pc: u16,
    pub overflow_or_less_than_flag: bool,
    pub halt_reason: Option<Seq<char>>,
}

impl View for TerminalState {
    type V = TerminalStateView;

    open spec fn view(&self) -> TerminalStateView {
        TerminalStateView {
            stop_reason: self.stop_reason,
            execution_has_ended: self.execution_has_ended,
            pc: self.pc,
            overflow_or_less_than_flag: self.overflow_or_less_than_flag,
            halt_reason: option_text(self.halt_reason),
        }
    }
}

/// Where an observer stands in its run.
#[derive(Clone, Copy, Debug, PartialEq, Eq, Structural)]
pub enum TracerPhase {
    /// The run goes on and nothing is settled.
    Running,
    /// An assertion of the test has failed. Nothing leads out of here.
    Failed,
    /// The run has ended of itself. Nothing leads out of here.
    Completed,
}

/// The state of an observer.
pub struct TracerState {
    /// Where the observer stands.
    pub phase: TracerPhase,
    /// The result of the run, once it is settled.
    pub test_result: Option<TestResultView>,
    /// The assertion that the test declared it must halt on.
    pub requested_assert: Option<Seq<char>>,
    /// The name of the running test.
    pub test_name: Option<Seq<char>>,
    /// The number of tests that the bootloader reported.
    pub test_count: Option<u32>,
}

/// The program counter of a frame that was left through the outermost
/// exception handler: the largest that the encoding can hold.
pub const OUTER_EH_LOCATION: u16 = 0xffff;

/// The state in which an observer starts.
pub open spec fn initial_state() -> TracerState {
    TracerState {
        phase: TracerPhase::Running,
        test_result: None,
        requested_assert: None,
        test_name: None,
        test_count: None,
    }
}

/// Whether a state hangs together: a result is settled exactly when the
/// observer no longer runs, and a failed observer holds a failure.
pub open spec fn consistent(state: TracerState) -> bool {
    &&& state.phase is Running <==> state.test_result is None
    &&& state.phase is Failed ==> state.test_result->0.result is Err
}

/// The name under which a result is filed: that of the running test, or
/// the empty name where none was given.
pub open spec fn current_test_name(state: TracerState) -> Seq<char> {
    match state.test_name {
        Some(name) => name,
        None => Seq::empty(),
    }
}

/// The reason that is recorded when two numbers were expected to be equal.
pub open spec fn assert_failed_text(lhs: nat, rhs: nat, message: Seq<char>) -> Seq<char> {
    "Assert failed: "@ + decimal_digits(lhs) + " is not equal to "@ + decimal_digits(rhs) + ": "@
        + message
}

/// The reason that is recorded when a run halted on another assertion than
/// the requested one, or not where an assertion halts.
pub open spec fn wrong_halt_text(requested: Seq<char>, got: Seq<char>) -> Seq<char> {
    "should have failed with "@ + requested + ", but failed with "@ + got
}

/// The reason that is recorded when a run that was to halt did not.
pub open spec fn no_halt_text(requested: Seq<char>) -> Seq<char> {
    "should have failed with "@ + requested + ", but ran successfully"@
}

/// The state after a hook was taken in. A failed assertion moves a running
/// observer to `Failed` and settles the result; a result that is settled
/// stands, so the first failure is the one that is kept. The one fault is
/// a second test count.
pub open spec fn after_hook(state: TracerState, hook: HookView) -> Result<
    TracerState,
    TracerError,
> {
    match hook {
        HookView::NoHook => Ok(state),
        HookView::TestLog { message, value } => Ok(state),
        HookView::AssertEqFailed { lhs, rhs, message } => if !(state.phase is Running) {
            Ok(state)
        } else {
            Ok(
                TracerState {
                    phase: TracerPhase::Failed,
                    test_result: Some(
                        TestResultView {
                            test_name: current_test_name(state),
                            result: Err(assert_failed_text(lhs, rhs, message)),
                        },
                    ),
                    ..state
                },
            )
        },
        HookView::RequestedAssert { message } => Ok(
            TracerState { requested_assert: Some(message), ..state },
        ),
        HookView::TestCount { count } => if state.test_count is Some {
            Err(TracerError::TestCountAlreadySet)
        } else {
            Ok(TracerState { test_count: Some(count), ..state })
        },
        HookView::TestStart { name } => Ok(TracerState { test_name: Some(name), ..state }),
    }
}

/// One step of an observer: the state after an instruction whose decoding
/// gave `decoded`, and what the observer reports of it. An observer that no
/// longer runs looks at nothing; a fault leaves the state as it was.
pub open spec fn step(state: TracerState, decoded: Result<HookView, TracerError>) -> (
    TracerState,
    Result<HookView, TracerError>,
) {
    if !(state.phase is Running) {
        (state, Ok(HookView::NoHook))
    } else {
        match decoded {
            Err(error) => (state, Err(error)),
            Ok(hook) => match after_hook(state, hook) {
                Ok(next) => (next, Ok(hook)),
                Err(error) => (state, Err(error)),
            },
        }
    }
}

/// The prefix that marks the reason of a halt as a failed assertion.
pub open spec fn assertion_prefix() -> Seq<char> {
    "Assertion error: "@
}

/// The message of a halt: its reason without the assertion prefix.
pub open spec fn halt_message(reason: Seq<char>) -> Seq<char> {
    if assertion_prefix().is_prefix_of(reason) {
        reason.skip(assertion_prefix().len() as int)
    } else {
        reason
    }
}

/// Whether the run halted: the VM finished, has nothing left to execute,
/// and reported unexpected behaviour.
pub open spec fn halted(end: TerminalStateView) -> bool {
    &&& end.stop_reason == VmExecutionStopReason::VmFinished
    &&& end.execution_has_ended
    &&& end.halt_reason is Some
}

/// Whether the run ended where a failed assertion of the bootloader ends:
/// in the outermost exception handler, with the flag clear.
pub open spec fn at_outer_handler(end: TerminalStateView) -> bool {
    end.pc == OUTER_EH_LOCATION && !end.overflow_or_less_than_flag
}

/// The result of a run in which no assertion failed, from what the test
/// requested and how the run ended. Without a request the run passes. With
/// one it passes if it halted on exactly the requested assertion, in the
/// outermost exception handler; fails with both messages if it halted
/// otherwise; and fails as having run successfully if it did not halt.
pub open spec fn end_result(requested: Option<Seq<char>>, end: TerminalStateView) -> Result<
    (),
    Seq<char>,
> {
    match requested {
        None => Ok(()),
        Some(expected) => if halted(end) {
            let got = halt_message(end.halt_reason->0);
            if at_outer_handler(end) && got == expected {
                Ok(())
            } else {
                Err(wrong_halt_text(expected, got))
            }
        } else {
            Err(no_halt_text(expected))
        },
    }
}

/// The state after the run has ended: a running observer moves to
/// `Completed` and the end of the run settles its result; one that has
/// failed stays as it is.
pub open spec fn after_end(state: TracerState, end: TerminalStateView) -> TracerState {
    if !(state.phase is Running) {
        state
    } else {
        TracerState {
            phase: TracerPhase::Completed,
            test_result: Some(
                TestResultView {
                    test_name: current_test_name(state),
                    result: end_result(state.requested_assert, end),
                },
            ),
            ..state
        }
    }
}

/// The verdict that a state stands for.
pub open spec fn verdict_of(state: TracerState) -> VerdictView {
    match state.test_result {
        None => VerdictView::Pending,
        Some(result) => match result.result {
            Ok(_) => VerdictView::Pass,
            Err(reason) => VerdictView::Fail(reason),
        },
    }
}

/// The observer that is attached to the run of one test. It follows the
/// hooks that the bootloader raises, asks for the run to stop once an
/// assertion has failed, and settles the result when the run has ended.
pub struct BootloaderTestTracer {
    /// Where the observer stands, with the result of the run once it is
    /// settled. It is written once: when the observer stops running.
    progress: Progress,
    /// Set if the running test must halt on a given assertion.
    requested_assert: Option<String>,
    /// The name of the running test.
    test_name: Option<String>,
    /// The number of tests in the bootloader, written once.
    test_count: Option<u32>,
}

/// The phase of an observer together with what it has settled there.
enum Progress {
    Running,
    Failed { test_name: String, reason: String },
    Completed(TestResult),
}

impl View for BootloaderTestTracer {
    type V = TracerState;

    closed spec fn view(&self) -> TracerState {
        TracerState {
            phase: match self.progress {
                Progress::Running => TracerPhase::Running,
                Progress::Failed { test_name, reason } => TracerPhase::Failed,
                Progress::Completed(result) => TracerPhase::Completed,
            },
            test_result: match self.progress {
                Progress::Running => None,
                Progress::Failed { test_name, reason } => Some(
                    TestResultView { test_name: test_name@, result: Err(reason@) },
                ),
                Progress::Completed(result) => Some(result@),
            },
            requested_assert: option_text(self.requested_assert),
            test_name: option_text(self.test_name),
            test_count: self.test_count,
        }
    }
}

/// Joins the parts of the reason for a failed comparison.
fn assert_failed_message(lhs: &Word, rhs: &Word, message: &str) -> (text: String)
    ensures
        text@ == assert_failed_text(lhs.value(), rhs.value(), message@),
{
    let mut text = String::from_str("Assert failed: ");
    text.append(u256_to_decimal(&lhs.bytes).as_str());
    text.append(" is not equal to ");
    text.append(u256_to_decimal(&rhs.bytes).as_str());
    text.append(": ");
    text.append(message);
    text
}

/// Cuts the assertion prefix off the reason of a halt, where it has one.
pub fn strip_assertion_prefix(reason: &str) -> (message: String)
    ensures
        message@ == halt_message(reason@),
{
    let prefix = "Assertion error: ";
    let prefix_len: usize = prefix.unicode_len();
    let reason_len: usize = reason.unicode_len();
    if reason_len < prefix_len {
        return reason.to_owned();
    }
    let mut i: usize = 0;
    while i < prefix_len
        invariant
            i <= prefix_len <= reason_len,
            prefix_len == prefix@.len(),
            reason_len == reason@.len(),
            prefix@ == assertion_prefix(),
            forall|j: int| 0 <= j < i ==> reason@[j] == prefix@[j],
        decreases prefix_len - i,
    {
        if reason.get_char(i) != prefix.get_char(i) {
            proof {
                assert(reason@.subrange(0, prefix@.len() as int)[i as int] != prefix@[i as int]);
            }
            return reason.to_owned();
        }
        i = i + 1;
    }
    proof {
        assert(reason@.subrange(0, prefix@.len() as int) =~= prefix@);
    }
    reason.substring_char(prefix_len, reason_len).to_owned()
}

/// Decides how a run in which no assertion failed has ended.
///
/// With no assertion requested the run passes. With one requested it passes
/// only if it halted in the outermost exception handler, with the flag
/// clear, on exactly that assertion; if it halted otherwise the reason names
/// both messages, and if it did not halt the reason says so.
pub fn settle(requested_assert: &Option<String>, end: &TerminalState) -> (result: Result<
    (),
    String,
>)
    ensures
        result_text(result) == end_result(option_text(*requested_assert), end@),
{
    let expected = match requested_assert {
        None => { return Ok(()); },
        Some(expected) => expected,
    };
    let finished = match end.stop_reason {
        VmExecutionStopReason::VmFinished => true,
        VmExecutionStopReason::TracerRequestedStop => false,
    };
    match &end.halt_reason {
        Some(reason) if finished && end.execution_has_ended => {
            let got = strip_assertion_prefix(reason.as_str());
            if end.pc == OUTER_EH_LOCATION && !end.overflow_or_less_than_flag && got == *expected {
                Ok(())
            } else {
                let mut text = String::from_str("should have failed with ");
                text.append(expected.as_str());
                text.append(", but failed with ");
                text.append(got.as_str());
                Err(text)
            }
        },
        _ => {
            let mut text = String::from_str("should have failed with ");
            text.append(expected.as_str());
            text.append(", but ran successfully");
            Err(text)
        },
    }
}

/// What a result says, character by character.
pub open spec fn result_text(result: Result<(), String>) -> Result<(), Seq<char>> {
    match result {
        Ok(_) => Ok(()),
        Err(reason) => Err(reason@),
    }
}

/// What an optional result holds, as mathematical values.
pub open spec fn option_result(result: Option<TestResult>) -> Option<TestResultView> {
    match result {
        Some(result) => Some(result@),
        None => None,
    }
}

/// What an optional text says, character by character.
pub open spec fn option_text(text: Option<String>) -> Option<Seq<char>> {
    match text {
        Some(text) => Some(text@),
        None => None,
    }
}

impl BootloaderTestTracer {
    /// An observer for a run that is about to start.
    pub fn new() -> (tracer: BootloaderTestTracer)
        ensures
            tracer@ == initial_state(),
            consistent(tracer@),
    {
        BootloaderTestTracer {
            progress: Progress::Running,
            requested_assert: None,
            test_name: None,
            test_count: None,
        }
    }

    /// Where the observer stands.
    pub fn phase(&self) -> (phase: TracerPhase)
        ensures
            phase == self@.phase,
            consistent(self@),
    {
        match &self.progress {
            Progress::Running => TracerPhase::Running,
            Progress::Failed { test_name, reason } => TracerPhase::Failed,
            Progress::Completed(result) => TracerPhase::Completed,
        }
    }

    /// The result of the run, once it is settled.
    pub fn test_result(&self) -> (test_result: Option<TestResult>)
        ensures
            option_result(test_result) == self@.test_result,
            consistent(self@),
    {
        match &self.progress {
            Progress::Running => None,
            Progress::Failed { test_name, reason } => Some(
                TestResult { test_name: test_name.clone(), result: Err(reason.clone()) },
            ),
            Progress::Completed(result) => Some(result.clone()),
        }
    }

    /// The assertion that the running test declared it must halt on.
    pub fn requested_assert(&self) -> (requested_assert: &Option<String>)
        ensures
            option_text(*requested_assert) == self@.requested_assert,
    {
        &self.requested_assert
    }

    /// The name of the running test.
    pub fn test_name(&self) -> (test_name: &Option<String>)
        ensures
            option_text(*test_name) == self@.test_name,
    {
        &self.test_name
    }

    /// The number of tests that the bootloader reported.
    pub fn test_count(&self) -> (test_count: Option<u32>)
        ensures
            test_count == self@.test_count,
    {
        self.test_count
    }

    /// Leaves the running phase and settles the result of the run, unless
    /// the observer has left it already: for `Failed` with a failure where
    /// `failed` is set, else for `Completed`.
    fn settle_once(&mut self, failed: bool, result: Result<(), String>)
        requires
            failed ==> result is Err,
        ensures
            final(self)@ == if !(old(self)@.phase is Running) {
                old(self)@
            } else {
                TracerState {
                    phase: if failed {
                        TracerPhase::Failed
                    } else {
                        TracerPhase::Completed
                    },
                    test_result: Some(
                        TestResultView {
                            test_name: current_test_name(old(self)@),
                            result: result_text(result),
                        },
                    ),
                    ..old(self)@
                }
            },
    {
        if self.is_running() {
            let test_name = match &self.test_name {
                Some(name) => name.clone(),
                None => String::new(),
            };
            self.progress = match result {
                Err(reason) if failed => Progress::Failed { test_name, reason },
                result => Progress::Completed(TestResult { test_name, result }),
            };
        }
    }

    /// Whether the run goes on with nothing settled.
    fn is_running(&self) -> (running: bool)
        ensures
            running == (self@.phase is Running),
    {
        match &self.progress {
            Progress::Running => true,
            _ => false,
        }
    }

    /// Takes a decoded hook in.
    fn apply(&mut self, hook: &TestVmHook) -> (outcome: Result<(), TracerError>)
        ensures
            match after_hook(old(self)@, hook@) {
                Ok(next) => outcome is Ok && final(self)@ == next,
                Err(error) => outcome == Err::<(), TracerError>(error) && final(self)@ == old(self)@,
            },
    {
        match hook {
            TestVmHook::NoHook => {},
            TestVmHook::TestLog { message, value } => {},
            TestVmHook::AssertEqFailed { lhs, rhs, message } => {
                self.settle_once(true, Err(assert_failed_message(lhs, rhs, message.as_str())));
            },
            TestVmHook::RequestedAssert { message } => {
                self.requested_assert = Some(message.clone());
            },
            TestVmHook::TestCount { count } => {
                if self.test_count.is_some() {
                    return Err(TracerError::TestCountAlreadySet);
                }
                self.test_count = Some(*count);
            },
            TestVmHook::TestStart { name } => {
                self.test_name = Some(name.clone());
            },
        }
        Ok(())
    }

    /// Decodes the parameters of a hook of kind `kind` and takes it in.
    fn handle(&mut self, kind: HookKind, memory: &MemoryImage) -> (outcome: Result<
        TestVmHook,
        TracerError,
    >)
        ensures
            match decode_params(kind, hook_params(memory)) {
                Ok(hook) => match after_hook(old(self)@, hook) {
                    Ok(next) => hook_of(outcome) == Ok::<HookView, TracerError>(hook) && final(self)@ == next,
                    Err(error) => outcome == Err::<TestVmHook, TracerError>(error) && final(self)@
                        == old(self)@,
                },
                Err(error) => outcome == Err::<TestVmHook, TracerError>(error) && final(self)@
                    == old(self)@,
            },
    {
        let params = get_vm_hook_params(memory);
        proof {
            assert(Seq::new(4, |i: int| params@[i]@) =~= hook_params(memory));
        }
        let hook = match TestVmHook::from_params(kind, &params) {
            Ok(hook) => hook,
            Err(error) => { return Err(error); },
        };
        match self.apply(&hook) {
            Ok(_) => Ok(hook),
            Err(error) => Err(error),
        }
    }

    /// Records that two numbers that the test expected to be equal are not.
    ///
    /// The numbers are words 0 and 1 of the parameter window and the message
    /// is word 3. The reason that is returned names all three. It becomes
    /// the result of the run, and the observer moves to `Failed`, unless
    /// the observer has stopped running already. The one fault is a message
    /// that is not UTF-8; it changes nothing.
    pub fn handle_assert(&mut self, memory: &MemoryImage) -> (outcome: Result<String, TracerError>)
        ensures
            match decode_params(HookKind::AssertEqFailed, hook_params(memory)) {
                Ok(hook) => text_of(outcome) == Ok::<Seq<char>, TracerError>(
                    assert_failed_text(
                        hook->AssertEqFailed_lhs,
                        hook->AssertEqFailed_rhs,
                        hook->AssertEqFailed_message,
                    ),
                ) && Ok::<TracerState, TracerError>(final(self)@) == after_hook(old(self)@, hook),
                Err(error) => outcome == Err::<String, TracerError>(error) && final(self)@ == old(self)@,
            },
    {
        let vm_hook_params = get_vm_hook_params(memory);
        let message = match test_hook_as_string(&vm_hook_params[3]) {
            Ok(message) => message,
            Err(error) => { return Err(error); },
        };
        let reason = assert_failed_message(
            &vm_hook_params[0],
            &vm_hook_params[1],
            message.as_str(),
        );
        self.settle_once(true, Err(reason.clone()));
        Ok(reason)
    }

    /// Records the assertion that the running test declares it must halt
    /// on: the message of word 0 of the parameter window, without its zero
    /// padding. A later request replaces an earlier one. The one fault is a
    /// message that is not UTF-8; it changes nothing.
    pub fn set_requested_assert(&mut self, memory: &MemoryImage) -> (outcome: Result<
        (),
        TracerError,
    >)
        ensures
            match decode_params(HookKind::RequestedAssert, hook_params(memory)) {
                Ok(hook) => outcome is Ok && Ok::<TracerState, TracerError>(final(self)@)
                    == after_hook(old(self)@, hook),
                Err(error) => outcome == Err::<(), TracerError>(error) && final(self)@ == old(self)@,
            },
    {
        match self.handle(HookKind::RequestedAssert, memory) {
            Ok(_) => Ok(()),
            Err(error) => Err(error),
        }
    }

    /// Records the number of tests that the bootloader reports: the low 32
    /// bits of word 0 of the parameter window. The number is written once:
    /// a second report is a fault and changes nothing.
    pub fn parse_test_count(&mut self, memory: &MemoryImage) -> (outcome: Result<(), TracerError>)
        ensures
            old(self)@.test_count is None ==> outcome is Ok && final(self)@ == (TracerState {
                test_count: Some((be_value(hook_param_bytes(memory, 0)) % 0x1_0000_0000) as u32),
                ..old(self)@
            }),
            old(self)@.test_count is Some ==> outcome == Err::<(), TracerError>(
                TracerError::TestCountAlreadySet,
            ) && final(self)@ == old(self)@,
    {
        match self.handle(HookKind::TestCount, memory) {
            Ok(_) => Ok(()),
            Err(error) => Err(error),
        }
    }

    /// Looks at an instruction that is about to execute.
    ///
    /// While the observer runs, the hook that the instruction raises is
    /// decoded, taken in and returned, so that the caller can log it. Once
    /// it has failed or completed the instruction is not looked at. A fault,
    /// in the hook's message or by a second test count, changes nothing.
    pub fn before_execution(&mut self, data: &BeforeExecutionData, memory: &MemoryImage) -> (outcome:
        Result<TestVmHook, TracerError>)
        ensures
            (final(self)@, hook_of(outcome)) == step(old(self)@, decode_hook(*data, memory)),
    {
        if !self.is_running() {
            return Ok(TestVmHook::NoHook);
        }
        match HookKind::from_opcode(data) {
            HookKind::NoHook => Ok(TestVmHook::NoHook),
            kind => self.handle(kind, memory),
        }
    }

    /// Whether the run should stop: it should once an assertion has failed.
    pub fn should_stop_execution(&self) -> (stop: bool)
        ensures
            stop == has_failed(self@),
    {
        match &self.progress {
            Progress::Failed { test_name, reason } => true,
            _ => false,
        }
    }

    /// What to tell the interpreter after a cycle: to stop once an assertion
    /// has failed, else to go on.
    pub fn finish_cycle(&self) -> (status: TracerExecutionStatus)
        ensures
            status == if has_failed(self@) {
                TracerExecutionStatus::Stop(TracerExecutionStopReason::Finish)
            } else {
                TracerExecutionStatus::Continue
            },
    {
        if self.should_stop_execution() {
            TracerExecutionStatus::Stop(TracerExecutionStopReason::Finish)
        } else {
            TracerExecutionStatus::Continue
        }
    }

    /// Whether the reason of a halt has to be read before the run is
    /// settled: only where the observer runs, an assertion was requested,
    /// and the machine stopped where a failed assertion of the bootloader
    /// leaves it. Elsewhere the returned data need not hold a reason, and
    /// are best left alone.
    pub fn reads_halt_reason(
        &self,
        stop_reason: VmExecutionStopReason,
        execution_has_ended: bool,
        pc: u16,
        overflow_or_less_than_flag: bool,
    ) -> (reads: bool)
        ensures
            reads == (self@.phase is Running && self@.requested_assert is Some && stop_reason
                == VmExecutionStopReason::VmFinished && execution_has_ended && pc
                == OUTER_EH_LOCATION && !overflow_or_less_than_flag),
    {
        let finished = match stop_reason {
            VmExecutionStopReason::VmFinished => true,
            VmExecutionStopReason::TracerRequestedStop => false,
        };
        self.is_running() && self.requested_assert.is_some() && finished
            && execution_has_ended && pc == OUTER_EH_LOCATION && !overflow_or_less_than_flag
    }

    /// Settles the result of the run from the state that it ended in, and
    /// returns the verdict. A running observer moves to `Completed`; the
    /// result of one that has failed stands.
    pub fn after_vm_execution(&mut self, end: &TerminalState) -> (verdict: TestVerdict)
        ensures
            final(self)@ == after_end(old(self)@, end@),
            verdict@ == verdict_of(final(self)@),
            !(verdict@ is Pending),
    {
        if self.is_running() {
            let result = settle(&self.requested_assert, end);
            self.settle_once(false, result);
        }
        self.verdict()
    }

    /// The verdict as it stands.
    pub fn verdict(&self) -> (verdict: TestVerdict)
        ensures
            verdict@ == verdict_of(self@),
    {
        match &self.progress {
            Progress::Running => TestVerdict::Pending,
            Progress::Failed { test_name, reason } => TestVerdict::Fail(reason.clone()),
            Progress::Completed(TestResult { test_name: _, result: Ok(_) }) => TestVerdict::Pass,
            Progress::Completed(TestResult { test_name: _, result: Err(reason) }) => {
                TestVerdict::Fail(reason.clone())
            },
        }
    }
}

/// Whether an assertion has failed in the run.
pub open spec fn has_failed(state: TracerState) -> bool {
    state.phase is Failed
}

/// The state that a run reaches from `state`: one step for each instruction,
/// in order. `decoded` holds what the decoding of each instruction gives.
pub open spec fn run(state: TracerState, decoded: Seq<Result<HookView, TracerError>>) -> TracerState
    decreases decoded.len(),
{
    if decoded.len() == 0 {
        state
    } else {
        step(run(state, decoded.drop_last()), decoded.last()).0
    }
}

/// Whether an instruction reports a failed assertion.
pub open spec fn is_failure(decoded: Result<HookView, TracerError>) -> bool {
    decoded is Ok && decoded->Ok_0 is AssertEqFailed
}

/// Whether an instruction requests an assertion.
pub open spec fn is_request(decoded: Result<HookView, TracerError>) -> bool {
    decoded is Ok && decoded->Ok_0 is RequestedAssert
}

/// The verdict that a failed comparison leads to.
pub open spec fn failure_verdict(hook: HookView) -> VerdictView
    recommends
        hook is AssertEqFailed,
{
    VerdictView::Fail(
        assert_failed_text(
            hook->AssertEqFailed_lhs,
            hook->AssertEqFailed_rhs,
            hook->AssertEqFailed_message,
        ),
    )
}

/// Whether `text` holds `part` as a run of consecutive characters.
pub open spec fn contains_text(text: Seq<char>, part: Seq<char>) -> bool {
    exists|at: int| 0 <= at <= text.len() - part.len() && #[trigger] text.subrange(
        at,
        at + part.len(),
    ) == part
}

/// Every state that an observer reaches hangs together, and it leaves the
/// running phase only for good: by a failed assertion for `Failed`, by the
/// end of the run for `Completed`.
pub proof fn lemma_phases(
    state: TracerState,
    decoded: Result<HookView, TracerError>,
    end: TerminalStateView,
)
    requires
        consistent(state),
    ensures
        consistent(initial_state()),
        consistent(step(state, decoded).0),
        consistent(after_end(state, end)),
        step(state, decoded).0.phase != state.phase ==> state.phase is Running && step(
            state,
            decoded,
        ).0.phase is Failed && is_failure(decoded),
        after_end(state, end).phase == if state.phase is Running {
            TracerPhase::Completed
        } else {
            state.phase
        },
        !(verdict_of(after_end(state, end)) is Pending),
{
}

/// `Failed` and `Completed` are terminal: no instruction and no end of the
/// run changes a state that is in one of them.
pub proof fn lemma_failed_and_completed_are_terminal(
    state: TracerState,
    decoded: Seq<Result<HookView, TracerError>>,
    end: TerminalStateView,
)
    requires
        !(state.phase is Running),
    ensures
        run(state, decoded) == state,
        after_end(run(state, decoded), end) == state,
    decreases decoded.len(),
{
    if decoded.len() > 0 {
        lemma_failed_and_completed_are_terminal(state, decoded.drop_last(), end);
    }
}

/// A run in which no assertion fails keeps running, and the request that
/// is in force is the last one that was made, if any was.
pub proof fn lemma_last_request_is_in_force(decoded: Seq<Result<HookView, TracerError>>)
    requires
        forall|i: int| 0 <= i < decoded.len() ==> !is_failure(#[trigger] decoded[i]),
    ensures
        run(initial_state(), decoded).phase is Running,
        forall|last: int|
            0 <= last < decoded.len() && is_request(#[trigger] decoded[last]) && (forall|i: int|
                last < i < decoded.len() ==> !is_request(#[trigger] decoded[i])) ==> run(
                initial_state(),
                decoded,
            ).requested_assert == Some(decoded[last]->Ok_0->RequestedAssert_message),
        (forall|i: int| 0 <= i < decoded.len() ==> !is_request(#[trigger] decoded[i])) ==> run(
            initial_state(),
            decoded,
        ).requested_assert is None,
    decreases decoded.len(),
{
    if decoded.len() > 0 {
        let front = decoded.drop_last();
        assert forall|i: int| 0 <= i < front.len() implies !is_failure(#[trigger] front[i]) by {
            assert(front[i] == decoded[i]);
        }
        lemma_last_request_is_in_force(front);
        assert(decoded.last() == decoded[decoded.len() - 1]);
        let reached = run(initial_state(), decoded);
        assert forall|last: int|
            0 <= last < decoded.len() && is_request(#[trigger] decoded[last]) && (forall|i: int|
                last < i < decoded.len() ==> !is_request(#[trigger] decoded[i]))
            implies reached.requested_assert == Some(
            decoded[last]->Ok_0->RequestedAssert_message,
        ) by {
            if last < decoded.len() - 1 {
                assert(front[last] == decoded[last]);
                assert forall|i: int| last < i < front.len() implies !is_request(
                    #[trigger] front[i],
                ) by {
                    assert(front[i] == decoded[i]);
                }
            }
        }
        if forall|i: int| 0 <= i < decoded.len() ==> !is_request(#[trigger] decoded[i]) {
            assert forall|i: int| 0 <= i < front.len() implies !is_request(#[trigger] front[i]) by {
                assert(front[i] == decoded[i]);
            }
        }
    }
}

/// A run that requests no assertion and in which none fails passes,
/// however it ends.
pub proof fn lemma_quiet_run_passes(
    decoded: Seq<Result<HookView, TracerError>>,
    end: TerminalStateView,
)
    requires
        forall|i: int|
            0 <= i < decoded.len() ==> !is_failure(#[trigger] decoded[i]) && !is_request(
                decoded[i],
            ),
    ensures
        verdict_of(after_end(run(initial_state(), decoded), end)) == VerdictView::Pass,
{
    lemma_last_request_is_in_force(decoded);
}

/// The first assertion that fails in a run settles it: the verdict is a
/// failure with that assertion's reason, whatever was requested, whatever
/// follows and however the run ends.
pub proof fn lemma_first_failure_is_the_verdict(
    decoded: Seq<Result<HookView, TracerError>>,
    first: int,
    end: TerminalStateView,
)
    requires
        0 <= first < decoded.len(),
        is_failure(decoded[first]),
        forall|i: int| 0 <= i < first ==> !is_failure(#[trigger] decoded[i]),
    ensures
        run(initial_state(), decoded).phase is Failed,
        verdict_of(run(initial_state(), decoded)) == failure_verdict(decoded[first]->Ok_0),
        verdict_of(after_end(run(initial_state(), decoded), end)) == failure_verdict(
            decoded[first]->Ok_0,
        ),
    decreases decoded.len(),
{
    let front = decoded.drop_last();
    if first == decoded.len() - 1 {
        lemma_last_request_is_in_force(front);
        assert(decoded.last() == decoded[first]);
    } else {
        assert(front[first] == decoded[first]);
        assert forall|i: int| 0 <= i < first implies !is_failure(#[trigger] front[i]) by {
            assert(front[i] == decoded[i]);
        }
        lemma_first_failure_is_the_verdict(front, first, end);
    }
}

/// How a running observer that holds a request settles the run. It passes
/// if the run halted on exactly the requested assertion in the outermost
/// exception handler. If the run halted otherwise it fails, and the reason
/// holds both the requested message and the message of the halt. If the
/// run did not halt it fails, and the reason says that it ran successfully.
pub proof fn lemma_requested_assert_verdict(
    state: TracerState,
    requested: Seq<char>,
    end: TerminalStateView,
)
    requires
        state.phase is Running,
        state.requested_assert == Some(requested),
    ensures
        halted(end) && at_outer_handler(end) && halt_message(end.halt_reason->0) == requested
            ==> verdict_of(after_end(state, end)) == VerdictView::Pass,
        halted(end) && !(at_outer_handler(end) && halt_message(end.halt_reason->0) == requested)
            ==> {
            let reason = wrong_halt_text(requested, halt_message(end.halt_reason->0));
            &&& verdict_of(after_end(state, end)) == VerdictView::Fail(reason)
            &&& contains_text(reason, requested)
            &&& contains_text(reason, halt_message(end.halt_reason->0))
        },
        !halted(end) ==> {
            let reason = no_halt_text(requested);
            &&& verdict_of(after_end(state, end)) == VerdictView::Fail(reason)
            &&& contains_text(reason, requested)
            &&& contains_text(reason, "ran successfully"@)
        },
{
    let got = halt_message(end.halt_reason->0);
    let opening = "should have failed with "@;
    let wrong = wrong_halt_text(requested, got);
    let after_opening = opening.len() as int;
    assert(wrong.subrange(after_opening, after_opening + requested.len()) =~= requested);
    let before_got = wrong.len() - got.len();
    assert(wrong.subrange(before_got, before_got + got.len()) =~= got);
    let none = no_halt_text(requested);
    assert(none.subrange(after_opening, after_opening + requested.len()) =~= requested);
    reveal_strlit(", but ran successfully");
    reveal_strlit("ran successfully");
    let closing = "ran successfully"@;
    let before_closing = none.len() - closing.len();
    assert(none.subrange(before_closing, before_closing + closing.len()) =~= closing);
}

} // verus!
