//! Sequencing a batch: one discovery run, then one run for each test.

use crate::error::OrchestratorError;
use crate::tracer::{TestResult, TestResultView};
use crate::word::{be_value, lemma_be_value_split, lemma_be_value_tail4, lemma_be_value_zero};
use vstd::prelude::*;

verus! {

/// The result of one test of the batch.
#[derive(Debug, PartialEq, Eq)]
pub struct TestReport {
    /// The number of the test, counted from 1.
    pub test_id: u32,
    /// How its run ended.
    pub result: TestResult,
}

/// What a `TestReport` holds, as mathematical values.
pub struct TestReportView {
    pub test_id: u32,
    pub result: TestResultView,
}

impl View for TestReport {
    type V = TestReportView;

    open spec fn view(&self) -> TestReportView {
        TestReportView { test_id: self.test_id, result: self.result@ }
    }
}

/// The run that a batch is due to make next.
#[derive(Clone, Copy, Debug, PartialEq, Eq)]
pub enum NextRun {
    /// The run that learns the number of tests.
    Discovery,
    /// The run of one test. `fee_account` carries the test's number to the
    /// bootloader.
    Test { test_id: u32, fee_account: [u8; 20] },
    /// No run: every test has run.
    Finished,
}

/// What a `NextRun` holds, as mathematical values.
pub enum NextRunView {
    Discovery,
    Test { test_id: u32, fee_account: Seq<u8> },
    Finished,
}

impl View for NextRun {
    type V = NextRunView;

    open spec fn view(&self) -> NextRunView {
        match *self {
            NextRun::Discovery => NextRunView::Discovery,
            NextRun::Test { test_id, fee_account } => NextRunView::Test {
                test_id,
                fee_account: fee_account@,
            },
            NextRun::Finished => NextRunView::Finished,
        }
    }
}

/// The state of a batch.
pub struct BatchState {
    /// How many tests there are, once that is known.
    pub total_test_count: Option<u32>,
    /// The results so far, in the order in which the tests ran.
    pub report: Seq<TestReportView>,
}

/// The 20 bytes that carry a test's number to the bootloader: the number in
/// big-endian order, in the place of an address.
pub open spec fn fee_account_bytes(test_id: u32) -> Seq<u8> {
    Seq::new(
        20,
        |i: int|
            if i == 16 {
                (test_id / 0x100_0000) as u8
            } else if i == 17 {
                (test_id / 0x1_0000 % 0x100) as u8
            } else if i == 18 {
                (test_id / 0x100 % 0x100) as u8
            } else if i == 19 {
                (test_id % 0x100) as u8
            } else {
                0u8
            },
    )
}

/// The state of a batch before its discovery run.
pub open spec fn initial_batch() -> BatchState {
    BatchState { total_test_count: None, report: Seq::empty() }
}

/// Whether the results are those of the tests 1, 2, and so on, without a
/// gap, and none beyond the number of tests.
pub open spec fn batch_in_order(state: BatchState) -> bool {
    &&& match state.total_test_count {
        Some(total) => state.report.len() <= total,
        None => state.report.len() == 0,
    }
    &&& forall|i: int| 0 <= i < state.report.len() ==> (#[trigger] state.report[i]).test_id == i + 1
}

/// The run that is due in a state: the discovery first, then the tests by
/// ascending number, from 1 up to and including the number of tests.
pub open spec fn next_run(state: BatchState) -> NextRunView {
    match state.total_test_count {
        None => NextRunView::Discovery,
        Some(total) => if state.report.len() < total {
            NextRunView::Test {
                test_id: (state.report.len() + 1) as u32,
                fee_account: fee_account_bytes((state.report.len() + 1) as u32),
            }
        } else {
            NextRunView::Finished
        },
    }
}

/// The state after the discovery run has yielded `test_count`.
pub open spec fn after_discovery(state: BatchState, test_count: Option<u32>) -> Result<
    BatchState,
    OrchestratorError,
> {
    if state.total_test_count is Some {
        Err(OrchestratorError::AlreadyDiscovered)
    } else {
        match test_count {
            Some(total) => Ok(BatchState { total_test_count: Some(total), ..state }),
            None => Err(OrchestratorError::TestCountMissing),
        }
    }
}

/// The state after the run of the test that was due has ended in `result`.
pub open spec fn after_test(state: BatchState, result: TestResultView) -> Result<
    BatchState,
    OrchestratorError,
> {
    match next_run(state) {
        NextRunView::Test { test_id, fee_account } => Ok(
            BatchState { report: state.report.push(TestReportView { test_id, result }), ..state },
        ),
        _ => Err(OrchestratorError::NoTestDue),
    }
}

/// The state that a batch reaches from `state` when the tests that are due
/// end, one after the other, in `results`.
pub open spec fn after_tests(state: BatchState, results: Seq<TestResultView>) -> Result<
    BatchState,
    OrchestratorError,
>
    decreases results.len(),
{
    if results.len() == 0 {
        Ok(state)
    } else {
        match after_tests(state, results.drop_last()) {
            Ok(before) => after_test(before, results.last()),
            Err(error) => Err(error),
        }
    }
}

/// The batch of `total` tests of which the first `results.len()` have run.
pub open spec fn batch_with(total: u32, results: Seq<TestResultView>) -> BatchState {
    BatchState {
        total_test_count: Some(total),
        report: Seq::new(
            results.len(),
            |i: int| TestReportView { test_id: (i + 1) as u32, result: results[i] },
        ),
    }
}

/// After a discovery of `total` tests the runs are those of the tests 1, 2,
/// and so on up to `total`, in that order, and no more: when `k` of them
/// have ended, with `k` below `total`, test `k + 1` is due; when `total`
/// have ended none is due and a further result is refused. The report
/// holds the results in the order of the runs, each under its number.
pub proof fn lemma_tests_run_in_ascending_order(total: u32, results: Seq<TestResultView>)
    requires
        results.len() <= total,
    ensures
        after_discovery(initial_batch(), Some(total)) == Ok::<BatchState, OrchestratorError>(
            batch_with(total, Seq::empty()),
        ),
        after_tests(batch_with(total, Seq::empty()), results) == Ok::<
            BatchState,
            OrchestratorError,
        >(batch_with(total, results)),
        results.len() < total ==> next_run(batch_with(total, results)) == (NextRunView::Test {
            test_id: (results.len() + 1) as u32,
            fee_account: fee_account_bytes((results.len() + 1) as u32),
        }),
        results.len() == total ==> next_run(batch_with(total, results)) == NextRunView::Finished,
        results.len() == total ==> forall|further: TestResultView| #[trigger]
            after_test(batch_with(total, results), further) == Err::<
                BatchState,
                OrchestratorError,
            >(OrchestratorError::NoTestDue),
        batch_in_order(batch_with(total, results)),
    decreases results.len(),
{
    assert(batch_with(total, Seq::empty()).report =~= Seq::empty());
    if results.len() > 0 {
        let front = results.drop_last();
        lemma_tests_run_in_ascending_order(total, front);
        let recorded = TestReportView { test_id: results.len() as u32, result: results.last() };
        assert(batch_with(total, front).report.push(recorded) =~= batch_with(
            total,
            results,
        ).report);
        assert(after_test(batch_with(total, front), results.last()) == Ok::<
            BatchState,
            OrchestratorError,
        >(batch_with(total, results)));
    } else {
        assert(results =~= Seq::empty());
    }
}

/// Whatever a batch takes in, its results stay those of the tests 1, 2,
/// and so on, without a gap, and none beyond the number of tests.
pub proof fn lemma_batch_stays_in_order(
    state: BatchState,
    test_count: Option<u32>,
    result: TestResultView,
)
    requires
        batch_in_order(state),
    ensures
        after_discovery(state, test_count) is Ok ==> batch_in_order(
            after_discovery(state, test_count)->Ok_0,
        ),
        after_test(state, result) is Ok ==> batch_in_order(after_test(state, result)->Ok_0),
{
}

/// Writes a test's number in the place of the fee account's address.
pub fn test_id_to_fee_account(test_id: u32) -> (fee_account: [u8; 20])
    ensures
        fee_account@ == fee_account_bytes(test_id),
        be_value(fee_account@) == test_id,
{
    let mut fee_account = [0u8; 20];
    fee_account[16] = (test_id / 0x100_0000) as u8;
    fee_account[17] = (test_id / 0x1_0000 % 0x100) as u8;
    fee_account[18] = (test_id / 0x100 % 0x100) as u8;
    fee_account[19] = (test_id % 0x100) as u8;
    proof {
        assert(fee_account@ =~= fee_account_bytes(test_id));
        lemma_fee_account_value(test_id);
    }
    fee_account
}

/// The bytes that carry a test's number spell that number.
pub proof fn lemma_fee_account_value(test_id: u32)
    ensures
        be_value(fee_account_bytes(test_id)) == test_id,
{
    let bytes = fee_account_bytes(test_id);
    lemma_be_value_split(bytes, 4);
    lemma_be_value_zero(bytes.take(16));
    lemma_be_value_tail4(bytes.skip(16));
}

/// A batch of tests: it knows which run is due and keeps the results.
pub struct TestSession {
    total_test_count: Option<u32>,
    report: Vec<TestReport>,
}

impl View for TestSession {
    type V = BatchState;

    closed spec fn view(&self) -> BatchState {
        BatchState {
            total_test_count: self.total_test_count,
            report: Seq::new(self.report@.len(), |i: int| self.report@[i]@),
        }
    }
}

impl TestSession {
    /// A batch whose discovery run is due.
    pub fn new() -> (session: TestSession)
        ensures
            session@ == initial_batch(),
    {
        let session = TestSession { total_test_count: None, report: Vec::new() };
        assert(session@.report =~= Seq::empty());
        session
    }

    /// The run that is due.
    pub fn next_run(&self) -> (due: NextRun)
        ensures
            due@ == next_run(self@),
    {
        match self.total_test_count {
            None => NextRun::Discovery,
            Some(total) => {
                if self.report.len() < total as usize {
                    let test_id: u32 = self.report.len() as u32 + 1;
                    NextRun::Test { test_id, fee_account: test_id_to_fee_account(test_id) }
                } else {
                    NextRun::Finished
                }
            },
        }
    }

    /// Takes in what the discovery run has yielded. A run that yielded no
    /// test count is a fault of the setup, and so is a second discovery;
    /// neither changes the batch.
    pub fn discovery_finished(&mut self, test_count: Option<u32>) -> (outcome: Result<
        (),
        OrchestratorError,
    >)
        ensures
            match after_discovery(old(self)@, test_count) {
                Ok(next) => outcome is Ok && final(self)@ == next,
                Err(error) => outcome == Err::<(), OrchestratorError>(error) && final(self)@
                    == old(self)@,
            },
    {
        if self.total_test_count.is_some() {
            return Err(OrchestratorError::AlreadyDiscovered);
        }
        match test_count {
            Some(total) => {
                self.total_test_count = Some(total);
                Ok(())
            },
            None => Err(OrchestratorError::TestCountMissing),
        }
    }

    /// Takes in the result of the test that was due, and returns its number.
    /// Where no test was due the result is refused and the batch unchanged.
    pub fn test_finished(&mut self, result: TestResult) -> (outcome: Result<u32, OrchestratorError>)
        ensures
            match after_test(old(self)@, result@) {
                Ok(next) => outcome == Ok::<u32, OrchestratorError>(
                    (old(self)@.report.len() + 1) as u32,
                ) && final(self)@ == next,
                Err(error) => outcome == Err::<u32, OrchestratorError>(error) && final(self)@
                    == old(self)@,
            },
    {
        let due = match self.total_test_count {
            Some(total) => self.report.len() < total as usize,
            None => false,
        };
        if due {
            let test_id: u32 = self.report.len() as u32 + 1;
            let ghost recorded = TestReportView { test_id, result: result@ };
            self.report.push(TestReport { test_id, result });
            proof {
                assert(self@.report =~= old(self)@.report.push(recorded));
            }
            Ok(test_id)
        } else {
            Err(OrchestratorError::NoTestDue)
        }
    }

    /// How many tests there are, once that is known.
    pub fn total_test_count(&self) -> (total: Option<u32>)
        ensures
            total == self@.total_test_count,
    {
        self.total_test_count
    }

    /// The results so far, in the order in which the tests ran.
    pub fn report(&self) -> (report: &Vec<TestReport>)
        ensures
            report@.len() == self@.report.len(),
            forall|i: int| 0 <= i < report@.len() ==> (#[trigger] report@[i])@ == self@.report[i],
    {
        &self.report
    }
}

} // verus!
