use test_infra::error::OrchestratorError;
use test_infra::orchestrator::{test_id_to_fee_account, NextRun, TestReport, TestSession};
use test_infra::tracer::TestResult;

fn passed(name: &str) -> TestResult {
    TestResult { test_name: name.to_string(), result: Ok(()) }
}

fn failed(name: &str, reason: &str) -> TestResult {
    TestResult { test_name: name.to_string(), result: Err(reason.to_string()) }
}

fn address_of(test_id: u32) -> [u8; 20] {
    let mut address = [0u8; 20];
    address[16..].copy_from_slice(&test_id.to_be_bytes());
    address
}

#[test]
fn a_new_batch_is_due_for_discovery() {
    let session = TestSession::new();
    assert_eq!(session.next_run(), NextRun::Discovery);
    assert_eq!(session.total_test_count(), None);
    assert!(session.report().is_empty());
}

#[test]
fn five_tests_run_as_1_2_3_4_5() {
    let mut session = TestSession::new();
    assert_eq!(session.discovery_finished(Some(5)), Ok(()));
    assert_eq!(session.total_test_count(), Some(5));
    let mut ids = Vec::new();
    loop {
        match session.next_run() {
            NextRun::Discovery => panic!("discovered already"),
            NextRun::Test { test_id, fee_account } => {
                assert_eq!(fee_account, address_of(test_id));
                ids.push(test_id);
                assert_eq!(session.test_finished(passed("t")), Ok(test_id));
            }
            NextRun::Finished => break,
        }
    }
    assert_eq!(ids, vec![1, 2, 3, 4, 5]);
    assert_eq!(session.report().len(), 5);
    assert_eq!(session.next_run(), NextRun::Finished);
}

#[test]
fn a_failing_test_does_not_stop_the_batch() {
    let mut session = TestSession::new();
    assert_eq!(session.discovery_finished(Some(3)), Ok(()));
    assert_eq!(session.test_finished(passed("a")), Ok(1));
    assert_eq!(session.test_finished(failed("b", "Assert failed: 1 is not equal to 2: m")), Ok(2));
    assert_eq!(
        session.next_run(),
        NextRun::Test { test_id: 3, fee_account: address_of(3) }
    );
    assert_eq!(session.test_finished(passed("c")), Ok(3));
    assert_eq!(
        session.report(),
        &vec![
            TestReport { test_id: 1, result: passed("a") },
            TestReport {
                test_id: 2,
                result: failed("b", "Assert failed: 1 is not equal to 2: m"),
            },
            TestReport { test_id: 3, result: passed("c") },
        ]
    );
}

#[test]
fn a_discovery_without_a_count_is_a_fault() {
    let mut session = TestSession::new();
    assert_eq!(session.discovery_finished(None), Err(OrchestratorError::TestCountMissing));
    assert_eq!(session.next_run(), NextRun::Discovery);
    assert_eq!(session.total_test_count(), None);
}

#[test]
fn a_second_discovery_is_a_fault() {
    let mut session = TestSession::new();
    assert_eq!(session.discovery_finished(Some(2)), Ok(()));
    assert_eq!(session.discovery_finished(Some(9)), Err(OrchestratorError::AlreadyDiscovered));
    assert_eq!(session.discovery_finished(None), Err(OrchestratorError::AlreadyDiscovered));
    assert_eq!(session.total_test_count(), Some(2));
}

#[test]
fn a_result_is_refused_while_no_test_is_due() {
    let mut session = TestSession::new();
    assert_eq!(session.test_finished(passed("early")), Err(OrchestratorError::NoTestDue));
    assert_eq!(session.discovery_finished(Some(1)), Ok(()));
    assert_eq!(session.test_finished(passed("only")), Ok(1));
    assert_eq!(session.test_finished(passed("late")), Err(OrchestratorError::NoTestDue));
    assert_eq!(session.report().len(), 1);
}

#[test]
fn a_batch_of_no_tests_is_finished_after_discovery() {
    let mut session = TestSession::new();
    assert_eq!(session.discovery_finished(Some(0)), Ok(()));
    assert_eq!(session.next_run(), NextRun::Finished);
}

#[test]
fn the_fee_account_spells_the_test_id_in_its_last_bytes() {
    assert_eq!(test_id_to_fee_account(0), [0u8; 20]);
    assert_eq!(test_id_to_fee_account(1), address_of(1));
    assert_eq!(
        test_id_to_fee_account(0x01020304),
        [0, 0, 0, 0, 0, 0, 0, 0, 0, 0, 0, 0, 0, 0, 0, 0, 1, 2, 3, 4]
    );
    assert_eq!(test_id_to_fee_account(u32::MAX), address_of(u32::MAX));
}
