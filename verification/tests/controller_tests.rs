use unlock_sweep::controller::{
    Controller, ControllerAction, ControllerEvent, Outcome, Report, RunState,
};
use unlock_sweep::formula::huawei_hash_formula;
use unlock_sweep::secrets::generate_secret_keys;
use unlock_sweep::session::TestOutcome;

const IMEI: &str = "864297030123456";
const SN: &str = "SN123456";
const PID: &str = "PID-9";

fn started(base: u64, count: usize) -> (Controller, ControllerAction) {
    let mut controller = Controller::new(IMEI, SN, PID, base, count);
    assert!(matches!(controller.pending(), ControllerAction::OpenSession));
    assert!(matches!(
        controller.step(ControllerEvent::SessionOpened),
        ControllerAction::StartMonitor
    ));
    let action = controller.step(ControllerEvent::MonitorStarted);
    (controller, action)
}

fn expect_test(action: &ControllerAction, base: u64, position: usize) {
    match action {
        ControllerAction::Test { index, secret, code } => {
            let expected = generate_secret_keys(base, position + 1)[position];
            assert_eq!(*index, position);
            assert_eq!(*secret, expected);
            assert_eq!(*code, huawei_hash_formula(IMEI, SN, PID, expected));
        }
        other => panic!("expected a test, got {:?}", other),
    }
}

fn expect_report(action: &ControllerAction) -> Report {
    match action {
        ControllerAction::Report(report) => *report,
        other => panic!("expected a report, got {:?}", other),
    }
}

#[test]
fn all_rejected_exhausts_with_continuation() {
    let (mut controller, mut action) = started(0, 3);
    for position in 0..3 {
        assert_eq!(controller.state(), RunState::Running);
        assert_eq!(controller.attempts(), position);
        expect_test(&action, 0, position);
        action = controller.step(ControllerEvent::Tested(TestOutcome::Rejected));
    }
    assert!(matches!(action, ControllerAction::StopMonitor));
    assert_eq!(controller.state(), RunState::Exhausted);
    let report = expect_report(&controller.step(ControllerEvent::MonitorStopped));
    assert_eq!(
        report,
        Report { outcome: Outcome::Exhausted, attempts: 3, skipped: 0, continuation: Some(3000) }
    );
    assert_eq!(generate_secret_keys(3000, 2), vec![3000, 4000]);
}

#[test]
fn continuation_wraps_with_the_progression() {
    let base = 9_999_999_999_999_000;
    let (mut controller, mut action) = started(base, 2);
    expect_test(&action, base, 0);
    action = controller.step(ControllerEvent::Tested(TestOutcome::Rejected));
    expect_test(&action, base, 1);
    controller.step(ControllerEvent::Tested(TestOutcome::Rejected));
    let report = expect_report(&controller.step(ControllerEvent::MonitorStopped));
    assert_eq!(report.continuation, Some(1000));
    assert_eq!(report.attempts, 2);
}

#[test]
fn first_match_ends_the_sweep() {
    let (mut controller, action) = started(0, 5);
    expect_test(&action, 0, 0);
    let action = controller.step(ControllerEvent::Tested(TestOutcome::Rejected));
    expect_test(&action, 0, 1);
    let action = controller.step(ControllerEvent::Tested(TestOutcome::Unlocked));
    assert!(matches!(action, ControllerAction::StopMonitor));
    assert_eq!(controller.state(), RunState::Success);
    assert_eq!(controller.remaining(), 3);
    let report = expect_report(&controller.step(ControllerEvent::MonitorStopped));
    assert_eq!(
        report,
        Report { outcome: Outcome::Success, attempts: 2, skipped: 0, continuation: None }
    );
}

#[test]
fn transport_error_aborts_the_sweep() {
    let (mut controller, action) = started(0, 5);
    expect_test(&action, 0, 0);
    let action = controller.step(ControllerEvent::Tested(TestOutcome::TransportError));
    assert!(matches!(action, ControllerAction::StopMonitor));
    assert_eq!(controller.state(), RunState::Aborted);
    let report = expect_report(&controller.step(ControllerEvent::MonitorStopped));
    assert_eq!(
        report,
        Report { outcome: Outcome::Aborted, attempts: 1, skipped: 0, continuation: None }
    );
}

#[test]
fn failed_session_aborts_before_any_test() {
    let mut controller = Controller::new(IMEI, SN, PID, 0, 5);
    let report = expect_report(&controller.step(ControllerEvent::SessionFailed));
    assert_eq!(
        report,
        Report { outcome: Outcome::Aborted, attempts: 0, skipped: 0, continuation: None }
    );
    assert_eq!(controller.state(), RunState::Aborted);
    for event in [
        ControllerEvent::SessionOpened,
        ControllerEvent::MonitorStarted,
        ControllerEvent::Tested(TestOutcome::Unlocked),
        ControllerEvent::MonitorStopped,
    ] {
        assert_eq!(expect_report(&controller.step(event)), report);
    }
}

#[test]
fn malformed_candidate_is_skipped_and_counted() {
    let (mut controller, action) = started(0, 3);
    expect_test(&action, 0, 0);
    let action = controller.step(ControllerEvent::Tested(TestOutcome::Malformed));
    expect_test(&action, 0, 1);
    assert_eq!(controller.state(), RunState::Running);
    let action = controller.step(ControllerEvent::Tested(TestOutcome::Rejected));
    expect_test(&action, 0, 2);
    controller.step(ControllerEvent::Tested(TestOutcome::Malformed));
    let report = expect_report(&controller.step(ControllerEvent::MonitorStopped));
    assert_eq!(
        report,
        Report { outcome: Outcome::Exhausted, attempts: 3, skipped: 2, continuation: Some(3000) }
    );
}

#[test]
fn empty_sweep_is_exhausted_at_once() {
    let (mut controller, action) = started(42, 0);
    assert!(matches!(action, ControllerAction::StopMonitor));
    assert_eq!(controller.state(), RunState::Exhausted);
    let report = expect_report(&controller.step(ControllerEvent::MonitorStopped));
    assert_eq!(
        report,
        Report { outcome: Outcome::Exhausted, attempts: 0, skipped: 0, continuation: Some(42) }
    );
}

#[test]
fn report_waits_for_the_monitor() {
    let (mut controller, _) = started(0, 1);
    let action = controller.step(ControllerEvent::Tested(TestOutcome::Unlocked));
    assert!(matches!(action, ControllerAction::StopMonitor));
    for event in [
        ControllerEvent::Tested(TestOutcome::Rejected),
        ControllerEvent::SessionOpened,
        ControllerEvent::MonitorStarted,
        ControllerEvent::SessionFailed,
    ] {
        assert!(matches!(controller.step(event), ControllerAction::StopMonitor));
        assert_eq!(controller.attempts(), 1);
    }
    assert!(matches!(
        controller.step(ControllerEvent::MonitorStopped),
        ControllerAction::Report(_)
    ));
}

#[test]
fn event_that_is_not_awaited_changes_nothing() {
    let mut controller = Controller::new(IMEI, SN, PID, 0, 2);
    for event in [
        ControllerEvent::MonitorStarted,
        ControllerEvent::Tested(TestOutcome::Unlocked),
        ControllerEvent::MonitorStopped,
    ] {
        assert!(matches!(controller.step(event), ControllerAction::OpenSession));
    }
    controller.step(ControllerEvent::SessionOpened);
    for event in [
        ControllerEvent::SessionOpened,
        ControllerEvent::SessionFailed,
        ControllerEvent::Tested(TestOutcome::Unlocked),
        ControllerEvent::MonitorStopped,
    ] {
        assert!(matches!(controller.step(event), ControllerAction::StartMonitor));
    }
    let action = controller.step(ControllerEvent::MonitorStarted);
    expect_test(&action, 0, 0);
    for event in [
        ControllerEvent::SessionOpened,
        ControllerEvent::SessionFailed,
        ControllerEvent::MonitorStarted,
        ControllerEvent::MonitorStopped,
    ] {
        let repeated = controller.step(event);
        expect_test(&repeated, 0, 0);
        assert_eq!(controller.attempts(), 0);
    }
}

#[test]
fn pending_repeats_the_last_action() {
    let (mut controller, action) = started(7, 2);
    expect_test(&action, 7, 0);
    expect_test(&controller.pending(), 7, 0);
    controller.step(ControllerEvent::Tested(TestOutcome::Rejected));
    expect_test(&controller.pending(), 7, 1);
    assert_eq!(controller.remaining(), 1);
}
