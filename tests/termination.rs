use kodegen_tools_process::termination::{
    internal_failure, kill_report, signal_outcome, validate_pid, KillAttempt, KillErrorKind,
    SignalOutcome,
};
use kodegen_tools_process::text::decimal_text;

fn signalled(name: &str, outcome: SignalOutcome) -> KillAttempt {
    KillAttempt::Signalled { name: name.to_string(), outcome }
}

#[test]
fn zero_pid_is_invalid_argument() {
    match validate_pid(0) {
        Err(e) => {
            assert_eq!(e.kind, KillErrorKind::InvalidArgument);
            assert_eq!(e.message, "Invalid PID 0: cannot kill process with ID 0");
        }
        Ok(_) => panic!("pid 0 accepted"),
    }
}

#[test]
fn zero_pid_rejected_whatever_was_observed() {
    match kill_report(0, signalled("init", SignalOutcome::Accepted)) {
        Err(e) => assert_eq!(e.kind, KillErrorKind::InvalidArgument),
        Ok(_) => panic!("pid 0 reported as killed"),
    }
}

#[test]
fn nonzero_pid_passes_validation() {
    assert!(matches!(validate_pid(1), Ok(1)));
    assert!(matches!(validate_pid(u32::MAX), Ok(u32::MAX)));
}

#[test]
fn missing_process_is_not_found_with_pid() {
    match kill_report(4_000_000_000, KillAttempt::Missing) {
        Err(e) => {
            assert_eq!(e.kind, KillErrorKind::NotFound);
            assert!(e.message.contains("4000000000"));
            assert_eq!(e.message, "Failed to kill process 4000000000: Process not found");
        }
        Ok(_) => panic!("missing process reported as killed"),
    }
}

#[test]
fn refused_signal_is_permission_denied() {
    match kill_report(1, signalled("init", SignalOutcome::Refused)) {
        Err(e) => {
            assert_eq!(e.kind, KillErrorKind::PermissionDenied);
            assert_eq!(e.message, "Failed to kill process 1: Permission denied or process protected");
        }
        Ok(_) => panic!("refused signal reported as success"),
    }
}

#[test]
fn undelivered_signal_is_signal_failed() {
    match kill_report(305, signalled("x", SignalOutcome::NotDelivered)) {
        Err(e) => {
            assert_eq!(e.kind, KillErrorKind::SignalFailed);
            assert_eq!(e.message, "Failed to kill process 305: Failed to send kill signal");
        }
        Ok(_) => panic!("undelivered signal reported as success"),
    }
}

#[test]
fn accepted_signal_reports_name() {
    match kill_report(4242, signalled("sleep", SignalOutcome::Accepted)) {
        Ok(rep) => {
            assert_eq!(rep.pid, 4242);
            assert_eq!(rep.process_name, "sleep");
            assert_eq!(rep.message, "Successfully terminated process 4242 (sleep)");
        }
        Err(e) => panic!("unexpected failure: {}", e.message),
    }
}

#[test]
fn second_kill_of_same_pid_is_not_found() {
    assert!(kill_report(77, signalled("job", SignalOutcome::Accepted)).is_ok());
    match kill_report(77, KillAttempt::Missing) {
        Err(e) => assert_eq!(e.kind, KillErrorKind::NotFound),
        Ok(_) => panic!("killed twice"),
    }
}

#[test]
fn internal_failure_names_pid_and_detail() {
    let e = internal_failure(9, "task aborted");
    assert_eq!(e.kind, KillErrorKind::Internal);
    assert_eq!(e.message, "Failed to kill process 9: task aborted");
}

#[test]
fn signal_outcome_maps_each_case() {
    assert_eq!(signal_outcome(Some(true)), SignalOutcome::Accepted);
    assert_eq!(signal_outcome(Some(false)), SignalOutcome::Refused);
    assert_eq!(signal_outcome(None), SignalOutcome::NotDelivered);
}

#[test]
fn decimal_text_values() {
    assert_eq!(decimal_text(0), "0");
    assert_eq!(decimal_text(7), "7");
    assert_eq!(decimal_text(10), "10");
    assert_eq!(decimal_text(1_000_001), "1000001");
    assert_eq!(decimal_text(u32::MAX), "4294967295");
}
