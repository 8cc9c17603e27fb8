use kodegen_tools_process::listing::ListQuery;
use kodegen_tools_process::record::ProcessRecord;
use kodegen_tools_process::termination::{KillAttempt, KillErrorKind, SignalOutcome};
use kodegen_tools_process::tools::{
    KillProcessTool, ListProcessesTool, ProcessKillTool, ProcessListTool, KILL_DESCRIPTION,
    LIST_DESCRIPTION,
};

#[test]
fn tool_names_and_traits() {
    assert_eq!(ProcessListTool::name(), "process_list");
    assert_eq!(ListProcessesTool::name(), "list_processes");
    assert_eq!(ProcessKillTool::name(), "process_kill");
    assert_eq!(KillProcessTool::name(), "kill_process");
    assert!(ProcessListTool::read_only() && !ProcessListTool::destructive());
    assert!(ProcessListTool::idempotent());
    assert!(ListProcessesTool::read_only() && ListProcessesTool::idempotent());
    assert!(!ProcessKillTool::read_only() && ProcessKillTool::destructive());
    assert!(!ProcessKillTool::idempotent());
    assert!(!KillProcessTool::read_only() && KillProcessTool::destructive());
    assert!(!KillProcessTool::idempotent());
    assert_eq!(ProcessListTool::description(), LIST_DESCRIPTION);
    assert_eq!(KillProcessTool::description(), KILL_DESCRIPTION);
    assert!(KILL_DESCRIPTION.contains("SIGKILL"));
}

#[test]
fn list_tools_run_the_pipeline() {
    let snapshot = || {
        vec![
            ProcessRecord::new(1, "a".to_string(), 1, 0),
            ProcessRecord::new(2, "b".to_string(), 9, 0),
        ]
    };
    let q = ListQuery { filter: None, limit: 0 };
    let out = ProcessListTool::new().execute(snapshot(), &q);
    assert_eq!(out.processes[0].pid, 2);
    let out = ListProcessesTool::new().execute(snapshot(), &q);
    assert_eq!(out.processes[1].pid, 1);
}

#[test]
fn kill_tools_validate_and_report() {
    let t = ProcessKillTool::new();
    assert!(t.check(0).is_err());
    assert!(matches!(t.check(5), Ok(5)));
    match t.finish(5, KillAttempt::Signalled { name: "n".to_string(), outcome: SignalOutcome::Accepted }) {
        Ok(rep) => assert_eq!(rep.message, "Successfully terminated process 5 (n)"),
        Err(_) => panic!("expected success"),
    }
    let k = KillProcessTool::new();
    match k.finish(5, KillAttempt::Missing) {
        Err(e) => assert_eq!(e.kind, KillErrorKind::NotFound),
        Ok(_) => panic!("expected not found"),
    }
    assert!(k.check(0).is_err());
}
