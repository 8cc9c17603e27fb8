//! The two operations as named tools, with the traits a tool router reads:
//! whether a tool only reads, whether it destroys, whether repeating it is
//! harmless.

use vstd::prelude::*;

use crate::listing::{list_processes, listed, selected, ListOutcome, ListQuery};
use crate::record::ProcessRecord;
use crate::termination::{
    failure_text,
    kill_failure,
    kill_report,
    success_text,
    validate_pid,
    invalid_pid_text,
    KillAttempt,
    KillError,
    KillErrorKind,
    KillReport,
};

verus! {

/// Lists running processes with their CPU and memory use.
#[derive(Clone, Copy, Default)]
pub struct ProcessListTool;

/// Terminates a running process by identifier, forcefully.
#[derive(Clone, Copy, Default)]
pub struct ProcessKillTool;

/// Lists running processes; registered as `list_processes`.
#[derive(Clone, Copy, Default)]
pub struct ListProcessesTool;

/// Terminates a running process by identifier; registered as `kill_process`.
#[derive(Clone, Copy, Default)]
pub struct KillProcessTool;

/// What the tools tell callers about listing.
pub const LIST_DESCRIPTION: &'static str =
    "List all running processes with PID, command name, CPU usage, and memory usage. Supports filtering by process name and limiting results. Returns comprehensive process information for system monitoring and debugging.";

/// What the tools tell callers about termination.
pub const KILL_DESCRIPTION: &'static str =
    "Terminate a running process by its PID. Sends SIGKILL signal to forcefully stop the process. Use with caution as this does not allow graceful shutdown. Returns success if process was terminated, error if process not found or permission denied.";

impl ProcessListTool {
    pub fn new() -> (r: Self) {
        ProcessListTool
    }

    pub fn name() -> (r: &'static str)
        ensures
            r@ == "process_list"@,
    {
        "process_list"
    }

    pub fn description() -> (r: &'static str)
        ensures
            r@ == LIST_DESCRIPTION@,
    {
        LIST_DESCRIPTION
    }

    pub fn read_only() -> (r: bool)
        ensures
            r,
    {
        true
    }

    pub fn destructive() -> (r: bool)
        ensures
            !r,
    {
        false
    }

    pub fn idempotent() -> (r: bool)
        ensures
            r,
    {
        true
    }

    /// Lists a freshly taken snapshot as `query` asks.
    pub fn execute(&self, snapshot: Vec<ProcessRecord>, query: &ListQuery) -> (r: ListOutcome)
        ensures
            r.processes@ == listed(snapshot@, query.filter.deep_view(), query.limit as nat),
            r.count == r.processes@.len(),
            r.total_count == selected(snapshot@, query.filter.deep_view()).len(),
            r.scanned_count == snapshot@.len(),
            r.limited == (query.limit > 0 && r.total_count >= query.limit),
    {
        list_processes(snapshot, query)
    }
}

impl ListProcessesTool {
    pub fn new() -> (r: Self) {
        ListProcessesTool
    }

    pub fn name() -> (r: &'static str)
        ensures
            r@ == "list_processes"@,
    {
        "list_processes"
    }

    pub fn description() -> (r: &'static str)
        ensures
            r@ == LIST_DESCRIPTION@,
    {
        LIST_DESCRIPTION
    }

    pub fn read_only() -> (r: bool)
        ensures
            r,
    {
        true
    }

    pub fn destructive() -> (r: bool)
        ensures
            !r,
    {
        false
    }

    pub fn idempotent() -> (r: bool)
        ensures
            r,
    {
        true
    }

    /// Lists a freshly taken snapshot as `query` asks.
    pub fn execute(&self, snapshot: Vec<ProcessRecord>, query: &ListQuery) -> (r: ListOutcome)
        ensures
            r.processes@ == listed(snapshot@, query.filter.deep_view(), query.limit as nat),
            r.count == r.processes@.len(),
            r.total_count == selected(snapshot@, query.filter.deep_view()).len(),
            r.scanned_count == snapshot@.len(),
            r.limited == (query.limit > 0 && r.total_count >= query.limit),
    {
        list_processes(snapshot, query)
    }
}

impl ProcessKillTool {
    pub fn new() -> (r: Self) {
        ProcessKillTool
    }

    pub fn name() -> (r: &'static str)
        ensures
            r@ == "process_kill"@,
    {
        "process_kill"
    }

    pub fn description() -> (r: &'static str)
        ensures
            r@ == KILL_DESCRIPTION@,
    {
        KILL_DESCRIPTION
    }

    pub fn read_only() -> (r: bool)
        ensures
            !r,
    {
        false
    }

    pub fn destructive() -> (r: bool)
        ensures
            r,
    {
        true
    }

    pub fn idempotent() -> (r: bool)
        ensures
            !r,
    {
        false
    }

    /// Checks the identifier before the system is asked anything.
    pub fn check(&self, pid: u32) -> (r: Result<u32, KillError>)
        ensures
            r is Ok <==> pid != 0,
            r matches Ok(p) ==> p == pid,
            r matches Err(e) ==> e.kind == KillErrorKind::InvalidArgument && e.message@
                == invalid_pid_text(),
    {
        validate_pid(pid)
    }

    /// The answer for `pid` once locating and signalling it came to `attempt`.
    pub fn finish(&self, pid: u32, attempt: KillAttempt) -> (r: Result<KillReport, KillError>)
        ensures
            r is Ok <==> kill_failure(pid, attempt) is None,
            r matches Err(e) ==> kill_failure(pid, attempt) == Some(e.kind) && e.message@
                == failure_text(pid, e.kind),
            r matches Ok(rep) ==> attempt matches KillAttempt::Signalled { name, .. } && rep.pid
                == pid && rep.process_name == name && rep.message@ == success_text(pid, name@),
    {
        kill_report(pid, attempt)
    }
}

impl KillProcessTool {
    pub fn new() -> (r: Self) {
        KillProcessTool
    }

    pub fn name() -> (r: &'static str)
        ensures
            r@ == "kill_process"@,
    {
        "kill_process"
    }

    pub fn description() -> (r: &'static str)
        ensures
            r@ == KILL_DESCRIPTION@,
    {
        KILL_DESCRIPTION
    }

    pub fn read_only() -> (r: bool)
        ensures
            !r,
    {
        false
    }

    pub fn destructive() -> (r: bool)
        ensures
            r,
    {
        true
    }

    pub fn idempotent() -> (r: bool)
        ensures
            !r,
    {
        false
    }

    /// Checks the identifier before the system is asked anything.
    pub fn check(&self, pid: u32) -> (r: Result<u32, KillError>)
        ensures
            r is Ok <==> pid != 0,
            r matches Ok(p) ==> p == pid,
            r matches Err(e) ==> e.kind == KillErrorKind::InvalidArgument && e.message@
                == invalid_pid_text(),
    {
        validate_pid(pid)
    }

    /// The answer for `pid` once locating and signalling it came to `attempt`.
    pub fn finish(&self, pid: u32, attempt: KillAttempt) -> (r: Result<KillReport, KillError>)
        ensures
            r is Ok <==> kill_failure(pid, attempt) is None,
            r matches Err(e) ==> kill_failure(pid, attempt) == Some(e.kind) && e.message@
                == failure_text(pid, e.kind),
            r matches Ok(rep) ==> attempt matches KillAttempt::Signalled { name, .. } && rep.pid
                == pid && rep.process_name == name && rep.message@ == success_text(pid, name@),
    {
        kill_report(pid, attempt)
    }
}

} // verus!
