//! Terminating a process: identifier validation and the mapping of what the
//! operating system reported to the answer given to the caller.
//!
//! The caller locates the process and delivers the signal itself, in one
//! step; this module decides before that step whether it may be taken, and
//! afterwards what it came to.

use vstd::prelude::*;

use crate::text::{decimal, push_decimal};

verus! {

/// The kinds of failure a termination request can end in.
#[derive(PartialEq, Eq, Structural, Clone, Copy, Debug)]
pub enum KillErrorKind {
    /// The request was malformed or disallowed; nothing was asked of the system.
    InvalidArgument,
    /// No process with the identifier existed when it was looked up.
    NotFound,
    /// The signal reached the system, which refused it (privileges, protection).
    PermissionDenied,
    /// The signal could not be delivered at all.
    SignalFailed,
    /// The work could not be carried out (the blocking task failed).
    Internal,
}

/// A failed termination request: its kind and a message naming the identifier.
pub struct KillError {
    pub kind: KillErrorKind,
    pub message: String,
}

/// A successful termination: the identifier acted on, the name the process
/// had when it was located, and a message for the caller.
pub struct KillReport {
    pub pid: u32,
    pub process_name: String,
    pub message: String,
}

/// What delivering the forced-termination signal came to.
#[derive(PartialEq, Eq, Structural, Clone, Copy, Debug)]
pub enum SignalOutcome {
    /// The signal was delivered and accepted.
    Accepted,
    /// The signal was delivered and rejected.
    Refused,
    /// The signal could not be delivered.
    NotDelivered,
}

/// What locating the process and signalling it came to.
pub enum KillAttempt {
    /// No process had the identifier.
    Missing,
    /// The process was found under `name` and the signal was sent.
    Signalled { name: String, outcome: SignalOutcome },
}

/// The message for the identifier `0`.
pub open spec fn invalid_pid_text() -> Seq<char> {
    "Invalid PID 0: cannot kill process with ID 0"@
}

/// The start of every failure message about `pid`.
pub open spec fn failure_prefix(pid: u32) -> Seq<char> {
    "Failed to kill process "@ + decimal(pid as nat) + ": "@
}

/// The reason given for a failure of the kind `kind` that the system reported.
pub open spec fn reason_text(kind: KillErrorKind) -> Seq<char> {
    match kind {
        KillErrorKind::NotFound => "Process not found"@,
        KillErrorKind::PermissionDenied => "Permission denied or process protected"@,
        _ => "Failed to send kill signal"@,
    }
}

/// The message of a failure of the kind `kind` about `pid` (other than an
/// internal one, whose reason comes from the failed task).
pub open spec fn failure_text(pid: u32, kind: KillErrorKind) -> Seq<char> {
    if kind == KillErrorKind::InvalidArgument {
        invalid_pid_text()
    } else {
        failure_prefix(pid) + reason_text(kind)
    }
}

/// The message of a successful termination of `pid`, found under `name`.
pub open spec fn success_text(pid: u32, name: Seq<char>) -> Seq<char> {
    "Successfully terminated process "@ + decimal(pid as nat) + " ("@ + name + ")"@
}

/// How a request to terminate `pid` fails when the attempt came to `attempt`,
/// or `None` when it succeeds. The identifier `0` fails whatever the system
/// state.
pub open spec fn kill_failure(pid: u32, attempt: KillAttempt) -> Option<KillErrorKind> {
    if pid == 0 {
        Some(KillErrorKind::InvalidArgument)
    } else {
        match attempt {
            KillAttempt::Missing => Some(KillErrorKind::NotFound),
            KillAttempt::Signalled { outcome, .. } => match outcome {
                SignalOutcome::Accepted => None,
                SignalOutcome::Refused => Some(KillErrorKind::PermissionDenied),
                SignalOutcome::NotDelivered => Some(KillErrorKind::SignalFailed),
            },
        }
    }
}

/// Reads the result of a signal request: `Some(true)` accepted,
/// `Some(false)` refused, `None` not delivered.
pub fn signal_outcome(sent: Option<bool>) -> (r: SignalOutcome)
    ensures
        r == (match sent {
            Some(true) => SignalOutcome::Accepted,
            Some(false) => SignalOutcome::Refused,
            None => SignalOutcome::NotDelivered,
        }),
{
    match sent {
        Some(true) => SignalOutcome::Accepted,
        Some(false) => SignalOutcome::Refused,
        None => SignalOutcome::NotDelivered,
    }
}

fn failure(pid: u32, kind: KillErrorKind) -> (e: KillError)
    ensures
        e.kind == kind,
        e.message@ == failure_text(pid, kind),
{
    if kind == KillErrorKind::InvalidArgument {
        return KillError {
            kind,
            message: String::from_str("Invalid PID 0: cannot kill process with ID 0"),
        };
    }
    let mut message = String::from_str("Failed to kill process ");
    push_decimal(&mut message, pid);
    message.append(": ");
    let reason = match kind {
        KillErrorKind::NotFound => "Process not found",
        KillErrorKind::PermissionDenied => "Permission denied or process protected",
        _ => "Failed to send kill signal",
    };
    message.append(reason);
    KillError { kind, message }
}

/// Checks an identifier before anything is asked of the system: `0` is
/// rejected as an invalid argument, every other identifier may be looked up.
pub fn validate_pid(pid: u32) -> (r: Result<u32, KillError>)
    ensures
        r is Ok <==> pid != 0,
        r matches Ok(p) ==> p == pid,
        r matches Err(e) ==> e.kind == KillErrorKind::InvalidArgument && e.message@
            == invalid_pid_text(),
{
    if pid == 0 {
        Err(failure(pid, KillErrorKind::InvalidArgument))
    } else {
        Ok(pid)
    }
}

/// Turns what locating and signalling `pid` came to into the answer: success
/// with the name found, or a failure of the matching kind. The identifier `0`
/// is rejected whatever `attempt` holds.
pub fn kill_report(pid: u32, attempt: KillAttempt) -> (r: Result<KillReport, KillError>)
    ensures
        r is Ok <==> kill_failure(pid, attempt) is None,
        r matches Err(e) ==> kill_failure(pid, attempt) == Some(e.kind) && e.message@
            == failure_text(pid, e.kind),
        r matches Ok(rep) ==> attempt matches KillAttempt::Signalled { name, .. } && rep.pid
            == pid && rep.process_name == name && rep.message@ == success_text(pid, name@),
{
    if pid == 0 {
        return Err(failure(pid, KillErrorKind::InvalidArgument));
    }
    match attempt {
        KillAttempt::Missing => Err(failure(pid, KillErrorKind::NotFound)),
        KillAttempt::Signalled { name, outcome } => match outcome {
            SignalOutcome::Accepted => {
                let mut message = String::from_str("Successfully terminated process ");
                push_decimal(&mut message, pid);
                message.append(" (");
                message.append(name.as_str());
                message.append(")");
                Ok(KillReport { pid, process_name: name, message })
            },
            SignalOutcome::Refused => Err(failure(pid, KillErrorKind::PermissionDenied)),
            SignalOutcome::NotDelivered => Err(failure(pid, KillErrorKind::SignalFailed)),
        },
    }
}

/// The failure reported when the work on `pid` could not be carried out;
/// `detail` says why.
pub fn internal_failure(pid: u32, detail: &str) -> (e: KillError)
    ensures
        e.kind == KillErrorKind::Internal,
        e.message@ == failure_prefix(pid) + detail@,
{
    let mut message = String::from_str("Failed to kill process ");
    push_decimal(&mut message, pid);
    message.append(": ");
    message.append(detail);
    KillError { kind: KillErrorKind::Internal, message }
}

/// The identifier `0` is rejected as an invalid argument whatever the system
/// state, so no lookup or signal is ever made for it.
pub proof fn lemma_zero_pid_rejected(attempt: KillAttempt)
    ensures
        kill_failure(0, attempt) == Some(KillErrorKind::InvalidArgument),
{
}

/// Terminating the same process twice does not succeed twice: once a request
/// has succeeded, the process is gone, so the next lookup finds nothing and
/// the next request fails as not found. A request only succeeds when the
/// process was located.
pub proof fn lemma_second_kill_not_found(pid: u32, first: KillAttempt)
    requires
        kill_failure(pid, first) is None,
    ensures
        first is Signalled,
        kill_failure(pid, KillAttempt::Missing) == Some(KillErrorKind::NotFound),
{
}

} // verus!
