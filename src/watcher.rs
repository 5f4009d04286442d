use vstd::prelude::*;

verus! {

/// A validator-node registration submitted to the base layer.
#[derive(Debug, Clone, Copy, PartialEq, Eq)]
pub struct Transaction {
    pub id: u64,
    pub block: u64,
}

impl Transaction {
    /// The registration with transaction id `transaction_id`, submitted at
    /// base-layer height `block`.
    pub fn new(transaction_id: u64, block: u64) -> (r: Self)
        ensures
            r.id == transaction_id,
            r.block == block,
    {
        Transaction { id: transaction_id, block }
    }
}

/// What the supervisor reports of the validator process.
#[derive(Debug, PartialEq, Eq)]
pub enum ProcessStatus {
    Running,
    Exited(i32),
    Crashed,
    InternalError(String),
    Submitted(Transaction),
}

/// How the validator process ended, as the supervisor saw it.
#[derive(Debug, PartialEq, Eq)]
pub enum ChildExit {
    /// It exited successfully, with its exit code where the platform gives one.
    Success(Option<i32>),
    /// It exited unsuccessfully or was killed.
    Failure,
    /// Waiting for it failed, with the error's text.
    WaitError(String),
}

/// What the supervisor sends when the process ends: the status for the log
/// channel, the same status for the alert channel, and a restart pulse.
#[derive(Debug)]
pub struct ExitReport {
    pub log_status: ProcessStatus,
    pub alert_status: ProcessStatus,
    pub restart: bool,
}

pub open spec fn exit_status_spec(exit: ChildExit) -> ProcessStatus {
    match exit {
        ChildExit::Success(code) => ProcessStatus::Exited(
            match code {
                Some(c) => c,
                None => 0,
            },
        ),
        ChildExit::Failure => ProcessStatus::Crashed,
        ChildExit::WaitError(msg) => ProcessStatus::InternalError(msg),
    }
}

/// The report for an ended process: `Exited` with its code (zero where none is
/// given) after a success, `Crashed` after a failure, `InternalError` where
/// waiting failed; the same status on both channels, and always a restart.
pub fn exit_report(exit: ChildExit) -> (r: ExitReport)
    ensures
        r.log_status == exit_status_spec(exit),
        r.alert_status == exit_status_spec(exit),
        r.restart,
{
    let status = match exit {
        ChildExit::Success(code) => ProcessStatus::Exited(
            match code {
                Some(c) => c,
                None => 0,
            },
        ),
        ChildExit::Failure => ProcessStatus::Crashed,
        ChildExit::WaitError(msg) => ProcessStatus::InternalError(msg),
    };
    let alert_status = match &status {
        ProcessStatus::Exited(c) => ProcessStatus::Exited(*c),
        ProcessStatus::Crashed => ProcessStatus::Crashed,
        ProcessStatus::InternalError(m) => ProcessStatus::InternalError(m.clone()),
        ProcessStatus::Running => ProcessStatus::Running,
        ProcessStatus::Submitted(t) => ProcessStatus::Submitted(*t),
    };
    ExitReport { log_status: status, alert_status, restart: true }
}

/// The seconds the log channel pauses after a status, to let the node restart.
pub const RESTART_PAUSE_SECS: u64 = 5;

/// How long the log channel pauses after `status`: a while after the process
/// ended in any way, not at all otherwise.
pub fn log_pause_secs(status: &ProcessStatus) -> (r: u64)
    ensures
        r == (if status is Exited || status is Crashed || status is InternalError {
            RESTART_PAUSE_SECS
        } else {
            0
        }),
{
    match status {
        ProcessStatus::Exited(_) | ProcessStatus::Crashed | ProcessStatus::InternalError(_) => RESTART_PAUSE_SECS,
        ProcessStatus::Running | ProcessStatus::Submitted(_) => 0,
    }
}

/// Whether `status` is a heartbeat for the alert channels rather than an alert.
pub fn is_heartbeat(status: &ProcessStatus) -> (r: bool)
    ensures
        r == (status is Running),
{
    match status {
        ProcessStatus::Running => true,
        _ => false,
    }
}

} // verus!
