//! What the application is started with, and how the end of its tasks is
//! told.
use vstd::prelude::*;
use vstd::string::StringExecFns;

verus! {

/// The address under which the application is reached from outside, as it
/// is written into the links of emails.
#[derive(Debug)]
pub struct ApplicationBaseUrl(pub String);

/// How a task of the application ended.
#[derive(Debug)]
pub enum TaskExit {
    /// The task returned without a failure.
    Exited,
    /// The task returned a failure: what it says, and the chain of its
    /// causes.
    Failed { message: String, cause_chain: String },
    /// The task did not run to its end: what is said of that, and the chain
    /// of its causes.
    Aborted { message: String, cause_chain: String },
}

/// How much an entry of the log matters.
#[derive(Debug, Clone, Copy, PartialEq, Eq, Structural)]
pub enum Severity {
    Info,
    Error,
}

/// An entry of the log about the end of a task.
#[derive(Debug)]
pub struct ExitReport {
    pub severity: Severity,
    pub message: String,
    pub error_message: Option<String>,
    pub error_cause_chain: Option<String>,
}

/// What is written about the task named `task_name` when it ends well.
pub open spec fn exited_message(task_name: Seq<char>) -> Seq<char> {
    task_name + " has exited"@
}

/// What is written about the task named `task_name` when it fails.
pub open spec fn failed_message(task_name: Seq<char>) -> Seq<char> {
    task_name + " failed"@
}

/// What is written about the task named `task_name` when it does not run to
/// its end.
pub open spec fn aborted_message(task_name: Seq<char>) -> Seq<char> {
    "'"@ + task_name + "' task failed to complete"@
}

/// The text of an optional string.
pub open spec fn text_of(s: Option<String>) -> Option<Seq<char>> {
    match s {
        Some(text) => Some(text@),
        None => None,
    }
}

/// The entry of the log for the end of the task named `task_name`: a note
/// where it ended well, an error with the failure and its causes where it
/// did not.
pub fn report_exit(task_name: &str, outcome: TaskExit) -> (report: ExitReport)
    ensures
        match outcome {
            TaskExit::Exited => {
                &&& report.severity == Severity::Info
                &&& report.message@ == exited_message(task_name@)
                &&& report.error_message is None
                &&& report.error_cause_chain is None
            },
            TaskExit::Failed { message, cause_chain } => {
                &&& report.severity == Severity::Error
                &&& report.message@ == failed_message(task_name@)
                &&& text_of(report.error_message) == Some(message@)
                &&& text_of(report.error_cause_chain) == Some(cause_chain@)
            },
            TaskExit::Aborted { message, cause_chain } => {
                &&& report.severity == Severity::Error
                &&& report.message@ == aborted_message(task_name@)
                &&& text_of(report.error_message) == Some(message@)
                &&& text_of(report.error_cause_chain) == Some(cause_chain@)
            },
        },
{
    match outcome {
        TaskExit::Exited => ExitReport {
            severity: Severity::Info,
            message: String::from_str(task_name).concat(" has exited"),
            error_message: None,
            error_cause_chain: None,
        },
        TaskExit::Failed { message, cause_chain } => ExitReport {
            severity: Severity::Error,
            message: String::from_str(task_name).concat(" failed"),
            error_message: Some(message),
            error_cause_chain: Some(cause_chain),
        },
        TaskExit::Aborted { message, cause_chain } => ExitReport {
            severity: Severity::Error,
            message: String::from_str("'").concat(task_name).concat("' task failed to complete"),
            error_message: Some(message),
            error_cause_chain: Some(cause_chain),
        },
    }
}

} // verus!
