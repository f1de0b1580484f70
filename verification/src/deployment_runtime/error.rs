//! Errors and results of an execution, and how they are brought together.

use vstd::prelude::*;

use crate::deploy::inputs::{DeployError, DeployFault};
use crate::deployment_retention::cleanup::DeploymentRetentionError;
use crate::deployment_retention::log_buffer::BoundedLogSnapshot;
use crate::deployment_retention::redaction::{redact_log_text, redacted_text};
use crate::text::texts;

verus! {

#[derive(Debug, Clone, PartialEq, Eq)]
pub enum DeploymentRuntimeError {
    Validation(String),
    NotFound(String),
    Config(String),
    Database(String),
    Canceled(String),
}

/// An error as a mathematical value.
pub enum RuntimeFault {
    Validation(Seq<char>),
    NotFound(Seq<char>),
    Config(Seq<char>),
    Database(Seq<char>),
    Canceled(Seq<char>),
}

impl View for DeploymentRuntimeError {
    type V = RuntimeFault;

    open spec fn view(&self) -> RuntimeFault {
        match self {
            DeploymentRuntimeError::Validation(message) => RuntimeFault::Validation(message@),
            DeploymentRuntimeError::NotFound(message) => RuntimeFault::NotFound(message@),
            DeploymentRuntimeError::Config(message) => RuntimeFault::Config(message@),
            DeploymentRuntimeError::Database(message) => RuntimeFault::Database(message@),
            DeploymentRuntimeError::Canceled(message) => RuntimeFault::Canceled(message@),
        }
    }
}

impl RuntimeFault {
    pub open spec fn text(self) -> Seq<char> {
        match self {
            RuntimeFault::Validation(message) => message,
            RuntimeFault::NotFound(message) => message,
            RuntimeFault::Config(message) => message,
            RuntimeFault::Database(message) => message,
            RuntimeFault::Canceled(message) => message,
        }
    }

    /// The same kind of error with another text.
    pub open spec fn with_text(self, text: Seq<char>) -> RuntimeFault {
        match self {
            RuntimeFault::Validation(_) => RuntimeFault::Validation(text),
            RuntimeFault::NotFound(_) => RuntimeFault::NotFound(text),
            RuntimeFault::Config(_) => RuntimeFault::Config(text),
            RuntimeFault::Database(_) => RuntimeFault::Database(text),
            RuntimeFault::Canceled(_) => RuntimeFault::Canceled(text),
        }
    }
}

/// What a failed command means for an execution.
pub open spec fn from_deploy_fault(fault: DeployFault) -> RuntimeFault {
    match fault {
        DeployFault::Canceled(message) => RuntimeFault::Canceled(message),
        DeployFault::InvalidInput(message) => RuntimeFault::Validation(message),
        DeployFault::Command(message) => RuntimeFault::Validation(message),
    }
}

impl DeploymentRuntimeError {
    pub fn message(&self) -> (message: &str)
        ensures
            message@ == self@.text(),
    {
        match self {
            DeploymentRuntimeError::Validation(message) => message.as_str(),
            DeploymentRuntimeError::NotFound(message) => message.as_str(),
            DeploymentRuntimeError::Config(message) => message.as_str(),
            DeploymentRuntimeError::Database(message) => message.as_str(),
            DeploymentRuntimeError::Canceled(message) => message.as_str(),
        }
    }

    pub fn from_deploy(error: DeployError) -> (mapped: DeploymentRuntimeError)
        ensures
            mapped@ == from_deploy_fault(error@),
    {
        match error {
            DeployError::Canceled(message) => DeploymentRuntimeError::Canceled(message),
            DeployError::InvalidInput(message) => DeploymentRuntimeError::Validation(message),
            DeployError::Command(message) => DeploymentRuntimeError::Validation(message),
        }
    }
}

pub(crate) fn validation(message: &str) -> (error: DeploymentRuntimeError)
    ensures
        error@ == RuntimeFault::Validation(message@),
{
    DeploymentRuntimeError::Validation(message.to_owned())
}

pub(crate) fn not_found(message: &str) -> (error: DeploymentRuntimeError)
    ensures
        error@ == RuntimeFault::NotFound(message@),
{
    DeploymentRuntimeError::NotFound(message.to_owned())
}

pub(crate) fn config_error(message: &str) -> (error: DeploymentRuntimeError)
    ensures
        error@ == RuntimeFault::Config(message@),
{
    DeploymentRuntimeError::Config(message.to_owned())
}

/// An error, where there is one.
pub open spec fn runtime_fault(result: Result<(), DeploymentRuntimeError>) -> Option<RuntimeFault> {
    match result {
        Ok(_) => None,
        Err(error) => Some(error@),
    }
}

/// A text or an error as a mathematical value.
pub open spec fn runtime_outcome(result: Result<String, DeploymentRuntimeError>) -> Result<
    Seq<char>,
    RuntimeFault,
> {
    match result {
        Ok(text) => Ok(text@),
        Err(error) => Err(error@),
    }
}

/// Refuses to go on with an execution that was canceled.
pub fn ensure_not_canceled(canceled: bool) -> (result: Result<(), DeploymentRuntimeError>)
    ensures
        runtime_fault(result) == (if canceled {
            Some(RuntimeFault::Canceled("部署取消请求已生效，停止执行当前单元"@))
        } else {
            None
        }),
{
    if canceled {
        Err(
            DeploymentRuntimeError::Canceled(
                "部署取消请求已生效，停止执行当前单元".to_owned(),
            ),
        )
    } else {
        Ok(())
    }
}

/// What came of a unit on one node.
#[derive(Debug, Clone)]
pub struct UnitNodeExecutionResult {
    pub success: bool,
    pub summary: String,
}

// ---------------------------------------------------------------------------
// Redaction
// ---------------------------------------------------------------------------

/// The error without the secrets.
pub fn redact_runtime_error(error: DeploymentRuntimeError, secrets: &Vec<String>) -> (redacted:
    DeploymentRuntimeError)
    ensures
        redacted@ == error@.with_text(redacted_text(texts(secrets@), error@.text())),
{
    let message = redact_log_text(secrets, error.message());
    match error {
        DeploymentRuntimeError::Validation(_) => DeploymentRuntimeError::Validation(message),
        DeploymentRuntimeError::NotFound(_) => DeploymentRuntimeError::NotFound(message),
        DeploymentRuntimeError::Config(_) => DeploymentRuntimeError::Config(message),
        DeploymentRuntimeError::Database(_) => DeploymentRuntimeError::Database(message),
        DeploymentRuntimeError::Canceled(_) => DeploymentRuntimeError::Canceled(message),
    }
}

/// The result without the secrets.
pub fn redact_node_execution_result(result: UnitNodeExecutionResult, secrets: &Vec<String>) -> (
    redacted: UnitNodeExecutionResult)
    ensures
        redacted.success == result.success,
        redacted.summary@ == redacted_text(texts(secrets@), result.summary@),
{
    UnitNodeExecutionResult {
        success: result.success,
        summary: redact_log_text(secrets, result.summary.as_str()),
    }
}

// ---------------------------------------------------------------------------
// Bringing outcomes together
// ---------------------------------------------------------------------------

/// The outcome of an execution and of what follows it. A failure of what follows does not hide a
/// cancellation; with any other failure it is reported together.
pub open spec fn merged_with(
    result: Result<Seq<char>, RuntimeFault>,
    later: Option<RuntimeFault>,
    appended: Seq<char>,
    failed: Seq<char>,
    between: Seq<char>,
) -> Result<Seq<char>, RuntimeFault> {
    match (result, later) {
        (_, None) => result,
        (Ok(_), Some(fault)) => Err(fault),
        (Err(RuntimeFault::Canceled(message)), Some(fault)) => Err(
            RuntimeFault::Canceled(message + appended + fault.text()),
        ),
        (Err(error), Some(fault)) => Err(
            RuntimeFault::Database(failed + error.text() + between + fault.text()),
        ),
    }
}

fn merge(
    result: Result<String, DeploymentRuntimeError>,
    later: Result<(), DeploymentRuntimeError>,
    appended: &str,
    failed: &str,
    between: &str,
) -> (merged: Result<String, DeploymentRuntimeError>)
    ensures
        runtime_outcome(merged) == merged_with(
            runtime_outcome(result),
            runtime_fault(later),
            appended@,
            failed@,
            between@,
        ),
{
    match later {
        Ok(_) => result,
        Err(fault) => match result {
            Ok(_) => Err(fault),
            Err(DeploymentRuntimeError::Canceled(message)) => Err(
                DeploymentRuntimeError::Canceled(
                    message.concat(appended).concat(fault.message()),
                ),
            ),
            Err(error) => Err(
                DeploymentRuntimeError::Database(
                    failed.to_owned().concat(error.message()).concat(between).concat(
                        fault.message(),
                    ),
                ),
            ),
        },
    }
}

/// The outcome of an execution and of the end of its redacted output.
pub fn merge_execution_and_output_finish(
    result: Result<String, DeploymentRuntimeError>,
    finish: Result<(), DeploymentRuntimeError>,
) -> (merged: Result<String, DeploymentRuntimeError>)
    ensures
        runtime_outcome(merged) == merged_with(
            runtime_outcome(result),
            runtime_fault(finish),
            "；部署日志脱敏收口失败："@,
            "部署失败："@,
            "；部署日志脱敏收口失败："@,
        ),
{
    merge(
        result,
        finish,
        "；部署日志脱敏收口失败：",
        "部署失败：",
        "；部署日志脱敏收口失败：",
    )
}

/// The outcome of an execution and of the removal of its temporary files.
pub fn merge_execution_and_cleanup(
    result: Result<String, DeploymentRuntimeError>,
    cleanup: Result<(), DeploymentRuntimeError>,
) -> (merged: Result<String, DeploymentRuntimeError>)
    ensures
        runtime_outcome(merged) == merged_with(
            runtime_outcome(result),
            runtime_fault(cleanup),
            "；staging 清理失败："@,
            "deployment failed: "@,
            "; staging cleanup failed: "@,
        ),
{
    merge(
        result,
        cleanup,
        "；staging 清理失败：",
        "deployment failed: ",
        "; staging cleanup failed: ",
    )
}

/// The outcome of an execution and of the end of its log.
pub fn merge_execution_and_log_finish(
    result: Result<String, DeploymentRuntimeError>,
    finish: Result<BoundedLogSnapshot, DeploymentRetentionError>,
) -> (merged: Result<String, DeploymentRuntimeError>)
    ensures
        runtime_outcome(merged) == merged_with(
            runtime_outcome(result),
            match finish {
                Ok(_) => None,
                Err(error) => if result is Ok {
                    Some(
                        RuntimeFault::Database(
                            "部署完成，但步骤日志收口失败："@ + error.text(),
                        ),
                    )
                } else {
                    Some(RuntimeFault::Database(error.text()))
                },
            },
            "；步骤日志收口失败："@,
            "部署失败："@,
            "；步骤日志收口失败："@,
        ),
{
    let later = match finish {
        Ok(_) => Ok(()),
        Err(error) => {
            if result.is_ok() {
                Err(
                    DeploymentRuntimeError::Database(
                        "部署完成，但步骤日志收口失败：".to_owned().concat(error.message()),
                    ),
                )
            } else {
                Err(DeploymentRuntimeError::Database(error.message().to_owned()))
            }
        },
    };
    merge(
        result,
        later,
        "；步骤日志收口失败：",
        "部署失败：",
        "；步骤日志收口失败：",
    )
}

// ---------------------------------------------------------------------------
// What is reported of a unit
// ---------------------------------------------------------------------------

/// What is reported of the execution of a unit.
#[derive(Debug, Clone)]
pub enum UnitExecutionOutcome {
    Success { summary: String },
    Failed { failure_kind: String, summary: String, exit_code: Option<i32> },
    CanceledUnknown { summary: String },
}

/// The kind of a failure.
pub open spec fn failure_kind(fault: RuntimeFault) -> Seq<char> {
    match fault {
        RuntimeFault::Validation(_) => "validation"@,
        RuntimeFault::NotFound(_) => "resource_not_found"@,
        RuntimeFault::Config(_) => "config_error"@,
        RuntimeFault::Database(_) => "database_error"@,
        RuntimeFault::Canceled(_) => "canceled"@,
    }
}

/// What is reported of the execution of a unit: after a cancellation nothing is known of what
/// runs.
pub fn unit_outcome(result: Result<String, DeploymentRuntimeError>) -> (outcome:
    UnitExecutionOutcome)
    ensures
        match (runtime_outcome(result), outcome) {
            (Ok(text), UnitExecutionOutcome::Success { summary }) => summary@ == text,
            (
                Err(RuntimeFault::Canceled(text)),
                UnitExecutionOutcome::CanceledUnknown { summary },
            ) => summary@ == text,
            (
                Err(fault),
                UnitExecutionOutcome::Failed { failure_kind: kind, summary, exit_code },
            ) => {
                &&& !(fault is Canceled)
                &&& kind@ == failure_kind(fault)
                &&& summary@ == fault.text()
                &&& exit_code is None
            },
            _ => false,
        },
{
    match result {
        Ok(summary) => UnitExecutionOutcome::Success { summary },
        Err(DeploymentRuntimeError::Canceled(summary)) => UnitExecutionOutcome::CanceledUnknown {
            summary,
        },
        Err(DeploymentRuntimeError::Validation(summary)) => UnitExecutionOutcome::Failed {
            failure_kind: "validation".to_owned(),
            summary,
            exit_code: None,
        },
        Err(DeploymentRuntimeError::NotFound(summary)) => UnitExecutionOutcome::Failed {
            failure_kind: "resource_not_found".to_owned(),
            summary,
            exit_code: None,
        },
        Err(DeploymentRuntimeError::Config(summary)) => UnitExecutionOutcome::Failed {
            failure_kind: "config_error".to_owned(),
            summary,
            exit_code: None,
        },
        Err(DeploymentRuntimeError::Database(summary)) => UnitExecutionOutcome::Failed {
            failure_kind: "database_error".to_owned(),
            summary,
            exit_code: None,
        },
    }
}

/// The line that a log shows of a failed execution.
pub fn failure_line(error: &DeploymentRuntimeError) -> (line: String)
    ensures
        line@ == "部署执行失败："@ + error@.text() + "\n"@,
{
    "部署执行失败：".to_owned().concat(error.message()).concat("\n")
}

// ---------------------------------------------------------------------------
// Laws
// ---------------------------------------------------------------------------

/// A cancellation stays a cancellation, whatever fails after it, and its text is kept.
pub proof fn cancellations_are_not_hidden(
    message: Seq<char>,
    later: Option<RuntimeFault>,
    appended: Seq<char>,
    failed: Seq<char>,
    between: Seq<char>,
)
    ensures
        ({
            let merged = merged_with(
                Err(RuntimeFault::Canceled(message)),
                later,
                appended,
                failed,
                between,
            );
            &&& merged is Err
            &&& merged->Err_0 is Canceled
            &&& message.is_prefix_of(merged->Err_0.text())
        }),
{
    if later is Some {
        let text = message + appended + later->0.text();
        assert(message =~= text.subrange(0, message.len() as int));
    } else {
        assert(message =~= message.subrange(0, message.len() as int));
    }
}

/// An execution that is followed by a failure is never reported as a success.
pub proof fn later_failures_are_reported(
    result: Result<Seq<char>, RuntimeFault>,
    later: RuntimeFault,
    appended: Seq<char>,
    failed: Seq<char>,
    between: Seq<char>,
)
    ensures
        merged_with(result, Some(later), appended, failed, between) is Err,
        later.text().is_suffix_of(
            merged_with(result, Some(later), appended, failed, between)->Err_0.text(),
        ),
{
    let merged = merged_with(result, Some(later), appended, failed, between)->Err_0.text();
    assert(later.text() =~= merged.subrange(
        merged.len() - later.text().len(),
        merged.len() as int,
    ));
}

/// To redact an error keeps its kind.
pub proof fn redaction_keeps_the_kind(fault: RuntimeFault, text: Seq<char>)
    ensures
        fault is Canceled <==> fault.with_text(text) is Canceled,
        fault is Validation <==> fault.with_text(text) is Validation,
        fault is NotFound <==> fault.with_text(text) is NotFound,
        fault is Config <==> fault.with_text(text) is Config,
        fault is Database <==> fault.with_text(text) is Database,
{
}

/// What goes wrong with a command is a fault of what was asked for, unless it was canceled.
pub proof fn canceled_commands_cancel_the_execution(fault: DeployFault)
    ensures
        from_deploy_fault(fault) is Canceled <==> fault is Canceled,
        from_deploy_fault(fault) is Validation <==> !(fault is Canceled),
        from_deploy_fault(fault).text() == fault.text(),
{
}

/// Without a later failure a result stays what it is; a success with one becomes it; and a failure
/// with one tells of both.
pub proof fn failures_are_told_together(
    result: Result<Seq<char>, RuntimeFault>,
    later: RuntimeFault,
    appended: Seq<char>,
    failed: Seq<char>,
    between: Seq<char>,
)
    ensures
        merged_with(result, None, appended, failed, between) == result,
        result is Ok ==> merged_with(result, Some(later), appended, failed, between) == Err::<
            Seq<char>,
            RuntimeFault,
        >(later),
        result matches Err(first) ==> !(first is Canceled) ==> merged_with(
            result,
            Some(later),
            appended,
            failed,
            between,
        ) == Err::<Seq<char>, RuntimeFault>(
            RuntimeFault::Database(failed + first.text() + between + later.text()),
        ),
        result matches Err(first) ==> first is Canceled ==> merged_with(
            result,
            Some(later),
            appended,
            failed,
            between,
        ) == Err::<Seq<char>, RuntimeFault>(
            RuntimeFault::Canceled(first.text() + appended + later.text()),
        ),
{
}

/// Kinds of failures have names of their own.
pub proof fn failures_are_told_apart(text: Seq<char>)
    ensures
        failure_kind(RuntimeFault::Validation(text)) == "validation"@,
        failure_kind(RuntimeFault::NotFound(text)) == "resource_not_found"@,
        failure_kind(RuntimeFault::Config(text)) == "config_error"@,
        failure_kind(RuntimeFault::Database(text)) == "database_error"@,
        failure_kind(RuntimeFault::Canceled(text)) == "canceled"@,
{
}

} // verus!
