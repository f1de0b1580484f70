//! What is kept of deployments: bounded and redacted logs, and the rules by which releases,
//! artifacts and histories are removed.

pub mod cleanup;
pub mod deletion;
pub mod log_buffer;
pub mod redaction;
pub mod step_log;

pub use cleanup::{
    admit_history_delete, admit_log_delete, admit_snapshot_delete,
    application_release_cleanup_preview, archive_application_release, artifact_cleanup_preview,
    delete_application_release, deployment_history_delete_preview, finish_artifact_cleanup,
    finish_history_delete, finish_log_delete, finish_release_delete, finish_snapshot_delete,
    history_delete_event, insert_cleanup_event, start_artifact_cleanup, truncate_cleanup_error,
    ApplicationReleaseCleanupPreview, ApplicationReleaseRecord, ApplicationReleaseReferences,
    ArtifactCleanupPreview, ArtifactCleanupResult, ArtifactRecord, ArtifactReferences,
    CleanupEvent, DeploymentHistoryDeletePreview, DeploymentHistoryDeleteResult,
    DeploymentRetentionError, DeploymentRunRecord,
};
pub use deletion::{
    check_local_path, local_candidate, local_removal, plan_artifact_deletion, ArtifactDeletion,
    ArtifactDeletionTarget, LocalPathKind, LocalRemoval,
};
pub use log_buffer::{
    BoundedLogBuffer, BoundedLogSnapshot, BoundedTaskLogPreview, BudgetState, BufferState,
    TaskLogBudget,
};
pub use redaction::{
    is_assignment_terminator, redact_log_text, sensitive_assignment_prefix, MIN_OVERLAP,
    RedactorState, Scan, StreamingRedactor,
};
pub use step_log::{
    live_preview, select_task_previews, stored_preview, task_budget, DEFAULT_STEP_LOG_HEAD_BYTES,
    DEFAULT_STEP_LOG_TAIL_BYTES, DEFAULT_TASK_LOG_BYTES, TASK_LOG_PREVIEW_HEAD_BYTES,
    TASK_LOG_PREVIEW_MAX_STEPS, TASK_LOG_PREVIEW_TAIL_BYTES, ActiveStepLog, StoredPreview,
    StoredStepLog, StoredTaskBudget,
};
