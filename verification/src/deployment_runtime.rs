//! The execution of a deployment unit: its release, its environment, its steps on each node, and
//! what is reported of them.

pub mod environment;
pub mod error;
pub mod log_writer;
pub mod node;
pub mod release;
pub mod unit;

pub use environment::{
    environment_variables, execution_environment, render_environment_file, secrets_of,
    validate_environment_variables,
};
pub use error::{
    ensure_not_canceled, failure_line, merge_execution_and_cleanup, merge_execution_and_log_finish,
    merge_execution_and_output_finish, redact_node_execution_result, redact_runtime_error,
    unit_outcome, DeploymentRuntimeError, RuntimeFault, UnitExecutionOutcome,
    UnitNodeExecutionResult,
};
pub use log_writer::{
    account_queued, barrier_result, flush_outcome, log_chunks,
    DEPLOYMENT_LOG_CHECKPOINT_INTERVAL_MILLIS, DEPLOYMENT_LOG_CHECKPOINT_TIMEOUT_MILLIS,
    DEPLOYMENT_LOG_FLUSH_BYTES, DEPLOYMENT_LOG_FLUSH_INTERVAL_MILLIS,
    DEPLOYMENT_LOG_TRUNCATED_CHECKPOINT_INTERVAL_MILLIS, DEPLOYMENT_LOG_WRITER_CAPACITY,
    DEPLOYMENT_LOG_WRITER_CHUNK_BYTES, BarrierOutcome, CheckpointOutcome, DeploymentLogWriter,
    FlushOutcome, QueueOutcome, WriterState,
};
pub use node::{
    accept_sync_output, begin_node_health_check, command_summary, endpoint_health_result,
    execute_prepared_unit_on_node, finish_node_health_check, node_target,
    normalized_unit_health_check, remote_file_paths, result_from_output, run_compose_action,
    run_script, script_relative_path, sort_runtime_files, unit_environment,
    validated_target_work_dir, ByRelativePath, HealthCheckLine, NodeExecution, NodeHealthCheck,
    NodeHealthResult, NodeStep, NodeSummaries, NodeVerdict, StartedNode, StepOutcome,
};
pub use release::{
    accept_download_status, check_package_checksum, check_package_size, download_root,
    downloaded_release, load_release, needs_download, package_source, plan_release_download,
    plan_release_download_at, release_to_load, safe_package_name, PackageSource, ReleaseDownload,
    ReleaseReceiving, UnitReleaseSpec,
};
pub use unit::{
    accept_identity, accept_target_node, ensure_target_nodes, ensure_unit_belongs, find_unit,
    has_script_for, load_unit_spec, prepare_unit_runtime, script_file_name, unit_root,
    ConfigRevision, ConfigUnit, DeploymentTargetNode, ExecutionIdentity, PreparedUnitRuntime,
    RuntimeFile, ScriptSlot, UnitExecutionSpec, UnitHealthCheck,
};
