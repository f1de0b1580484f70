//! What the console shows of the deployments of an application.

use vstd::prelude::*;

verus! {

#[derive(Debug, Clone, PartialEq, Eq)]
pub struct ApplicationEnvironmentSummary {
    pub app_id: i64,
    pub environment_id: i64,
    pub environment_key: String,
    pub environment_name: String,
    pub environment_status: String,
    pub runtime_status: String,
    pub last_deployment_status: String,
    pub latest_release_id: Option<i64>,
    pub latest_version: Option<String>,
    pub latest_version_code: Option<i64>,
    pub active_run_id: Option<i64>,
    pub active_task_id: Option<i64>,
    pub active_run_status: Option<String>,
    pub unit_count: i64,
    pub target_count: i64,
}

#[derive(Debug, Clone, PartialEq, Eq)]
pub struct DeploymentUnitSummary {
    pub unit_id: i64,
    pub unit_key: String,
    pub unit_name: String,
    pub description: String,
    pub lifecycle_status: String,
    pub required: i64,
    pub work_dir: String,
    pub stage_no: i64,
    pub stage_name: String,
    pub unit_order: i64,
    pub latest_release_id: Option<i64>,
    pub latest_version: Option<String>,
    pub latest_version_code: Option<i64>,
    pub node_count: i64,
    pub healthy_count: i64,
    pub unhealthy_count: i64,
    pub deploying_count: i64,
    pub stopped_count: i64,
}

#[derive(Debug, Clone, PartialEq, Eq)]
pub struct ApplicationReleaseSummary {
    pub release_id: i64,
    pub version: String,
    pub version_code: i64,
    pub status: String,
    pub immutable_status: String,
    pub unit_count: i64,
    pub created_at: String,
}

#[derive(Debug, Clone, PartialEq, Eq)]
pub struct DeploymentRunSummary {
    pub run_id: i64,
    pub task_id: Option<i64>,
    pub environment_id: i64,
    pub environment_name: String,
    pub release_id: i64,
    pub release_version: String,
    pub release_version_code: i64,
    pub deployment_mode: String,
    pub status: String,
    pub summary: String,
    pub success_count: i64,
    pub failed_count: i64,
    pub skipped_count: i64,
    pub pending_count: i64,
    pub created_at: String,
    pub started_at: Option<String>,
    pub finished_at: Option<String>,
}

#[derive(Debug, Clone, PartialEq, Eq)]
pub struct DeploymentRunDetailSummary {
    pub run_id: i64,
    pub app_id: i64,
    pub app_name: String,
    pub app_key: String,
    pub task_id: Option<i64>,
    pub task_title: Option<String>,
    pub environment_id: i64,
    pub environment_name: String,
    pub environment_key: String,
    pub release_id: i64,
    pub release_version: String,
    pub release_version_code: i64,
    pub config_revision_no: i64,
    pub deployment_mode: String,
    pub status: String,
    pub summary: String,
    pub created_by: String,
    pub plan_hash: String,
    pub snapshot_status: String,
    pub snapshot_deleted_at: Option<String>,
    pub snapshot_bytes: i64,
    pub log_bytes: i64,
    pub log_dropped_bytes: i64,
    pub log_truncated: bool,
    pub replayable: bool,
    pub created_at: String,
    pub started_at: Option<String>,
    pub finished_at: Option<String>,
}

#[derive(Debug, Clone, PartialEq, Eq)]
pub struct DeploymentUnitRunResultDetail {
    pub result_id: i64,
    pub unit_id: i64,
    pub unit_key: String,
    pub unit_name: String,
    pub unit_release_id: Option<i64>,
    pub release_version: Option<String>,
    pub release_version_code: Option<i64>,
    pub artifact_status: Option<String>,
    pub artifact_size_bytes: Option<i64>,
    pub stage_no: i64,
    pub action: String,
    pub status: String,
    pub failure_kind: String,
    pub failure_summary: String,
    pub exit_code: Option<i64>,
    pub started_at: Option<String>,
    pub finished_at: Option<String>,
}

#[derive(Debug, Clone, PartialEq, Eq)]
pub struct DeploymentRunDetail {
    pub run: DeploymentRunDetailSummary,
    pub units: Vec<DeploymentUnitRunResultDetail>,
}

#[derive(Debug, Clone, PartialEq, Eq)]
pub struct ApplicationDeploymentDetail {
    pub environments: Vec<ApplicationEnvironmentSummary>,
    pub units: Vec<DeploymentUnitSummary>,
    pub releases: Vec<ApplicationReleaseSummary>,
    pub runs: Vec<DeploymentRunSummary>,
}

/// How many rows a list shows: at least one and at most a hundred.
pub open spec fn list_limit(limit: i64) -> i64 {
    if limit < 1 {
        1
    } else if limit > 100 {
        100
    } else {
        limit
    }
}

pub fn bounded_limit(limit: i64) -> (bounded: i64)
    ensures
        bounded == list_limit(limit),
{
    if limit < 1 {
        1
    } else if limit > 100 {
        100
    } else {
        limit
    }
}

/// Some environment has the identifier.
pub open spec fn has_environment(
    environments: Seq<ApplicationEnvironmentSummary>,
    id: i64,
) -> bool {
    exists|i: int|
        0 <= i < environments.len() && (#[trigger] environments[i]).environment_id == id
}

/// The environment that is shown: the selected one where it belongs to the application, else the
/// first.
pub open spec fn shown_environment(
    environments: Seq<ApplicationEnvironmentSummary>,
    selected: Option<i64>,
) -> Option<i64> {
    if selected is Some && has_environment(environments, selected->0) {
        selected
    } else if environments.len() > 0 {
        Some(environments[0].environment_id)
    } else {
        None
    }
}

pub fn select_environment(
    environments: &Vec<ApplicationEnvironmentSummary>,
    selected: Option<i64>,
) -> (shown: Option<i64>)
    ensures
        shown == shown_environment(environments@, selected),
{
    match selected {
        Some(id) => {
            let mut i: usize = 0;
            while i < environments.len()
                invariant
                    i <= environments@.len(),
                    selected == Some(id),
                    forall|k: int| 0 <= k < i ==> (#[trigger] environments@[k]).environment_id != id,
                decreases environments@.len() - i,
            {
                if environments[i].environment_id == id {
                    return Some(id);
                }
                i = i + 1;
            }
        },
        None => {},
    }
    if environments.len() > 0 {
        Some(environments[0].environment_id)
    } else {
        None
    }
}

/// An environment of another application is never shown.
pub proof fn shown_environments_belong_to_the_application(
    environments: Seq<ApplicationEnvironmentSummary>,
    selected: Option<i64>,
)
    ensures
        match shown_environment(environments, selected) {
            Some(id) => has_environment(environments, id),
            None => environments.len() == 0,
        },
{
    if environments.len() > 0 {
        assert(has_environment(environments, environments[0].environment_id));
    }
}

/// A list holds one entry at least and a hundred at most; between, as many as asked for.
pub proof fn lists_hold_a_hundred_entries_at_most(limit: i64)
    ensures
        1 <= list_limit(limit) <= 100,
        1 <= limit <= 100 ==> list_limit(limit) == limit,
        limit < 1 ==> list_limit(limit) == 1,
        limit > 100 ==> list_limit(limit) == 100,
{
}

/// The environment that was selected is shown if it belongs to the application; otherwise the first
/// one is.
pub proof fn the_selected_environment_is_shown(
    environments: Seq<ApplicationEnvironmentSummary>,
    selected: i64,
    at: int,
)
    requires
        0 <= at < environments.len(),
    ensures
        shown_environment(environments, Some(environments[at].environment_id)) == Some(
            environments[at].environment_id,
        ),
        shown_environment(environments, None) == Some(environments[0].environment_id),
        (forall|i: int|
            0 <= i < environments.len() ==> (#[trigger] environments[i]).environment_id != selected)
            ==> shown_environment(environments, Some(selected)) == Some(
            environments[0].environment_id,
        ),
{
    assert(has_environment(environments, environments[at].environment_id));
}

} // verus!
