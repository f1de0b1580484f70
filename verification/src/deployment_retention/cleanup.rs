//! The rules by which artifacts, application releases, deployment histories and logs are removed:
//! what stands in the way, what is answered to a request, and what is recorded of it.

use vstd::prelude::*;

use crate::decimal::{integer_text, natural_text, decimal, signed_decimal};
use crate::pieces::{cut_to, first_chars, join, joined};
use crate::text::{lemma_texts_push, same_text, texts, trim, trimmed};

verus! {

#[derive(Debug, Clone, PartialEq, Eq)]
pub enum DeploymentRetentionError {
    NotFound(String),
    InvalidState(String),
    Database(String),
}

impl DeploymentRetentionError {
    pub open spec fn text(self) -> Seq<char> {
        match self {
            DeploymentRetentionError::NotFound(message) => message@,
            DeploymentRetentionError::InvalidState(message) => message@,
            DeploymentRetentionError::Database(message) => message@,
        }
    }

    pub fn message(&self) -> (message: &str)
        ensures
            message@ == self.text(),
    {
        match self {
            DeploymentRetentionError::NotFound(message) => message.as_str(),
            DeploymentRetentionError::InvalidState(message) => message.as_str(),
            DeploymentRetentionError::Database(message) => message.as_str(),
        }
    }
}

/// The error says that something does not exist.
pub open spec fn is_not_found(error: DeploymentRetentionError, message: Seq<char>) -> bool {
    error is NotFound && error.text() == message
}

/// The error says that the state does not permit the request.
pub open spec fn is_invalid_state(error: DeploymentRetentionError, message: Seq<char>) -> bool {
    error is InvalidState && error.text() == message
}

fn not_found(message: &str) -> (error: DeploymentRetentionError)
    ensures
        is_not_found(error, message@),
{
    DeploymentRetentionError::NotFound(message.to_owned())
}

fn invalid_state(message: String) -> (error: DeploymentRetentionError)
    ensures
        is_invalid_state(error, message@),
{
    DeploymentRetentionError::InvalidState(message)
}

// ---------------------------------------------------------------------------
// What stands in the way
// ---------------------------------------------------------------------------

/// The texts of the conditions that apply, in order.
pub open spec fn applying(conditions: Seq<(bool, Seq<char>)>) -> Seq<Seq<char>>
    decreases conditions.len(),
{
    if conditions.len() == 0 {
        Seq::empty()
    } else if conditions.last().0 {
        applying(conditions.drop_last()).push(conditions.last().1)
    } else {
        applying(conditions.drop_last())
    }
}

/// A text around a number.
pub open spec fn counted(before: Seq<char>, count: i64, after: Seq<char>) -> Seq<char> {
    before + signed_decimal(count as int) + after
}

fn counted_text(before: &str, count: i64, after: &str) -> (text: String)
    ensures
        text@ == counted(before@, count, after@),
{
    before.to_owned().concat(integer_text(count).as_str()).concat(after)
}

fn add_if(
    list: &mut Vec<String>,
    Ghost(conditions): Ghost<Seq<(bool, Seq<char>)>>,
    applies: bool,
    text: String,
)
    requires
        texts(old(list)@) == applying(conditions),
    ensures
        texts(final(list)@) == applying(conditions.push((applies, text@))),
{
    proof {
        let more = conditions.push((applies, text@));
        assert(more.drop_last() =~= conditions);
        lemma_texts_push(list@, text);
    }
    if applies {
        list.push(text);
    }
}

fn nonnegative(value: i64) -> (count: u64)
    ensures
        count == if value > 0 {
            value as int
        } else {
            0
        },
{
    if value > 0 {
        value as u64
    } else {
        0
    }
}

/// A count that a store keeps as a signed number.
pub open spec fn at_least_zero(value: i64) -> int {
    if value > 0 {
        value as int
    } else {
        0
    }
}

#[derive(Debug, Clone, PartialEq, Eq)]
pub struct ArtifactCleanupPreview {
    pub unit_release_id: i64,
    pub version: String,
    pub size_bytes: u64,
    pub artifact_status: String,
    pub blockers: Vec<String>,
}

/// What a store knows of the artifact of a unit release.
#[derive(Debug, Clone)]
pub struct ArtifactRecord {
    pub version: String,
    pub size_bytes: i64,
    pub artifact_status: String,
}

/// How often an artifact is referred to.
#[derive(Debug, Clone, Copy)]
pub struct ArtifactReferences {
    pub app_releases: i64,
    pub runtime_states: i64,
    pub snapshots: i64,
}

/// An artifact whose deletion may be started, repeated or resumed.
pub open spec fn artifact_can_be_deleted(status: Seq<char>) -> bool {
    status == "active"@ || status == "delete_failed"@ || status == "deleting"@
}

impl ArtifactCleanupPreview {
    pub open spec fn is_allowed(self) -> bool {
        self.blockers@.len() == 0 && artifact_can_be_deleted(self.artifact_status@)
    }

    pub fn allowed(&self) -> (allowed: bool)
        ensures
            allowed == self.is_allowed(),
    {
        let status = self.artifact_status.as_str();
        self.blockers.len() == 0 && (same_text(status, "active") || same_text(
            status,
            "delete_failed",
        ) || same_text(status, "deleting"))
    }
}

pub open spec fn artifact_conditions(references: ArtifactReferences) -> Seq<(bool, Seq<char>)> {
    seq![
        (
            references.app_releases > 0,
            counted("仍被 "@, references.app_releases, " 个应用版本引用"@),
        ),
        (
            references.runtime_states > 0,
            counted("仍被 "@, references.runtime_states, " 个环境运行状态引用"@),
        ),
        (
            references.snapshots > 0,
            counted("仍被 "@, references.snapshots, " 条可重放部署快照引用"@),
        ),
    ]
}

pub open spec fn artifact_blockers(references: ArtifactReferences) -> Seq<Seq<char>> {
    applying(artifact_conditions(references))
}

/// What would come of the removal of an artifact.
pub fn artifact_cleanup_preview(
    unit_release_id: i64,
    record: Option<ArtifactRecord>,
    references: ArtifactReferences,
) -> (result: Result<ArtifactCleanupPreview, DeploymentRetentionError>)
    ensures
        match (record, result) {
            (Some(known), Ok(preview)) => {
                &&& preview.unit_release_id == unit_release_id
                &&& preview.version@ == known.version@
                &&& preview.size_bytes == at_least_zero(known.size_bytes)
                &&& preview.artifact_status@ == known.artifact_status@
                &&& texts(preview.blockers@) == artifact_blockers(references)
            },
            (None, Err(error)) => is_not_found(error, "部署单元制品不存在"@),
            _ => false,
        },
{
    let known = match record {
        Some(known) => known,
        None => return Err(not_found("部署单元制品不存在")),
    };
    let mut blockers: Vec<String> = Vec::new();
    assert(texts(blockers@) =~= Seq::<Seq<char>>::empty());
    let first = counted_text("仍被 ", references.app_releases, " 个应用版本引用");
    let second = counted_text("仍被 ", references.runtime_states, " 个环境运行状态引用");
    let third = counted_text("仍被 ", references.snapshots, " 条可重放部署快照引用");
    let ghost none = Seq::<(bool, Seq<char>)>::empty();
    let ghost one = none.push((references.app_releases > 0, first@));
    let ghost two = one.push((references.runtime_states > 0, second@));
    add_if(&mut blockers, Ghost(none), references.app_releases > 0, first);
    add_if(&mut blockers, Ghost(one), references.runtime_states > 0, second);
    let ghost three = two.push((references.snapshots > 0, third@));
    add_if(&mut blockers, Ghost(two), references.snapshots > 0, third);
    assert(three =~= artifact_conditions(references));
    Ok(
        ArtifactCleanupPreview {
            unit_release_id,
            version: known.version,
            size_bytes: nonnegative(known.size_bytes),
            artifact_status: known.artifact_status,
            blockers,
        },
    )
}

#[derive(Debug, Clone, PartialEq, Eq)]
pub struct ApplicationReleaseCleanupPreview {
    pub app_release_id: i64,
    pub version: String,
    pub version_code: i64,
    pub immutable_status: String,
    pub estimated_bytes: u64,
    pub archive_blockers: Vec<String>,
    pub blockers: Vec<String>,
}

/// What a store knows of an application release.
#[derive(Debug, Clone)]
pub struct ApplicationReleaseRecord {
    pub version: String,
    pub version_code: i64,
    pub immutable_status: String,
    pub estimated_bytes: i64,
}

/// How often an application release is referred to.
#[derive(Debug, Clone, Copy)]
pub struct ApplicationReleaseReferences {
    pub current_environments: i64,
    pub active_runs: i64,
    pub deployment_runs: i64,
    pub active_queue: i64,
    pub queue: i64,
    pub tasks: i64,
    pub legacy_runs: i64,
    pub base_releases: i64,
}

impl ApplicationReleaseCleanupPreview {
    pub open spec fn is_archivable(self) -> bool {
        self.immutable_status@ == "ready"@ && self.archive_blockers@.len() == 0
    }

    pub open spec fn is_deletable(self) -> bool {
        self.immutable_status@ == "archived"@ && self.blockers@.len() == 0
    }

    pub fn can_archive(&self) -> (allowed: bool)
        ensures
            allowed == self.is_archivable(),
    {
        same_text(self.immutable_status.as_str(), "ready") && self.archive_blockers.len() == 0
    }

    pub fn can_delete(&self) -> (allowed: bool)
        ensures
            allowed == self.is_deletable(),
    {
        same_text(self.immutable_status.as_str(), "archived") && self.blockers.len() == 0
    }
}

pub open spec fn archive_conditions(references: ApplicationReleaseReferences) -> Seq<(bool, Seq<char>)> {
    seq![
        (
            references.current_environments > 0,
            counted("仍是 "@, references.current_environments, " 个环境的当前版本"@),
        ),
        (
            references.active_runs > 0,
            counted("仍被 "@, references.active_runs, " 个活动部署使用"@),
        ),
        (
            references.active_queue > 0,
            counted("仍有 "@, references.active_queue, " 条活动发布队列记录"@),
        ),
    ]
}

pub open spec fn archive_blockers(references: ApplicationReleaseReferences) -> Seq<Seq<char>> {
    applying(archive_conditions(references))
}

pub open spec fn release_conditions(references: ApplicationReleaseReferences) -> Seq<(bool, Seq<char>)> {
    seq![
        (
            references.current_environments > 0,
            counted("仍是 "@, references.current_environments, " 个环境的当前版本"@),
        ),
        (
            references.deployment_runs > 0,
            counted("仍被 "@, references.deployment_runs, " 条部署历史引用"@),
        ),
        (
            references.queue > 0,
            counted("仍被 "@, references.queue, " 条发布队列历史引用"@),
        ),
        (references.tasks > 0, counted("仍被 "@, references.tasks, " 条任务历史引用"@)),
        (
            references.legacy_runs > 0,
            counted("仍被 "@, references.legacy_runs, " 条兼容部署历史引用"@),
        ),
        (
            references.base_releases > 0,
            counted("仍是 "@, references.base_releases, " 个应用版本的继承基线"@),
        ),
    ]
}

pub open spec fn release_blockers(references: ApplicationReleaseReferences) -> Seq<Seq<char>> {
    applying(release_conditions(references))
}

/// What would come of the archiving or the removal of an application release.
pub fn application_release_cleanup_preview(
    app_release_id: i64,
    record: Option<ApplicationReleaseRecord>,
    references: ApplicationReleaseReferences,
) -> (result: Result<ApplicationReleaseCleanupPreview, DeploymentRetentionError>)
    ensures
        match (record, result) {
            (Some(known), Ok(preview)) => {
                &&& preview.app_release_id == app_release_id
                &&& preview.version@ == known.version@
                &&& preview.version_code == known.version_code
                &&& preview.immutable_status@ == known.immutable_status@
                &&& preview.estimated_bytes == at_least_zero(known.estimated_bytes)
                &&& texts(preview.archive_blockers@) == archive_blockers(references)
                &&& texts(preview.blockers@) == release_blockers(references)
            },
            (None, Err(error)) => is_not_found(error, "应用版本不存在"@),
            _ => false,
        },
{
    let known = match record {
        Some(known) => known,
        None => return Err(not_found("应用版本不存在")),
    };
    let current = counted_text("仍是 ", references.current_environments, " 个环境的当前版本");
    let current_again = current.clone();
    let active_runs = counted_text("仍被 ", references.active_runs, " 个活动部署使用");
    let active_queue = counted_text("仍有 ", references.active_queue, " 条活动发布队列记录");
    let runs = counted_text("仍被 ", references.deployment_runs, " 条部署历史引用");
    let queue = counted_text("仍被 ", references.queue, " 条发布队列历史引用");
    let tasks = counted_text("仍被 ", references.tasks, " 条任务历史引用");
    let legacy = counted_text("仍被 ", references.legacy_runs, " 条兼容部署历史引用");
    let base = counted_text("仍是 ", references.base_releases, " 个应用版本的继承基线");
    let ghost none = Seq::<(bool, Seq<char>)>::empty();
    let ghost first = none.push((references.current_environments > 0, current@));

    let mut archive: Vec<String> = Vec::new();
    assert(texts(archive@) =~= Seq::<Seq<char>>::empty());
    let ghost archive_two = first.push((references.active_runs > 0, active_runs@));
    add_if(&mut archive, Ghost(none), references.current_environments > 0, current);
    add_if(&mut archive, Ghost(first), references.active_runs > 0, active_runs);
    let ghost archive_three = archive_two.push((references.active_queue > 0, active_queue@));
    add_if(&mut archive, Ghost(archive_two), references.active_queue > 0, active_queue);
    assert(archive_three =~= archive_conditions(references));

    let mut blockers: Vec<String> = Vec::new();
    assert(texts(blockers@) =~= Seq::<Seq<char>>::empty());
    let ghost two = first.push((references.deployment_runs > 0, runs@));
    let ghost three = two.push((references.queue > 0, queue@));
    let ghost four = three.push((references.tasks > 0, tasks@));
    let ghost five = four.push((references.legacy_runs > 0, legacy@));
    add_if(&mut blockers, Ghost(none), references.current_environments > 0, current_again);
    add_if(&mut blockers, Ghost(first), references.deployment_runs > 0, runs);
    add_if(&mut blockers, Ghost(two), references.queue > 0, queue);
    add_if(&mut blockers, Ghost(three), references.tasks > 0, tasks);
    add_if(&mut blockers, Ghost(four), references.legacy_runs > 0, legacy);
    let ghost six = five.push((references.base_releases > 0, base@));
    add_if(&mut blockers, Ghost(five), references.base_releases > 0, base);
    assert(six =~= release_conditions(references));
    Ok(
        ApplicationReleaseCleanupPreview {
            app_release_id,
            version: known.version,
            version_code: known.version_code,
            immutable_status: known.immutable_status,
            estimated_bytes: nonnegative(known.estimated_bytes),
            archive_blockers: archive,
            blockers,
        },
    )
}

#[derive(Debug, Clone, PartialEq, Eq)]
pub struct DeploymentHistoryDeletePreview {
    pub deployment_run_id: i64,
    pub app_release_id: i64,
    pub task_id: Option<i64>,
    pub status: String,
    pub snapshot_status: String,
    pub log_reference_count: i64,
    pub unit_result_count: i64,
    pub queue_reference_count: i64,
    pub blockers: Vec<String>,
}

impl DeploymentHistoryDeletePreview {
    pub fn allowed(&self) -> (allowed: bool)
        ensures
            allowed == (self.blockers@.len() == 0),
    {
        self.blockers.len() == 0
    }
}

/// What a store knows of a deployment run.
#[derive(Debug, Clone)]
pub struct DeploymentRunRecord {
    pub app_release_id: i64,
    pub task_id: Option<i64>,
    pub status: String,
    pub snapshot_status: String,
}

/// A deployment that has not ended yet.
pub open spec fn is_active_run(status: Seq<char>) -> bool {
    status == "queued"@ || status == "running"@ || status == "reconciling"@
}

fn active_run(status: &str) -> (active: bool)
    ensures
        active == is_active_run(status@),
{
    same_text(status, "queued") || same_text(status, "running") || same_text(status, "reconciling")
}

pub open spec fn history_conditions(
    run: DeploymentRunRecord,
    log_references: i64,
    queue_references: i64,
) -> Seq<(bool, Seq<char>)> {
    seq![
        (is_active_run(run.status@), "部署仍处于 "@ + run.status@ + " 状态"@),
        (run.snapshot_status@ != "deleted"@, "请先清理配置与制品快照"@),
        (log_references > 0, "请先清理执行日志"@),
        (queue_references > 0, "关联发布队列仍处于活动状态"@),
    ]
}

pub open spec fn history_blockers(
    run: DeploymentRunRecord,
    log_references: i64,
    queue_references: i64,
) -> Seq<Seq<char>> {
    applying(history_conditions(run, log_references, queue_references))
}

/// A run without a task has no logs and no queue.
pub open spec fn task_count(task_id: Option<i64>, count: i64) -> i64 {
    if task_id is Some {
        count
    } else {
        0
    }
}

/// What would come of the removal of a deployment's history.
pub fn deployment_history_delete_preview(
    deployment_run_id: i64,
    record: Option<DeploymentRunRecord>,
    unit_results: i64,
    task_logs: i64,
    task_queue: i64,
) -> (result: Result<DeploymentHistoryDeletePreview, DeploymentRetentionError>)
    ensures
        match (record, result) {
            (Some(run), Ok(preview)) => {
                let logs = task_count(run.task_id, task_logs);
                let queue = task_count(run.task_id, task_queue);
                &&& preview.deployment_run_id == deployment_run_id
                &&& preview.app_release_id == run.app_release_id
                &&& preview.task_id == run.task_id
                &&& preview.status@ == run.status@
                &&& preview.snapshot_status@ == run.snapshot_status@
                &&& preview.log_reference_count == logs
                &&& preview.unit_result_count == unit_results
                &&& preview.queue_reference_count == queue
                &&& texts(preview.blockers@) == history_blockers(run, logs, queue)
            },
            (None, Err(error)) => is_not_found(error, "部署历史不存在"@),
            _ => false,
        },
{
    let run = match record {
        Some(run) => run,
        None => return Err(not_found("部署历史不存在")),
    };
    let has_task = run.task_id.is_some();
    let logs: i64 = if has_task {
        task_logs
    } else {
        0
    };
    let queue: i64 = if has_task {
        task_queue
    } else {
        0
    };
    let active = active_run(run.status.as_str());
    let kept = !same_text(run.snapshot_status.as_str(), "deleted");
    let state_text = "部署仍处于 ".to_owned().concat(run.status.as_str()).concat(" 状态");
    let mut blockers: Vec<String> = Vec::new();
    assert(texts(blockers@) =~= Seq::<Seq<char>>::empty());
    let ghost none = Seq::<(bool, Seq<char>)>::empty();
    let ghost one = none.push((active, state_text@));
    let ghost two = one.push((kept, "请先清理配置与制品快照"@));
    let ghost three = two.push((logs > 0, "请先清理执行日志"@));
    add_if(&mut blockers, Ghost(none), active, state_text);
    add_if(&mut blockers, Ghost(one), kept, "请先清理配置与制品快照".to_owned());
    add_if(&mut blockers, Ghost(two), logs > 0, "请先清理执行日志".to_owned());
    let ghost four = three.push((queue > 0, "关联发布队列仍处于活动状态"@));
    add_if(&mut blockers, Ghost(three), queue > 0, "关联发布队列仍处于活动状态".to_owned());
    assert(four =~= history_conditions(run, logs, queue));
    Ok(
        DeploymentHistoryDeletePreview {
            deployment_run_id,
            app_release_id: run.app_release_id,
            task_id: run.task_id,
            status: run.status,
            snapshot_status: run.snapshot_status,
            log_reference_count: logs,
            unit_result_count: unit_results,
            queue_reference_count: queue,
            blockers,
        },
    )
}

// ---------------------------------------------------------------------------
// What is recorded
// ---------------------------------------------------------------------------

/// An entry of the event log about a removal.
#[derive(Debug, Clone, PartialEq, Eq)]
pub struct CleanupEvent {
    pub event_type: String,
    pub level: String,
    pub target_type: String,
    pub target_id: String,
    pub target_name: String,
    pub title: String,
    pub summary: String,
    pub detail: String,
}

pub open spec fn is_cleanup_event(
    event: CleanupEvent,
    target_type: Seq<char>,
    target_id: i64,
    level: Seq<char>,
    title: Seq<char>,
    operator: Seq<char>,
    detail: Seq<char>,
) -> bool {
    &&& event.event_type@ == "deployment.cleanup"@
    &&& event.level@ == level
    &&& event.target_type@ == target_type
    &&& event.target_id@ == signed_decimal(target_id as int)
    &&& event.target_name@ == Seq::<char>::empty()
    &&& event.title@ == title
    &&& event.summary@ == "操作人："@ + trimmed(operator)
    &&& event.detail@ == detail
}

pub fn insert_cleanup_event(
    target_type: &str,
    target_id: i64,
    level: &str,
    title: &str,
    operator: &str,
    detail: &str,
) -> (event: CleanupEvent)
    ensures
        is_cleanup_event(event, target_type@, target_id, level@, title@, operator@, detail@),
{
    CleanupEvent {
        event_type: "deployment.cleanup".to_owned(),
        level: level.to_owned(),
        target_type: target_type.to_owned(),
        target_id: integer_text(target_id),
        target_name: String::new(),
        title: title.to_owned(),
        summary: "操作人：".to_owned().concat(trim(operator).as_str()),
        detail: detail.to_owned(),
    }
}

/// The first thousand characters of an error.
pub open spec fn short_error(error: Seq<char>) -> Seq<char> {
    cut_to(error, 1000)
}

pub fn truncate_cleanup_error(error: &str) -> (text: String)
    ensures
        text@ == short_error(error@),
{
    first_chars(error, 1000)
}

// ---------------------------------------------------------------------------
// Requests
// ---------------------------------------------------------------------------

#[derive(Debug, Clone, PartialEq, Eq)]
pub struct ArtifactCleanupResult {
    pub unit_release_id: i64,
    pub status: String,
    pub error: String,
}

/// Admits the removal of an artifact, with the event that records its start.
pub fn start_artifact_cleanup(preview: &ArtifactCleanupPreview, operator: &str) -> (result: Result<
    CleanupEvent,
    DeploymentRetentionError,
>)
    ensures
        match result {
            Ok(event) => preview.is_allowed() && is_cleanup_event(
                event,
                "deployment_artifact"@,
                preview.unit_release_id,
                "info"@,
                "开始清理部署单元制品"@,
                operator@,
                Seq::empty(),
            ),
            Err(error) => !preview.is_allowed() && is_invalid_state(
                error,
                "制品当前不可清理："@ + (if preview.blockers@.len() == 0 {
                    preview.artifact_status@
                } else {
                    joined(texts(preview.blockers@), "；"@)
                }),
            ),
        },
{
    if !preview.allowed() {
        let reason = if preview.blockers.len() == 0 {
            preview.artifact_status.clone()
        } else {
            join(&preview.blockers, "；")
        };
        return Err(invalid_state("制品当前不可清理：".to_owned().concat(reason.as_str())));
    }
    let detail = String::new();
    let event = insert_cleanup_event(
        "deployment_artifact",
        preview.unit_release_id,
        "info",
        "开始清理部署单元制品",
        operator,
        detail.as_str(),
    );
    assert(detail@ =~= Seq::<char>::empty());
    Ok(event)
}

/// The status of an artifact after an attempt to remove it.
pub open spec fn cleanup_status(deletion: Result<(), String>) -> Seq<char> {
    match deletion {
        Ok(_) => "deleted"@,
        Err(_) => "delete_failed"@,
    }
}

/// The outcome of an artifact's removal, with the event that records it: after a failure the
/// artifact is marked, and the error is kept in short.
pub fn finish_artifact_cleanup(
    unit_release_id: i64,
    operator: &str,
    deletion: Result<(), String>,
) -> (outcome: (ArtifactCleanupResult, CleanupEvent))
    ensures
        outcome.0.unit_release_id == unit_release_id,
        outcome.0.status@ == cleanup_status(deletion),
        match deletion {
            Ok(_) => {
                &&& outcome.0.error@ == Seq::<char>::empty()
                &&& is_cleanup_event(
                    outcome.1,
                    "deployment_artifact"@,
                    unit_release_id,
                    "info"@,
                    "部署单元制品清理完成"@,
                    operator@,
                    Seq::empty(),
                )
            },
            Err(error) => {
                &&& outcome.0.error@ == short_error(error@)
                &&& is_cleanup_event(
                    outcome.1,
                    "deployment_artifact"@,
                    unit_release_id,
                    "error"@,
                    "部署单元制品清理失败"@,
                    operator@,
                    short_error(error@),
                )
            },
        },
{
    match deletion {
        Ok(_) => {
            let error = String::new();
            let event = insert_cleanup_event(
                "deployment_artifact",
                unit_release_id,
                "info",
                "部署单元制品清理完成",
                operator,
                error.as_str(),
            );
            (ArtifactCleanupResult { unit_release_id, status: "deleted".to_owned(), error }, event)
        },
        Err(message) => {
            let error = truncate_cleanup_error(message.as_str());
            let event = insert_cleanup_event(
                "deployment_artifact",
                unit_release_id,
                "error",
                "部署单元制品清理失败",
                operator,
                error.as_str(),
            );
            (
                ArtifactCleanupResult {
                    unit_release_id,
                    status: "delete_failed".to_owned(),
                    error,
                },
                event,
            )
        },
    }
}

pub open spec fn version_detail(preview: ApplicationReleaseCleanupPreview) -> Seq<char> {
    "版本 "@ + preview.version@ + " · versionCode "@ + signed_decimal(preview.version_code as int)
}

fn version_text(preview: &ApplicationReleaseCleanupPreview) -> (text: String)
    ensures
        text@ == version_detail(*preview),
{
    "版本 ".to_owned().concat(preview.version.as_str()).concat(" · versionCode ").concat(
        integer_text(preview.version_code).as_str(),
    )
}

/// Admits the archiving of an application release, with the event that records it.
pub fn archive_application_release(
    preview: &ApplicationReleaseCleanupPreview,
    operator: &str,
) -> (result: Result<CleanupEvent, DeploymentRetentionError>)
    ensures
        match result {
            Ok(event) => preview.is_archivable() && is_cleanup_event(
                event,
                "application_release"@,
                preview.app_release_id,
                "info"@,
                "应用版本已归档"@,
                operator@,
                version_detail(*preview),
            ),
            Err(error) => !preview.is_archivable() && is_invalid_state(
                error,
                "应用版本当前不可归档："@ + (if preview.archive_blockers@.len() == 0 {
                    "当前状态为 "@ + preview.immutable_status@
                } else {
                    joined(texts(preview.archive_blockers@), "；"@)
                }),
            ),
        },
{
    if !preview.can_archive() {
        let reason = if preview.archive_blockers.len() == 0 {
            "当前状态为 ".to_owned().concat(preview.immutable_status.as_str())
        } else {
            join(&preview.archive_blockers, "；")
        };
        return Err(invalid_state("应用版本当前不可归档：".to_owned().concat(reason.as_str())));
    }
    Ok(
        insert_cleanup_event(
            "application_release",
            preview.app_release_id,
            "info",
            "应用版本已归档",
            operator,
            version_text(preview).as_str(),
        ),
    )
}

/// Admits the removal of an application release, with the event that records it.
pub fn delete_application_release(
    preview: &ApplicationReleaseCleanupPreview,
    operator: &str,
) -> (result: Result<CleanupEvent, DeploymentRetentionError>)
    ensures
        match result {
            Ok(event) => preview.is_deletable() && is_cleanup_event(
                event,
                "application_release"@,
                preview.app_release_id,
                "info"@,
                "已彻底删除应用版本"@,
                operator@,
                version_detail(*preview) + "，结构化部署历史和审计记录未删除"@,
            ),
            Err(error) => !preview.is_deletable() && is_invalid_state(
                error,
                "应用版本当前不可彻底删除："@ + (if preview.blockers@.len() == 0 {
                    "请先归档，当前状态为 "@ + preview.immutable_status@
                } else {
                    joined(texts(preview.blockers@), "；"@)
                }),
            ),
        },
{
    if !preview.can_delete() {
        let reason = if preview.blockers.len() == 0 {
            "请先归档，当前状态为 ".to_owned().concat(preview.immutable_status.as_str())
        } else {
            join(&preview.blockers, "；")
        };
        return Err(
            invalid_state("应用版本当前不可彻底删除：".to_owned().concat(reason.as_str())),
        );
    }
    Ok(
        insert_cleanup_event(
            "application_release",
            preview.app_release_id,
            "info",
            "已彻底删除应用版本",
            operator,
            version_text(preview).concat("，结构化部署历史和审计记录未删除").as_str(),
        ),
    )
}

#[derive(Debug, Clone, PartialEq, Eq)]
pub struct DeploymentHistoryDeleteResult {
    pub deployment_run_id: i64,
    pub app_release_id: i64,
    pub task_id: Option<i64>,
    pub deleted_unit_results: u64,
    pub deleted_queue_rows: u64,
    pub cleared_task_release: bool,
}

/// Admits the removal of a deployment's history.
pub fn admit_history_delete(preview: &DeploymentHistoryDeletePreview) -> (result: Result<
    (),
    DeploymentRetentionError,
>)
    ensures
        match result {
            Ok(_) => preview.blockers@.len() == 0,
            Err(error) => preview.blockers@.len() > 0 && is_invalid_state(
                error,
                "部署历史当前不可彻底删除："@ + joined(texts(preview.blockers@), "；"@),
            ),
        },
{
    if !preview.allowed() {
        return Err(
            invalid_state(
                "部署历史当前不可彻底删除：".to_owned().concat(
                    join(&preview.blockers, "；").as_str(),
                ),
            ),
        );
    }
    Ok(())
}

/// The event that records the removal of a deployment's history.
pub fn history_delete_event(
    preview: &DeploymentHistoryDeletePreview,
    operator: &str,
    deleted_queue_rows: u64,
    cleared_task_release: bool,
) -> (event: CleanupEvent)
    ensures
        is_cleanup_event(
            event,
            "environment_deployment_run"@,
            preview.deployment_run_id,
            "warning"@,
            "部署历史已彻底删除"@,
            operator@,
            "删除 "@ + signed_decimal(preview.unit_result_count as int)
                + " 条部署单元结果，应用版本 #"@ + signed_decimal(preview.app_release_id as int)
                + " 的任务引用已"@ + (if cleared_task_release {
                Seq::empty()
            } else {
                "无需"@
            }) + "清除，关联发布队列删除 "@ + decimal(deleted_queue_rows as nat) + " 条"@,
        ),
{
    let needless = if cleared_task_release {
        String::new()
    } else {
        "无需".to_owned()
    };
    let detail = "删除 ".to_owned().concat(integer_text(preview.unit_result_count).as_str()).concat(
        " 条部署单元结果，应用版本 #",
    ).concat(integer_text(preview.app_release_id).as_str()).concat(" 的任务引用已").concat(
        needless.as_str(),
    ).concat("清除，关联发布队列删除 ").concat(natural_text(deleted_queue_rows).as_str()).concat(
        " 条",
    );
    insert_cleanup_event(
        "environment_deployment_run",
        preview.deployment_run_id,
        "warning",
        "部署历史已彻底删除",
        operator,
        detail.as_str(),
    )
}

/// What was to be deleted was there.
pub open spec fn was_deleted(rows: u64) -> bool {
    rows == 1
}

/// The outcome of the removal of a deployment's history, which must have removed one run.
pub fn finish_history_delete(
    preview: &DeploymentHistoryDeletePreview,
    deleted_runs: u64,
    deleted_queue_rows: u64,
    cleared_task_release: bool,
) -> (result: Result<DeploymentHistoryDeleteResult, DeploymentRetentionError>)
    ensures
        match result {
            Ok(done) => deleted_runs == 1 && done == (DeploymentHistoryDeleteResult {
                deployment_run_id: preview.deployment_run_id,
                app_release_id: preview.app_release_id,
                task_id: preview.task_id,
                deleted_unit_results: at_least_zero(preview.unit_result_count) as u64,
                deleted_queue_rows,
                cleared_task_release,
            }),
            Err(error) => deleted_runs != 1 && is_not_found(error, "部署历史不存在"@),
        },
        result is Ok <==> was_deleted(deleted_runs),
{
    if deleted_runs != 1 {
        return Err(not_found("部署历史不存在"));
    }
    Ok(
        DeploymentHistoryDeleteResult {
            deployment_run_id: preview.deployment_run_id,
            app_release_id: preview.app_release_id,
            task_id: preview.task_id,
            deleted_unit_results: nonnegative(preview.unit_result_count),
            deleted_queue_rows,
            cleared_task_release,
        },
    )
}

/// The outcome of the removal of an application release, which must have removed one release:
/// the bytes that were set free.
pub fn finish_release_delete(
    preview: &ApplicationReleaseCleanupPreview,
    deleted_releases: u64,
) -> (result: Result<u64, DeploymentRetentionError>)
    ensures
        match result {
            Ok(bytes) => deleted_releases == 1 && bytes == preview.estimated_bytes,
            Err(error) => deleted_releases != 1 && is_not_found(error, "应用版本不存在"@),
        },
        result is Ok <==> was_deleted(deleted_releases),
{
    if deleted_releases != 1 {
        return Err(not_found("应用版本不存在"));
    }
    Ok(preview.estimated_bytes)
}

/// Admits the removal of a deployment's snapshot, given the state of the run whose snapshot is
/// still there.
pub fn admit_snapshot_delete(status: Option<String>) -> (result: Result<
    (),
    DeploymentRetentionError,
>)
    ensures
        match (status, result) {
            (Some(known), Ok(_)) => !is_active_run(known@),
            (Some(known), Err(error)) => is_active_run(known@) && is_invalid_state(
                error,
                "活动部署不能删除快照"@,
            ),
            (None, Err(error)) => is_not_found(error, "部署快照不存在或已经删除"@),
            (None, Ok(_)) => false,
        },
{
    match status {
        Some(known) => {
            if active_run(known.as_str()) {
                Err(invalid_state("活动部署不能删除快照".to_owned()))
            } else {
                Ok(())
            }
        },
        None => Err(not_found("部署快照不存在或已经删除")),
    }
}

/// The event that records the removal of a deployment's snapshot, and the bytes it set free.
pub fn finish_snapshot_delete(deployment_run_id: i64, operator: &str, bytes: i64) -> (outcome: (
    u64,
    CleanupEvent,
))
    ensures
        outcome.0 == at_least_zero(bytes),
        is_cleanup_event(
            outcome.1,
            "environment_deployment_run"@,
            deployment_run_id,
            "info"@,
            "部署配置与制品快照已清理"@,
            operator@,
            "结构化部署结果继续保留"@,
        ),
{
    (
        nonnegative(bytes),
        insert_cleanup_event(
            "environment_deployment_run",
            deployment_run_id,
            "info",
            "部署配置与制品快照已清理",
            operator,
            "结构化部署结果继续保留",
        ),
    )
}

/// The logs of a task are still written or needed: it waits or runs, or its deployment is being
/// reconciled.
pub open spec fn log_is_in_use(task_status: Seq<char>, reconciling: bool) -> bool {
    task_status == "queued"@ || task_status == "running"@ || reconciling
}

/// Admits the removal of a task's logs.
pub fn admit_log_delete(task_status: Option<String>, reconciling: bool) -> (result: Result<
    (),
    DeploymentRetentionError,
>)
    ensures
        match (task_status, result) {
            (Some(status), Ok(_)) => !log_is_in_use(status@, reconciling),
            (Some(status), Err(error)) => log_is_in_use(status@, reconciling) && is_invalid_state(
                error,
                "活动部署或待核对部署的日志不能清理"@,
            ),
            (None, Err(error)) => is_not_found(error, "任务不存在"@),
            (None, Ok(_)) => false,
        },
{
    match task_status {
        Some(status) => {
            if same_text(status.as_str(), "queued") || same_text(status.as_str(), "running")
                || reconciling {
                Err(invalid_state("活动部署或待核对部署的日志不能清理".to_owned()))
            } else {
                Ok(())
            }
        },
        None => Err(not_found("任务不存在")),
    }
}

/// The bytes that the removal of a task's logs sets free, and the event that records it.
pub fn finish_log_delete(
    task_id: i64,
    operator: &str,
    bounded_bytes: i64,
    legacy_bytes: i64,
) -> (outcome: (u64, CleanupEvent))
    requires
        i64::MIN <= bounded_bytes + legacy_bytes <= i64::MAX,
    ensures
        outcome.0 == at_least_zero((bounded_bytes + legacy_bytes) as i64),
        is_cleanup_event(
            outcome.1,
            "task"@,
            task_id,
            "info"@,
            "部署任务日志已清理"@,
            operator@,
            "释放 "@ + decimal(outcome.0 as nat)
                + " 字节，任务、阶段、步骤和单元结果继续保留"@,
        ),
{
    let released = nonnegative(bounded_bytes + legacy_bytes);
    let detail = "释放 ".to_owned().concat(natural_text(released).as_str()).concat(
        " 字节，任务、阶段、步骤和单元结果继续保留",
    );
    let event = insert_cleanup_event(
        "task",
        task_id,
        "info",
        "部署任务日志已清理",
        operator,
        detail.as_str(),
    );
    (released, event)
}

// ---------------------------------------------------------------------------
// Laws
// ---------------------------------------------------------------------------

proof fn lemma_applying_empty(conditions: Seq<(bool, Seq<char>)>)
    ensures
        applying(conditions).len() == 0 <==> forall|i: int|
            0 <= i < conditions.len() ==> !(#[trigger] conditions[i]).0,
    decreases conditions.len(),
{
    if conditions.len() > 0 {
        let before = conditions.drop_last();
        lemma_applying_empty(before);
        assert(forall|i: int| 0 <= i < before.len() ==> #[trigger] before[i] == conditions[i]);
        if applying(conditions).len() == 0 {
            assert forall|i: int| 0 <= i < conditions.len() implies !(#[trigger] conditions[i]).0 by {
                if i < before.len() {
                    assert(!before[i].0);
                }
            }
        } else if applying(before).len() > 0 {
            let k = choose|k: int| 0 <= k < before.len() && (#[trigger] before[k]).0;
            assert(conditions[k].0);
        } else {
            assert(conditions[conditions.len() - 1].0);
        }
    }
}

/// An artifact is in nobody's way exactly when nothing refers to it.
pub proof fn unreferenced_artifacts_have_no_blockers(references: ArtifactReferences)
    ensures
        artifact_blockers(references).len() == 0 <==> references.app_releases <= 0
            && references.runtime_states <= 0 && references.snapshots <= 0,
{
    let conditions = artifact_conditions(references);
    lemma_applying_empty(conditions);
    assert(conditions[0].0 == (references.app_releases > 0));
    assert(conditions[1].0 == (references.runtime_states > 0));
    assert(conditions[2].0 == (references.snapshots > 0));
}

/// An application release can be archived as far as nothing active refers to it, and removed as
/// far as nothing at all refers to it.
pub proof fn unreferenced_releases_have_no_blockers(references: ApplicationReleaseReferences)
    ensures
        archive_blockers(references).len() == 0 <==> references.current_environments <= 0
            && references.active_runs <= 0 && references.active_queue <= 0,
        release_blockers(references).len() == 0 <==> references.current_environments <= 0
            && references.deployment_runs <= 0 && references.queue <= 0 && references.tasks <= 0
            && references.legacy_runs <= 0 && references.base_releases <= 0,
{
    let archive = archive_conditions(references);
    lemma_applying_empty(archive);
    assert(archive[0].0 == (references.current_environments > 0));
    assert(archive[1].0 == (references.active_runs > 0));
    assert(archive[2].0 == (references.active_queue > 0));
    let release = release_conditions(references);
    lemma_applying_empty(release);
    assert(release[0].0 == (references.current_environments > 0));
    assert(release[1].0 == (references.deployment_runs > 0));
    assert(release[2].0 == (references.queue > 0));
    assert(release[3].0 == (references.tasks > 0));
    assert(release[4].0 == (references.legacy_runs > 0));
    assert(release[5].0 == (references.base_releases > 0));
}

/// The history of a deployment can be removed only after the deployment has ended, its snapshot
/// and its logs are gone, and its queue is idle.
pub proof fn history_needs_everything_else_gone(
    run: DeploymentRunRecord,
    log_references: i64,
    queue_references: i64,
)
    ensures
        history_blockers(run, log_references, queue_references).len() == 0 <==> !is_active_run(
            run.status@,
        ) && run.snapshot_status@ == "deleted"@ && log_references <= 0 && queue_references <= 0,
{
    let conditions = history_conditions(run, log_references, queue_references);
    lemma_applying_empty(conditions);
    assert(conditions[0].0 == is_active_run(run.status@));
    assert(conditions[1].0 == (run.snapshot_status@ != "deleted"@));
    assert(conditions[2].0 == (log_references > 0));
    assert(conditions[3].0 == (queue_references > 0));
}

/// After a failure the removal of an artifact can be tried again as long as nothing refers to it;
/// after a success there is nothing to try.
pub proof fn failed_cleanups_can_be_tried_again(
    preview: ArtifactCleanupPreview,
    deletion: Result<(), String>,
)
    requires
        preview.artifact_status@ == cleanup_status(deletion),
    ensures
        preview.is_allowed() <==> deletion is Err && preview.blockers@.len() == 0,
{
    reveal_strlit("deleted");
    reveal_strlit("delete_failed");
    reveal_strlit("deleting");
    reveal_strlit("active");
    assert("deleted"@.len() == 7 && "deleting"@.len() == 8 && "active"@.len() == 6);
    assert("delete_failed"@.len() == 13);
}

/// A release cannot be archived and removed in one step: what may be archived may not be removed,
/// and what may be removed has been archived.
pub proof fn releases_are_archived_first(preview: ApplicationReleaseCleanupPreview)
    ensures
        !(preview.is_archivable() && preview.is_deletable()),
        preview.is_deletable() ==> preview.immutable_status@ == "archived"@,
{
    reveal_strlit("ready");
    reveal_strlit("archived");
    assert("ready"@.len() != "archived"@.len());
}

proof fn lemma_applying(conditions: Seq<(bool, Seq<char>)>, text: Seq<char>)
    ensures
        applying(conditions).contains(text) <==> exists|i: int|
            0 <= i < conditions.len() && (#[trigger] conditions[i]).0 && conditions[i].1 == text,
    decreases conditions.len(),
{
    if conditions.len() > 0 {
        let before = conditions.drop_last();
        let earlier = applying(before);
        let all = applying(conditions);
        lemma_applying(before, text);
        if earlier.contains(text) {
            let at = choose|at: int| 0 <= at < earlier.len() && earlier[at] == text;
            assert(all[at] == text);
            let i = choose|i: int|
                0 <= i < before.len() && (#[trigger] before[i]).0 && before[i].1 == text;
            assert(conditions[i] == before[i]);
        }
        if all.contains(text) && !earlier.contains(text) {
            let at = choose|at: int| 0 <= at < all.len() && all[at] == text;
            if at < earlier.len() {
                assert(earlier[at] == text);
            }
            assert(conditions[conditions.len() - 1].1 == text);
        }
        if exists|i: int|
            0 <= i < conditions.len() && (#[trigger] conditions[i]).0 && conditions[i].1 == text {
            let i = choose|i: int|
                0 <= i < conditions.len() && (#[trigger] conditions[i]).0 && conditions[i].1
                    == text;
            if i < before.len() {
                assert(before[i] == conditions[i]);
            } else {
                assert(all[all.len() - 1] == text);
            }
        }
    }
}

/// What stands in the way of removing an artifact is said, and how often it does.
pub proof fn references_to_artifacts_are_counted(references: ArtifactReferences)
    ensures
        references.app_releases > 0 ==> artifact_blockers(references).contains(
            "仍被 "@ + signed_decimal(references.app_releases as int) + " 个应用版本引用"@,
        ),
        references.runtime_states > 0 ==> artifact_blockers(references).contains(
            "仍被 "@ + signed_decimal(references.runtime_states as int) + " 个环境运行状态引用"@,
        ),
        references.snapshots > 0 ==> artifact_blockers(references).contains(
            "仍被 "@ + signed_decimal(references.snapshots as int) + " 条可重放部署快照引用"@,
        ),
{
    let conditions = artifact_conditions(references);
    lemma_applying(conditions, conditions[0].1);
    lemma_applying(conditions, conditions[1].1);
    lemma_applying(conditions, conditions[2].1);
}

/// What stands in the way of archiving or removing an application release is said, and how often it
/// does.
pub proof fn references_to_releases_are_counted(references: ApplicationReleaseReferences)
    ensures
        references.current_environments > 0 ==> archive_blockers(references).contains(
            "仍是 "@ + signed_decimal(references.current_environments as int)
                + " 个环境的当前版本"@,
        ),
        references.active_runs > 0 ==> archive_blockers(references).contains(
            "仍被 "@ + signed_decimal(references.active_runs as int) + " 个活动部署使用"@,
        ),
        references.active_queue > 0 ==> archive_blockers(references).contains(
            "仍有 "@ + signed_decimal(references.active_queue as int) + " 条活动发布队列记录"@,
        ),
        references.current_environments > 0 ==> release_blockers(references).contains(
            "仍是 "@ + signed_decimal(references.current_environments as int)
                + " 个环境的当前版本"@,
        ),
        references.deployment_runs > 0 ==> release_blockers(references).contains(
            "仍被 "@ + signed_decimal(references.deployment_runs as int) + " 条部署历史引用"@,
        ),
        references.queue > 0 ==> release_blockers(references).contains(
            "仍被 "@ + signed_decimal(references.queue as int) + " 条发布队列历史引用"@,
        ),
        references.tasks > 0 ==> release_blockers(references).contains(
            "仍被 "@ + signed_decimal(references.tasks as int) + " 条任务历史引用"@,
        ),
        references.legacy_runs > 0 ==> release_blockers(references).contains(
            "仍被 "@ + signed_decimal(references.legacy_runs as int) + " 条兼容部署历史引用"@,
        ),
        references.base_releases > 0 ==> release_blockers(references).contains(
            "仍是 "@ + signed_decimal(references.base_releases as int)
                + " 个应用版本的继承基线"@,
        ),
{
    let archive = archive_conditions(references);
    lemma_applying(archive, archive[0].1);
    lemma_applying(archive, archive[1].1);
    lemma_applying(archive, archive[2].1);
    let release = release_conditions(references);
    lemma_applying(release, release[0].1);
    lemma_applying(release, release[1].1);
    lemma_applying(release, release[2].1);
    lemma_applying(release, release[3].1);
    lemma_applying(release, release[4].1);
    lemma_applying(release, release[5].1);
}

/// A history is kept while its deployment waits, runs or is being reconciled, while its snapshot or
/// its logs are there, and while it stands in a queue; otherwise it can be deleted.
pub proof fn histories_of_deployments_under_way_are_kept(
    run: DeploymentRunRecord,
    log_references: i64,
    queue_references: i64,
)
    ensures
        history_blockers(run, log_references, queue_references).len() == 0 <==> {
            &&& run.status@ != "queued"@
            &&& run.status@ != "running"@
            &&& run.status@ != "reconciling"@
            &&& run.snapshot_status@ == "deleted"@
            &&& log_references <= 0
            &&& queue_references <= 0
        },
{
    history_needs_everything_else_gone(run, log_references, queue_references);
}

/// Deployments that wait, run or are being reconciled are under way.
pub proof fn deployments_are_under_way_until_they_end(status: Seq<char>)
    ensures
        is_active_run(status) <==> status == "queued"@ || status == "running"@ || status
            == "reconciling"@,
        log_is_in_use("queued"@, false),
        log_is_in_use("running"@, false),
        log_is_in_use(status, true),
        status != "queued"@ && status != "running"@ ==> !log_is_in_use(status, false),
{
}

/// An artifact is removed exactly if nothing refers to it and its removal has not succeeded yet: it
/// is in use, is being removed, or could not be removed.
pub proof fn artifacts_are_removed_once(preview: ArtifactCleanupPreview)
    ensures
        preview.is_allowed() <==> preview.blockers@.len() == 0 && (preview.artifact_status@
            == "active"@ || preview.artifact_status@ == "deleting"@ || preview.artifact_status@
            == "delete_failed"@),
{
}

/// A release is archived exactly while it is ready and nothing active refers to it, and deleted
/// exactly while it is archived and nothing at all refers to it.
pub proof fn releases_are_ready_then_archived(preview: ApplicationReleaseCleanupPreview)
    ensures
        preview.is_archivable() <==> preview.immutable_status@ == "ready"@
            && preview.archive_blockers@.len() == 0,
        preview.is_deletable() <==> preview.immutable_status@ == "archived"@
            && preview.blockers@.len() == 0,
{
}

/// Of an error no more than its first 1000 characters are kept.
pub proof fn errors_are_kept_short(error: Seq<char>)
    ensures
        short_error(error).len() <= 1000,
        short_error(error).is_prefix_of(error),
        error.len() <= 1000 ==> short_error(error) == error,
        error.len() > 1000 ==> short_error(error).len() == 1000,
{
}

/// Counts are never negative, and without a task nothing is counted for one.
pub proof fn counts_are_never_negative(value: i64, task_id: Option<i64>)
    ensures
        at_least_zero(value) >= 0,
        value >= 0 ==> at_least_zero(value) == value,
        value < 0 ==> at_least_zero(value) == 0,
        task_count(None, value) == 0,
        task_id is Some ==> task_count(task_id, value) == value,
{
}

/// What is recorded of a cleanup: what was cleaned up, how it went, and who asked for it.
pub proof fn cleanups_are_recorded(
    event: CleanupEvent,
    target_type: Seq<char>,
    target_id: i64,
    level: Seq<char>,
    title: Seq<char>,
    operator: Seq<char>,
    detail: Seq<char>,
)
    requires
        is_cleanup_event(event, target_type, target_id, level, title, operator, detail),
    ensures
        event.event_type@ == "deployment.cleanup"@,
        event.level@ == level,
        event.target_type@ == target_type,
        event.target_id@ == signed_decimal(target_id as int),
        event.target_name@.len() == 0,
        event.title@ == title,
        event.summary@ == "操作人："@ + trimmed(operator),
        event.detail@ == detail,
{
}

/// A cleanup ends as deleted or as failed.
pub proof fn cleanups_end_as_deleted_or_failed(deletion: Result<(), String>)
    ensures
        deletion is Ok ==> cleanup_status(deletion) == "deleted"@,
        deletion is Err ==> cleanup_status(deletion) == "delete_failed"@,
{
}

/// What was to be deleted was there exactly if one row was deleted.
pub proof fn one_row_is_deleted(rows: u64)
    ensures
        was_deleted(rows) <==> rows == 1,
{
}

} // verus!
