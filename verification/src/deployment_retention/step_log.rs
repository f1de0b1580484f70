//! The logs of running steps, and what is shown of the logs of a task.

use vstd::prelude::*;

use super::cleanup::{at_least_zero, is_invalid_state, is_not_found, DeploymentRetentionError};
use super::log_buffer::{
    latest, least, saturated, BoundedLogBuffer, BoundedTaskLogPreview, BudgetState, BufferState,
    TaskLogBudget,
};
use super::redaction::{secret_bytes, RedactorState};
use crate::order::{
    sort_ranked, text_before, text_less, text_order_is_strict, text_order_is_transitive, Ranking,
};
use crate::text::texts;

verus! {

pub const DEFAULT_STEP_LOG_HEAD_BYTES: usize = 2 * 1024 * 1024;

pub const DEFAULT_STEP_LOG_TAIL_BYTES: usize = 8 * 1024 * 1024;

pub const DEFAULT_TASK_LOG_BYTES: usize = 100 * 1024 * 1024;

pub const TASK_LOG_PREVIEW_HEAD_BYTES: usize = 8 * 1024;

pub const TASK_LOG_PREVIEW_TAIL_BYTES: usize = 24 * 1024;

pub const TASK_LOG_PREVIEW_MAX_STEPS: usize = 32;

/// What a store holds of the log of a step; what is missing was never saved.
#[derive(Debug, Clone)]
pub struct StoredStepLog {
    pub step_updated_at: String,
    pub head: Option<Vec<u8>>,
    pub tail: Option<Vec<u8>>,
    pub received_bytes: Option<i64>,
    pub dropped_bytes: Option<i64>,
    pub head_limit: Option<i64>,
    pub tail_limit: Option<i64>,
    pub finished: Option<bool>,
    pub log_updated_at: Option<String>,
}

/// What a store holds of the budget of a task.
#[derive(Debug, Clone, Copy)]
pub struct StoredTaskBudget {
    pub stored_bytes: i64,
    pub received_bytes: i64,
    pub dropped_bytes: i64,
    pub max_bytes: i64,
}

pub open spec fn or_zero(value: Option<i64>) -> int {
    match value {
        Some(n) => at_least_zero(n),
        None => 0,
    }
}

pub open spec fn or_default(value: Option<i64>, default: usize) -> int {
    match value {
        Some(n) => at_least_zero(n),
        None => default as int,
    }
}

pub open spec fn or_empty(bytes: Option<Vec<u8>>) -> Seq<u8> {
    match bytes {
        Some(known) => known@,
        None => Seq::empty(),
    }
}

fn count_of(value: i64) -> (count: u64)
    ensures
        count == at_least_zero(value),
{
    if value > 0 {
        value as u64
    } else {
        0
    }
}

/// The number as a size, or the greatest size where it does not fit.
pub open spec fn as_size(value: int) -> int {
    least(value, usize::MAX as int)
}

fn size_of_count(value: i64) -> (size: usize)
    ensures
        size == as_size(at_least_zero(value)),
{
    let count = count_of(value);
    if count > usize::MAX as u64 {
        usize::MAX
    } else {
        count as usize
    }
}

fn bytes_or_empty(bytes: Option<Vec<u8>>) -> (known: Vec<u8>)
    ensures
        known@ == or_empty(bytes),
{
    match bytes {
        Some(known) => known,
        None => Vec::new(),
    }
}

fn count_or_zero(value: Option<i64>) -> (count: u64)
    ensures
        count == or_zero(value),
{
    match value {
        Some(n) => count_of(n),
        None => 0,
    }
}

/// The budget of a task as it was saved, or a fresh one.
pub open spec fn saved_budget(stored: Option<StoredTaskBudget>, task_limit: usize) -> BudgetState {
    match stored {
        Some(row) => {
            let max = as_size(if row.max_bytes > 1 { row.max_bytes as int } else { 1 });
            BudgetState {
                max: max as nat,
                stored: least(as_size(at_least_zero(row.stored_bytes)), max) as nat,
                received: at_least_zero(row.received_bytes) as nat,
                dropped: at_least_zero(row.dropped_bytes) as nat,
            }
        },
        None => BudgetState { max: task_limit as nat, stored: 0, received: 0, dropped: 0 },
    }
}

/// How many of the stored bytes a preview with a head and a tail of the given lengths leaves out.
pub open spec fn left_out(stored: i64, head: nat, tail: nat) -> int {
    if stored > head + tail {
        stored - head - tail
    } else {
        0
    }
}

/// The budget of a task: what was saved of it, or a fresh one.
pub fn task_budget(stored: Option<StoredTaskBudget>, task_limit: usize) -> (budget: TaskLogBudget)
    ensures
        budget.wf(),
        budget@ == saved_budget(stored, task_limit),
{
    match stored {
        Some(row) => {
            let max: i64 = if row.max_bytes > 1 {
                row.max_bytes
            } else {
                1
            };
            TaskLogBudget::from_usage(
                size_of_count(max),
                size_of_count(row.stored_bytes),
                count_of(row.received_bytes),
                count_of(row.dropped_bytes),
            )
        },
        None => TaskLogBudget::new(task_limit),
    }
}

/// The log of a step as it was saved, with the given limits where none were saved.
pub open spec fn saved_log(row: StoredStepLog, head_limit: usize, tail_limit: usize) -> BufferState {
    let head = or_empty(row.head);
    let heads = as_size(or_default(row.head_limit, head_limit));
    let tails = as_size(or_default(row.tail_limit, tail_limit));
    BufferState {
        head_limit: heads as nat,
        tail_limit: tails as nat,
        head: head.take(least(heads, head.len() as int)),
        tail: latest(or_empty(row.tail), tails),
        received: or_zero(row.received_bytes) as nat,
        dropped: or_zero(row.dropped_bytes) as nat,
    }
}

/// A log, its task's budget and its redactor after what came, what was lost and, where it ends, what
/// was held back.
pub open spec fn step_after(
    before: (BufferState, BudgetState),
    chunk: Option<&[u8]>,
    lost: u64,
    ends: bool,
    redactor: RedactorState,
) -> ((BufferState, BudgetState), RedactorState) {
    let appended = appended_to(before, chunk, redactor);
    let counted = lost_before(appended.0, lost);
    if ends {
        finished_with(counted, appended.1)
    } else {
        (counted, appended.1)
    }
}

/// How many steps are shown of those that were asked for.
pub open spec fn shown_steps(max_steps: usize) -> int {
    if max_steps > 1 {
        max_steps as int
    } else {
        1
    }
}

/// The log of a step that a task writes to.
#[derive(Debug)]
pub struct ActiveStepLog {
    pub buffer: BoundedLogBuffer,
    pub finished: bool,
    pub updated_at: String,
}

impl ActiveStepLog {
    /// Takes up the log of a step as it was saved, with the given limits where none were saved.
    pub fn load(
        stored: Option<StoredStepLog>,
        head_limit: usize,
        tail_limit: usize,
        secrets: Vec<String>,
    ) -> (result: Result<ActiveStepLog, DeploymentRetentionError>)
        ensures
            match (stored, result) {
                (Some(row), Ok(log)) => {
                    &&& log.buffer.wf()
                    &&& log.buffer@ == saved_log(row, head_limit, tail_limit)
                    &&& log.buffer.redactor_state() == (RedactorState {
                        secrets: secret_bytes(texts(secrets@)),
                        pending: Seq::empty(),
                        masking: false,
                    })
                    &&& log.finished == (row.finished == Some(true))
                    &&& log.updated_at@ == (match row.log_updated_at {
                        Some(time) => time@,
                        None => row.step_updated_at@,
                    })
                },
                (None, Err(error)) => is_not_found(error, "任务步骤不存在"@),
                _ => false,
            },
    {
        let row = match stored {
            Some(row) => row,
            None => return Err(DeploymentRetentionError::NotFound("任务步骤不存在".to_owned())),
        };
        let heads: usize = match row.head_limit {
            Some(limit) => size_of_count(limit),
            None => head_limit,
        };
        let tails: usize = match row.tail_limit {
            Some(limit) => size_of_count(limit),
            None => tail_limit,
        };
        let buffer = BoundedLogBuffer::from_persisted(
            heads,
            tails,
            bytes_or_empty(row.head),
            bytes_or_empty(row.tail),
            count_or_zero(row.received_bytes),
            count_or_zero(row.dropped_bytes),
            secrets,
        );
        let finished = match row.finished {
            Some(done) => done,
            None => false,
        };
        let updated_at = match row.log_updated_at {
            Some(time) => time,
            None => row.step_updated_at,
        };
        Ok(ActiveStepLog { buffer, finished, updated_at })
    }

    /// Takes a chunk of output, counts bytes that were lost before they arrived, and ends the
    /// log. A log that has ended takes nothing more; to end it again changes nothing but what
    /// is appended and counted in the same call.
    pub fn mutate_buffer(
        &mut self,
        chunk: Option<&[u8]>,
        dropped_bytes: u64,
        finish: bool,
        budget: &mut TaskLogBudget,
    ) -> (result: Result<(), DeploymentRetentionError>)
        requires
            old(self).buffer.wf(),
            old(budget).wf(),
        ensures
            final(self).buffer.wf(),
            final(budget).wf(),
            final(self).updated_at == old(self).updated_at,
            match result {
                Err(error) => {
                    &&& old(self).finished && !finish
                    &&& is_invalid_state(error, "步骤日志已经结束或不属于该任务"@)
                    &&& *final(self) == *old(self)
                    &&& *final(budget) == *old(budget)
                },
                Ok(_) => {
                    &&& !old(self).finished || finish
                    &&& final(self).finished == (old(self).finished || finish)
                    &&& ({
                        let ended = step_after(
                            (old(self).buffer@, old(budget)@),
                            chunk,
                            dropped_bytes,
                            finish && !old(self).finished,
                            old(self).buffer.redactor_state(),
                        );
                        &&& (final(self).buffer@, final(budget)@) == ended.0
                        &&& final(self).buffer.redactor_state() == ended.1
                    })
                },
            },
    {
        if self.finished && !finish {
            return Err(
                DeploymentRetentionError::InvalidState(
                    "步骤日志已经结束或不属于该任务".to_owned(),
                ),
            );
        }
        match chunk {
            Some(bytes) => {
                self.buffer.append(bytes, budget);
            },
            None => {},
        }
        if dropped_bytes > 0 {
            self.buffer.record_external_drop(dropped_bytes, budget);
        }
        if finish && !self.finished {
            self.buffer.finish(budget);
            self.finished = true;
        }
        Ok(())
    }
}

/// A log and the budget that it is charged to.
pub open spec fn appended_to(
    before: (BufferState, BudgetState),
    chunk: Option<&[u8]>,
    redactor: RedactorState,
) -> ((BufferState, BudgetState), RedactorState) {
    match chunk {
        Some(bytes) => {
            let output = redactor.pushed(bytes@).output;
            (
                (
                    before.0.with_appended(output, before.1.left()),
                    before.1.with_appended(before.0, output),
                ),
                redactor.after_push(bytes@),
            )
        },
        None => (before, redactor),
    }
}

pub open spec fn lost_before(
    before: (BufferState, BudgetState),
    count: u64,
) -> (BufferState, BudgetState) {
    if count > 0 {
        (before.0.with_lost(count as nat), before.1.with_lost(count as nat))
    } else {
        before
    }
}

pub open spec fn finished_with(
    before: (BufferState, BudgetState),
    redactor: RedactorState,
) -> ((BufferState, BudgetState), RedactorState) {
    let output = redactor.finished().output;
    (
        (
            before.0.with_appended(output, before.1.left()),
            before.1.with_appended(before.0, output),
        ),
        redactor.after_finish(),
    )
}

// ---------------------------------------------------------------------------
// Previews
// ---------------------------------------------------------------------------

/// What a store gives of a step's log for a preview.
#[derive(Debug, Clone)]
pub struct StoredPreview {
    pub step_id: i64,
    pub head: Vec<u8>,
    pub tail: Vec<u8>,
    pub stored_bytes: i64,
    pub dropped_bytes: i64,
    pub truncated: bool,
    pub updated_at: String,
}

/// The preview of a log that is not being written to.
pub fn stored_preview(row: StoredPreview) -> (preview: BoundedTaskLogPreview)
    ensures
        preview.step_id == row.step_id,
        preview.head@ == row.head@,
        preview.tail@ == row.tail@,
        preview.stored_bytes == at_least_zero(row.stored_bytes),
        preview.dropped_bytes == at_least_zero(row.dropped_bytes),
        preview.truncated == row.truncated,
        preview.preview_omitted_bytes == left_out(
            row.stored_bytes,
            row.head@.len(),
            row.tail@.len(),
        ),
        preview.updated_at@ == row.updated_at@,
        !preview.live,
{
    let stored = count_of(row.stored_bytes);
    let head: u64 = row.head.len() as u64;
    let tail: u64 = row.tail.len() as u64;
    let omitted: u64 = if stored > head && stored - head > tail {
        stored - head - tail
    } else {
        0
    };
    BoundedTaskLogPreview {
        step_id: row.step_id,
        head: row.head,
        tail: row.tail,
        stored_bytes: stored,
        dropped_bytes: count_of(row.dropped_bytes),
        truncated: row.truncated,
        preview_omitted_bytes: omitted,
        updated_at: row.updated_at,
        live: false,
    }
}

/// The preview of a log that is being written to.
pub fn live_preview(
    step_id: i64,
    log: &ActiveStepLog,
    head_limit: usize,
    tail_limit: usize,
) -> (preview: BoundedTaskLogPreview)
    requires
        log.buffer.wf(),
    ensures
        preview.step_id == step_id,
        preview.head@ == log.buffer@.head.take(
            least(log.buffer@.head.len() as int, head_limit as int),
        ),
        preview.tail@ == latest(log.buffer@.tail, tail_limit as int),
        preview.stored_bytes == saturated(log.buffer@.stored() as int),
        preview.dropped_bytes == log.buffer@.dropped,
        preview.truncated == (log.buffer@.dropped > 0),
        preview.preview_omitted_bytes == saturated(
            log.buffer@.stored() - preview.head@.len() - preview.tail@.len(),
        ),
        preview.updated_at@ == log.updated_at@,
        preview.live,
{
    let base = log.buffer.preview(head_limit, tail_limit);
    BoundedTaskLogPreview {
        step_id,
        head: base.head,
        tail: base.tail,
        stored_bytes: base.stored_bytes,
        dropped_bytes: base.dropped_bytes,
        truncated: base.truncated,
        preview_omitted_bytes: base.preview_omitted_bytes,
        updated_at: log.updated_at.clone(),
        live: true,
    }
}

/// Previews ranked by how recent they are.
struct ByRecency;

/// Previews ranked by their steps.
struct ByStep;

/// Live previews before others, then the latest before the older ones, then the higher step.
pub open spec fn more_recent(left: BoundedTaskLogPreview, right: BoundedTaskLogPreview) -> bool {
    if left.live != right.live {
        left.live
    } else if left.updated_at@ != right.updated_at@ {
        text_before(right.updated_at@, left.updated_at@)
    } else {
        left.step_id > right.step_id
    }
}

impl Ranking<BoundedTaskLogPreview> for ByRecency {
    closed spec fn ranks_before(
        left: BoundedTaskLogPreview,
        right: BoundedTaskLogPreview,
    ) -> bool {
        more_recent(left, right)
    }

    proof fn ranking_is_order(
        a: BoundedTaskLogPreview,
        b: BoundedTaskLogPreview,
        c: BoundedTaskLogPreview,
    ) {
        let x = a.updated_at@;
        let y = b.updated_at@;
        let z = c.updated_at@;
        text_order_is_strict(x, y);
        text_order_is_strict(y, z);
        text_order_is_strict(x, z);
        if text_before(x, z) && text_before(z, y) {
            text_order_is_transitive(x, z, y);
        }
        if text_before(y, x) && text_before(x, z) {
            text_order_is_transitive(y, x, z);
        }
    }

    fn comes_before(left: &BoundedTaskLogPreview, right: &BoundedTaskLogPreview) -> (before: bool) {
        if left.live != right.live {
            left.live
        } else if left.updated_at != right.updated_at {
            text_less(right.updated_at.as_str(), left.updated_at.as_str())
        } else {
            left.step_id > right.step_id
        }
    }
}

impl Ranking<BoundedTaskLogPreview> for ByStep {
    closed spec fn ranks_before(
        left: BoundedTaskLogPreview,
        right: BoundedTaskLogPreview,
    ) -> bool {
        left.step_id < right.step_id
    }

    proof fn ranking_is_order(
        a: BoundedTaskLogPreview,
        b: BoundedTaskLogPreview,
        c: BoundedTaskLogPreview,
    ) {
    }

    fn comes_before(left: &BoundedTaskLogPreview, right: &BoundedTaskLogPreview) -> (before: bool) {
        left.step_id < right.step_id
    }
}

/// The position of the first preview of the step, or the number of previews.
pub open spec fn step_position(previews: Seq<BoundedTaskLogPreview>, step_id: i64) -> int
    decreases previews.len(),
{
    if previews.len() == 0 || previews[0].step_id == step_id {
        0
    } else {
        1 + step_position(previews.drop_first(), step_id)
    }
}

/// The previews with the given one in the place of the first of the same step, or at the end.
pub open spec fn with_live(
    previews: Seq<BoundedTaskLogPreview>,
    live: BoundedTaskLogPreview,
) -> Seq<BoundedTaskLogPreview> {
    let at = step_position(previews, live.step_id);
    if at < previews.len() {
        previews.update(at, live)
    } else {
        previews.push(live)
    }
}

/// The saved previews, with live ones in place of those of the same step.
pub open spec fn merged(
    stored: Seq<BoundedTaskLogPreview>,
    live: Seq<BoundedTaskLogPreview>,
) -> Seq<BoundedTaskLogPreview>
    decreases live.len(),
{
    if live.len() == 0 {
        stored
    } else {
        with_live(merged(stored, live.drop_last()), live.last())
    }
}

/// `ranking` holds the previews, the most recent first.
pub open spec fn is_recency_ranking(
    ranking: Seq<BoundedTaskLogPreview>,
    previews: Seq<BoundedTaskLogPreview>,
) -> bool {
    &&& ranking.to_multiset() == previews.to_multiset()
    &&& forall|i: int, j: int|
        0 <= i < j < ranking.len() ==> !more_recent(ranking[j], ranking[i])
}

/// The previews that are shown: the most recent ones, by step.
pub open spec fn is_selection(
    shown: Seq<BoundedTaskLogPreview>,
    previews: Seq<BoundedTaskLogPreview>,
    limit: int,
) -> bool {
    &&& forall|i: int, j: int| 0 <= i < j < shown.len() ==> shown[i].step_id <= shown[j].step_id
    &&& exists|ranking: Seq<BoundedTaskLogPreview>|
        #![trigger is_recency_ranking(ranking, previews)]
        is_recency_ranking(ranking, previews) && shown.to_multiset() == ranking.take(
            least(limit, ranking.len() as int),
        ).to_multiset()
}

proof fn lemma_step_position(previews: Seq<BoundedTaskLogPreview>, step_id: i64, at: int)
    requires
        0 <= at <= previews.len(),
        forall|i: int| 0 <= i < at ==> (#[trigger] previews[i]).step_id != step_id,
        at < previews.len() ==> previews[at].step_id == step_id,
    ensures
        step_position(previews, step_id) == at,
    decreases previews.len(),
{
    if at > 0 {
        assert(previews[0].step_id != step_id);
        let rest = previews.drop_first();
        assert forall|i: int| 0 <= i < at - 1 implies (#[trigger] rest[i]).step_id != step_id by {
            assert(rest[i] == previews[i + 1]);
        }
        lemma_step_position(rest, step_id, at - 1);
    }
}

fn put_live(previews: &mut Vec<BoundedTaskLogPreview>, live: BoundedTaskLogPreview)
    ensures
        final(previews)@ == with_live(old(previews)@, live),
{
    let mut at: usize = 0;
    while at < previews.len() && previews[at].step_id != live.step_id
        invariant
            at <= previews@.len(),
            previews@ == old(previews)@,
            forall|i: int| 0 <= i < at ==> (#[trigger] previews@[i]).step_id != live.step_id,
        decreases previews@.len() - at,
    {
        at = at + 1;
    }
    proof {
        lemma_step_position(previews@, live.step_id, at as int);
    }
    if at < previews.len() {
        previews[at] = live;
    } else {
        previews.push(live);
    }
}

/// Selects what is shown of the logs of a task: the previews of running steps take the place of
/// the saved ones, the most recent are kept, at least one, and put in the order of the steps.
pub fn select_task_previews(
    stored: Vec<BoundedTaskLogPreview>,
    live: Vec<BoundedTaskLogPreview>,
    max_steps: usize,
) -> (shown: Vec<BoundedTaskLogPreview>)
    ensures
        is_selection(
            shown@,
            merged(stored@, live@),
            shown_steps(max_steps),
        ),
{
    let ghost saved = stored@;
    let ghost running = live@;
    let mut previews = stored;
    let mut rest = live;
    let ghost mut done: int = 0;
    assert(running.skip(0) =~= running);
    assert(running.take(0) =~= Seq::empty());
    while rest.len() > 0
        invariant
            0 <= done <= running.len(),
            rest@ == running.skip(done),
            previews@ == merged(saved, running.take(done)),
        decreases rest@.len(),
    {
        let next = rest.remove(0);
        proof {
            assert(running.take(done + 1).drop_last() =~= running.take(done));
            assert(rest@ =~= running.skip(done + 1));
            done = done + 1;
        }
        put_live(&mut previews, next);
    }
    assert(running.take(done) =~= running);
    let limit: usize = if max_steps > 1 {
        max_steps
    } else {
        1
    };
    let ghost all = previews@;
    let mut ranking = sort_ranked::<BoundedTaskLogPreview, ByRecency>(previews);
    let ghost ranked = ranking@;
    ranking.truncate(limit);
    assert(ranking@ =~= ranked.take(least(limit as int, ranked.len() as int)));
    assert(is_recency_ranking(ranked, all)) by {
        assert forall|i: int, j: int| 0 <= i < j < ranked.len() implies !more_recent(
            ranked[j],
            ranked[i],
        ) by {
            assert(!ByRecency::ranks_before(ranked[j], ranked[i]));
        }
    }
    let shown = sort_ranked::<BoundedTaskLogPreview, ByStep>(ranking);
    assert forall|i: int, j: int| 0 <= i < j < shown@.len() implies shown@[i].step_id
        <= shown@[j].step_id by {
        assert(!ByStep::ranks_before(shown@[j], shown@[i]));
    }
    shown
}

/// Which of two previews comes first where only some are shown: one that is being written before one
/// that is not, then the one that changed later, then the one of the later step.
pub proof fn live_and_late_previews_come_first(
    left: BoundedTaskLogPreview,
    right: BoundedTaskLogPreview,
)
    ensures
        left.live && !right.live ==> more_recent(left, right) && !more_recent(right, left),
        left.live == right.live && text_before(right.updated_at@, left.updated_at@) ==> more_recent(
            left,
            right,
        ) && !more_recent(right, left),
        left.live == right.live && left.updated_at@ == right.updated_at@ ==> (more_recent(left, right)
            <==> left.step_id > right.step_id),
{
    text_order_is_strict(left.updated_at@, right.updated_at@);
}

/// What is shown are the latest previews, in the order of their steps: as many as are asked for, if
/// there are so many, and none that is not shown is more recent than one that is.
pub proof fn the_latest_previews_are_shown(
    shown: Seq<BoundedTaskLogPreview>,
    previews: Seq<BoundedTaskLogPreview>,
    limit: int,
    i: int,
    other: BoundedTaskLogPreview,
)
    requires
        is_selection(shown, previews, limit),
        limit >= 0,
        0 <= i < shown.len(),
    ensures
        shown.len() == (if limit < previews.len() {
            limit
        } else {
            previews.len() as int
        }),
        previews.contains(shown[i]),
        previews.contains(other) && !shown.contains(other) ==> !more_recent(other, shown[i]),
        i + 1 < shown.len() ==> shown[i].step_id <= shown[i + 1].step_id,
{
    let ranking = choose|ranking: Seq<BoundedTaskLogPreview>|
        #![trigger is_recency_ranking(ranking, previews)]
        is_recency_ranking(ranking, previews) && shown.to_multiset() == ranking.take(
            least(limit, ranking.len() as int),
        ).to_multiset();
    let n = least(limit, ranking.len() as int);
    let first = ranking.take(n);
    ranking.to_multiset_ensures();
    previews.to_multiset_ensures();
    shown.to_multiset_ensures();
    first.to_multiset_ensures();
    assert(shown.contains(shown[i]));
    assert(shown.to_multiset().count(shown[i]) > 0);
    assert(first.contains(shown[i]));
    let a = choose|a: int| 0 <= a < first.len() && first[a] == shown[i];
    assert(ranking[a] == shown[i]);
    assert(ranking.contains(shown[i]));
    assert(previews.to_multiset().count(shown[i]) > 0);
    if previews.contains(other) && !shown.contains(other) {
        assert(ranking.to_multiset().count(other) > 0);
        assert(ranking.contains(other));
        let b = choose|b: int| 0 <= b < ranking.len() && ranking[b] == other;
        if b < n {
            assert(first[b] == other);
            assert(first.contains(other));
            assert(shown.to_multiset().count(other) > 0);
        }
        assert(a < b);
        assert(!more_recent(ranking[b], ranking[a]));
    }
}

proof fn lemma_first_of_step(previews: Seq<BoundedTaskLogPreview>, step_id: i64)
    ensures
        0 <= step_position(previews, step_id) <= previews.len(),
        step_position(previews, step_id) < previews.len() ==> previews[step_position(
            previews,
            step_id,
        )].step_id == step_id,
        forall|i: int|
            0 <= i < step_position(previews, step_id) ==> (#[trigger] previews[i]).step_id
                != step_id,
    decreases previews.len(),
{
    if previews.len() > 0 && previews[0].step_id != step_id {
        let rest = previews.drop_first();
        lemma_first_of_step(rest, step_id);
        assert forall|i: int| 0 <= i < step_position(previews, step_id) implies (
        #[trigger] previews[i]).step_id != step_id by {
            if i > 0 {
                assert(rest[i - 1] == previews[i]);
            }
        }
    }
}

/// A preview that is being written takes the place of the stored one of its step, or is added where
/// there is none. All others stay.
pub proof fn live_previews_take_the_place_of_stored_ones(
    previews: Seq<BoundedTaskLogPreview>,
    live: BoundedTaskLogPreview,
    i: int,
)
    requires
        0 <= i < previews.len(),
    ensures
        ({
            let after = with_live(previews, live);
            let known = exists|k: int|
                0 <= k < previews.len() && (#[trigger] previews[k]).step_id == live.step_id;
            &&& after.contains(live)
            &&& known ==> after.len() == previews.len()
            &&& !known ==> after == previews.push(live)
            &&& previews[i].step_id != live.step_id ==> after[i] == previews[i]
        }),
{
    lemma_first_of_step(previews, live.step_id);
    let at = step_position(previews, live.step_id);
    let after = with_live(previews, live);
    if at < previews.len() {
        assert(after[at] == live);
    } else {
        assert(after[previews.len() as int] == live);
    }
}

/// A saved budget is taken up with what was used of it, but never as one that is overdrawn or one of
/// nothing.
pub proof fn budgets_are_taken_up_as_they_were(row: StoredTaskBudget, task_limit: usize)
    ensures
        saved_budget(None, task_limit) == (BudgetState {
            max: task_limit as nat,
            stored: 0,
            received: 0,
            dropped: 0,
        }),
        ({
            let budget = saved_budget(Some(row), task_limit);
            &&& budget.stored <= budget.max
            &&& budget.max >= 1
            &&& 1 <= row.max_bytes <= usize::MAX ==> budget.max == row.max_bytes
            &&& 0 <= row.stored_bytes <= row.max_bytes && 1 <= row.max_bytes <= usize::MAX
                ==> budget.stored == row.stored_bytes
            &&& row.received_bytes >= 0 ==> budget.received == row.received_bytes
            &&& row.dropped_bytes >= 0 ==> budget.dropped == row.dropped_bytes
        }),
{
}

/// What a preview leaves out and what it shows are together what is stored.
pub proof fn previews_say_what_they_leave_out(stored: i64, head: nat, tail: nat)
    ensures
        stored >= head + tail ==> head + tail + left_out(stored, head, tail) == stored,
        stored < head + tail ==> left_out(stored, head, tail) == 0,
{
}

/// A log is taken up as it was saved, within the limits that were saved with it or else within the
/// given ones.
pub proof fn logs_are_taken_up_as_they_were(row: StoredStepLog, head_limit: usize, tail_limit: usize)
    ensures
        ({
            let log = saved_log(row, head_limit, tail_limit);
            &&& row.head_limit is None ==> log.head_limit == head_limit
            &&& row.tail_limit is None ==> log.tail_limit == tail_limit
            &&& row.head_limit is Some && 0 <= row.head_limit->0 <= usize::MAX ==> log.head_limit
                == row.head_limit->0
            &&& row.tail_limit is Some && 0 <= row.tail_limit->0 <= usize::MAX ==> log.tail_limit
                == row.tail_limit->0
            &&& log.head.len() <= log.head_limit
            &&& log.tail.len() <= log.tail_limit
            &&& row.head is Some && row.head->0@.len() <= log.head_limit ==> log.head
                == row.head->0@
            &&& row.tail is Some && row.tail->0@.len() <= log.tail_limit ==> log.tail
                == row.tail->0@
            &&& row.tail is Some ==> log.tail.is_suffix_of(row.tail->0@)
            &&& row.head is None ==> log.head.len() == 0
            &&& row.tail is None ==> log.tail.len() == 0
            &&& row.received_bytes is Some && row.received_bytes->0 >= 0 ==> log.received
                == row.received_bytes->0
            &&& row.dropped_bytes is Some && row.dropped_bytes->0 >= 0 ==> log.dropped
                == row.dropped_bytes->0
            &&& row.received_bytes is None ==> log.received == 0
            &&& row.dropped_bytes is None ==> log.dropped == 0
        }),
{
    let log = saved_log(row, head_limit, tail_limit);
    if row.head is Some && row.head->0@.len() <= log.head_limit {
        assert(log.head =~= row.head->0@);
    }
    if row.tail is Some {
        let tail = row.tail->0@;
        assert(log.tail =~= tail.subrange(tail.len() - log.tail.len(), tail.len() as int));
    }
}

/// What happens to a log at a step: what came is appended, what was lost is counted after it, and at
/// the end what was held back follows, but only once.
pub proof fn logs_end_once(
    before: (BufferState, BudgetState),
    chunk: Option<&[u8]>,
    lost: u64,
    redactor: RedactorState,
)
    ensures
        step_after(before, chunk, lost, false, redactor) == (
            lost_before(appended_to(before, chunk, redactor).0, lost),
            appended_to(before, chunk, redactor).1,
        ),
        step_after(before, chunk, lost, true, redactor) == finished_with(
            lost_before(appended_to(before, chunk, redactor).0, lost),
            appended_to(before, chunk, redactor).1,
        ),
        appended_to(before, None, redactor) == (before, redactor),
        lost_before(before, 0) == before,
        lost > 0 ==> lost_before(before, lost).0 == before.0.with_lost(lost as nat) && lost_before(
            before,
            lost,
        ).1 == before.1.with_lost(lost as nat),
        chunk matches Some(bytes) ==> appended_to(before, chunk, redactor).0.0
            == before.0.with_appended(redactor.pushed(bytes@).output, before.1.left()),
        chunk matches Some(bytes) ==> appended_to(before, chunk, redactor).0.1
            == before.1.with_appended(before.0, redactor.pushed(bytes@).output),
        finished_with(before, redactor).1 == redactor.after_finish(),
{
}

/// At least one step is shown.
pub proof fn one_step_is_shown_at_least(max_steps: usize)
    ensures
        shown_steps(0) == 1,
        max_steps > 0 ==> shown_steps(max_steps) == max_steps,
{
}

} // verus!
