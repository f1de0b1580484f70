//! A log that keeps its beginning and its latest end, within limits of its own and within the
//! budget of the task that it belongs to.

use std::collections::VecDeque;

use vstd::prelude::*;

use super::redaction::{
    chunks_do_not_matter, chunks_joined, has_no_gap, overlap_for, redacted, secret_bytes, streamed,
    RedactorState, StreamingRedactor,
};
use crate::bytes::extend_between;
use crate::text::texts;

verus! {

/// How many bytes the steps of a task may store together, and what has come of them.
#[derive(Debug, Clone)]
pub struct TaskLogBudget {
    max_bytes: usize,
    stored_bytes: usize,
    received_bytes: u64,
    dropped_bytes: u64,
}

/// A budget as a mathematical value.
pub struct BudgetState {
    pub max: nat,
    pub stored: nat,
    pub received: nat,
    pub dropped: nat,
}

/// The sum, or the greatest number that 64 bits hold.
pub open spec fn saturated(sum: int) -> nat {
    if sum > u64::MAX {
        u64::MAX as nat
    } else {
        sum as nat
    }
}

pub open spec fn least(a: int, b: int) -> int {
    if a < b {
        a
    } else {
        b
    }
}

impl View for TaskLogBudget {
    type V = BudgetState;

    closed spec fn view(&self) -> BudgetState {
        BudgetState {
            max: self.max_bytes as nat,
            stored: self.stored_bytes as nat,
            received: self.received_bytes as nat,
            dropped: self.dropped_bytes as nat,
        }
    }
}

impl TaskLogBudget {
    /// No more is stored than the budget allows.
    pub closed spec fn wf(self) -> bool {
        self.stored_bytes <= self.max_bytes
    }

    /// No more is stored than the budget allows.
    pub proof fn budget_is_kept(self)
        requires
            self.wf(),
        ensures
            self@.stored <= self@.max,
    {
    }

    pub fn new(max_bytes: usize) -> (budget: TaskLogBudget)
        ensures
            budget.wf(),
            budget@ == (BudgetState { max: max_bytes as nat, stored: 0, received: 0, dropped: 0 }),
    {
        TaskLogBudget { max_bytes, stored_bytes: 0, received_bytes: 0, dropped_bytes: 0 }
    }

    /// The budget of a task whose usage was saved earlier.
    pub fn from_usage(
        max_bytes: usize,
        stored_bytes: usize,
        received_bytes: u64,
        dropped_bytes: u64,
    ) -> (budget: TaskLogBudget)
        ensures
            budget.wf(),
            budget@ == (BudgetState {
                max: max_bytes as nat,
                stored: least(stored_bytes as int, max_bytes as int) as nat,
                received: received_bytes as nat,
                dropped: dropped_bytes as nat,
            }),
    {
        let stored: usize = if stored_bytes < max_bytes {
            stored_bytes
        } else {
            max_bytes
        };
        TaskLogBudget { max_bytes, stored_bytes: stored, received_bytes, dropped_bytes }
    }

    /// Takes as much of what is requested as the budget has left.
    fn allocate(&mut self, requested: usize) -> (allocated: usize)
        requires
            old(self).wf(),
        ensures
            final(self).wf(),
            allocated == least(requested as int, old(self)@.max - old(self)@.stored),
            final(self)@ == (BudgetState {
                stored: old(self)@.stored + allocated as nat,
                ..old(self)@
            }),
    {
        let left: usize = self.max_bytes - self.stored_bytes;
        let allocated: usize = if requested < left {
            requested
        } else {
            left
        };
        self.stored_bytes = self.stored_bytes + allocated;
        allocated
    }

    pub fn stored_bytes(&self) -> (count: usize)
        ensures
            count == self@.stored,
    {
        self.stored_bytes
    }

    pub fn received_bytes(&self) -> (count: u64)
        ensures
            count == self@.received,
    {
        self.received_bytes
    }

    pub fn dropped_bytes(&self) -> (count: u64)
        ensures
            count == self@.dropped,
    {
        self.dropped_bytes
    }

    pub fn max_bytes(&self) -> (count: usize)
        ensures
            count == self@.max,
    {
        self.max_bytes
    }

    pub fn truncated(&self) -> (is: bool)
        ensures
            is == (self@.dropped > 0),
    {
        self.dropped_bytes > 0
    }
}

/// What is kept of a log, to be saved or shown.
#[derive(Debug, Clone, PartialEq, Eq)]
pub struct BoundedLogSnapshot {
    pub head: Vec<u8>,
    pub tail: Vec<u8>,
    pub stored_bytes: u64,
    pub received_bytes: u64,
    pub dropped_bytes: u64,
    pub truncated: bool,
}

/// A part of what is kept of a log.
#[derive(Debug, Clone, PartialEq, Eq)]
pub struct BoundedTaskLogPreview {
    pub step_id: i64,
    pub head: Vec<u8>,
    pub tail: Vec<u8>,
    pub stored_bytes: u64,
    pub dropped_bytes: u64,
    pub truncated: bool,
    pub preview_omitted_bytes: u64,
    pub updated_at: String,
    pub live: bool,
}

/// A log as a mathematical value.
pub struct BufferState {
    pub head_limit: nat,
    pub tail_limit: nat,
    pub head: Seq<u8>,
    pub tail: Seq<u8>,
    pub received: nat,
    pub dropped: nat,
}

/// The last `count` bytes.
pub open spec fn latest(s: Seq<u8>, count: int) -> Seq<u8> {
    if count >= s.len() {
        s
    } else if count <= 0 {
        Seq::empty()
    } else {
        s.skip(s.len() - count)
    }
}

impl BufferState {
    pub open spec fn stored(self) -> nat {
        self.head.len() + self.tail.len()
    }

    /// What is kept stays within the limits.
    pub open spec fn is_bounded(self) -> bool {
        self.head.len() <= self.head_limit && self.tail.len() <= self.tail_limit
    }

    /// How many of the bytes belong to the head.
    pub open spec fn head_share(self, bytes: Seq<u8>) -> int {
        least(self.head_limit - self.head.len(), bytes.len() as int)
    }

    /// How many of the bytes the head takes, of a budget that has `left` bytes left.
    pub open spec fn head_taken(self, bytes: Seq<u8>, left: int) -> int {
        least(self.head_share(bytes), left)
    }

    /// By how many bytes the tail grows.
    pub open spec fn tail_taken(self, bytes: Seq<u8>, left: int) -> int {
        least(
            least(self.tail_limit - self.tail.len(), bytes.len() - self.head_share(bytes)),
            left - self.head_taken(bytes, left),
        )
    }

    /// How many bytes are lost.
    pub open spec fn lost(self, bytes: Seq<u8>, left: int) -> int {
        bytes.len() - self.head_taken(bytes, left) - self.tail_taken(bytes, left)
    }

    /// The log after the bytes have arrived: the head is filled first, then the tail, as far as
    /// the budget reaches; a tail that cannot grow any more keeps the latest bytes.
    pub open spec fn with_appended(self, bytes: Seq<u8>, left: int) -> BufferState {
        BufferState {
            head: self.head + bytes.take(self.head_taken(bytes, left)),
            tail: latest(
                self.tail + bytes.skip(self.head_share(bytes)),
                self.tail.len() + self.tail_taken(bytes, left),
            ),
            received: saturated((self.received + bytes.len()) as int),
            dropped: saturated(self.dropped + self.lost(bytes, left)),
            ..self
        }
    }

    /// The log after `count` bytes were lost before they arrived.
    pub open spec fn with_lost(self, count: nat) -> BufferState {
        BufferState {
            received: saturated((self.received + count) as int),
            dropped: saturated((self.dropped + count) as int),
            ..self
        }
    }
}

impl BudgetState {
    pub open spec fn left(self) -> int {
        self.max - self.stored
    }

    /// The budget after the bytes have arrived at the log.
    pub open spec fn with_appended(self, log: BufferState, bytes: Seq<u8>) -> BudgetState {
        BudgetState {
            stored: (self.stored + log.head_taken(bytes, self.left()) + log.tail_taken(
                bytes,
                self.left(),
            )) as nat,
            received: saturated((self.received + bytes.len()) as int),
            dropped: saturated(self.dropped + log.lost(bytes, self.left())),
            ..self
        }
    }

    pub open spec fn with_lost(self, count: nat) -> BudgetState {
        BudgetState {
            received: saturated((self.received + count) as int),
            dropped: saturated((self.dropped + count) as int),
            ..self
        }
    }
}

fn saturating_sum(a: u64, b: u64) -> (sum: u64)
    ensures
        sum == saturated(a + b),
{
    if a > u64::MAX - b {
        u64::MAX
    } else {
        a + b
    }
}

fn smaller(a: usize, b: usize) -> (least_one: usize)
    ensures
        least_one == least(a as int, b as int),
{
    if a < b {
        a
    } else {
        b
    }
}

/// The log of one step, redacted and bounded.
#[derive(Debug)]
pub struct BoundedLogBuffer {
    head_limit: usize,
    tail_limit: usize,
    head: Vec<u8>,
    tail: VecDeque<u8>,
    received_bytes: u64,
    dropped_bytes: u64,
    redactor: StreamingRedactor,
}

impl View for BoundedLogBuffer {
    type V = BufferState;

    closed spec fn view(&self) -> BufferState {
        BufferState {
            head_limit: self.head_limit as nat,
            tail_limit: self.tail_limit as nat,
            head: self.head@,
            tail: self.tail@,
            received: self.received_bytes as nat,
            dropped: self.dropped_bytes as nat,
        }
    }
}

fn copy_deque(bytes: &VecDeque<u8>, start: usize) -> (copy: Vec<u8>)
    requires
        start <= bytes@.len(),
    ensures
        copy@ == bytes@.skip(start as int),
{
    let mut copy: Vec<u8> = Vec::new();
    let mut i: usize = start;
    while i < bytes.len()
        invariant
            start <= i <= bytes@.len(),
            copy@ == bytes@.subrange(start as int, i as int),
        decreases bytes@.len() - i,
    {
        copy.push(bytes[i]);
        i = i + 1;
        assert(copy@ =~= bytes@.subrange(start as int, i as int));
    }
    assert(copy@ =~= bytes@.skip(start as int));
    copy
}

impl BoundedLogBuffer {
    /// What is kept stays within the limits, and the redactor holds back enough.
    pub closed spec fn wf(self) -> bool {
        self@.is_bounded() && self.redactor.wf()
    }

    /// The state of the redactor.
    pub closed spec fn redactor_state(self) -> RedactorState {
        self.redactor@
    }

    /// What is kept stays within the limits.
    pub proof fn limits_hold(self)
        requires
            self.wf(),
        ensures
            self@.is_bounded(),
    {
    }

    pub fn new(head_limit: usize, tail_limit: usize, secrets: Vec<String>) -> (buffer:
        BoundedLogBuffer)
        ensures
            buffer.wf(),
            buffer@ == (BufferState {
                head_limit: head_limit as nat,
                tail_limit: tail_limit as nat,
                head: Seq::empty(),
                tail: Seq::empty(),
                received: 0,
                dropped: 0,
            }),
            buffer.redactor_state() == (RedactorState {
                secrets: secret_bytes(texts(secrets@)),
                pending: Seq::empty(),
                masking: false,
            }),
    {
        BoundedLogBuffer {
            head_limit,
            tail_limit,
            head: Vec::new(),
            tail: VecDeque::new(),
            received_bytes: 0,
            dropped_bytes: 0,
            redactor: StreamingRedactor::new(secrets),
        }
    }

    pub fn head_limit(&self) -> (count: usize)
        ensures
            count == self@.head_limit,
    {
        self.head_limit
    }

    pub fn tail_limit(&self) -> (count: usize)
        ensures
            count == self@.tail_limit,
    {
        self.tail_limit
    }

    /// A log that was saved earlier, cut to the given limits.
    pub fn from_persisted(
        head_limit: usize,
        tail_limit: usize,
        head: Vec<u8>,
        tail: Vec<u8>,
        received_bytes: u64,
        dropped_bytes: u64,
        secrets: Vec<String>,
    ) -> (buffer: BoundedLogBuffer)
        ensures
            buffer.wf(),
            buffer@ == (BufferState {
                head_limit: head_limit as nat,
                tail_limit: tail_limit as nat,
                head: head@.take(least(head_limit as int, head@.len() as int)),
                tail: latest(tail@, tail_limit as int),
                received: received_bytes as nat,
                dropped: dropped_bytes as nat,
            }),
            buffer.redactor_state() == (RedactorState {
                secrets: secret_bytes(texts(secrets@)),
                pending: Seq::empty(),
                masking: false,
            }),
    {
        let mut kept_head: Vec<u8> = Vec::new();
        let head_end = smaller(head_limit, head.len());
        extend_between(&mut kept_head, head.as_slice(), 0, head_end);
        assert(kept_head@ =~= head@.take(head_end as int));
        let start: usize = if tail.len() > tail_limit {
            tail.len() - tail_limit
        } else {
            0
        };
        let mut kept_tail: VecDeque<u8> = VecDeque::new();
        let mut i: usize = start;
        while i < tail.len()
            invariant
                start <= i <= tail@.len(),
                kept_tail@ == tail@.subrange(start as int, i as int),
            decreases tail@.len() - i,
        {
            kept_tail.push_back(tail[i]);
            i = i + 1;
            assert(kept_tail@ =~= tail@.subrange(start as int, i as int));
        }
        assert(kept_tail@ =~= latest(tail@, tail_limit as int));
        BoundedLogBuffer {
            head_limit,
            tail_limit,
            head: kept_head,
            tail: kept_tail,
            received_bytes,
            dropped_bytes,
            redactor: StreamingRedactor::new(secrets),
        }
    }

    fn append_redacted(&mut self, bytes: &[u8], task_budget: &mut TaskLogBudget)
        requires
            old(self).wf(),
            old(task_budget).wf(),
        ensures
            final(self).wf(),
            final(task_budget).wf(),
            final(self)@ == old(self)@.with_appended(bytes@, old(task_budget)@.left()),
            final(task_budget)@ == old(task_budget)@.with_appended(old(self)@, bytes@),
            final(self).redactor_state() == old(self).redactor_state(),
    {
        let ghost log = self@;
        let ghost budget = task_budget@;
        let ghost left = budget.left();
        let share = smaller(self.head_limit - self.head.len(), bytes.len());
        let head_taken = task_budget.allocate(share);
        extend_between(&mut self.head, bytes, 0, head_taken);
        assert(bytes@.subrange(0, head_taken as int) =~= bytes@.take(head_taken as int));
        let rest: usize = bytes.len() - share;
        let growth = smaller(self.tail_limit - self.tail.len(), rest);
        let tail_taken = task_budget.allocate(growth);
        let kept: usize = self.tail.len() + tail_taken;
        let mut i: usize = share;
        let ghost old_tail = self.tail@;
        let ghost kept_head = self.head@;
        assert(latest(old_tail + bytes@.subrange(share as int, i as int), kept as int)
            =~= old_tail);
        while i < bytes.len()
            invariant
                share <= i <= bytes@.len(),
                old_tail.len() <= kept,
                self.tail@ == latest(
                    old_tail + bytes@.subrange(share as int, i as int),
                    kept as int,
                ),
                self.head@ == kept_head,
                self.head_limit == log.head_limit,
                self.tail_limit == log.tail_limit,
                self.received_bytes == log.received,
                self.dropped_bytes == log.dropped,
                self.redactor == old(self).redactor,
            decreases bytes@.len() - i,
        {
            let ghost before = self.tail@;
            let ghost seen = old_tail + bytes@.subrange(share as int, i as int);
            let ghost more = old_tail + bytes@.subrange(share as int, i + 1);
            assert(more =~= seen.push(bytes@[i as int]));
            if self.tail.len() < kept {
                self.tail.push_back(bytes[i]);
                assert(self.tail@ =~= latest(more, kept as int));
            } else if kept > 0 {
                let _ = self.tail.pop_front();
                self.tail.push_back(bytes[i]);
                assert(self.tail@ =~= latest(more, kept as int));
            } else {
                assert(self.tail@ =~= latest(more, kept as int));
            }
            i = i + 1;
        }
        assert(bytes@.subrange(share as int, i as int) =~= bytes@.skip(share as int));
        let lost: u64 = (bytes.len() - head_taken - tail_taken) as u64;
        self.received_bytes = saturating_sum(self.received_bytes, bytes.len() as u64);
        self.dropped_bytes = saturating_sum(self.dropped_bytes, lost);
        task_budget.received_bytes = saturating_sum(
            task_budget.received_bytes,
            bytes.len() as u64,
        );
        task_budget.dropped_bytes = saturating_sum(task_budget.dropped_bytes, lost);
    }

    /// Takes a chunk of output.
    pub fn append(&mut self, chunk: &[u8], task_budget: &mut TaskLogBudget)
        requires
            old(self).wf(),
            old(task_budget).wf(),
        ensures
            final(self).wf(),
            final(task_budget).wf(),
            final(self)@ == old(self)@.with_appended(
                old(self).redactor_state().pushed(chunk@).output,
                old(task_budget)@.left(),
            ),
            final(task_budget)@ == old(task_budget)@.with_appended(
                old(self)@,
                old(self).redactor_state().pushed(chunk@).output,
            ),
            final(self).redactor_state() == old(self).redactor_state().after_push(chunk@),
    {
        let redacted = self.redactor.push(chunk);
        self.append_redacted(redacted.as_slice(), task_budget);
    }

    /// Ends the output.
    pub fn finish(&mut self, task_budget: &mut TaskLogBudget)
        requires
            old(self).wf(),
            old(task_budget).wf(),
        ensures
            final(self).wf(),
            final(task_budget).wf(),
            final(self)@ == old(self)@.with_appended(
                old(self).redactor_state().finished().output,
                old(task_budget)@.left(),
            ),
            final(task_budget)@ == old(task_budget)@.with_appended(
                old(self)@,
                old(self).redactor_state().finished().output,
            ),
            final(self).redactor_state() == old(self).redactor_state().after_finish(),
    {
        let redacted = self.redactor.finish();
        self.append_redacted(redacted.as_slice(), task_budget);
    }

    /// Counts bytes that were lost before they arrived.
    pub fn record_external_drop(&mut self, count: u64, task_budget: &mut TaskLogBudget)
        requires
            old(self).wf(),
            old(task_budget).wf(),
        ensures
            final(self).wf(),
            final(task_budget).wf(),
            final(self)@ == old(self)@.with_lost(count as nat),
            final(task_budget)@ == old(task_budget)@.with_lost(count as nat),
            final(self).redactor_state() == old(self).redactor_state(),
    {
        self.received_bytes = saturating_sum(self.received_bytes, count);
        self.dropped_bytes = saturating_sum(self.dropped_bytes, count);
        task_budget.received_bytes = saturating_sum(task_budget.received_bytes, count);
        task_budget.dropped_bytes = saturating_sum(task_budget.dropped_bytes, count);
    }

    pub fn snapshot(&self) -> (snapshot: BoundedLogSnapshot)
        requires
            self.wf(),
        ensures
            snapshot.head@ == self@.head,
            snapshot.tail@ == self@.tail,
            snapshot.stored_bytes == saturated(self@.stored() as int),
            snapshot.received_bytes == self@.received,
            snapshot.dropped_bytes == self@.dropped,
            snapshot.truncated == (self@.dropped > 0),
    {
        let mut head: Vec<u8> = Vec::new();
        extend_between(&mut head, self.head.as_slice(), 0, self.head.len());
        assert(head@ =~= self.head@);
        let tail = copy_deque(&self.tail, 0);
        assert(tail@ =~= self.tail@);
        BoundedLogSnapshot {
            head,
            tail,
            stored_bytes: saturating_sum(self.head.len() as u64, self.tail.len() as u64),
            received_bytes: self.received_bytes,
            dropped_bytes: self.dropped_bytes,
            truncated: self.dropped_bytes > 0,
        }
    }

    /// The beginning of the head and the end of the tail.
    pub fn preview(&self, head_limit: usize, tail_limit: usize) -> (preview: BoundedTaskLogPreview)
        requires
            self.wf(),
        ensures
            preview.step_id == 0,
            preview.head@ == self@.head.take(least(self@.head.len() as int, head_limit as int)),
            preview.tail@ == latest(self@.tail, tail_limit as int),
            preview.stored_bytes == saturated(self@.stored() as int),
            preview.dropped_bytes == self@.dropped,
            preview.truncated == (self@.dropped > 0),
            preview.preview_omitted_bytes == saturated(
                self@.stored() - preview.head@.len() - preview.tail@.len(),
            ),
            preview.updated_at@ == Seq::<char>::empty(),
            preview.live,
    {
        let head_length = smaller(self.head.len(), head_limit);
        let mut head: Vec<u8> = Vec::new();
        extend_between(&mut head, self.head.as_slice(), 0, head_length);
        assert(head@ =~= self.head@.take(head_length as int));
        let start: usize = if self.tail.len() > tail_limit {
            self.tail.len() - tail_limit
        } else {
            0
        };
        let tail = copy_deque(&self.tail, start);
        assert(tail@ =~= latest(self.tail@, tail_limit as int));
        let omitted_head: u64 = (self.head.len() - head_length) as u64;
        BoundedTaskLogPreview {
            step_id: 0,
            head,
            tail,
            stored_bytes: saturating_sum(self.head.len() as u64, self.tail.len() as u64),
            dropped_bytes: self.dropped_bytes,
            truncated: self.dropped_bytes > 0,
            preview_omitted_bytes: saturating_sum(omitted_head, start as u64),
            updated_at: String::new(),
            live: true,
        }
    }
}

// ---------------------------------------------------------------------------
// Laws
// ---------------------------------------------------------------------------

/// Nothing gets lost uncounted: what was received is what is stored or dropped.
pub open spec fn is_balanced(log: BufferState) -> bool {
    log.received == log.stored() + log.dropped
}

/// Every byte that arrives is either stored or counted as dropped, by the log and by the budget
/// alike, and what the log stores more is what the budget is charged.
pub proof fn bytes_are_accounted_for(log: BufferState, budget: BudgetState, bytes: Seq<u8>)
    requires
        log.is_bounded(),
        budget.stored <= budget.max,
        log.received + bytes.len() <= u64::MAX,
        log.dropped + bytes.len() <= u64::MAX,
        budget.received + bytes.len() <= u64::MAX,
        budget.dropped + bytes.len() <= u64::MAX,
    ensures
        ({
            let after = log.with_appended(bytes, budget.left());
            let charged = budget.with_appended(log, bytes);
            &&& after.received - log.received == bytes.len()
            &&& after.received - log.received == (after.stored() - log.stored()) + (after.dropped
                - log.dropped)
            &&& charged.received - budget.received == bytes.len()
            &&& charged.stored - budget.stored == after.stored() - log.stored()
            &&& charged.dropped - budget.dropped == after.dropped - log.dropped
            &&& is_balanced(log) ==> is_balanced(after)
        }),
{
}

/// A log never outgrows its limits, and a task never outgrows its budget.
pub proof fn limits_are_kept(log: BufferState, budget: BudgetState, bytes: Seq<u8>)
    requires
        log.is_bounded(),
        budget.stored <= budget.max,
    ensures
        log.with_appended(bytes, budget.left()).is_bounded(),
        budget.with_appended(log, bytes).stored <= budget.max,
        budget.with_appended(log, bytes).max == budget.max,
{
}

/// A log whose limits and budget have room for all that arrives keeps it all.
pub proof fn small_logs_are_kept_whole(log: BufferState, bytes: Seq<u8>, left: int)
    requires
        log.is_bounded(),
        log.tail.len() == 0,
        bytes.len() <= (log.head_limit - log.head.len()) + log.tail_limit,
        bytes.len() <= left,
        log.dropped <= u64::MAX,
    ensures
        ({
            let after = log.with_appended(bytes, left);
            &&& after.head + after.tail == log.head + bytes
            &&& after.dropped == log.dropped
        }),
{
    let after = log.with_appended(bytes, left);
    let share = log.head_share(bytes);
    assert(log.tail + bytes.skip(share) =~= bytes.skip(share));
    assert(after.head + after.tail =~= log.head + bytes);
}

/// The log keeps the beginning of the history and its latest end, with the head filled first.
pub open spec fn keeps(log: BufferState, history: Seq<u8>, left: int) -> bool {
    &&& log.is_bounded()
    &&& log.head.is_prefix_of(history)
    &&& log.tail.is_suffix_of(history)
    &&& log.head.len() < log.head_limit ==> log.tail.len() == 0 && (log.head == history || left
        == 0)
}

/// What a log holds is the beginning of all that was ever received and the end of it, however
/// the bytes arrived and wherever the budget ran out.
pub proof fn head_and_latest_tail_are_kept(
    log: BufferState,
    history: Seq<u8>,
    bytes: Seq<u8>,
    left: int,
)
    requires
        left >= 0,
        keeps(log, history, left),
    ensures
        keeps(
            log.with_appended(bytes, left),
            history + bytes,
            left - log.head_taken(bytes, left) - log.tail_taken(bytes, left),
        ),
{
    let after = log.with_appended(bytes, left);
    let share = log.head_share(bytes);
    let taken = log.head_taken(bytes, left);
    let all = history + bytes;
    assert(after.head.is_prefix_of(all)) by {
        if log.head == history {
            assert(after.head =~= all.subrange(0, after.head.len() as int));
        } else {
            assert(taken == 0);
            assert(after.head =~= log.head);
            assert(history.subrange(0, log.head.len() as int) =~= all.subrange(
                0,
                log.head.len() as int,
            ));
        }
    }
    let both = log.tail + bytes.skip(share);
    assert(both.is_suffix_of(all)) by {
        if share == 0 {
            assert(bytes.skip(0) =~= bytes);
            assert(history.subrange(
                history.len() - log.tail.len(),
                history.len() as int,
            ) =~= all.subrange(history.len() - log.tail.len(), history.len() as int));
            assert(both =~= all.subrange(all.len() - both.len(), all.len() as int));
        } else {
            assert(both =~= bytes.skip(share));
            assert(both =~= all.subrange(all.len() - both.len(), all.len() as int));
        }
    }
    assert(after.tail.is_suffix_of(all)) by {
        assert(after.tail =~= all.subrange(all.len() - after.tail.len(), all.len() as int));
    }
    if after.head.len() < after.head_limit {
        assert(log.head.len() < log.head_limit);
        if taken == bytes.len() && log.head == history {
            assert(after.head =~= all);
        }
        if bytes.len() == 0 {
            assert(all =~= history);
        }
    }
}

/// What a log holds once it has received the whole output: as much of the beginning as the head
/// takes, and as much of the end as the tail takes of the rest.
pub open spec fn whole_log(head_limit: nat, tail_limit: nat, output: Seq<u8>) -> BufferState {
    let head = least(head_limit as int, output.len() as int);
    let tail = least(tail_limit as int, output.len() - head);
    BufferState {
        head_limit,
        tail_limit,
        head: output.take(head),
        tail: output.skip(output.len() - tail),
        received: saturated(output.len() as int),
        dropped: saturated(output.len() - head - tail),
    }
}

/// The budget of a task that has one log alone.
pub open spec fn whole_budget(max: nat, log: BufferState) -> BudgetState {
    BudgetState { max, stored: log.stored(), received: log.received, dropped: log.dropped }
}

/// The log and the budget after the chunks have arrived one after another and the output has ended.
pub open spec fn log_after(
    log: BufferState,
    budget: BudgetState,
    redactor: RedactorState,
    chunks: Seq<Seq<u8>>,
) -> (BufferState, BudgetState)
    decreases chunks.len(),
{
    if chunks.len() == 0 {
        let last = redactor.finished().output;
        (log.with_appended(last, budget.left()), budget.with_appended(log, last))
    } else {
        let next = redactor.pushed(chunks[0]).output;
        log_after(
            log.with_appended(next, budget.left()),
            budget.with_appended(log, next),
            redactor.after_push(chunks[0]),
            chunks.drop_first(),
        )
    }
}

proof fn lemma_whole_log_grows(
    head_limit: nat,
    tail_limit: nat,
    max: nat,
    output: Seq<u8>,
    more: Seq<u8>,
)
    requires
        max >= head_limit + tail_limit,
    ensures
        ({
            let log = whole_log(head_limit, tail_limit, output);
            let budget = whole_budget(max, log);
            let after = whole_log(head_limit, tail_limit, output + more);
            &&& log.with_appended(more, budget.left()) == after
            &&& budget.with_appended(log, more) == whole_budget(max, after)
        }),
{
    let log = whole_log(head_limit, tail_limit, output);
    let budget = whole_budget(max, log);
    let all = output + more;
    let after = whole_log(head_limit, tail_limit, all);
    let grown = log.with_appended(more, budget.left());
    let share = log.head_share(more);
    assert(grown.head =~= after.head);
    assert(grown.tail =~= after.tail);
}

proof fn lemma_log_after(
    head_limit: nat,
    tail_limit: nat,
    max: nat,
    output: Seq<u8>,
    redactor: RedactorState,
    chunks: Seq<Seq<u8>>,
)
    requires
        max >= head_limit + tail_limit,
    ensures
        ({
            let log = whole_log(head_limit, tail_limit, output);
            let after = whole_log(head_limit, tail_limit, output + streamed(redactor, chunks));
            log_after(log, whole_budget(max, log), redactor, chunks) == (after, whole_budget(
                max,
                after,
            ))
        }),
    decreases chunks.len(),
{
    if chunks.len() == 0 {
        lemma_whole_log_grows(head_limit, tail_limit, max, output, redactor.finished().output);
    } else {
        let next = redactor.pushed(chunks[0]).output;
        let later = redactor.after_push(chunks[0]);
        lemma_whole_log_grows(head_limit, tail_limit, max, output, next);
        lemma_log_after(
            head_limit,
            tail_limit,
            max,
            output + next,
            later,
            chunks.drop_first(),
        );
        assert(output + (next + streamed(later, chunks.drop_first())) =~= output + next + streamed(
            later,
            chunks.drop_first(),
        ));
    }
}

/// What a new log holds once its output has ended depends on the redaction of the whole output
/// alone, and not on the chunks in which the output arrived: the beginning as far as the head
/// reaches, the longest end that the tail has room for, and how many bytes there were and were
/// dropped. The budget, which no other log uses, has room for both.
pub proof fn logs_depend_on_the_output_alone(
    head_limit: nat,
    tail_limit: nat,
    max: nat,
    secrets: Seq<Seq<u8>>,
    chunks: Seq<Seq<u8>>,
)
    requires
        max >= head_limit + tail_limit,
        has_no_gap(chunks_joined(chunks), overlap_for(secrets)),
    ensures
        ({
            let empty = BufferState {
                head_limit,
                tail_limit,
                head: Seq::empty(),
                tail: Seq::empty(),
                received: 0,
                dropped: 0,
            };
            let unused = BudgetState { max, stored: 0, received: 0, dropped: 0 };
            let start = RedactorState { secrets, pending: Seq::empty(), masking: false };
            let after = whole_log(
                head_limit,
                tail_limit,
                redacted(secrets, chunks_joined(chunks), false),
            );
            log_after(empty, unused, start, chunks) == (after, whole_budget(max, after))
        }),
{
    let nothing = Seq::<u8>::empty();
    let start = RedactorState { secrets, pending: nothing, masking: false };
    let empty = whole_log(head_limit, tail_limit, nothing);
    assert(empty.head =~= nothing);
    assert(empty.tail =~= nothing);
    assert(nothing + chunks_joined(chunks) =~= chunks_joined(chunks));
    chunks_do_not_matter(start, chunks);
    lemma_log_after(head_limit, tail_limit, max, nothing, start, chunks);
    assert(nothing + streamed(start, chunks) =~= streamed(start, chunks));
}

/// The log of an output: its beginning and its end, as much of each as the limits allow, and how
/// much of it was left out between them.
pub proof fn logs_hold_beginning_and_end(head_limit: nat, tail_limit: nat, output: Seq<u8>)
    requires
        output.len() <= u64::MAX,
    ensures
        ({
            let log = whole_log(head_limit, tail_limit, output);
            &&& log.head.is_prefix_of(output)
            &&& log.tail.is_suffix_of(output)
            &&& output.len() <= head_limit + tail_limit ==> log.head + log.tail == output
                && log.dropped == 0
            &&& output.len() > head_limit + tail_limit ==> log.head.len() == head_limit
                && log.tail.len() == tail_limit
            &&& log.received == output.len()
            &&& log.head.len() + log.tail.len() + log.dropped == output.len()
        }),
{
    let log = whole_log(head_limit, tail_limit, output);
    if output.len() <= head_limit + tail_limit {
        assert(log.head + log.tail =~= output);
    }
    assert(log.tail =~= output.subrange(output.len() - log.tail.len(), output.len() as int));
}

/// Nothing is lost without need. Bytes are lost only where the end is full or the budget is spent,
/// and none go to the end before the beginning is full or the budget is spent.
pub proof fn nothing_is_lost_without_need(log: BufferState, budget: BudgetState, bytes: Seq<u8>)
    requires
        log.is_bounded(),
        budget.stored <= budget.max,
    ensures
        ({
            let after = log.with_appended(bytes, budget.left());
            let charged = budget.with_appended(log, bytes);
            &&& log.lost(bytes, budget.left()) > 0 ==> charged.left() == 0 || after.tail.len()
                == log.tail_limit
            &&& log.tail_taken(bytes, budget.left()) > 0 ==> after.head.len() == log.head_limit
            &&& bytes.len() > 0 && log.lost(bytes, budget.left()) == bytes.len() ==> after.head
                == log.head
        }),
{
    let after = log.with_appended(bytes, budget.left());
    if bytes.len() > 0 && log.lost(bytes, budget.left()) == bytes.len() {
        assert(bytes.take(0) =~= Seq::<u8>::empty());
        assert(after.head =~= log.head);
    }
}

/// Bytes that never arrived are counted and change nothing else.
pub proof fn lost_bytes_are_only_counted(log: BufferState, budget: BudgetState, count: nat)
    requires
        log.received + count <= u64::MAX,
        log.dropped + count <= u64::MAX,
        budget.received + count <= u64::MAX,
        budget.dropped + count <= u64::MAX,
    ensures
        log.with_lost(count) == (BufferState {
            received: log.received + count,
            dropped: log.dropped + count,
            ..log
        }),
        budget.with_lost(count) == (BudgetState {
            received: budget.received + count,
            dropped: budget.dropped + count,
            ..budget
        }),
{
}

/// Counters stop at the largest number that they can hold.
pub proof fn counters_stop_at_their_largest_number(sum: int)
    requires
        sum >= 0,
    ensures
        sum < 0x1_0000_0000_0000_0000 ==> saturated(sum) == sum,
        sum >= 0x1_0000_0000_0000_0000 ==> saturated(sum) == 0xFFFF_FFFF_FFFF_FFFF,
{
}

} // verus!
