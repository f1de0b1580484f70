//! The log of a step while it runs: output is queued in chunks, gathered, handed on in larger
//! pieces, and stored from time to time.

use vstd::prelude::*;

use crate::bytes::{byte_views, extend_bytes, extend_between};
use crate::deploy::inputs::{DeployError, DeployFault};

verus! {

pub const DEPLOYMENT_LOG_FLUSH_BYTES: usize = 1024 * 1024;

pub const DEPLOYMENT_LOG_FLUSH_INTERVAL_MILLIS: u64 = 500;

pub const DEPLOYMENT_LOG_CHECKPOINT_INTERVAL_MILLIS: u64 = 5_000;

pub const DEPLOYMENT_LOG_TRUNCATED_CHECKPOINT_INTERVAL_MILLIS: u64 = 60_000;

pub const DEPLOYMENT_LOG_CHECKPOINT_TIMEOUT_MILLIS: u64 = 2_000;

pub const DEPLOYMENT_LOG_WRITER_CAPACITY: usize = 256;

pub const DEPLOYMENT_LOG_WRITER_CHUNK_BYTES: usize = 16 * 1024;

// ---------------------------------------------------------------------------
// Queueing
// ---------------------------------------------------------------------------

/// Bytes in chunks of the given size; only the last may be shorter, and none is empty.
pub open spec fn chunks_of(bytes: Seq<u8>, size: int) -> Seq<Seq<u8>>
    decreases bytes.len(),
{
    if bytes.len() == 0 || size <= 0 {
        Seq::empty()
    } else if bytes.len() <= size {
        seq![bytes]
    } else {
        seq![bytes.take(size)] + chunks_of(bytes.skip(size), size)
    }
}

/// The chunks in which output is queued.
pub fn log_chunks(bytes: &[u8]) -> (chunks: Vec<Vec<u8>>)
    ensures
        byte_views(chunks@) == chunks_of(bytes@, DEPLOYMENT_LOG_WRITER_CHUNK_BYTES as int),
{
    let size: usize = DEPLOYMENT_LOG_WRITER_CHUNK_BYTES;
    let total: usize = bytes.len();
    let mut chunks: Vec<Vec<u8>> = Vec::new();
    let mut start: usize = 0;
    assert(bytes@.skip(0) =~= bytes@);
    assert(byte_views(chunks@) =~= Seq::empty());
    assert(byte_views(chunks@) + chunks_of(bytes@, size as int) =~= chunks_of(
        bytes@,
        size as int,
    ));
    while start < total
        invariant
            start <= total,
            total == bytes@.len(),
            total == bytes.len(),
            size == DEPLOYMENT_LOG_WRITER_CHUNK_BYTES,
            byte_views(chunks@) + chunks_of(bytes@.skip(start as int), size as int) == chunks_of(
                bytes@,
                size as int,
            ),
        decreases total - start,
    {
        let end: usize = if total - start > size {
            start + size
        } else {
            total
        };
        let mut chunk: Vec<u8> = Vec::new();
        extend_between(&mut chunk, bytes, start, end);
        let ghost before = byte_views(chunks@);
        let ghost rest = bytes@.skip(start as int);
        assert(chunk@ =~= bytes@.subrange(start as int, end as int));
        chunks.push(chunk);
        assert(byte_views(chunks@) =~= before.push(chunk@));
        proof {
            if rest.len() > size {
                assert(rest.skip(size as int) =~= bytes@.skip(start + size));
            }
        }
        assert(chunk@ =~= if rest.len() <= size {
            rest
        } else {
            rest.take(size as int)
        });
        assert(chunks_of(bytes@.skip(end as int), size as int) =~= if rest.len() <= size {
            Seq::empty()
        } else {
            chunks_of(rest.skip(size as int), size as int)
        });
        assert(byte_views(chunks@) + chunks_of(bytes@.skip(end as int), size as int) =~= before
            + chunks_of(rest, size as int));
        start = end;
    }
    assert(bytes@.skip(start as int) =~= Seq::empty());
    assert(byte_views(chunks@) + Seq::empty() =~= byte_views(chunks@));
    chunks
}

/// What came of queueing a chunk.
#[derive(Debug, Clone, Copy, PartialEq, Eq, Structural)]
pub enum QueueOutcome {
    Queued,
    Full,
    Closed,
}

/// How many bytes of a chunk are lost.
pub open spec fn lost_by(outcome: QueueOutcome, length: usize) -> int {
    if outcome == QueueOutcome::Full {
        length as int
    } else {
        0
    }
}

/// How many bytes were dropped by queueing a chunk: output never waits for room.
pub fn account_queued(outcome: QueueOutcome, length: usize) -> (result: Result<u64, DeployError>)
    ensures
        match result {
            Ok(dropped) => {
                &&& outcome != QueueOutcome::Closed
                &&& dropped == lost_by(outcome, length)
            },
            Err(error) => outcome == QueueOutcome::Closed && error@ == DeployFault::Command(
                "部署步骤日志 writer 已停止"@,
            ),
        },
{
    match outcome {
        QueueOutcome::Queued => Ok(0),
        QueueOutcome::Full => Ok(length as u64),
        QueueOutcome::Closed => Err(
            DeployError::Command("部署步骤日志 writer 已停止".to_owned()),
        ),
    }
}

/// What came of waiting until everything queued has been handed on.
pub enum BarrierOutcome {
    /// The request could not be queued.
    Stopped,
    /// No answer came.
    Unanswered,
    /// The answer.
    Answered(Result<(), String>),
}

pub fn barrier_result(outcome: BarrierOutcome) -> (result: Result<(), DeployError>)
    ensures
        match (outcome, result) {
            (BarrierOutcome::Answered(Ok(_)), Ok(_)) => true,
            (BarrierOutcome::Stopped, Err(error)) => error@ == DeployFault::Command(
                "部署步骤日志 writer 已停止"@,
            ),
            (BarrierOutcome::Unanswered, Err(error)) => error@ == DeployFault::Command(
                "部署步骤日志 writer 未完成刷新"@,
            ),
            (BarrierOutcome::Answered(Err(message)), Err(error)) => error@ == DeployFault::Command(
                "写入部署步骤日志失败: "@ + message@,
            ),
            _ => false,
        },
{
    match outcome {
        BarrierOutcome::Answered(Ok(_)) => Ok(()),
        BarrierOutcome::Stopped => Err(
            DeployError::Command("部署步骤日志 writer 已停止".to_owned()),
        ),
        BarrierOutcome::Unanswered => Err(
            DeployError::Command("部署步骤日志 writer 未完成刷新".to_owned()),
        ),
        BarrierOutcome::Answered(Err(message)) => Err(
            DeployError::Command("写入部署步骤日志失败: ".to_owned().concat(message.as_str())),
        ),
    }
}

// ---------------------------------------------------------------------------
// Writing
// ---------------------------------------------------------------------------

/// What a log writer has gathered, and what of it still has to be stored.
#[derive(Debug)]
pub struct DeploymentLogWriter {
    pending: Vec<u8>,
    dirty: bool,
    checkpoint_interval_millis: u64,
}

/// A log writer as a mathematical value.
pub struct WriterState {
    /// What was gathered and not handed on yet.
    pub pending: Seq<u8>,
    /// Whether something was handed on since the log was last stored.
    pub dirty: bool,
    /// How long the log goes unstored, in milliseconds.
    pub interval: u64,
}

impl WriterState {
    /// The writer after output has come.
    pub open spec fn gathered(self, chunk: Seq<u8>) -> WriterState {
        WriterState { pending: self.pending + chunk, ..self }
    }

    /// Enough was gathered to be handed on.
    pub open spec fn is_full(self) -> bool {
        self.pending.len() >= DEPLOYMENT_LOG_FLUSH_BYTES
    }

    /// The writer after an attempt to hand on what was gathered, if there was one.
    pub open spec fn handed_on(self, result: Option<Result<(), String>>) -> WriterState {
        match result {
            Some(Ok(_)) => WriterState { pending: Seq::empty(), ..self },
            _ => self,
        }
    }

    /// The writer after it has learnt whether something was handed on.
    pub open spec fn marked(self, changed: bool) -> WriterState {
        WriterState { dirty: self.dirty || changed, ..self }
    }

    /// It is time to store the log.
    pub open spec fn is_due(self, elapsed_millis: u64) -> bool {
        self.dirty && elapsed_millis >= self.interval
    }

    /// The writer after an attempt to store the log.
    pub open spec fn stored(self, outcome: CheckpointOutcome) -> WriterState {
        match outcome {
            CheckpointOutcome::Stored { truncated } => WriterState {
                pending: self.pending,
                dirty: false,
                interval: if truncated {
                    DEPLOYMENT_LOG_TRUNCATED_CHECKPOINT_INTERVAL_MILLIS
                } else {
                    DEPLOYMENT_LOG_CHECKPOINT_INTERVAL_MILLIS
                },
            },
            CheckpointOutcome::Failed => self,
        }
    }
}

impl View for DeploymentLogWriter {
    type V = WriterState;

    closed spec fn view(&self) -> WriterState {
        WriterState {
            pending: self.pending@,
            dirty: self.dirty,
            interval: self.checkpoint_interval_millis,
        }
    }
}

/// What came of handing on what was gathered.
#[derive(Debug, Clone)]
pub enum FlushOutcome {
    /// Nothing was there to hand on.
    Nothing,
    /// Something was handed on.
    Changed,
    /// It failed, with this message.
    Failed(String),
}

/// What came of an attempt to store the log.
#[derive(Debug, Clone, Copy, PartialEq, Eq, Structural)]
pub enum CheckpointOutcome {
    /// The log was stored, as a whole or with something left out.
    Stored { truncated: bool },
    /// The attempt failed, or took too long.
    Failed,
}

impl DeploymentLogWriter {
    pub fn new() -> (writer: DeploymentLogWriter)
        ensures
            writer@ == (WriterState {
                pending: Seq::empty(),
                dirty: false,
                interval: DEPLOYMENT_LOG_CHECKPOINT_INTERVAL_MILLIS,
            }),
    {
        DeploymentLogWriter {
            pending: Vec::new(),
            dirty: false,
            checkpoint_interval_millis: DEPLOYMENT_LOG_CHECKPOINT_INTERVAL_MILLIS,
        }
    }

    /// Takes a chunk from the queue: whether enough was gathered to hand it on at once.
    pub fn add_chunk(&mut self, chunk: &[u8]) -> (flush: bool)
        ensures
            final(self)@ == old(self)@.gathered(chunk@),
            flush == final(self)@.is_full(),
    {
        extend_bytes(&mut self.pending, chunk);
        self.pending.len() >= DEPLOYMENT_LOG_FLUSH_BYTES
    }

    /// What is handed on, while there is something.
    pub fn to_append(&self) -> (bytes: Option<&Vec<u8>>)
        ensures
            match bytes {
                Some(bytes) => bytes@ == self@.pending && bytes@.len() > 0,
                None => self@.pending.len() == 0,
            },
    {
        if self.pending.len() == 0 {
            None
        } else {
            Some(&self.pending)
        }
    }

    /// Takes what came of handing on what was gathered, if something was handed on. After a
    /// failure it is kept for the next attempt.
    pub fn appended(&mut self, result: Option<Result<(), String>>) -> (outcome: FlushOutcome)
        ensures
            final(self)@ == old(self)@.handed_on(result),
            match result {
                None => outcome is Nothing,
                Some(Ok(_)) => outcome is Changed,
                Some(Err(message)) => outcome is Failed && outcome->Failed_0@ == message@,
            },
    {
        match result {
            None => FlushOutcome::Nothing,
            Some(Ok(_)) => {
                self.pending = Vec::new();
                FlushOutcome::Changed
            },
            Some(Err(message)) => FlushOutcome::Failed(message),
        }
    }

    /// Takes what came of a whole attempt to hand on: something that was handed on has to be
    /// stored.
    pub fn flushed(&mut self, outcome: &FlushOutcome)
        ensures
            final(self)@ == old(self)@.marked(outcome is Changed),
    {
        match outcome {
            FlushOutcome::Changed => {
                self.dirty = true;
            },
            _ => {},
        }
    }

    /// Whether it is time to store the log.
    pub fn checkpoint_due(&self, elapsed_millis: u64) -> (due: bool)
        ensures
            due == self@.is_due(elapsed_millis),
    {
        self.dirty && elapsed_millis >= self.checkpoint_interval_millis
    }

    /// Takes what came of an attempt to store the log: whether the time until the next begins
    /// anew. A log that has something left out is stored less often.
    pub fn checkpointed(&mut self, outcome: CheckpointOutcome) -> (restart: bool)
        ensures
            restart == (outcome is Stored),
            final(self)@ == old(self)@.stored(outcome),
    {
        match outcome {
            CheckpointOutcome::Stored { truncated } => {
                self.dirty = false;
                self.checkpoint_interval_millis =
                if truncated {
                    DEPLOYMENT_LOG_TRUNCATED_CHECKPOINT_INTERVAL_MILLIS
                } else {
                    DEPLOYMENT_LOG_CHECKPOINT_INTERVAL_MILLIS
                };
                true
            },
            CheckpointOutcome::Failed => false,
        }
    }
}

/// What came of a flush: of handing on what was gathered, and of recording what was lost. The number
/// is what is still to be recorded.
pub open spec fn is_flushed(
    appended: FlushOutcome,
    dropped: u64,
    recorded: Result<(), String>,
    outcome: (FlushOutcome, u64),
) -> bool {
    match appended {
        FlushOutcome::Failed(message) => outcome.0 is Failed && outcome.0->Failed_0@ == message@
            && outcome.1 == 0,
        _ => if dropped == 0 {
            outcome == (appended, 0u64)
        } else {
            match recorded {
                Ok(_) => outcome == (FlushOutcome::Changed, 0u64),
                Err(message) => outcome.0 is Failed && outcome.0->Failed_0@ == message@ && outcome.1
                    == dropped,
            }
        },
    }
}

/// The outcome of handing on what was gathered and then the number of bytes that were dropped,
/// where any were. That number is only asked for after the first part went well.
pub fn flush_outcome(
    appended: FlushOutcome,
    dropped: u64,
    recorded: Result<(), String>,
) -> (outcome: (FlushOutcome, u64))
    ensures
        is_flushed(appended, dropped, recorded, outcome),
{
    match appended {
        FlushOutcome::Failed(message) => (FlushOutcome::Failed(message), 0),
        other => {
            if dropped == 0 {
                (other, 0)
            } else {
                match recorded {
                    Ok(_) => (FlushOutcome::Changed, 0),
                    Err(message) => (FlushOutcome::Failed(message), dropped),
                }
            }
        },
    }
}

// ---------------------------------------------------------------------------
// Laws
// ---------------------------------------------------------------------------

/// The bytes of all chunks, one after another.
pub open spec fn joined_bytes(chunks: Seq<Seq<u8>>) -> Seq<u8>
    decreases chunks.len(),
{
    if chunks.len() == 0 {
        Seq::empty()
    } else {
        chunks[0] + joined_bytes(chunks.drop_first())
    }
}

/// To cut output into chunks loses nothing and changes no order, and every chunk holds something
/// and is no longer than allowed.
pub proof fn chunks_hold_everything(bytes: Seq<u8>, size: int)
    requires
        size > 0,
    ensures
        joined_bytes(chunks_of(bytes, size)) == bytes,
        forall|i: int|
            0 <= i < chunks_of(bytes, size).len() ==> 0 < (#[trigger] chunks_of(
                bytes,
                size,
            )[i]).len() <= size,
    decreases bytes.len(),
{
    let chunks = chunks_of(bytes, size);
    if bytes.len() == 0 {
        assert(joined_bytes(chunks) =~= bytes);
    } else if bytes.len() <= size {
        assert(chunks.drop_first() =~= Seq::empty());
        assert(joined_bytes(chunks.drop_first()) =~= Seq::empty());
        assert(joined_bytes(chunks) =~= bytes);
    } else {
        let rest = chunks_of(bytes.skip(size), size);
        chunks_hold_everything(bytes.skip(size), size);
        assert(chunks.drop_first() =~= rest);
        assert(joined_bytes(chunks) =~= bytes);
        assert forall|i: int| 0 <= i < chunks.len() implies 0 < (#[trigger] chunks[i]).len()
            <= size by {
            if i > 0 {
                assert(chunks[i] == rest[i - 1]);
            }
        }
    }
}

/// Output is queued in chunks of 16384 bytes; only the last of a piece may be shorter.
pub proof fn chunks_are_filled_before_they_are_queued(bytes: Seq<u8>, i: int)
    requires
        0 <= i < chunks_of(bytes, DEPLOYMENT_LOG_WRITER_CHUNK_BYTES as int).len() - 1,
    ensures
        chunks_of(bytes, DEPLOYMENT_LOG_WRITER_CHUNK_BYTES as int)[i].len() == 16384,
    decreases bytes.len(),
{
    let size = DEPLOYMENT_LOG_WRITER_CHUNK_BYTES as int;
    if bytes.len() > size && i > 0 {
        assert(chunks_of(bytes, size)[i] == chunks_of(bytes.skip(size), size)[i - 1]);
        chunks_are_filled_before_they_are_queued(bytes.skip(size), i - 1);
    }
}

/// What was gathered waits until it has been handed on: nothing is lost by a failure, and nothing is
/// handed on twice.
pub proof fn gathered_output_waits_until_it_is_handed_on(
    writer: WriterState,
    chunk: Seq<u8>,
    message: String,
)
    ensures
        writer.gathered(chunk).pending == writer.pending + chunk,
        writer.gathered(chunk).dirty == writer.dirty,
        writer.gathered(chunk).interval == writer.interval,
        writer.handed_on(None) == writer,
        writer.handed_on(Some(Err(message))) == writer,
        writer.handed_on(Some(Ok(()))).pending.len() == 0,
        writer.handed_on(Some(Ok(()))).dirty == writer.dirty,
{
}

/// Output is handed on as soon as a mebibyte of it was gathered.
pub proof fn output_is_handed_on_by_the_mebibyte(writer: WriterState)
    ensures
        writer.is_full() <==> writer.pending.len() >= 0x10_0000,
{
}

/// The log is stored when something was handed on and its time has come: after five seconds, or
/// after a minute once something of it is left out. Until that succeeds it stays due.
pub proof fn logs_are_stored_from_time_to_time(
    writer: WriterState,
    elapsed_millis: u64,
    truncated: bool,
)
    ensures
        !writer.dirty ==> !writer.is_due(elapsed_millis),
        writer.dirty ==> (writer.is_due(elapsed_millis) <==> writer.interval <= elapsed_millis),
        writer.stored(CheckpointOutcome::Failed) == writer,
        writer.stored(CheckpointOutcome::Stored { truncated }) == (WriterState {
            pending: writer.pending,
            dirty: false,
            interval: if truncated {
                60_000
            } else {
                5_000
            },
        }),
        writer.marked(true).dirty,
        writer.marked(false) == writer,
        writer.marked(true).pending == writer.pending,
        writer.marked(true).interval == writer.interval,
{
}

/// A chunk is lost only where the queue is full, and then as a whole.
pub proof fn full_queues_lose_whole_chunks(outcome: QueueOutcome, length: usize)
    ensures
        lost_by(QueueOutcome::Queued, length) == 0,
        lost_by(QueueOutcome::Full, length) == length,
{
}

/// Losses are told until they are recorded: they are given back for the next time exactly if they
/// could not be recorded, and they count as a change where they could.
pub proof fn losses_are_told_until_recorded(
    appended: FlushOutcome,
    dropped: u64,
    recorded: Result<(), String>,
    outcome: (FlushOutcome, u64),
)
    requires
        is_flushed(appended, dropped, recorded, outcome),
    ensures
        appended is Failed ==> outcome.0 is Failed && outcome.1 == 0,
        !(appended is Failed) && dropped == 0 ==> outcome.0 == appended && outcome.1 == 0,
        !(appended is Failed) && dropped > 0 && recorded is Ok ==> outcome.0 is Changed && outcome.1
            == 0,
        !(appended is Failed) && dropped > 0 && recorded is Err ==> outcome.0 is Failed && outcome.1
            == dropped,
{
}

} // verus!
