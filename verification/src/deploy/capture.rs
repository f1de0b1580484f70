//! The output of a command, of which the beginning and the end are kept.

use std::collections::VecDeque;

use vstd::prelude::*;
use vstd::utf8::encode_utf8;

use crate::bytes::{extend_between, extend_bytes};
use crate::deployment_retention::log_buffer::{latest, least, saturated};

verus! {

pub const COMMAND_CAPTURE_HEAD_BYTES: usize = 64 * 1024;

pub const COMMAND_CAPTURE_TAIL_BYTES: usize = 256 * 1024;

pub const COMMAND_CAPTURE_TRUNCATION_MARKER: &'static str =
    "\n...[命令输出已截断，仅保留开头与结尾]...\n";

/// A capture as a mathematical value.
pub struct CaptureState {
    pub head: Seq<u8>,
    pub tail: Seq<u8>,
    pub dropped: nat,
}

impl CaptureState {
    /// How many of the bytes belong to the head.
    pub open spec fn head_share(self, bytes: Seq<u8>) -> int {
        least(COMMAND_CAPTURE_HEAD_BYTES - self.head.len(), bytes.len() as int)
    }

    /// The capture after more output: the head is filled first, and the tail keeps the latest
    /// bytes of what follows.
    pub open spec fn with_appended(self, bytes: Seq<u8>) -> CaptureState {
        let share = self.head_share(bytes);
        let following = self.tail + bytes.skip(share);
        CaptureState {
            head: self.head + bytes.take(share),
            tail: latest(following, COMMAND_CAPTURE_TAIL_BYTES as int),
            dropped: if following.len() > COMMAND_CAPTURE_TAIL_BYTES {
                saturated(self.dropped + following.len() - COMMAND_CAPTURE_TAIL_BYTES)
            } else {
                self.dropped
            },
        }
    }

    /// What is shown: the head and the tail, with a mark between them where bytes are missing.
    pub open spec fn shown(self) -> Seq<u8> {
        if self.dropped > 0 {
            self.head + encode_utf8(COMMAND_CAPTURE_TRUNCATION_MARKER@) + self.tail
        } else {
            self.head + self.tail
        }
    }
}

/// Keeps the beginning and the end of the output of a command.
#[derive(Debug)]
pub struct BoundedCommandCapture {
    head: Vec<u8>,
    tail: VecDeque<u8>,
    dropped_bytes: u64,
}

impl View for BoundedCommandCapture {
    type V = CaptureState;

    closed spec fn view(&self) -> CaptureState {
        CaptureState { head: self.head@, tail: self.tail@, dropped: self.dropped_bytes as nat }
    }
}

impl BoundedCommandCapture {
    /// What is kept stays within the limits.
    pub closed spec fn wf(self) -> bool {
        self.head@.len() <= COMMAND_CAPTURE_HEAD_BYTES && self.tail@.len()
            <= COMMAND_CAPTURE_TAIL_BYTES
    }

    /// What is kept stays within the limits.
    pub proof fn limits_hold(self)
        requires
            self.wf(),
        ensures
            self@.head.len() <= COMMAND_CAPTURE_HEAD_BYTES,
            self@.tail.len() <= COMMAND_CAPTURE_TAIL_BYTES,
    {
    }

    pub fn new() -> (capture: BoundedCommandCapture)
        ensures
            capture.wf(),
            capture@ == (CaptureState { head: Seq::empty(), tail: Seq::empty(), dropped: 0 }),
    {
        BoundedCommandCapture { head: Vec::new(), tail: VecDeque::new(), dropped_bytes: 0 }
    }

    pub fn append(&mut self, bytes: &[u8])
        requires
            old(self).wf(),
        ensures
            final(self).wf(),
            final(self)@ == old(self)@.with_appended(bytes@),
    {
        let ghost state = self@;
        let room: usize = COMMAND_CAPTURE_HEAD_BYTES - self.head.len();
        let share: usize = if room < bytes.len() {
            room
        } else {
            bytes.len()
        };
        extend_between(&mut self.head, bytes, 0, share);
        assert(bytes@.subrange(0, share as int) =~= bytes@.take(share as int));
        let ghost kept_head = self.head@;
        let ghost old_tail = self.tail@;
        let old_length = self.tail.len();
        let mut i: usize = share;
        let limit: usize = COMMAND_CAPTURE_TAIL_BYTES;
        assert(latest(old_tail + bytes@.subrange(share as int, i as int), limit as int)
            =~= old_tail);
        while i < bytes.len()
            invariant
                share <= i <= bytes@.len(),
                limit == COMMAND_CAPTURE_TAIL_BYTES,
                old_tail.len() <= limit,
                self.tail@ == latest(
                    old_tail + bytes@.subrange(share as int, i as int),
                    limit as int,
                ),
                self.head@ == kept_head,
                self.dropped_bytes == state.dropped,
            decreases bytes@.len() - i,
        {
            let ghost seen = old_tail + bytes@.subrange(share as int, i as int);
            let ghost more = old_tail + bytes@.subrange(share as int, i + 1);
            assert(more =~= seen.push(bytes@[i as int]));
            if self.tail.len() >= limit {
                let _ = self.tail.pop_front();
            }
            self.tail.push_back(bytes[i]);
            assert(self.tail@ =~= latest(more, limit as int));
            i = i + 1;
        }
        assert(bytes@.subrange(share as int, i as int) =~= bytes@.skip(share as int));
        let rest: usize = bytes.len() - share;
        let grown: usize = limit - old_length;
        if rest > grown {
            let lost: u64 = (rest - grown) as u64;
            self.dropped_bytes = if self.dropped_bytes > u64::MAX - lost {
                u64::MAX
            } else {
                self.dropped_bytes + lost
            };
        }
    }

    pub fn into_bytes(self) -> (bytes: Vec<u8>)
        requires
            self.wf(),
        ensures
            bytes@ == self@.shown(),
    {
        let mut bytes: Vec<u8> = Vec::new();
        extend_bytes(&mut bytes, self.head.as_slice());
        if self.dropped_bytes > 0 {
            extend_bytes(&mut bytes, COMMAND_CAPTURE_TRUNCATION_MARKER.as_bytes());
        }
        let ghost start = bytes@;
        let mut i: usize = 0;
        assert(start + self.tail@.take(0) =~= start);
        while i < self.tail.len()
            invariant
                i <= self.tail@.len(),
                bytes@ == start + self.tail@.take(i as int),
            decreases self.tail@.len() - i,
        {
            bytes.push(self.tail[i]);
            i = i + 1;
            assert(bytes@ =~= start + self.tail@.take(i as int));
        }
        assert(self.tail@.take(i as int) =~= self.tail@);
        assert(bytes@ =~= self@.shown());
        bytes
    }
}

/// The capture of a whole output.
pub open spec fn captured(output: Seq<u8>) -> CaptureState {
    let head = least(COMMAND_CAPTURE_HEAD_BYTES as int, output.len() as int);
    let following = output.skip(head);
    CaptureState {
        head: output.take(head),
        tail: latest(following, COMMAND_CAPTURE_TAIL_BYTES as int),
        dropped: if following.len() > COMMAND_CAPTURE_TAIL_BYTES {
            (following.len() - COMMAND_CAPTURE_TAIL_BYTES) as nat
        } else {
            0
        },
    }
}

/// A capture depends on the output alone and not on how it arrives: it holds the beginning and
/// the end of all that has arrived, and counts what is missing between them.
pub proof fn capture_depends_on_output_alone(output: Seq<u8>, bytes: Seq<u8>)
    requires
        output.len() + bytes.len() <= u64::MAX,
    ensures
        captured(output).with_appended(bytes) == captured(output + bytes),
{
    let before = captured(output);
    let after = before.with_appended(bytes);
    let whole = captured(output + bytes);
    let share = before.head_share(bytes);
    let all = output + bytes;
    assert(after.head =~= whole.head);
    let rest = bytes.skip(share);
    if output.len() < COMMAND_CAPTURE_HEAD_BYTES {
        assert(before.tail =~= Seq::empty());
        assert(before.tail + rest =~= all.skip(whole.head.len() as int));
    } else {
        assert(share == 0);
        assert(rest =~= bytes);
        let first = output.skip(COMMAND_CAPTURE_HEAD_BYTES as int);
        assert(all.skip(COMMAND_CAPTURE_HEAD_BYTES as int) =~= first + bytes);
    }
    assert(after.tail =~= whole.tail);
}

/// Output that fits is shown as it is.
pub proof fn small_output_is_shown_whole(output: Seq<u8>)
    requires
        output.len() <= COMMAND_CAPTURE_HEAD_BYTES + COMMAND_CAPTURE_TAIL_BYTES,
    ensures
        captured(output).shown() == output,
{
    assert(captured(output).shown() =~= output);
}

/// Of an output the first 65536 bytes and the last 262144 are kept, and what is missing between them
/// is counted. All of it is shown where nothing is missing; otherwise the gap is marked.
pub proof fn captures_hold_beginning_and_end(output: Seq<u8>)
    ensures
        ({
            let capture = captured(output);
            &&& capture.head.is_prefix_of(output)
            &&& capture.tail.is_suffix_of(output)
            &&& output.len() <= 65536 ==> capture.head == output && capture.tail.len() == 0
            &&& output.len() > 65536 ==> capture.head.len() == 65536
            &&& output.len() > 327680 ==> capture.tail.len() == 262144
            &&& output.len() <= 327680 ==> capture.dropped == 0 && capture.shown() == output
            &&& capture.head.len() + capture.tail.len() + capture.dropped == output.len()
            &&& capture.dropped > 0 ==> capture.shown() == capture.head + encode_utf8(
                COMMAND_CAPTURE_TRUNCATION_MARKER@,
            ) + capture.tail
        }),
{
    let capture = captured(output);
    if output.len() <= 327680 {
        small_output_is_shown_whole(output);
    }
    if output.len() <= 65536 {
        assert(capture.head =~= output);
    }
    assert(capture.tail =~= output.subrange(output.len() - capture.tail.len(), output.len() as int));
}

} // verus!
