//! Redaction of secrets in a stream of log bytes.
//!
//! Known secrets are replaced wherever they stand. What follows `password`, `token`, `secret` or
//! `authorization` and an equals sign or a colon is masked up to the next terminator. The stream
//! arrives in chunks: the end of what has arrived is held back until enough follows to decide.

use vstd::prelude::*;
use vstd::string::StringSliceAdditionalSpecFns;
use vstd::utf8::{
    decode_utf8, encode_scalar, encode_utf8, is_ascii_chars, is_continuation_byte,
    length_of_first_scalar, pop_first_scalar, take_first_scalar, valid_utf8,
};

use crate::bytes::{byte_views, bytes_at, extend_between, extend_bytes, text_from_utf8_lossy};
use crate::pieces::{holds, stands_at};
use crate::text::{chars_of, lemma_texts_push, lowered, texts};

verus! {

/// How many bytes are held back at least.
pub const MIN_OVERLAP: usize = 256;

/// What stands in the output for what was removed.
pub open spec fn mask() -> Seq<u8> {
    encode_utf8("[REDACTED]"@)
}

/// A byte that ends the value of a masked assignment.
pub open spec fn ends_assignment(byte: u8) -> bool {
    byte == 10 || byte == 13 || byte == 39 || byte == 34 || byte == 44 || byte == 38
}

/// Space, tab, line feed, form feed and carriage return.
pub open spec fn is_blank_byte(byte: u8) -> bool {
    byte == 32 || byte == 9 || byte == 10 || byte == 12 || byte == 13
}

pub open spec fn lower_byte(byte: u8) -> u8 {
    if 65 <= byte <= 90 {
        (byte + 32) as u8
    } else {
        byte
    }
}

/// How many blank bytes the sequence begins with.
pub open spec fn blanks(s: Seq<u8>) -> nat
    decreases s.len(),
{
    if s.len() > 0 && is_blank_byte(s[0]) {
        1 + blanks(s.drop_first())
    } else {
        0
    }
}

/// The bytes begin with the key, in whatever case.
pub open spec fn begins_with_key(s: Seq<u8>, key: Seq<char>) -> bool {
    key.len() <= s.len() && forall|i: int|
        0 <= i < key.len() ==> lower_byte(s[i]) as char == #[trigger] key[i]
}

/// The length of the sensitive key that the bytes begin with, or 0.
pub open spec fn key_length(s: Seq<u8>) -> nat {
    if begins_with_key(s, "password"@) {
        "password"@.len()
    } else if begins_with_key(s, "token"@) {
        "token"@.len()
    } else if begins_with_key(s, "secret"@) {
        "secret"@.len()
    } else if begins_with_key(s, "authorization"@) {
        "authorization"@.len()
    } else {
        0
    }
}

/// The length of the sensitive assignment that the bytes begin with: the key, an equals sign or a
/// colon, and the blanks around it.
pub open spec fn assignment_length(s: Seq<u8>) -> Option<nat> {
    let key = key_length(s);
    let sign = key + blanks(s.skip(key as int));
    if key > 0 && sign < s.len() && (s[sign as int] == 61 || s[sign as int] == 58) {
        Some(sign + 1 + blanks(s.skip((sign + 1) as int)))
    } else {
        None
    }
}

/// The length of the longest secret that the bytes begin with, or 0.
pub open spec fn secret_length(secrets: Seq<Seq<u8>>, s: Seq<u8>) -> nat
    decreases secrets.len(),
{
    if secrets.len() == 0 {
        0
    } else {
        let before = secret_length(secrets.drop_last(), s);
        let last = secrets.last();
        if last.is_prefix_of(s) && last.len() > before {
            last.len()
        } else {
            before
        }
    }
}

/// The length of the longest secret.
pub open spec fn longest(secrets: Seq<Seq<u8>>) -> nat
    decreases secrets.len(),
{
    if secrets.len() == 0 {
        0
    } else {
        let before = longest(secrets.drop_last());
        if secrets.last().len() > before {
            secrets.last().len()
        } else {
            before
        }
    }
}

/// How many bytes are held back: enough that no secret is cut.
pub open spec fn overlap_for(secrets: Seq<Seq<u8>>) -> int {
    if longest(secrets) - 1 > MIN_OVERLAP {
        longest(secrets) - 1
    } else {
        MIN_OVERLAP as int
    }
}

/// The outcome of a scan: what it wrote, how many bytes it used, and whether it ended inside a
/// masked assignment.
pub struct Scan {
    pub output: Seq<u8>,
    pub used: int,
    pub masking: bool,
}

pub open spec fn prepend(output: Seq<u8>, used: int, rest: Scan) -> Scan {
    Scan { output: output + rest.output, used: used + rest.used, masking: rest.masking }
}

/// Scans the bytes up to `limit`. Unless the bytes are the last, a sensitive assignment that
/// reaches beyond the limit is left for later.
#[verifier::opaque]
pub open spec fn scan(
    secrets: Seq<Seq<u8>>,
    s: Seq<u8>,
    masking: bool,
    limit: int,
    last: bool,
) -> Scan
    decreases s.len(),
{
    let nothing = Scan { output: Seq::empty(), used: 0, masking };
    if limit <= 0 || s.len() == 0 {
        nothing
    } else if masking {
        if ends_assignment(s[0]) {
            prepend(seq![s[0]], 1, scan(secrets, s.drop_first(), false, limit - 1, last))
        } else {
            prepend(Seq::empty(), 1, scan(secrets, s.drop_first(), true, limit - 1, last))
        }
    } else if 0 < secret_length(secrets, s) <= s.len() {
        let n = secret_length(secrets, s) as int;
        prepend(mask(), n, scan(secrets, s.skip(n), false, limit - n, last))
    } else if assignment_length(s) is Some && 0 < assignment_length(s)->0 <= s.len() {
        let n = assignment_length(s)->0 as int;
        if !last && n > limit {
            nothing
        } else {
            prepend(s.take(n) + mask(), n, scan(secrets, s.skip(n), true, limit - n, last))
        }
    } else {
        prepend(seq![s[0]], 1, scan(secrets, s.drop_first(), false, limit - 1, last))
    }
}

proof fn lemma_scan_stops(
    secrets: Seq<Seq<u8>>,
    s: Seq<u8>,
    masking: bool,
    limit: int,
    last: bool,
)
    requires
        limit <= 0 || s.len() == 0 || (!masking && !last && secret_length(secrets, s) == 0
            && assignment_length(s) is Some && limit < assignment_length(s)->0 <= s.len()),
    ensures
        scan(secrets, s, masking, limit, last) == (Scan { output: Seq::empty(), used: 0, masking }),
{
    reveal(scan);
}

proof fn lemma_scan_masked(secrets: Seq<Seq<u8>>, s: Seq<u8>, limit: int, last: bool)
    requires
        limit > 0,
        s.len() > 0,
    ensures
        scan(secrets, s, true, limit, last) == prepend(
            if ends_assignment(s[0]) {
                seq![s[0]]
            } else {
                Seq::empty()
            },
            1,
            scan(secrets, s.drop_first(), !ends_assignment(s[0]), limit - 1, last),
        ),
{
    reveal(scan);
}

proof fn lemma_scan_secret(secrets: Seq<Seq<u8>>, s: Seq<u8>, limit: int, last: bool)
    requires
        limit > 0,
        0 < secret_length(secrets, s) <= s.len(),
    ensures
        ({
            let n = secret_length(secrets, s) as int;
            scan(secrets, s, false, limit, last) == prepend(
                mask(),
                n,
                scan(secrets, s.skip(n), false, limit - n, last),
            )
        }),
{
    reveal(scan);
}

proof fn lemma_scan_assignment(secrets: Seq<Seq<u8>>, s: Seq<u8>, limit: int, last: bool)
    requires
        limit > 0,
        secret_length(secrets, s) == 0,
        assignment_length(s) is Some,
        0 < assignment_length(s)->0 <= s.len(),
        last || assignment_length(s)->0 <= limit,
    ensures
        ({
            let n = assignment_length(s)->0 as int;
            scan(secrets, s, false, limit, last) == prepend(
                s.take(n) + mask(),
                n,
                scan(secrets, s.skip(n), true, limit - n, last),
            )
        }),
{
    reveal(scan);
}

proof fn lemma_scan_plain(secrets: Seq<Seq<u8>>, s: Seq<u8>, limit: int, last: bool)
    requires
        limit > 0,
        s.len() > 0,
        secret_length(secrets, s) == 0,
        assignment_length(s) is None,
    ensures
        scan(secrets, s, false, limit, last) == prepend(
            seq![s[0]],
            1,
            scan(secrets, s.drop_first(), false, limit - 1, last),
        ),
{
    reveal(scan);
}

/// To prepend twice is to prepend the two outputs one after the other.
proof fn lemma_prepend(first: Seq<u8>, used: int, second: Seq<u8>, more: int, rest: Scan)
    ensures
        prepend(first, used, prepend(second, more, rest)) == prepend(
            first + second,
            used + more,
            rest,
        ),
{
    assert(first + (second + rest.output) =~= first + second + rest.output);
}

/// The redaction of bytes that are all there.
pub open spec fn redacted(secrets: Seq<Seq<u8>>, s: Seq<u8>, masking: bool) -> Seq<u8> {
    scan(secrets, s, masking, s.len() as int, true).output
}

proof fn lemma_blanks(s: Seq<u8>)
    ensures
        blanks(s) <= s.len(),
        forall|i: int| 0 <= i < blanks(s) ==> is_blank_byte(#[trigger] s[i]),
        blanks(s) < s.len() ==> !is_blank_byte(s[blanks(s) as int]),
    decreases s.len(),
{
    if s.len() > 0 && is_blank_byte(s[0]) {
        let rest = s.drop_first();
        lemma_blanks(rest);
        assert forall|i: int| 0 <= i < blanks(s) implies is_blank_byte(#[trigger] s[i]) by {
            if i > 0 {
                assert(s[i] == rest[i - 1]);
            }
        }
        if blanks(s) < s.len() {
            assert(s[blanks(s) as int] == rest[blanks(rest) as int]);
        }
    }
}

proof fn lemma_blanks_is(s: Seq<u8>, n: nat)
    requires
        n <= s.len(),
        forall|i: int| 0 <= i < n ==> is_blank_byte(#[trigger] s[i]),
        n < s.len() ==> !is_blank_byte(s[n as int]),
    ensures
        blanks(s) == n,
{
    lemma_blanks(s);
    if blanks(s) < n {
        assert(is_blank_byte(s[blanks(s) as int]));
    } else if blanks(s) > n {
        assert(is_blank_byte(s[n as int]));
    }
}

proof fn lemma_key_length(s: Seq<u8>)
    ensures
        key_length(s) <= s.len(),
        key_length(s) <= 13,
{
    reveal_strlit("password");
    reveal_strlit("token");
    reveal_strlit("secret");
    reveal_strlit("authorization");
}

proof fn lemma_assignment_length(s: Seq<u8>)
    ensures
        assignment_length(s) is Some ==> 0 < assignment_length(s)->0 <= s.len(),
{
    lemma_key_length(s);
    let key = key_length(s);
    let sign = key + blanks(s.skip(key as int));
    lemma_blanks(s.skip(key as int));
    if sign < s.len() {
        lemma_blanks(s.skip((sign + 1) as int));
    }
}

proof fn lemma_secret_length(secrets: Seq<Seq<u8>>, s: Seq<u8>)
    ensures
        secret_length(secrets, s) <= s.len(),
        secret_length(secrets, s) <= longest(secrets),
    decreases secrets.len(),
{
    if secrets.len() > 0 {
        lemma_secret_length(secrets.drop_last(), s);
    }
}

pub fn is_assignment_terminator(byte: u8) -> (is: bool)
    ensures
        is == ends_assignment(byte),
{
    byte == 10 || byte == 13 || byte == 39 || byte == 34 || byte == 44 || byte == 38
}

fn count_blanks(bytes: &[u8], at: usize) -> (count: usize)
    requires
        at <= bytes@.len(),
    ensures
        count == blanks(bytes@.skip(at as int)),
        at + count <= bytes.len(),
{
    let mut count: usize = 0;
    let ghost rest = bytes@.skip(at as int);
    while count < bytes.len() - at && (bytes[at + count] == 32 || bytes[at + count] == 9
        || bytes[at + count] == 10 || bytes[at + count] == 12 || bytes[at + count] == 13)
        invariant
            at <= bytes.len(),
            rest == bytes@.skip(at as int),
            at + count <= bytes.len(),
            forall|i: int| 0 <= i < count ==> is_blank_byte(#[trigger] rest[i]),
        decreases bytes@.len() - at - count,
    {
        count = count + 1;
    }
    proof {
        lemma_blanks_is(rest, count as nat);
    }
    count
}

fn key_at(bytes: &[u8], at: usize, key: &str) -> (found: bool)
    requires
        at <= bytes@.len(),
    ensures
        found == begins_with_key(bytes@.skip(at as int), key@),
{
    let chars = chars_of(key);
    if chars.len() > bytes.len() - at {
        return false;
    }
    let ghost rest = bytes@.skip(at as int);
    let mut i: usize = 0;
    while i < chars.len()
        invariant
            chars@ == key@,
            rest == bytes@.skip(at as int),
            at + chars.len() <= bytes.len(),
            i <= chars@.len(),
            forall|j: int| 0 <= j < i ==> lower_byte(rest[j]) as char == #[trigger] key@[j],
        decreases chars@.len() - i,
    {
        let byte: u8 = bytes[at + i];
        assert(byte == rest[i as int]);
        let lower: u8 = if 65 <= byte && byte <= 90 {
            byte + 32
        } else {
            byte
        };
        if lower as char != chars[i] {
            assert(lower_byte(rest[i as int]) as char != key@[i as int]);
            return false;
        }
        i = i + 1;
    }
    true
}

fn key_length_at(bytes: &[u8], at: usize) -> (length: usize)
    requires
        at <= bytes@.len(),
    ensures
        length == key_length(bytes@.skip(at as int)),
        at + length <= bytes.len(),
{
    proof {
        reveal_strlit("password");
        reveal_strlit("token");
        reveal_strlit("secret");
        reveal_strlit("authorization");
    }
    if key_at(bytes, at, "password") {
        8
    } else if key_at(bytes, at, "token") {
        5
    } else if key_at(bytes, at, "secret") {
        6
    } else if key_at(bytes, at, "authorization") {
        13
    } else {
        0
    }
}

/// The length of the sensitive assignment that stands at the position `at`.
pub fn sensitive_assignment_prefix(bytes: &[u8], at: usize) -> (length: Option<usize>)
    requires
        at <= bytes@.len(),
    ensures
        match length {
            Some(n) => assignment_length(bytes@.skip(at as int)) == Some(n as nat),
            None => assignment_length(bytes@.skip(at as int)) is None,
        },
{
    let ghost rest = bytes@.skip(at as int);
    let key = key_length_at(bytes, at);
    if key == 0 {
        return None;
    }
    assert(rest.skip(key as int) =~= bytes@.skip(at + key));
    let sign: usize = at + key + count_blanks(bytes, at + key);
    if sign >= bytes.len() {
        return None;
    }
    assert(rest[sign - at] == bytes@[sign as int]);
    if bytes[sign] != 61 && bytes[sign] != 58 {
        return None;
    }
    assert(rest.skip(sign - at + 1) =~= bytes@.skip(sign + 1));
    Some(sign + 1 - at + count_blanks(bytes, sign + 1))
}

/// What a redactor holds.
pub struct RedactorState {
    pub secrets: Seq<Seq<u8>>,
    pub pending: Seq<u8>,
    pub masking: bool,
}

impl RedactorState {
    /// The scan of what is pending, together with a chunk that arrives.
    pub open spec fn pushed(self, chunk: Seq<u8>) -> Scan {
        let bytes = self.pending + chunk;
        scan(self.secrets, bytes, self.masking, bytes.len() - overlap_for(self.secrets), false)
    }

    /// The state after a chunk has arrived.
    pub open spec fn after_push(self, chunk: Seq<u8>) -> RedactorState {
        let step = self.pushed(chunk);
        RedactorState {
            secrets: self.secrets,
            pending: (self.pending + chunk).skip(step.used),
            masking: step.masking,
        }
    }

    /// The scan of all that is pending.
    pub open spec fn finished(self) -> Scan {
        scan(self.secrets, self.pending, self.masking, self.pending.len() as int, true)
    }

    /// The state after the end of the stream.
    pub open spec fn after_finish(self) -> RedactorState {
        RedactorState {
            secrets: self.secrets,
            pending: Seq::empty(),
            masking: self.finished().masking,
        }
    }
}

/// The bytes of the secrets that are not empty.
pub open spec fn secret_bytes(secrets: Seq<Seq<char>>) -> Seq<Seq<u8>>
    decreases secrets.len(),
{
    if secrets.len() == 0 {
        Seq::empty()
    } else if secrets.last().len() == 0 {
        secret_bytes(secrets.drop_last())
    } else {
        secret_bytes(secrets.drop_last()).push(encode_utf8(secrets.last()))
    }
}

/// Removes secrets from a stream of bytes.
#[derive(Debug)]
pub struct StreamingRedactor {
    secrets: Vec<Vec<u8>>,
    pending: Vec<u8>,
    overlap: usize,
    masking_assignment: bool,
}

impl View for StreamingRedactor {
    type V = RedactorState;

    closed spec fn view(&self) -> RedactorState {
        RedactorState {
            secrets: byte_views(self.secrets@),
            pending: self.pending@,
            masking: self.masking_assignment,
        }
    }
}

impl StreamingRedactor {
    /// As many bytes are held back as the secrets need.
    pub closed spec fn wf(self) -> bool {
        self.overlap == overlap_for(byte_views(self.secrets@))
    }

    pub fn new(secrets: Vec<String>) -> (redactor: StreamingRedactor)
        ensures
            redactor.wf(),
            redactor@ == (RedactorState {
                secrets: secret_bytes(texts(secrets@)),
                pending: Seq::empty(),
                masking: false,
            }),
    {
        let mut kept: Vec<Vec<u8>> = Vec::new();
        let mut longest_length: usize = 0;
        let mut i: usize = 0;
        assert(byte_views(kept@) =~= secret_bytes(texts(secrets@).take(0)));
        while i < secrets.len()
            invariant
                i <= secrets@.len(),
                byte_views(kept@) == secret_bytes(texts(secrets@).take(i as int)),
                longest_length == longest(byte_views(kept@)),
            decreases secrets@.len() - i,
        {
            assert(texts(secrets@).take(i + 1).drop_last() =~= texts(secrets@).take(i as int));
            let secret = secrets[i].as_str();
            assert(texts(secrets@).take(i + 1).last() == secret@);
            if !secret.is_empty() {
                let bytes = secret.as_bytes_vec();
                if bytes.len() > longest_length {
                    longest_length = bytes.len();
                }
                let ghost before = byte_views(kept@);
                kept.push(bytes);
                assert(byte_views(kept@) =~= before.push(bytes@));
                assert(byte_views(kept@).drop_last() =~= before);
            }
            i = i + 1;
        }
        assert(texts(secrets@).take(i as int) =~= texts(secrets@));
        let overlap: usize = if longest_length > MIN_OVERLAP {
            longest_length - 1
        } else {
            MIN_OVERLAP
        };
        StreamingRedactor {
            secrets: kept,
            pending: Vec::new(),
            overlap,
            masking_assignment: false,
        }
    }

    fn secret_length_at(&self, at: usize) -> (length: usize)
        requires
            at <= self@.pending.len(),
        ensures
            length == secret_length(self@.secrets, self@.pending.skip(at as int)),
            at + length <= self@.pending.len(),
    {
        let ghost rest = self@.pending.skip(at as int);
        let mut length: usize = 0;
        let mut i: usize = 0;
        while i < self.secrets.len()
            invariant
                i <= self.secrets@.len(),
                at <= self.pending@.len(),
                rest == self.pending@.skip(at as int),
                length == secret_length(byte_views(self.secrets@).take(i as int), rest),
            decreases self.secrets@.len() - i,
        {
            let ghost all = byte_views(self.secrets@);
            assert(all.take(i + 1).drop_last() =~= all.take(i as int));
            let secret = &self.secrets[i];
            assert(all.take(i + 1).last() == secret@);
            if secret.len() > length && bytes_at(
                self.pending.as_slice(),
                secret.as_slice(),
                at,
            ) {
                length = secret.len();
            }
            i = i + 1;
        }
        assert(byte_views(self.secrets@).take(i as int) =~= self@.secrets);
        proof {
            lemma_secret_length(self@.secrets, rest);
        }
        length
    }

    fn process(&mut self, last: bool) -> (output: Vec<u8>)
        requires
            old(self).wf(),
        ensures
            final(self).wf(),
            ({
                let state = old(self)@;
                let limit = if last {
                    state.pending.len() as int
                } else {
                    state.pending.len() - overlap_for(state.secrets)
                };
                let step = scan(state.secrets, state.pending, state.masking, limit, last);
                &&& output@ == step.output
                &&& 0 <= step.used <= state.pending.len()
                &&& final(self)@ == (RedactorState {
                    secrets: state.secrets,
                    pending: state.pending.skip(step.used),
                    masking: step.masking,
                })
            }),
    {
        let count = self.pending.len();
        let safe_end: usize = if last {
            count
        } else if count > self.overlap {
            count - self.overlap
        } else {
            0
        };
        let ghost state = self@;
        let ghost limit = if last {
            state.pending.len() as int
        } else {
            state.pending.len() - overlap_for(state.secrets)
        };
        let ghost whole = scan(state.secrets, state.pending, state.masking, limit, last);
        let mut output: Vec<u8> = Vec::new();
        let mut offset: usize = 0;
        proof {
            assert(state.pending.skip(0) =~= state.pending);
            assert(output@ + whole.output =~= whole.output);
        }
        while offset < safe_end
            invariant
                self.wf(),
                self@.secrets == state.secrets,
                self@.pending == state.pending,
                count == state.pending.len(),
                offset <= count,
                limit <= count,
                safe_end as int == (if limit > 0 { limit } else { 0 }),
                whole == prepend(
                    output@,
                    offset as int,
                    scan(
                        state.secrets,
                        state.pending.skip(offset as int),
                        self@.masking,
                        limit - offset,
                        last,
                    ),
                ),
            ensures
                offset >= safe_end || scan(
                    state.secrets,
                    state.pending.skip(offset as int),
                    self@.masking,
                    limit - offset,
                    last,
                ) == (Scan { output: Seq::empty(), used: 0, masking: self@.masking }),
            decreases count - offset,
        {
            let ghost rest = state.pending.skip(offset as int);
            let ghost before = output@;
            let ghost left = limit - offset;
            if self.masking_assignment {
                let byte = self.pending[offset];
                proof {
                    lemma_scan_masked(state.secrets, rest, left, last);
                    assert(rest.drop_first() =~= state.pending.skip(offset + 1));
                    assert(rest[0] == byte);
                }
                if is_assignment_terminator(byte) {
                    self.masking_assignment = false;
                    output.push(byte);
                    assert(output@ =~= before + seq![byte]);
                } else {
                    assert(output@ =~= before + Seq::<u8>::empty());
                }
                offset = offset + 1;
                proof {
                    lemma_prepend(
                        before,
                        offset - 1,
                        if ends_assignment(byte) {
                            seq![byte]
                        } else {
                            Seq::empty()
                        },
                        1,
                        scan(
                            state.secrets,
                            state.pending.skip(offset as int),
                            self@.masking,
                            limit - offset,
                            last,
                        ),
                    );
                }
                continue;
            }
            let secret = self.secret_length_at(offset);
            if secret > 0 {
                extend_bytes(&mut output, "[REDACTED]".as_bytes());
                proof {
                    lemma_scan_secret(state.secrets, rest, left, last);
                    assert(rest.skip(secret as int) =~= state.pending.skip(offset + secret));
                    lemma_prepend(
                        before,
                        offset as int,
                        mask(),
                        secret as int,
                        scan(
                            state.secrets,
                            rest.skip(secret as int),
                            false,
                            left - secret,
                            last,
                        ),
                    );
                }
                offset = offset + secret;
                continue;
            }
            proof {
                lemma_assignment_length(rest);
            }
            match sensitive_assignment_prefix(self.pending.as_slice(), offset) {
                Some(length) => {
                    if length > safe_end - offset && !last {
                        proof {
                            lemma_scan_stops(state.secrets, rest, false, left, last);
                        }
                        break;
                    }
                    extend_between(
                        &mut output,
                        self.pending.as_slice(),
                        offset,
                        offset + length,
                    );
                    extend_bytes(&mut output, "[REDACTED]".as_bytes());
                    self.masking_assignment = true;
                    proof {
                        lemma_scan_assignment(state.secrets, rest, left, last);
                        assert(rest.skip(length as int) =~= state.pending.skip(offset + length));
                        assert(rest.take(length as int) =~= state.pending.subrange(
                            offset as int,
                            offset + length,
                        ));
                        assert(output@ =~= before + (rest.take(length as int) + mask()));
                        lemma_prepend(
                            before,
                            offset as int,
                            rest.take(length as int) + mask(),
                            length as int,
                            scan(
                                state.secrets,
                                rest.skip(length as int),
                                true,
                                left - length,
                                last,
                            ),
                        );
                    }
                    offset = offset + length;
                },
                None => {
                    let byte = self.pending[offset];
                    output.push(byte);
                    proof {
                        lemma_scan_plain(state.secrets, rest, left, last);
                        assert(rest.drop_first() =~= state.pending.skip(offset + 1));
                        assert(output@ =~= before + seq![rest[0]]);
                        lemma_prepend(
                            before,
                            offset as int,
                            seq![rest[0]],
                            1,
                            scan(state.secrets, rest.drop_first(), false, left - 1, last),
                        );
                    }
                    offset = offset + 1;
                },
            }
        }
        proof {
            if offset >= safe_end {
                lemma_scan_stops(
                    state.secrets,
                    state.pending.skip(offset as int),
                    self@.masking,
                    limit - offset,
                    last,
                );
            }
            assert(output@ + Seq::<u8>::empty() =~= output@);
        }
        let kept = self.pending.split_off(offset);
        self.pending = kept;
        assert(self.pending@ =~= state.pending.skip(whole.used));
        output
    }

    /// Takes a chunk of the stream and returns what can be written of it already.
    pub fn push(&mut self, chunk: &[u8]) -> (output: Vec<u8>)
        requires
            old(self).wf(),
        ensures
            final(self).wf(),
            output@ == old(self)@.pushed(chunk@).output,
            final(self)@ == old(self)@.after_push(chunk@),
    {
        extend_bytes(&mut self.pending, chunk);
        self.process(false)
    }

    /// Ends the stream and returns what is left to be written.
    pub fn finish(&mut self) -> (output: Vec<u8>)
        requires
            old(self).wf(),
        ensures
            final(self).wf(),
            output@ == old(self)@.finished().output,
            final(self)@ == old(self)@.after_finish(),
    {
        let ghost state = self@;
        proof {
            lemma_last_scan_uses_all(
                state.secrets,
                state.pending,
                state.masking,
                state.pending.len() as int,
            );
        }
        let output = self.process(true);
        assert(self@.pending =~= Seq::empty());
        output
    }
}

proof fn lemma_last_scan_uses_all(
    secrets: Seq<Seq<u8>>,
    s: Seq<u8>,
    masking: bool,
    limit: int,
)
    requires
        limit == s.len(),
    ensures
        scan(secrets, s, masking, limit, true).used == s.len(),
    decreases s.len(),
{
    reveal(scan);
    if s.len() > 0 {
        if masking {
            lemma_last_scan_uses_all(secrets, s.drop_first(), !ends_assignment(s[0]), limit - 1);
        } else if 0 < secret_length(secrets, s) <= s.len() {
            let n = secret_length(secrets, s) as int;
            lemma_last_scan_uses_all(secrets, s.skip(n), false, limit - n);
        } else if assignment_length(s) is Some && 0 < assignment_length(s)->0 <= s.len() {
            let n = assignment_length(s)->0 as int;
            lemma_last_scan_uses_all(secrets, s.skip(n), true, limit - n);
        } else {
            lemma_last_scan_uses_all(secrets, s.drop_first(), false, limit - 1);
        }
    }
}

/// What a scan writes and uses first.
pub open spec fn first_step(secrets: Seq<Seq<u8>>, s: Seq<u8>, masking: bool) -> Scan {
    if masking {
        Scan {
            output: if ends_assignment(s[0]) {
                seq![s[0]]
            } else {
                Seq::empty()
            },
            used: 1,
            masking: !ends_assignment(s[0]),
        }
    } else if secret_length(secrets, s) > 0 {
        Scan { output: mask(), used: secret_length(secrets, s) as int, masking: false }
    } else if assignment_length(s) is Some {
        let n = assignment_length(s)->0 as int;
        Scan { output: s.take(n) + mask(), used: n, masking: true }
    } else {
        Scan { output: seq![s[0]], used: 1, masking: false }
    }
}

/// The bytes begin with an assignment that reaches beyond the limit.
pub open spec fn held_back(
    secrets: Seq<Seq<u8>>,
    s: Seq<u8>,
    masking: bool,
    limit: int,
) -> bool {
    !masking && secret_length(secrets, s) == 0 && assignment_length(s) is Some
        && assignment_length(s)->0 > limit
}

proof fn lemma_scan_step(
    secrets: Seq<Seq<u8>>,
    s: Seq<u8>,
    masking: bool,
    limit: int,
    last: bool,
)
    requires
        limit > 0,
        s.len() > 0,
        last || !held_back(secrets, s, masking, limit),
    ensures
        ({
            let first = first_step(secrets, s, masking);
            &&& 0 < first.used <= s.len()
            &&& scan(secrets, s, masking, limit, last) == prepend(
                first.output,
                first.used,
                scan(secrets, s.skip(first.used), first.masking, limit - first.used, last),
            )
        }),
{
    lemma_assignment_length(s);
    lemma_secret_length(secrets, s);
    assert(s.drop_first() =~= s.skip(1));
    if masking {
        lemma_scan_masked(secrets, s, limit, last);
    } else if secret_length(secrets, s) > 0 {
        lemma_scan_secret(secrets, s, limit, last);
    } else if assignment_length(s) is Some {
        lemma_scan_assignment(secrets, s, limit, last);
    } else {
        lemma_scan_plain(secrets, s, limit, last);
    }
}

proof fn lemma_parts(a: Seq<u8>, b: Seq<u8>, c: Seq<u8>)
    ensures
        a + (b + c) == (a + b) + c,
{
    assert(a + (b + c) =~= (a + b) + c);
}

/// A scan of bytes that are all there may stop at any limit and be resumed.
pub proof fn scan_can_be_resumed(
    secrets: Seq<Seq<u8>>,
    s: Seq<u8>,
    masking: bool,
    limit: int,
)
    ensures
        ({
            let step = scan(secrets, s, masking, limit, false);
            &&& 0 <= step.used <= s.len()
            &&& redacted(secrets, s, masking) == step.output + redacted(
                secrets,
                s.skip(step.used),
                step.masking,
            )
        }),
    decreases s.len(),
{
    let full = s.len() as int;
    let step = scan(secrets, s, masking, limit, false);
    if limit <= 0 || s.len() == 0 || held_back(secrets, s, masking, limit) {
        lemma_assignment_length(s);
        lemma_scan_stops(secrets, s, masking, limit, false);
        assert(s.skip(0) =~= s);
        assert(step.output + redacted(secrets, s, masking) =~= redacted(secrets, s, masking));
    } else {
        let first = first_step(secrets, s, masking);
        let n = first.used;
        lemma_scan_step(secrets, s, masking, limit, false);
        lemma_scan_step(secrets, s, masking, full, true);
        scan_can_be_resumed(secrets, s.skip(n), first.masking, limit - n);
        let later = scan(secrets, s.skip(n), first.masking, limit - n, false);
        assert(s.skip(n).skip(later.used) =~= s.skip(step.used));
        lemma_parts(
            first.output,
            later.output,
            redacted(secrets, s.skip(step.used), step.masking),
        );
    }
}

/// The text without the secrets and without the values of sensitive assignments.
pub open spec fn redacted_text(secrets: Seq<Seq<char>>, content: Seq<char>) -> Seq<char> {
    decode_utf8(redacted(secret_bytes(secrets), encode_utf8(content), false))
}

/// The bytes agree with the mask wherever the two overlap, if they begin `at` bytes behind the
/// beginning of the mask.
pub open spec fn agrees_with_mask(bytes: Seq<u8>, at: int) -> bool {
    forall|i: int|
        0 <= i < bytes.len() && 0 <= at + i < mask().len() ==> #[trigger] bytes[i] == mask()[at + i]
}

/// The bytes can stand in such a way that they share bytes with a mask.
pub open spec fn overlaps_mask(bytes: Seq<u8>) -> bool {
    exists|at: int| -bytes.len() < at < mask().len() && #[trigger] agrees_with_mask(bytes, at)
}

/// The bytes are a sensitive assignment: a key, a sign and the blanks around it.
pub open spec fn is_assignment(bytes: Seq<u8>) -> bool {
    assignment_length(bytes) == Some(bytes.len())
}

/// The bytes can stand inside a sensitive assignment, behind its first byte.
pub open spec fn stands_in_assignment(bytes: Seq<u8>) -> bool {
    exists|assignment: Seq<u8>, at: int|
        is_assignment(assignment) && 0 < at && #[trigger] bytes_stand_at(assignment, bytes, at)
}

/// The bytes can arise from what redaction writes by itself: from a mask with what is next to it,
/// from inside a sensitive assignment, or from the byte that ends the value of one.
pub open spec fn can_arise(bytes: Seq<u8>) -> bool {
    bytes.len() == 0 || ends_assignment(bytes[0]) || overlaps_mask(bytes) || stands_in_assignment(
        bytes,
    )
}

/// The bytes of `part` stand in `whole` at the position.
pub open spec fn bytes_stand_at(whole: Seq<u8>, part: Seq<u8>, at: int) -> bool {
    0 <= at && at + part.len() <= whole.len() && whole.subrange(at, at + part.len()) == part
}

/// A letter, a digit, a hyphen or an underscore.
pub open spec fn is_plain_char(c: char) -> bool {
    is_letter(c) || '0' <= c <= '9' || c == '-' || c == '_'
}

pub open spec fn is_letter(c: char) -> bool {
    'a' <= c <= 'z' || 'A' <= c <= 'Z'
}

/// The secret consists of letters, digits, hyphens and underscores, and not of letters alone.
pub open spec fn is_unmistakable(secret: Seq<char>) -> bool {
    &&& forall|i: int| 0 <= i < secret.len() ==> is_plain_char(#[trigger] secret[i])
    &&& exists|i: int| 0 <= i < secret.len() && !is_letter(#[trigger] secret[i])
}

/// No secret and no sensitive assignment stands anywhere in the bytes.
pub open spec fn is_harmless(secrets: Seq<Seq<u8>>, s: Seq<u8>) -> bool {
    forall|at: int|
        0 <= at < s.len() ==> secret_length(secrets, #[trigger] s.skip(at)) == 0
            && assignment_length(s.skip(at)) is None
}

/// Redacts a text that is all there.
pub fn redact_log_text(secrets: &Vec<String>, content: &str) -> (text: String)
    ensures
        text@ == redacted_text(texts(secrets@), content@),
        encode_utf8(text@) == redacted(
            secret_bytes(texts(secrets@)),
            encode_utf8(content@),
            false,
        ),
        forall|secret: Seq<char>|
            texts(secrets@).contains(secret) && (!can_arise(encode_utf8(secret)) || is_unmistakable(
                secret,
            )) ==> !#[trigger] holds(text@, secret),
        is_harmless(secret_bytes(texts(secrets@)), encode_utf8(content@)) ==> text@ == content@,
{
    let mut owned: Vec<String> = Vec::new();
    let mut i: usize = 0;
    assert(texts(owned@) =~= texts(secrets@).take(0));
    while i < secrets.len()
        invariant
            i <= secrets@.len(),
            texts(owned@) == texts(secrets@).take(i as int),
        decreases secrets@.len() - i,
    {
        proof {
            lemma_texts_push(owned@, secrets@[i as int]);
        }
        owned.push(secrets[i].clone());
        i = i + 1;
        assert(texts(owned@) =~= texts(secrets@).take(i as int));
    }
    assert(texts(secrets@).take(i as int) =~= texts(secrets@));
    let mut redactor = StreamingRedactor::new(owned);
    let ghost start = redactor@;
    let ghost bytes = encode_utf8(content@);
    let mut output = redactor.push(content.as_bytes());
    let rest = redactor.finish();
    extend_bytes(&mut output, rest.as_slice());
    proof {
        assert(start.pending + bytes =~= bytes);
        scan_can_be_resumed(
            start.secrets,
            bytes,
            false,
            bytes.len() - overlap_for(start.secrets),
        );
        if is_harmless(start.secrets, bytes) {
            harmless_bytes_are_kept(start.secrets, bytes);
            vstd::utf8::encode_utf8_decode_utf8(content@);
        }
        redactions_of_texts_are_texts(texts(secrets@), content@);
        vstd::utf8::decode_utf8_encode_utf8(redacted(start.secrets, bytes, false));
        assert forall|secret: Seq<char>|
            texts(secrets@).contains(secret) && (!can_arise(encode_utf8(secret)) || is_unmistakable(
                secret,
            )) implies !#[trigger] holds(redacted_text(texts(secrets@), content@), secret) by {
            if is_unmistakable(secret) {
                plain_secrets_cannot_arise(secret);
            }
            redacted_texts_hold_no_secret(texts(secrets@), content@, secret);
        }
    }
    let text = text_from_utf8_lossy(output.as_slice());
    assert(text@ == redacted_text(texts(secrets@), content@));
    text
}

// ---------------------------------------------------------------------------
// Laws
// ---------------------------------------------------------------------------

/// A sensitive key followed by so many blanks that the sign after them may not have arrived
/// when the key is scanned.
pub open spec fn begins_with_gap(s: Seq<u8>, overlap: int) -> bool {
    key_length(s) > 0 && key_length(s) + blanks(s.skip(key_length(s) as int)) > overlap
}

/// No sensitive key is followed by so many blanks.
pub open spec fn has_no_gap(s: Seq<u8>, overlap: int) -> bool {
    forall|at: int| 0 <= at <= s.len() ==> !begins_with_gap(#[trigger] s.skip(at), overlap)
}

/// Runs of blanks that are not much longer than two hundred bytes leave no gap.
pub proof fn short_blanks_leave_no_gap(secrets: Seq<Seq<u8>>, s: Seq<u8>)
    requires
        forall|at: int| 0 <= at <= s.len() ==> blanks(#[trigger] s.skip(at)) <= MIN_OVERLAP - 13,
    ensures
        has_no_gap(s, overlap_for(secrets)),
{
    assert forall|at: int| 0 <= at <= s.len() implies !begins_with_gap(
        #[trigger] s.skip(at),
        overlap_for(secrets),
    ) by {
        let rest = s.skip(at);
        lemma_key_length(rest);
        let key = key_length(rest) as int;
        assert(rest.skip(key) =~= s.skip(at + key));
    }
}

proof fn lemma_no_gap_later(s: Seq<u8>, overlap: int, n: int)
    requires
        has_no_gap(s, overlap),
        0 <= n <= s.len(),
    ensures
        has_no_gap(s.skip(n), overlap),
{
    assert forall|at: int| 0 <= at <= s.skip(n).len() implies !begins_with_gap(
        #[trigger] s.skip(n).skip(at),
        overlap,
    ) by {
        assert(s.skip(n).skip(at) =~= s.skip(n + at));
    }
}

proof fn lemma_secret_length_extends(secrets: Seq<Seq<u8>>, s: Seq<u8>, more: Seq<u8>)
    requires
        s.len() >= longest(secrets),
    ensures
        secret_length(secrets, s + more) == secret_length(secrets, s),
    decreases secrets.len(),
{
    if secrets.len() > 0 {
        let last = secrets.last();
        lemma_secret_length_extends(secrets.drop_last(), s, more);
        assert((s + more).subrange(0, last.len() as int) =~= s.subrange(0, last.len() as int));
    }
}

proof fn lemma_key_length_extends(s: Seq<u8>, more: Seq<u8>)
    requires
        s.len() >= 13,
    ensures
        key_length(s + more) == key_length(s),
{
    reveal_strlit("password");
    reveal_strlit("token");
    reveal_strlit("secret");
    reveal_strlit("authorization");
    assert forall|key: Seq<char>| key.len() <= 13 implies begins_with_key(s + more, key)
        == #[trigger] begins_with_key(s, key) by {
        assert(forall|i: int| 0 <= i < key.len() ==> (s + more)[i] == s[i]);
        if begins_with_key(s, key) {
            assert forall|i: int| 0 <= i < key.len() implies lower_byte((s + more)[i]) as char
                == #[trigger] key[i] by {
                assert(lower_byte(s[i]) as char == key[i]);
            }
        }
        if begins_with_key(s + more, key) {
            assert forall|i: int| 0 <= i < key.len() implies lower_byte(s[i]) as char
                == #[trigger] key[i] by {
                assert(lower_byte((s + more)[i]) as char == key[i]);
            }
        }
    }
    assert(begins_with_key(s, "password"@) == begins_with_key(s + more, "password"@));
    assert(begins_with_key(s, "token"@) == begins_with_key(s + more, "token"@));
    assert(begins_with_key(s, "secret"@) == begins_with_key(s + more, "secret"@));
    assert(begins_with_key(s, "authorization"@) == begins_with_key(s + more, "authorization"@));
}

proof fn lemma_blanks_extend(s: Seq<u8>, more: Seq<u8>, from: int)
    requires
        0 <= from <= s.len(),
    ensures
        blanks(s.skip(from)) < s.len() - from ==> blanks((s + more).skip(from)) == blanks(
            s.skip(from),
        ),
        blanks((s + more).skip(from)) >= blanks(s.skip(from)),
{
    let short = s.skip(from);
    let long = (s + more).skip(from);
    lemma_blanks(short);
    lemma_blanks(long);
    assert(forall|i: int| 0 <= i < short.len() ==> #[trigger] short[i] == long[i]);
    if blanks(short) < short.len() {
        assert forall|i: int| 0 <= i < blanks(short) implies is_blank_byte(#[trigger] long[i]) by {
            assert(is_blank_byte(short[i]));
        }
        lemma_blanks_is(long, blanks(short));
    } else if blanks(long) < blanks(short) {
        assert(is_blank_byte(short[blanks(long) as int]));
    }
}

proof fn lemma_assignment_extends(s: Seq<u8>, more: Seq<u8>, overlap: int)
    requires
        overlap >= 13,
        s.len() > overlap,
        !begins_with_gap(s + more, overlap),
        assignment_length(s) is Some ==> assignment_length(s)->0 < s.len(),
    ensures
        assignment_length(s + more) == assignment_length(s),
{
    let long = s + more;
    lemma_key_length_extends(s, more);
    lemma_key_length(s);
    let key = key_length(s);
    if key > 0 {
        lemma_blanks_extend(s, more, key as int);
        lemma_blanks(s.skip(key as int));
        let sign = key + blanks(s.skip(key as int));
        assert(sign < s.len());
        assert(long[sign as int] == s[sign as int]);
        if s[sign as int] == 61 || s[sign as int] == 58 {
            lemma_blanks_extend(s, more, (sign + 1) as int);
            lemma_blanks(s.skip((sign + 1) as int));
        }
    }
}

proof fn lemma_first_step_extends(
    secrets: Seq<Seq<u8>>,
    s: Seq<u8>,
    more: Seq<u8>,
    masking: bool,
)
    requires
        s.len() > overlap_for(secrets),
        !held_back(secrets, s, masking, s.len() - overlap_for(secrets)),
        !begins_with_gap(s + more, overlap_for(secrets)),
    ensures
        first_step(secrets, s + more, masking) == first_step(secrets, s, masking),
{
    assert((s + more)[0] == s[0]);
    if !masking {
        lemma_secret_length_extends(secrets, s, more);
        if secret_length(secrets, s) == 0 {
            lemma_assignment_extends(s, more, overlap_for(secrets));
            lemma_assignment_length(s);
            if assignment_length(s) is Some {
                let n = assignment_length(s)->0 as int;
                assert((s + more).take(n) =~= s.take(n));
            }
        }
    }
}

/// What a scan of the beginning of a stream writes, followed by the redaction of the rest of
/// the stream, is the redaction of the whole stream.
#[verifier::spinoff_prover]
#[verifier::rlimit(40)]
pub proof fn scan_can_be_continued(
    secrets: Seq<Seq<u8>>,
    s: Seq<u8>,
    more: Seq<u8>,
    masking: bool,
)
    requires
        has_no_gap(s + more, overlap_for(secrets)),
    ensures
        ({
            let step = scan(secrets, s, masking, s.len() - overlap_for(secrets), false);
            &&& 0 <= step.used <= s.len()
            &&& redacted(secrets, s + more, masking) == step.output + redacted(
                secrets,
                s.skip(step.used) + more,
                step.masking,
            )
        }),
    decreases s.len(),
{
    let overlap = overlap_for(secrets);
    let limit = s.len() - overlap;
    let whole = s + more;
    let full = whole.len() as int;
    let step = scan(secrets, s, masking, limit, false);
    if limit <= 0 || s.len() == 0 || held_back(secrets, s, masking, limit) {
        lemma_assignment_length(s);
        lemma_scan_stops(secrets, s, masking, limit, false);
        assert(s.skip(0) =~= s);
        assert(step.output + redacted(secrets, whole, masking) =~= redacted(
            secrets,
            whole,
            masking,
        ));
    } else {
        let first = first_step(secrets, s, masking);
        let n = first.used;
        lemma_scan_step(secrets, s, masking, limit, false);
        assert(whole.skip(0) =~= whole);
        assert(!begins_with_gap(whole.skip(0), overlap));
        lemma_first_step_extends(secrets, s, more, masking);
        lemma_scan_step(secrets, whole, masking, full, true);
        assert(whole.skip(n) =~= s.skip(n) + more);
        lemma_no_gap_later(whole, overlap, n);
        scan_can_be_continued(secrets, s.skip(n), more, first.masking);
        let later = scan(secrets, s.skip(n), first.masking, limit - n, false);
        assert(s.skip(n).skip(later.used) =~= s.skip(step.used));
        lemma_parts(
            first.output,
            later.output,
            redacted(secrets, s.skip(step.used) + more, step.masking),
        );
    }
}

/// What a redactor writes for a stream that arrives in the given chunks and then ends.
pub open spec fn streamed(state: RedactorState, chunks: Seq<Seq<u8>>) -> Seq<u8>
    decreases chunks.len(),
{
    if chunks.len() == 0 {
        state.finished().output
    } else {
        state.pushed(chunks[0]).output + streamed(state.after_push(chunks[0]), chunks.drop_first())
    }
}

/// The chunks of a stream one after the other.
pub open spec fn chunks_joined(chunks: Seq<Seq<u8>>) -> Seq<u8>
    decreases chunks.len(),
{
    if chunks.len() == 0 {
        Seq::empty()
    } else {
        chunks[0] + chunks_joined(chunks.drop_first())
    }
}

/// However a stream is cut into chunks, the redactor writes the redaction of the whole stream:
/// a secret is found though it arrives in several chunks.
pub proof fn chunks_do_not_matter(state: RedactorState, chunks: Seq<Seq<u8>>)
    requires
        has_no_gap(state.pending + chunks_joined(chunks), overlap_for(state.secrets)),
    ensures
        streamed(state, chunks) == redacted(
            state.secrets,
            state.pending + chunks_joined(chunks),
            state.masking,
        ),
    decreases chunks.len(),
{
    if chunks.len() == 0 {
        assert(state.pending + chunks_joined(chunks) =~= state.pending);
    } else {
        let rest = chunks.drop_first();
        let more = chunks_joined(rest);
        let bytes = state.pending + chunks[0];
        assert(state.pending + chunks_joined(chunks) =~= bytes + more);
        scan_can_be_continued(state.secrets, bytes, more, state.masking);
        let next = state.after_push(chunks[0]);
        let step = state.pushed(chunks[0]);
        assert(next.pending + more =~= (bytes + more).skip(step.used));
        lemma_no_gap_later(bytes + more, overlap_for(state.secrets), step.used);
        chunks_do_not_matter(next, rest);
    }
}

/// Bytes in which no secret and no sensitive assignment stands are written as they are.
pub proof fn harmless_bytes_are_kept(secrets: Seq<Seq<u8>>, s: Seq<u8>)
    requires
        is_harmless(secrets, s),
    ensures
        redacted(secrets, s, false) == s,
    decreases s.len(),
{
    if s.len() == 0 {
        lemma_scan_stops(secrets, s, false, 0, true);
        assert(redacted(secrets, s, false) =~= s);
    } else {
        assert(s.skip(0) =~= s);
        lemma_scan_plain(secrets, s, s.len() as int, true);
        let rest = s.drop_first();
        assert forall|at: int| 0 <= at < rest.len() implies secret_length(
            secrets,
            #[trigger] rest.skip(at),
        ) == 0 && assignment_length(rest.skip(at)) is None by {
            assert(rest.skip(at) =~= s.skip(at + 1));
        }
        harmless_bytes_are_kept(secrets, rest);
        assert(redacted(secrets, s, false) =~= s);
    }
}

/// A secret at the beginning of bytes that are not masked already is replaced as a whole.
pub proof fn leading_secret_is_replaced(secrets: Seq<Seq<u8>>, secret: Seq<u8>, rest: Seq<u8>)
    requires
        secrets.contains(secret),
        secret.len() > 0,
        secret.len() == longest(secrets),
    ensures
        redacted(secrets, secret + rest, false) == mask() + redacted(secrets, rest, false),
{
    let whole = secret + rest;
    assert(whole.take(secret.len() as int) =~= secret);
    lemma_secret_found(secrets, secret, whole);
    lemma_secret_length(secrets, whole);
    lemma_scan_secret(secrets, whole, whole.len() as int, true);
    assert(whole.skip(secret.len() as int) =~= rest);
}

proof fn lemma_secret_found(secrets: Seq<Seq<u8>>, secret: Seq<u8>, s: Seq<u8>)
    requires
        secrets.contains(secret),
        s.len() >= secret.len(),
        s.take(secret.len() as int) == secret,
    ensures
        secret_length(secrets, s) >= secret.len(),
    decreases secrets.len(),
{
    let k = choose|k: int| 0 <= k < secrets.len() && secrets[k] == secret;
    if k == secrets.len() - 1 {
        assert(secret.is_prefix_of(s));
    } else {
        assert(secrets.drop_last()[k] == secret);
        lemma_secret_found(secrets.drop_last(), secret, s);
    }
}

/// After a sensitive assignment nothing is written up to the next terminator.
pub proof fn masked_values_are_dropped(secrets: Seq<Seq<u8>>, value: Seq<u8>, rest: Seq<u8>)
    requires
        forall|i: int| 0 <= i < value.len() ==> !ends_assignment(#[trigger] value[i]),
        rest.len() > 0,
        ends_assignment(rest[0]),
    ensures
        redacted(secrets, value + rest, true) == seq![rest[0]] + redacted(
            secrets,
            rest.drop_first(),
            false,
        ),
    decreases value.len(),
{
    let whole = value + rest;
    lemma_scan_masked(secrets, whole, whole.len() as int, true);
    if value.len() == 0 {
        assert(whole =~= rest);
    } else {
        assert(whole[0] == value[0]);
        assert(whole.drop_first() =~= value.drop_first() + rest);
        masked_values_are_dropped(secrets, value.drop_first(), rest);
        assert(redacted(secrets, whole, true) =~= redacted(secrets, whole.drop_first(), true));
    }
}

/// A part of what a redaction writes.
pub enum LogPart {
    /// A byte of the log that is neither of a secret nor of a sensitive assignment.
    Kept(u8),
    /// The key of a sensitive assignment, up to its value.
    Key(Seq<u8>),
    /// What stands for a secret or a value.
    Mask,
    /// The byte that ends the value of a sensitive assignment.
    End(u8),
}

impl LogPart {
    pub open spec fn bytes(self) -> Seq<u8> {
        match self {
            LogPart::Kept(byte) => seq![byte],
            LogPart::Key(key) => key,
            LogPart::Mask => mask(),
            LogPart::End(byte) => seq![byte],
        }
    }
}

/// What a scan writes first, in parts.
pub open spec fn first_parts(secrets: Seq<Seq<u8>>, s: Seq<u8>, masking: bool) -> Seq<LogPart> {
    if masking {
        if ends_assignment(s[0]) {
            seq![LogPart::End(s[0])]
        } else {
            Seq::empty()
        }
    } else if secret_length(secrets, s) > 0 {
        seq![LogPart::Mask]
    } else if assignment_length(s) is Some {
        seq![LogPart::Key(s.take(assignment_length(s)->0 as int)), LogPart::Mask]
    } else {
        seq![LogPart::Kept(s[0])]
    }
}

/// What a redaction writes, in parts.
pub open spec fn redacted_parts(secrets: Seq<Seq<u8>>, s: Seq<u8>, masking: bool) -> Seq<LogPart>
    decreases s.len(),
{
    let first = first_step(secrets, s, masking);
    if 0 < s.len() && 0 < first.used <= s.len() {
        first_parts(secrets, s, masking) + redacted_parts(
            secrets,
            s.skip(first.used),
            first.masking,
        )
    } else {
        Seq::empty()
    }
}

/// The bytes of all parts, one after another.
pub open spec fn parts_joined(parts: Seq<LogPart>) -> Seq<u8>
    decreases parts.len(),
{
    if parts.len() == 0 {
        Seq::empty()
    } else {
        parts[0].bytes() + parts_joined(parts.drop_first())
    }
}

proof fn lemma_parts_joined(first: Seq<LogPart>, rest: Seq<LogPart>)
    ensures
        parts_joined(first + rest) == parts_joined(first) + parts_joined(rest),
    decreases first.len(),
{
    if first.len() == 0 {
        assert(first + rest =~= rest);
        assert(parts_joined(first) + parts_joined(rest) =~= parts_joined(rest));
    } else {
        assert((first + rest).drop_first() =~= first.drop_first() + rest);
        lemma_parts_joined(first.drop_first(), rest);
        lemma_parts(first[0].bytes(), parts_joined(first.drop_first()), parts_joined(rest));
    }
}

/// The parts of a redaction are all that it writes.
pub proof fn redactions_consist_of_their_parts(secrets: Seq<Seq<u8>>, s: Seq<u8>, masking: bool)
    ensures
        parts_joined(redacted_parts(secrets, s, masking)) == redacted(secrets, s, masking),
    decreases s.len(),
{
    let full = s.len() as int;
    if s.len() == 0 {
        lemma_scan_stops(secrets, s, masking, 0, true);
        assert(redacted(secrets, s, masking) =~= Seq::empty());
    } else {
        let step = first_step(secrets, s, masking);
        lemma_scan_step(secrets, s, masking, full, true);
        let first = first_parts(secrets, s, masking);
        let rest = redacted_parts(secrets, s.skip(step.used), step.masking);
        redactions_consist_of_their_parts(secrets, s.skip(step.used), step.masking);
        lemma_parts_joined(first, rest);
        assert(parts_joined(first) =~= step.output) by {
            reveal_with_fuel(parts_joined, 3);
            if !masking && secret_length(secrets, s) == 0 && assignment_length(s) is Some {
                let key = LogPart::Key(s.take(assignment_length(s)->0 as int));
                assert(first.drop_first() =~= seq![LogPart::Mask]);
                assert(seq![LogPart::Mask].drop_first() =~= Seq::empty());
            } else if first.len() > 0 {
                assert(first.drop_first() =~= Seq::empty());
            }
        }
    }
}

/// Kept bytes at the beginning of the parts stand at the beginning of the log.
proof fn lemma_kept_prefix(secrets: Seq<Seq<u8>>, s: Seq<u8>, masking: bool, kept: Seq<u8>)
    requires
        kept.len() > 0,
        kept.len() <= redacted_parts(secrets, s, masking).len(),
        forall|i: int|
            0 <= i < kept.len() ==> #[trigger] redacted_parts(secrets, s, masking)[i]
                == LogPart::Kept(kept[i]),
    ensures
        masking || {
            &&& kept.is_prefix_of(s)
            &&& secret_length(secrets, s) == 0
        },
    decreases kept.len(),
{
    let parts = redacted_parts(secrets, s, masking);
    let step = first_step(secrets, s, masking);
    let first = first_parts(secrets, s, masking);
    let rest = redacted_parts(secrets, s.skip(step.used), step.masking);
    assert(parts[0] == LogPart::Kept(kept[0]));
    if !masking {
        assert(first.len() > 0);
        assert(parts[0] == first[0]);
        assert(secret_length(secrets, s) == 0);
        if kept.len() == 1 {
            assert(kept =~= s.subrange(0, 1));
        } else {
            let later = kept.drop_first();
            assert forall|i: int| 0 <= i < later.len() implies #[trigger] rest[i] == LogPart::Kept(
                later[i],
            ) by {
                assert(parts[i + 1] == LogPart::Kept(kept[i + 1]));
            }
            lemma_kept_prefix(secrets, s.skip(1), false, later);
            assert(kept =~= s.subrange(0, kept.len() as int)) by {
                assert forall|i: int| 0 <= i < kept.len() implies kept[i] == s[i] by {
                    if i > 0 {
                        assert(later[i - 1] == s.skip(1)[i - 1]);
                    }
                }
            }
        }
    }
}

/// Nowhere in what is kept of a log does a secret stand.
pub proof fn kept_bytes_hold_no_secret(
    secrets: Seq<Seq<u8>>,
    s: Seq<u8>,
    masking: bool,
    secret: Seq<u8>,
    at: int,
)
    requires
        secrets.contains(secret),
        secret.len() > 0,
        0 <= at,
        at + secret.len() <= redacted_parts(secrets, s, masking).len(),
    ensures
        exists|i: int|
            0 <= i < secret.len() && #[trigger] redacted_parts(secrets, s, masking)[at + i]
                != LogPart::Kept(secret[i]),
    decreases s.len(),
{
    let parts = redacted_parts(secrets, s, masking);
    let step = first_step(secrets, s, masking);
    let first = first_parts(secrets, s, masking);
    let rest = redacted_parts(secrets, s.skip(step.used), step.masking);
    if forall|i: int|
        0 <= i < secret.len() ==> #[trigger] redacted_parts(secrets, s, masking)[at + i]
            == LogPart::Kept(secret[i]) {
        assert(s.len() > 0);
        if at == 0 && first.len() > 0 {
            assert forall|i: int| 0 <= i < secret.len() implies #[trigger] parts[i]
                == LogPart::Kept(secret[i]) by {
                assert(parts[at + i] == LogPart::Kept(secret[i]));
            }
            lemma_kept_prefix(secrets, s, masking, secret);
            if masking {
                assert(parts[0] == first[0]);
            } else {
                assert(s.take(secret.len() as int) =~= secret);
                lemma_secret_found(secrets, secret, s);
            }
        } else if at >= first.len() {
            kept_bytes_hold_no_secret(
                secrets,
                s.skip(step.used),
                step.masking,
                secret,
                at - first.len(),
            );
            let i = choose|i: int|
                0 <= i < secret.len() && #[trigger] rest[at - first.len() + i] != LogPart::Kept(
                    secret[i],
                );
            assert(parts[at + i] == rest[at - first.len() + i]);
        } else {
            assert(parts[at + 0] == first[at]);
        }
    }
}

// ---------------------------------------------------------------------------
// Redacted texts
// ---------------------------------------------------------------------------

proof fn lemma_mask()
    ensures
        mask() == seq![91u8, 82u8, 69u8, 68u8, 65u8, 67u8, 84u8, 69u8, 68u8, 93u8],
        valid_utf8(mask()),
{
    reveal_strlit("[REDACTED]");
    assert(is_ascii_chars("[REDACTED]"@));
    vstd::utf8::is_ascii_chars_encode_utf8("[REDACTED]"@);
    vstd::utf8::encode_utf8_valid_utf8("[REDACTED]"@);
    assert(mask() =~= seq![91u8, 82u8, 69u8, 68u8, 65u8, 67u8, 84u8, 69u8, 68u8, 93u8]);
}

/// A sensitive key consists of letters.
proof fn lemma_key_letters(s: Seq<u8>)
    ensures
        forall|i: int| 0 <= i < key_length(s) ==> is_letter((#[trigger] s[i]) as char),
{
    lemma_key_length(s);
    reveal_strlit("password");
    reveal_strlit("token");
    reveal_strlit("secret");
    reveal_strlit("authorization");
    let key = if begins_with_key(s, "password"@) {
        "password"@
    } else if begins_with_key(s, "token"@) {
        "token"@
    } else if begins_with_key(s, "secret"@) {
        "secret"@
    } else if begins_with_key(s, "authorization"@) {
        "authorization"@
    } else {
        Seq::empty()
    };
    assert forall|i: int| 0 <= i < key_length(s) implies is_letter((#[trigger] s[i]) as char) by {
        assert(lower_byte(s[i]) as char == key[i]);
        assert('a' <= key[i] <= 'z');
    }
}

/// What a sensitive assignment consists of: the letters of the key, blanks, the sign, blanks.
proof fn lemma_assignment_bytes(s: Seq<u8>)
    requires
        assignment_length(s) is Some,
    ensures
        0 < key_length(s) < assignment_length(s)->0 <= s.len(),
        forall|i: int| 0 <= i < key_length(s) ==> is_letter((#[trigger] s[i]) as char),
        forall|i: int|
            key_length(s) <= i < assignment_length(s)->0 ==> is_blank_byte(#[trigger] s[i])
                || s[i] == 61 || s[i] == 58,
{
    lemma_key_length(s);
    lemma_key_letters(s);
    lemma_assignment_length(s);
    let n = assignment_length(s)->0;
    let key = key_length(s);
    let before = s.skip(key as int);
    let sign = key + blanks(before);
    let after = s.skip((sign + 1) as int);
    lemma_blanks(before);
    lemma_blanks(after);
    assert forall|i: int| key <= i < n implies is_blank_byte(#[trigger] s[i]) || s[i] == 61 || s[i]
        == 58 by {
        if i < sign {
            assert(s[i] == before[i - key]);
        } else if i > sign {
            assert(s[i] == after[i - sign - 1]);
        }
    }
}

/// A secret that was found stands at the beginning.
proof fn lemma_found_secret(secrets: Seq<Seq<u8>>, s: Seq<u8>)
    requires
        secret_length(secrets, s) > 0,
    ensures
        secret_length(secrets, s) <= s.len(),
        secrets.contains(s.take(secret_length(secrets, s) as int)),
    decreases secrets.len(),
{
    let before = secrets.drop_last();
    let last = secrets.last();
    if last.is_prefix_of(s) && last.len() > secret_length(before, s) {
        assert(s.take(last.len() as int) =~= last);
        assert(secrets[secrets.len() - 1] == last);
    } else {
        lemma_found_secret(before, s);
        let found = s.take(secret_length(before, s) as int);
        let k = choose|k: int| 0 <= k < before.len() && before[k] == found;
        assert(secrets[k] == found);
    }
}

/// What is masked is passed over.
proof fn lemma_masked_run(secrets: Seq<Seq<u8>>, s: Seq<u8>, n: int)
    requires
        0 <= n <= s.len(),
        forall|i: int| 0 <= i < n ==> !ends_assignment(#[trigger] s[i]),
    ensures
        redacted(secrets, s, true) == redacted(secrets, s.skip(n), true),
    decreases n,
{
    if n == 0 {
        assert(s.skip(0) =~= s);
    } else {
        lemma_scan_masked(secrets, s, s.len() as int, true);
        let rest = s.drop_first();
        lemma_masked_run(secrets, rest, n - 1);
        assert(rest.skip(n - 1) =~= s.skip(n));
        assert(redacted(secrets, s, true) =~= redacted(secrets, rest, true));
    }
}

/// What neither a secret nor a sensitive assignment begins in is written as it is.
proof fn lemma_plain_run(secrets: Seq<Seq<u8>>, s: Seq<u8>, n: int)
    requires
        0 <= n <= s.len(),
        forall|i: int|
            0 <= i < n ==> secret_length(secrets, #[trigger] s.skip(i)) == 0 && assignment_length(
                s.skip(i),
            ) is None,
    ensures
        redacted(secrets, s, false) == s.take(n) + redacted(secrets, s.skip(n), false),
    decreases n,
{
    if n == 0 {
        assert(s.skip(0) =~= s);
        assert(s.take(0) + redacted(secrets, s, false) =~= redacted(secrets, s, false));
    } else {
        assert(s.skip(0) =~= s);
        lemma_scan_plain(secrets, s, s.len() as int, true);
        let rest = s.drop_first();
        assert forall|i: int| 0 <= i < n - 1 implies secret_length(
            secrets,
            #[trigger] rest.skip(i),
        ) == 0 && assignment_length(rest.skip(i)) is None by {
            assert(rest.skip(i) =~= s.skip(i + 1));
        }
        lemma_plain_run(secrets, rest, n - 1);
        assert(rest.skip(n - 1) =~= s.skip(n));
        assert(seq![s[0]] + (rest.take(n - 1) + redacted(secrets, s.skip(n), false)) =~= s.take(n)
            + redacted(secrets, s.skip(n), false));
    }
}

/// Where neither a secret nor a sensitive assignment stands before it, a sensitive assignment is
/// written as it is, and its value is masked up to the end.
pub proof fn last_values_are_masked(
    secrets: Seq<Seq<u8>>,
    before: Seq<u8>,
    assignment: Seq<u8>,
    value: Seq<u8>,
)
    requires
        forall|at: int|
            0 <= at < before.len() ==> secret_length(
                secrets,
                #[trigger] (before + assignment + value).skip(at),
            ) == 0 && assignment_length((before + assignment + value).skip(at)) is None,
        secret_length(secrets, assignment + value) == 0,
        assignment_length(assignment + value) == Some(assignment.len()),
        forall|i: int| 0 <= i < value.len() ==> !ends_assignment(#[trigger] value[i]),
    ensures
        redacted(secrets, before + assignment + value, false) == before + assignment + mask(),
{
    let whole = before + assignment + value;
    let rest = assignment + value;
    lemma_plain_run(secrets, whole, before.len() as int);
    assert(whole.skip(before.len() as int) =~= rest);
    assert(whole.take(before.len() as int) =~= before);
    lemma_assignment_length(rest);
    lemma_scan_assignment(secrets, rest, rest.len() as int, true);
    assert(rest.skip(assignment.len() as int) =~= value);
    assert(rest.take(assignment.len() as int) =~= assignment);
    lemma_masked_run(secrets, value, value.len() as int);
    let nothing = value.skip(value.len() as int);
    lemma_scan_stops(secrets, nothing, true, 0, true);
    assert(redacted(secrets, rest, false) =~= assignment + mask());
    assert(before + (assignment + mask()) =~= before + assignment + mask());
}

/// The bytes of the secrets are UTF-8, and none are without bytes.
pub open spec fn are_texts(secrets: Seq<Seq<u8>>) -> bool {
    forall|i: int|
        0 <= i < secrets.len() ==> valid_utf8(#[trigger] secrets[i]) && secrets[i].len() > 0
}

proof fn lemma_secret_bytes(secrets: Seq<Seq<char>>)
    ensures
        are_texts(secret_bytes(secrets)),
        forall|secret: Seq<char>|
            #![trigger secrets.contains(secret)]
            secrets.contains(secret) && secret.len() > 0 ==> secret_bytes(secrets).contains(
                encode_utf8(secret),
            ),
    decreases secrets.len(),
{
    if secrets.len() > 0 {
        let before = secrets.drop_last();
        lemma_secret_bytes(before);
        let last = secrets.last();
        let all = secret_bytes(secrets);
        if last.len() > 0 {
            vstd::utf8::encode_utf8_valid_utf8(last);
            vstd::utf8::encode_utf8_first_scalar(last);
            assert(all.last() == encode_utf8(last));
        }
        assert forall|secret: Seq<char>|
            #![trigger secrets.contains(secret)]
            secrets.contains(secret) && secret.len() > 0 implies all.contains(
            encode_utf8(secret),
        ) by {
            let k = choose|k: int| 0 <= k < secrets.len() && secrets[k] == secret;
            if k < secrets.len() - 1 {
                assert(before[k] == secret);
                assert(before.contains(secret));
                let old_bytes = secret_bytes(before);
                let j = choose|j: int|
                    0 <= j < old_bytes.len() && old_bytes[j] == encode_utf8(secret);
                assert(all[j] == encode_utf8(secret));
            } else {
                assert(all[all.len() - 1] == encode_utf8(secret));
            }
        }
    }
}

/// Inside a character neither a secret nor a sensitive assignment begins.
proof fn lemma_nothing_begins_inside(secrets: Seq<Seq<u8>>, s: Seq<u8>)
    requires
        are_texts(secrets),
        s.len() > 0,
        is_continuation_byte(s[0]),
    ensures
        secret_length(secrets, s) == 0,
        assignment_length(s) is None,
{
    if secret_length(secrets, s) > 0 {
        lemma_found_secret(secrets, s);
        let found = s.take(secret_length(secrets, s) as int);
        let k = choose|k: int| 0 <= k < secrets.len() && secrets[k] == found;
        assert(valid_utf8(secrets[k]));
        assert(found[0] == s[0]);
    }
    if assignment_length(s) is Some {
        lemma_assignment_bytes(s);
        assert(is_letter(s[0] as char));
    }
}

proof fn lemma_valid_rest(s: Seq<u8>, n: int)
    requires
        valid_utf8(s),
        0 <= n <= s.len(),
        valid_utf8(s.take(n)),
    ensures
        valid_utf8(s.skip(n)),
{
    assert(s.take(n) =~= s.subrange(0, n));
    assert(s.skip(n) =~= s.subrange(n, s.len() as int));
    if !valid_utf8(s.skip(n)) {
        vstd::utf8::partial_valid_partial_invalid_utf8(s, n);
    }
}

proof fn lemma_ascii_is_valid(s: Seq<u8>)
    requires
        forall|i: int| 0 <= i < s.len() ==> (#[trigger] s[i]) < 128,
    ensures
        valid_utf8(s),
{
    assert(s.subrange(0, 0) =~= Seq::empty());
    assert(s.subrange(0, s.len() as int) =~= s);
    vstd::utf8::partial_valid_utf8_extend_ascii_block(s, 0, s.len() as int);
}

proof fn lemma_redacted_is_valid(secrets: Seq<Seq<u8>>, s: Seq<u8>, masking: bool)
    requires
        are_texts(secrets),
        valid_utf8(s),
    ensures
        valid_utf8(redacted(secrets, s, masking)),
    decreases s.len(),
{
    let full = s.len() as int;
    lemma_mask();
    if s.len() == 0 {
        lemma_scan_stops(secrets, s, masking, 0, true);
        assert(redacted(secrets, s, masking) =~= Seq::empty());
    } else if masking {
        let width = length_of_first_scalar(s);
        assert(s.skip(width) =~= pop_first_scalar(s));
        if width == 1 {
            lemma_scan_masked(secrets, s, full, true);
            assert(s.drop_first() =~= s.skip(1));
            lemma_redacted_is_valid(secrets, s.skip(1), !ends_assignment(s[0]));
            if ends_assignment(s[0]) {
                lemma_ascii_is_valid(seq![s[0]]);
                vstd::utf8::valid_utf8_concat(
                    seq![s[0]],
                    redacted(secrets, s.skip(1), false),
                );
            } else {
                assert(redacted(secrets, s, true) =~= redacted(secrets, s.skip(1), true));
            }
        } else {
            assert forall|i: int| 0 <= i < width implies !ends_assignment(#[trigger] s[i]) by {}
            lemma_masked_run(secrets, s, width);
            lemma_redacted_is_valid(secrets, s.skip(width), true);
        }
    } else if secret_length(secrets, s) > 0 {
        let n = secret_length(secrets, s) as int;
        lemma_found_secret(secrets, s);
        let k = choose|k: int| 0 <= k < secrets.len() && secrets[k] == s.take(n);
        assert(valid_utf8(secrets[k]));
        lemma_valid_rest(s, n);
        lemma_scan_secret(secrets, s, full, true);
        lemma_redacted_is_valid(secrets, s.skip(n), false);
        vstd::utf8::valid_utf8_concat(mask(), redacted(secrets, s.skip(n), false));
    } else if assignment_length(s) is Some {
        let n = assignment_length(s)->0 as int;
        lemma_assignment_bytes(s);
        assert forall|i: int| 0 <= i < n implies (#[trigger] s.take(n)[i]) < 128 by {
            assert(s.take(n)[i] == s[i]);
        }
        lemma_ascii_is_valid(s.take(n));
        lemma_valid_rest(s, n);
        lemma_scan_assignment(secrets, s, full, true);
        lemma_redacted_is_valid(secrets, s.skip(n), true);
        vstd::utf8::valid_utf8_concat(s.take(n), mask());
        vstd::utf8::valid_utf8_concat(
            s.take(n) + mask(),
            redacted(secrets, s.skip(n), true),
        );
    } else {
        let width = length_of_first_scalar(s);
        assert(s.skip(width) =~= pop_first_scalar(s));
        assert forall|i: int| 0 <= i < width implies secret_length(secrets, #[trigger] s.skip(i))
            == 0 && assignment_length(s.skip(i)) is None by {
            if i == 0 {
                assert(s.skip(0) =~= s);
            } else {
                assert(s.skip(i)[0] == s[i]);
                lemma_nothing_begins_inside(secrets, s.skip(i));
            }
        }
        lemma_plain_run(secrets, s, width);
        lemma_redacted_is_valid(secrets, s.skip(width), false);
        assert(valid_utf8(s.take(width))) by {
            reveal_with_fuel(valid_utf8, 2);
            assert(s.take(width) =~= take_first_scalar(s));
        }
        vstd::utf8::valid_utf8_concat(s.take(width), redacted(secrets, s.skip(width), false));
    }
}

/// The redaction of a text is a text: no character is cut.
pub proof fn redactions_of_texts_are_texts(secrets: Seq<Seq<char>>, content: Seq<char>)
    ensures
        valid_utf8(redacted(secret_bytes(secrets), encode_utf8(content), false)),
{
    lemma_secret_bytes(secrets);
    vstd::utf8::encode_utf8_valid_utf8(content);
    lemma_redacted_is_valid(secret_bytes(secrets), encode_utf8(content), false);
}

/// What a redaction begins with, if it shares nothing with a mask, is what the redacted bytes begin
/// with. Here it is the rest of a secret.
proof fn lemma_beginning(secrets: Seq<Seq<u8>>, s: Seq<u8>, secret: Seq<u8>, from: int)
    requires
        0 <= from <= secret.len(),
        !overlaps_mask(secret),
        bytes_stand_at(redacted(secrets, s, false), secret.skip(from), 0),
    ensures
        bytes_stand_at(s, secret.skip(from), 0),
    decreases s.len(),
{
    let output = redacted(secrets, s, false);
    let part = secret.skip(from);
    assert forall|i: int| from <= i < secret.len() implies #[trigger] secret[i] == output[i
        - from] by {
        assert(output.subrange(0, part.len() as int)[i - from] == part[i - from]);
    }
    if part.len() == 0 {
        assert(s.subrange(0, 0) =~= part);
    } else if s.len() == 0 {
        lemma_scan_stops(secrets, s, false, 0, true);
    } else {
        let step = first_step(secrets, s, false);
        lemma_scan_step(secrets, s, false, s.len() as int, true);
        let rest = redacted(secrets, s.skip(step.used), step.masking);
        assert(output == step.output + rest);
        lemma_mask();
        if secret_length(secrets, s) > 0 {
            assert(agrees_with_mask(secret, -from));
        } else if assignment_length(s) is Some {
            lemma_assignment_bytes(s);
            let n = assignment_length(s)->0 as int;
            if part.len() > n {
                assert(agrees_with_mask(secret, -(from + n)));
            }
            assert(s.subrange(0, part.len() as int) =~= part);
        } else {
            let later = secret.skip(from + 1);
            assert(rest.subrange(0, later.len() as int) =~= later);
            lemma_beginning(secrets, s.skip(1), secret, from + 1);
            assert forall|i: int| 0 <= i < part.len() implies part[i] == s[i] by {
                if i > 0 {
                    assert(s.skip(1).subrange(0, later.len() as int)[i - 1] == later[i - 1]);
                }
            }
            assert(s.subrange(0, part.len() as int) =~= part);
        }
    }
}

/// A sensitive assignment is one also without what follows it.
proof fn lemma_assignment_alone(s: Seq<u8>)
    requires
        assignment_length(s) is Some,
    ensures
        is_assignment(s.take(assignment_length(s)->0 as int)),
{
    lemma_assignment_bytes(s);
    let n = assignment_length(s)->0 as int;
    let alone = s.take(n);
    let key = key_length(s) as int;
    let sign = key + blanks(s.skip(key));
    lemma_key_length(s);
    lemma_blanks(s.skip(key));
    lemma_blanks(s.skip(sign + 1));
    assert(key_length(alone) == key) by {
        reveal_strlit("password");
        reveal_strlit("token");
        reveal_strlit("secret");
        reveal_strlit("authorization");
        lemma_same_key(s, n, "password"@);
        lemma_same_key(s, n, "token"@);
        lemma_same_key(s, n, "secret"@);
        lemma_same_key(s, n, "authorization"@);
    }
    assert forall|i: int| 0 <= i < sign - key implies is_blank_byte(
        #[trigger] alone.skip(key)[i],
    ) by {
        assert(alone.skip(key)[i] == s.skip(key)[i]);
    }
    assert(alone.skip(key)[sign - key] == s.skip(key)[sign - key]);
    lemma_blanks_is(alone.skip(key), (sign - key) as nat);
    assert forall|i: int| 0 <= i < n - sign - 1 implies is_blank_byte(
        #[trigger] alone.skip(sign + 1)[i],
    ) by {
        assert(alone.skip(sign + 1)[i] == s.skip(sign + 1)[i]);
    }
    lemma_blanks_is(alone.skip(sign + 1), (n - sign - 1) as nat);
}

/// The bytes begin with a key, or they do not, also without what follows the assignment.
proof fn lemma_same_key(s: Seq<u8>, n: int, key: Seq<char>)
    requires
        0 <= n <= s.len(),
        key_length(s) < n,
        forall|i: int| 0 <= i < key.len() ==> is_letter(#[trigger] key[i]),
        forall|i: int|
            key_length(s) <= i < n ==> is_blank_byte(#[trigger] s[i]) || s[i] == 61 || s[i] == 58,
    ensures
        begins_with_key(s.take(n), key) == begins_with_key(s, key),
{
    let alone = s.take(n);
    if begins_with_key(s, key) {
        if key.len() > n {
            let at = key_length(s) as int;
            assert(lower_byte(s[at]) as char == key[at]);
        }
        assert forall|i: int| 0 <= i < key.len() implies lower_byte(alone[i]) as char
            == #[trigger] key[i] by {
            assert(lower_byte(s[i]) as char == key[i]);
        }
    }
    if begins_with_key(alone, key) {
        assert forall|i: int| 0 <= i < key.len() implies lower_byte(s[i]) as char
            == #[trigger] key[i] by {
            assert(lower_byte(alone[i]) as char == key[i]);
        }
    }
}

/// Nowhere in the redaction of a log does a secret stand that cannot arise from what redaction
/// itself writes, however often and wherever it stood in the log.
pub proof fn redactions_hold_no_secret(
    secrets: Seq<Seq<u8>>,
    s: Seq<u8>,
    masking: bool,
    secret: Seq<u8>,
    at: int,
)
    requires
        secrets.contains(secret),
        !can_arise(secret),
    ensures
        !bytes_stand_at(redacted(secrets, s, masking), secret, at),
    decreases s.len(),
{
    let output = redacted(secrets, s, masking);
    lemma_mask();
    if s.len() == 0 {
        lemma_scan_stops(secrets, s, masking, 0, true);
    } else if bytes_stand_at(output, secret, at) {
        let step = first_step(secrets, s, masking);
        lemma_scan_step(secrets, s, masking, s.len() as int, true);
        let rest = redacted(secrets, s.skip(step.used), step.masking);
        assert(output == step.output + rest);
        let n = secret.len() as int;
        let first = step.output.len() as int;
        assert forall|i: int| 0 <= i < n implies (#[trigger] secret[i]) == output[at + i] by {
            assert(output.subrange(at, at + n)[i] == output[at + i]);
        }
        if at >= first {
            assert(rest.subrange(at - first, at - first + n) =~= secret);
            redactions_hold_no_secret(
                secrets,
                s.skip(step.used),
                step.masking,
                secret,
                at - first,
            );
        } else if masking {
            assert(secret[0] == s[0]);
        } else if secret_length(secrets, s) > 0 {
            assert(agrees_with_mask(secret, at));
        } else if assignment_length(s) is Some {
            lemma_assignment_bytes(s);
            lemma_assignment_alone(s);
            let m = assignment_length(s)->0 as int;
            let assignment = s.take(m);
            if at + n > m {
                assert(agrees_with_mask(secret, at - m));
            } else {
                assert(assignment.subrange(at, at + n) =~= secret);
                assert(bytes_stand_at(assignment, secret, at));
                if at == 0 {
                    assert(s.take(n) =~= secret);
                    lemma_secret_found(secrets, secret, s);
                }
            }
        } else {
            assert(secret.skip(0) =~= secret);
            assert(output.subrange(0, n) =~= secret);
            lemma_beginning(secrets, s, secret, 0);
            assert(s.take(n) =~= secret);
            lemma_secret_found(secrets, secret, s);
        }
    }
}

proof fn lemma_encoding_joins(first: Seq<char>, second: Seq<char>)
    ensures
        encode_utf8(first + second) == encode_utf8(first) + encode_utf8(second),
    decreases first.len(),
{
    if first.len() == 0 {
        assert(first + second =~= second);
        assert(encode_utf8(first) + encode_utf8(second) =~= encode_utf8(second));
    } else {
        let rest = first.drop_first();
        assert((first + second).drop_first() =~= rest + second);
        lemma_encoding_joins(rest, second);
        lemma_parts(encode_scalar(first[0] as u32), encode_utf8(rest), encode_utf8(second));
    }
}

/// Nowhere in a redacted text does a secret stand that cannot arise from what redaction itself
/// writes.
pub proof fn redacted_texts_hold_no_secret(
    secrets: Seq<Seq<char>>,
    content: Seq<char>,
    secret: Seq<char>,
)
    requires
        secrets.contains(secret),
        !can_arise(encode_utf8(secret)),
    ensures
        !holds(redacted_text(secrets, content), secret),
{
    let text = redacted_text(secrets, content);
    let output = redacted(secret_bytes(secrets), encode_utf8(content), false);
    redactions_of_texts_are_texts(secrets, content);
    vstd::utf8::decode_utf8_encode_utf8(output);
    if holds(text, secret) {
        let at = choose|at: int| stands_at(text, secret, at);
        let before = text.take(at);
        let after = text.skip(at + secret.len());
        assert(text =~= before + secret + after);
        lemma_encoding_joins(before + secret, after);
        lemma_encoding_joins(before, secret);
        let bytes = encode_utf8(secret);
        let place = encode_utf8(before).len() as int;
        assert(output.subrange(place, place + bytes.len()) =~= bytes);
        lemma_secret_bytes(secrets);
        if secret.len() == 0 {
            assert(bytes.len() == 0);
        }
        redactions_hold_no_secret(
            secret_bytes(secrets),
            encode_utf8(content),
            false,
            bytes,
            place,
        );
    }
}

proof fn lemma_ascii_bytes(text: Seq<char>)
    requires
        is_ascii_chars(text),
    ensures
        encode_utf8(text).len() == text.len(),
        forall|i: int| 0 <= i < text.len() ==> (#[trigger] encode_utf8(text)[i]) as char == text[i],
{
    vstd::utf8::is_ascii_chars_encode_utf8(text);
    assert forall|i: int| 0 <= i < text.len() implies (#[trigger] encode_utf8(text)[i]) as char
        == text[i] by {
        assert(text[i] as u8 == encode_utf8(text)[i]);
    }
}

/// Without a bracket bytes share bytes with a mask only where they are a part of it.
proof fn lemma_no_bracket(bytes: Seq<u8>)
    requires
        forall|i: int| 0 <= i < bytes.len() ==> (#[trigger] bytes[i]) != 91 && bytes[i] != 93,
        forall|at: int| !bytes_stand_at(mask(), bytes, at),
    ensures
        !overlaps_mask(bytes),
{
    lemma_mask();
    if overlaps_mask(bytes) {
        let at = choose|at: int|
            -bytes.len() < at < mask().len() && #[trigger] agrees_with_mask(bytes, at);
        if at < 0 {
            assert(bytes[-at] == mask()[0]);
        } else if at + bytes.len() > 9 {
            assert(bytes[9 - at] == mask()[9]);
        } else {
            assert(mask().subrange(at, at + bytes.len()) =~= bytes);
            assert(bytes_stand_at(mask(), bytes, at));
        }
    }
}

/// A secret of letters, digits, hyphens and underscores that is not of letters alone cannot arise
/// from what redaction writes.
pub proof fn plain_secrets_cannot_arise(secret: Seq<char>)
    requires
        is_unmistakable(secret),
    ensures
        !can_arise(encode_utf8(secret)),
{
    let odd = choose|i: int| 0 <= i < secret.len() && !is_letter(#[trigger] secret[i]);
    let bytes = encode_utf8(secret);
    assert forall|i: int| 0 <= i < secret.len() implies '\0' <= #[trigger] secret[i] <= '\u{7f}' by {
        assert(is_plain_char(secret[i]));
    }
    lemma_ascii_bytes(secret);
    assert forall|i: int| 0 <= i < bytes.len() implies is_plain_char(
        (#[trigger] bytes[i]) as char,
    ) by {
        assert(is_plain_char(secret[i]));
    }
    lemma_mask();
    assert forall|at: int| !bytes_stand_at(mask(), bytes, at) by {
        if bytes_stand_at(mask(), bytes, at) {
            assert(mask().subrange(at, at + bytes.len())[odd] == mask()[at + odd]);
            assert(bytes[odd] == mask()[at + odd]);
            assert(is_plain_char(bytes[odd] as char));
        }
    }
    assert forall|i: int| 0 <= i < bytes.len() implies (#[trigger] bytes[i]) != 91 && bytes[i]
        != 93 by {
        assert(is_plain_char(bytes[i] as char));
    }
    lemma_no_bracket(bytes);
    assert(is_plain_char(bytes[0] as char));
    if stands_in_assignment(bytes) {
        let (assignment, at) = choose|assignment: Seq<u8>, at: int|
            is_assignment(assignment) && 0 < at && #[trigger] bytes_stand_at(
                assignment,
                bytes,
                at,
            );
        lemma_assignment_bytes(assignment);
        assert(assignment.subrange(at, at + bytes.len())[odd] == assignment[at + odd]);
        assert(bytes[odd] == assignment[at + odd]);
        assert(is_plain_char(bytes[odd] as char));
    }
}

/// A secret of letters that is, in whatever case, no part of a sensitive key and no part of the
/// mask cannot arise from what redaction writes.
pub proof fn words_cannot_arise(secret: Seq<char>)
    requires
        secret.len() > 0,
        forall|i: int| 0 <= i < secret.len() ==> is_letter(#[trigger] secret[i]),
        !holds("[REDACTED]"@, secret),
        !holds("password"@, lowered(secret)),
        !holds("token"@, lowered(secret)),
        !holds("secret"@, lowered(secret)),
        !holds("authorization"@, lowered(secret)),
    ensures
        !can_arise(encode_utf8(secret)),
{
    let bytes = encode_utf8(secret);
    assert forall|i: int| 0 <= i < secret.len() implies '\0' <= #[trigger] secret[i] <= '\u{7f}' by {
        assert(is_letter(secret[i]));
    }
    lemma_ascii_bytes(secret);
    assert forall|i: int| 0 <= i < bytes.len() implies is_letter((#[trigger] bytes[i]) as char) by {
        assert(is_letter(secret[i]));
    }
    lemma_mask();
    reveal_strlit("[REDACTED]");
    lemma_ascii_bytes("[REDACTED]"@);
    assert forall|at: int| !bytes_stand_at(mask(), bytes, at) by {
        if bytes_stand_at(mask(), bytes, at) {
            assert forall|i: int| 0 <= i < secret.len() implies #[trigger] secret[i]
                == "[REDACTED]"@[at + i] by {
                assert(mask().subrange(at, at + bytes.len())[i] == mask()[at + i]);
                assert(bytes[i] as char == secret[i]);
            }
            assert("[REDACTED]"@.subrange(at, at + secret.len()) =~= secret);
            assert(stands_at("[REDACTED]"@, secret, at));
        }
    }
    assert forall|i: int| 0 <= i < bytes.len() implies (#[trigger] bytes[i]) != 91 && bytes[i]
        != 93 by {
        assert(is_letter(bytes[i] as char));
    }
    lemma_no_bracket(bytes);
    assert(is_letter(bytes[0] as char));
    if stands_in_assignment(bytes) {
        let (assignment, at) = choose|assignment: Seq<u8>, at: int|
            is_assignment(assignment) && 0 < at && #[trigger] bytes_stand_at(
                assignment,
                bytes,
                at,
            );
        lemma_assignment_bytes(assignment);
        let n = key_length(assignment) as int;
        assert forall|i: int| 0 <= i < bytes.len() implies #[trigger] bytes[i] == assignment[at
            + i] by {
            assert(assignment.subrange(at, at + bytes.len())[i] == assignment[at + i]);
        }
        if at + bytes.len() > n {
            let last = bytes.len() - 1;
            assert(bytes[last] == assignment[at + last]);
            assert(is_letter(bytes[last] as char));
        }
        lemma_word_in_key(assignment, secret, bytes, at, "password"@);
        lemma_word_in_key(assignment, secret, bytes, at, "token"@);
        lemma_word_in_key(assignment, secret, bytes, at, "secret"@);
        lemma_word_in_key(assignment, secret, bytes, at, "authorization"@);
    }
}

proof fn lemma_word_in_key(
    assignment: Seq<u8>,
    secret: Seq<char>,
    bytes: Seq<u8>,
    at: int,
    key: Seq<char>,
)
    requires
        bytes.len() == secret.len(),
        0 <= at,
        at + bytes.len() <= assignment.len(),
        forall|i: int| 0 <= i < bytes.len() ==> #[trigger] bytes[i] == assignment[at + i],
        forall|i: int| 0 <= i < bytes.len() ==> (#[trigger] bytes[i]) as char == secret[i],
        forall|i: int| 0 <= i < bytes.len() ==> is_letter((#[trigger] bytes[i]) as char),
        begins_with_key(assignment, key) ==> at + bytes.len() <= key.len(),
    ensures
        begins_with_key(assignment, key) ==> holds(key, lowered(secret)),
{
    if begins_with_key(assignment, key) {
        let low = lowered(secret);
        assert forall|i: int| 0 <= i < low.len() implies low[i] == key[at + i] by {
            assert(lower_byte(assignment[at + i]) as char == key[at + i]);
            assert(bytes[i] as char == secret[i]);
            assert(is_letter(bytes[i] as char));
        }
        assert(key.subrange(at, at + low.len()) =~= low);
        assert(stands_at(key, low, at));
    }
}

/// The bytes are the letters of the word, each of them small or capital.
pub open spec fn spells(bytes: Seq<u8>, word: Seq<char>) -> bool {
    bytes.len() == word.len() && forall|i: int|
        0 <= i < word.len() ==> (#[trigger] bytes[i]) as char == word[i] || (65 <= bytes[i] <= 90
            && (bytes[i] + 32) as u8 as char == word[i])
}

/// A word after which values are masked.
pub open spec fn is_sensitive_word(word: Seq<char>) -> bool {
    word == "password"@ || word == "token"@ || word == "secret"@ || word == "authorization"@
}

/// Nothing but spaces, tabs, line feeds, form feeds and carriage returns.
pub open spec fn are_blank(bytes: Seq<u8>) -> bool {
    forall|i: int|
        0 <= i < bytes.len() ==> (#[trigger] bytes[i] == 32 || bytes[i] == 9 || bytes[i] == 10
            || bytes[i] == 12 || bytes[i] == 13)
}

/// None of the bytes is a line feed, a carriage return, a single or double quote, a comma or an
/// ampersand.
pub open spec fn are_of_value(bytes: Seq<u8>) -> bool {
    forall|i: int|
        0 <= i < bytes.len() ==> (#[trigger] bytes[i] != 10 && bytes[i] != 13 && bytes[i] != 39
            && bytes[i] != 34 && bytes[i] != 44 && bytes[i] != 38)
}

/// No secret stands at the beginning.
pub open spec fn begins_with_no_secret(secrets: Seq<Seq<u8>>, s: Seq<u8>) -> bool {
    forall|k: int|
        0 <= k < secrets.len() && (#[trigger] secrets[k]).len() > 0 ==> !secrets[k].is_prefix_of(s)
}

proof fn lemma_no_secret(secrets: Seq<Seq<u8>>, s: Seq<u8>)
    requires
        begins_with_no_secret(secrets, s),
    ensures
        secret_length(secrets, s) == 0,
{
    if secret_length(secrets, s) > 0 {
        lemma_found_secret(secrets, s);
        let found = s.take(secret_length(secrets, s) as int);
        let k = choose|k: int| 0 <= k < secrets.len() && secrets[k] == found;
        assert(secrets[k].is_prefix_of(s));
    }
}

proof fn lemma_spelled_key(s: Seq<u8>, word: Seq<char>)
    requires
        word.len() <= s.len(),
    ensures
        spells(s.take(word.len() as int), word) && is_sensitive_word(word) ==> begins_with_key(
            s,
            word,
        ),
        begins_with_key(s, word) && is_sensitive_word(word) ==> spells(
            s.take(word.len() as int),
            word,
        ),
{
    reveal_strlit("password");
    reveal_strlit("token");
    reveal_strlit("secret");
    reveal_strlit("authorization");
    let bytes = s.take(word.len() as int);
    if spells(bytes, word) && is_sensitive_word(word) {
        assert forall|i: int| 0 <= i < word.len() implies lower_byte(s[i]) as char
            == #[trigger] word[i] by {
            assert(bytes[i] == s[i]);
            assert('a' <= word[i] <= 'z');
        }
    }
    if begins_with_key(s, word) && is_sensitive_word(word) {
        assert forall|i: int| 0 <= i < word.len() implies (#[trigger] bytes[i]) as char == word[i]
            || (65 <= bytes[i] <= 90 && (bytes[i] + 32) as u8 as char == word[i]) by {
            assert(lower_byte(s[i]) as char == word[i]);
        }
    }
}

proof fn lemma_one_key(s: Seq<u8>, word: Seq<char>)
    requires
        is_sensitive_word(word),
        begins_with_key(s, word),
    ensures
        key_length(s) == word.len(),
{
    reveal_strlit("password");
    reveal_strlit("token");
    reveal_strlit("secret");
    reveal_strlit("authorization");
    assert(lower_byte(s[0]) as char == word[0]);
    if word != "password"@ {
        assert(!begins_with_key(s, "password"@)) by {
            if begins_with_key(s, "password"@) {
                assert(lower_byte(s[0]) as char == "password"@[0]);
            }
        }
    }
    if word != "token"@ {
        assert(!begins_with_key(s, "token"@)) by {
            if begins_with_key(s, "token"@) {
                assert(lower_byte(s[0]) as char == "token"@[0]);
            }
        }
    }
    if word != "secret"@ {
        assert(!begins_with_key(s, "secret"@)) by {
            if begins_with_key(s, "secret"@) {
                assert(lower_byte(s[0]) as char == "secret"@[0]);
            }
        }
    }
}

/// An assignment is recognised: the word, blanks, the sign, blanks, and something that is no blank
/// or nothing at all.
proof fn lemma_written_assignment(
    word: Seq<char>,
    key: Seq<u8>,
    before: Seq<u8>,
    sign: u8,
    after: Seq<u8>,
    rest: Seq<u8>,
)
    requires
        is_sensitive_word(word),
        spells(key, word),
        are_blank(before),
        sign == 61 || sign == 58,
        are_blank(after),
        rest.len() > 0 ==> !is_blank_byte(rest[0]),
    ensures
        assignment_length(key + before + seq![sign] + after + rest) == Some(
            (key + before + seq![sign] + after).len(),
        ),
{
    let s = key + before + seq![sign] + after + rest;
    assert(s.take(word.len() as int) =~= key);
    assert(spells(s.take(word.len() as int), word));
    lemma_spelled_key(s, word);
    lemma_one_key(s, word);
    let n = key.len();
    assert(key_length(s) == n);
    assert(n > 0) by {
        reveal_strlit("password");
        reveal_strlit("token");
        reveal_strlit("secret");
        reveal_strlit("authorization");
    }
    let from_blanks = s.skip(n as int);
    assert forall|i: int| 0 <= i < before.len() implies is_blank_byte(
        #[trigger] from_blanks[i],
    ) by {
        assert(from_blanks[i] == before[i]);
    }
    assert(from_blanks[before.len() as int] == sign);
    lemma_blanks_is(from_blanks, before.len());
    let at = n + before.len();
    assert(s[at as int] == sign);
    let from_value = s.skip((at + 1) as int);
    assert(from_value =~= after + rest);
    assert forall|i: int| 0 <= i < after.len() implies is_blank_byte(#[trigger] from_value[i]) by {
        assert(from_value[i] == after[i]);
    }
    lemma_blanks_is(from_value, after.len());
}

/// A masked value ends exactly at a line feed, a carriage return, a single or double quote, a comma
/// or an ampersand. In a text that begins with `password`, `token`, `secret` or `authorization`,
/// whatever the case of the letters, with an equals sign or a colon behind it, blanks around the
/// sign, a value and one of these ends, all is kept but the value. The mask stands in its place,
/// and what follows the end is redacted for itself.
pub proof fn values_are_masked_up_to_their_end(
    secrets: Seq<Seq<u8>>,
    word: Seq<char>,
    key: Seq<u8>,
    before: Seq<u8>,
    sign: u8,
    after: Seq<u8>,
    value: Seq<u8>,
    end: u8,
    rest: Seq<u8>,
)
    requires
        is_sensitive_word(word),
        spells(key, word),
        are_blank(before),
        sign == 61 || sign == 58,
        are_blank(after),
        are_of_value(value),
        end == 10 || end == 13 || end == 39 || end == 34 || end == 44 || end == 38,
        !are_blank(seq![(value + seq![end])[0]]),
        begins_with_no_secret(
            secrets,
            key + before + seq![sign] + after + value + seq![end] + rest,
        ),
    ensures
        redacted(
            secrets,
            key + before + seq![sign] + after + value + seq![end] + rest,
            false,
        ) == key + before + seq![sign] + after + seq![
            91u8,
            82u8,
            69u8,
            68u8,
            65u8,
            67u8,
            84u8,
            69u8,
            68u8,
            93u8,
        ] + seq![end] + redacted(secrets, rest, false),
{
    let assignment = key + before + seq![sign] + after;
    let whole = assignment + value + seq![end] + rest;
    let tail = value + (seq![end] + rest);
    assert(whole =~= assignment + tail);
    assert(tail[0] == (value + seq![end])[0]);
    assert(!is_blank_byte(tail[0])) by {
        let first = seq![(value + seq![end])[0]];
        let i = choose|i: int|
            0 <= i < first.len() && !(#[trigger] first[i] == 32 || first[i] == 9 || first[i] == 10
                || first[i] == 12 || first[i] == 13);
        assert(first[i] == tail[0]);
    }
    lemma_written_assignment(word, key, before, sign, after, tail);
    lemma_no_secret(secrets, whole);
    lemma_scan_assignment(secrets, whole, whole.len() as int, true);
    assert(whole.take(assignment.len() as int) =~= assignment);
    assert(whole.skip(assignment.len() as int) =~= tail);
    assert forall|i: int| 0 <= i < value.len() implies !ends_assignment(#[trigger] value[i]) by {}
    masked_values_are_dropped(secrets, value, seq![end] + rest);
    assert((seq![end] + rest).drop_first() =~= rest);
    lemma_mask();
    assert(redacted(secrets, whole, false) =~= assignment + mask() + (seq![end] + redacted(
        secrets,
        rest,
        false,
    )));
}

/// A value that nothing ends is masked up to the end of the text.
pub proof fn values_without_end_are_masked(
    secrets: Seq<Seq<u8>>,
    word: Seq<char>,
    key: Seq<u8>,
    before: Seq<u8>,
    sign: u8,
    after: Seq<u8>,
    value: Seq<u8>,
)
    requires
        is_sensitive_word(word),
        spells(key, word),
        are_blank(before),
        sign == 61 || sign == 58,
        are_blank(after),
        are_of_value(value),
        value.len() > 0 ==> !are_blank(seq![value[0]]),
        begins_with_no_secret(secrets, key + before + seq![sign] + after + value),
    ensures
        redacted(secrets, key + before + seq![sign] + after + value, false) == key + before + seq![
            sign,
        ] + after + seq![91u8, 82u8, 69u8, 68u8, 65u8, 67u8, 84u8, 69u8, 68u8, 93u8],
{
    let assignment = key + before + seq![sign] + after;
    let whole = assignment + value;
    if value.len() > 0 {
        let first = seq![value[0]];
        let i = choose|i: int|
            0 <= i < first.len() && !(#[trigger] first[i] == 32 || first[i] == 9 || first[i] == 10
                || first[i] == 12 || first[i] == 13);
        assert(first[i] == value[0]);
    }
    lemma_written_assignment(word, key, before, sign, after, value);
    lemma_no_secret(secrets, whole);
    assert forall|i: int| 0 <= i < value.len() implies !ends_assignment(#[trigger] value[i]) by {}
    let nothing = Seq::<u8>::empty();
    assert(nothing + assignment + value =~= whole);
    last_values_are_masked(secrets, nothing, assignment, value);
    lemma_mask();
    assert(nothing + assignment + mask() =~= assignment + mask());
}

/// A secret at the beginning is replaced by the mask, the longest one where several stand there.
pub proof fn secrets_are_replaced(secrets: Seq<Seq<u8>>, secret: Seq<u8>, rest: Seq<u8>)
    requires
        secrets.contains(secret),
        secret.len() > 0,
        forall|k: int|
            0 <= k < secrets.len() && (#[trigger] secrets[k]).is_prefix_of(secret + rest)
                ==> secrets[k].len() <= secret.len(),
    ensures
        redacted(secrets, secret + rest, false) == seq![
            91u8,
            82u8,
            69u8,
            68u8,
            65u8,
            67u8,
            84u8,
            69u8,
            68u8,
            93u8,
        ] + redacted(secrets, rest, false),
{
    let whole = secret + rest;
    assert(whole.take(secret.len() as int) =~= secret);
    lemma_secret_found(secrets, secret, whole);
    lemma_found_secret(secrets, whole);
    let found = whole.take(secret_length(secrets, whole) as int);
    let k = choose|k: int| 0 <= k < secrets.len() && secrets[k] == found;
    assert(secrets[k].is_prefix_of(whole));
    lemma_scan_secret(secrets, whole, whole.len() as int, true);
    assert(whole.skip(secret.len() as int) =~= rest);
    lemma_mask();
}

/// A byte is kept where no secret and none of the sensitive words begins, and where such a word has
/// neither an equals sign nor a colon behind it and its blanks.
pub proof fn other_bytes_are_kept(secrets: Seq<Seq<u8>>, s: Seq<u8>)
    requires
        s.len() > 0,
        begins_with_no_secret(secrets, s),
        forall|word: Seq<char>, sign: int|
            #![trigger s[sign], is_sensitive_word(word)]
            is_sensitive_word(word) && word.len() <= sign < s.len() && spells(
                s.take(word.len() as int),
                word,
            ) && are_blank(s.subrange(word.len() as int, sign)) ==> s[sign] != 61 && s[sign] != 58,
    ensures
        redacted(secrets, s, false) == seq![s[0]] + redacted(secrets, s.drop_first(), false),
{
    lemma_no_secret(secrets, s);
    if assignment_length(s) is Some {
        let word = if begins_with_key(s, "password"@) {
            "password"@
        } else if begins_with_key(s, "token"@) {
            "token"@
        } else if begins_with_key(s, "secret"@) {
            "secret"@
        } else {
            "authorization"@
        };
        assert(is_sensitive_word(word));
        assert(begins_with_key(s, word));
        lemma_spelled_key(s, word);
        lemma_one_key(s, word);
        let from = s.skip(word.len() as int);
        lemma_blanks(from);
        let sign = word.len() + blanks(from);
        let gap = s.subrange(word.len() as int, sign as int);
        assert forall|i: int| 0 <= i < gap.len() implies (#[trigger] gap[i] == 32 || gap[i] == 9
            || gap[i] == 10 || gap[i] == 12 || gap[i] == 13) by {
            assert(is_blank_byte(from[i]));
        }
        assert(s[sign as int] == 61 || s[sign as int] == 58);
    }
    lemma_scan_plain(secrets, s, s.len() as int, true);
}

/// Where no more than 243 blanks stand in a row, it does not matter how a log is cut into chunks.
pub proof fn chunks_of_ordinary_logs_do_not_matter(secrets: Seq<Seq<u8>>, chunks: Seq<Seq<u8>>)
    requires
        forall|from: int, to: int|
            #![trigger chunks_joined(chunks).subrange(from, to)]
            0 <= from <= to <= chunks_joined(chunks).len() && are_blank(
                chunks_joined(chunks).subrange(from, to),
            ) ==> to - from <= 243,
    ensures
        streamed(RedactorState { secrets, pending: Seq::empty(), masking: false }, chunks)
            == redacted(secrets, chunks_joined(chunks), false),
{
    let s = chunks_joined(chunks);
    assert forall|at: int| 0 <= at <= s.len() implies blanks(#[trigger] s.skip(at)) <= MIN_OVERLAP
        - 13 by {
        let rest = s.skip(at);
        lemma_blanks(rest);
        let run = s.subrange(at, at + blanks(rest));
        assert forall|i: int| 0 <= i < run.len() implies (#[trigger] run[i] == 32 || run[i] == 9
            || run[i] == 10 || run[i] == 12 || run[i] == 13) by {
            assert(is_blank_byte(rest[i]));
        }
    }
    short_blanks_leave_no_gap(secrets, s);
    let state = RedactorState { secrets, pending: Seq::empty(), masking: false };
    assert(state.pending + s =~= s);
    chunks_do_not_matter(state, chunks);
}

/// The secrets that are looked for are those given that are not empty, in UTF-8.
pub proof fn given_secrets_are_looked_for(secrets: Seq<Seq<char>>, bytes: Seq<u8>)
    ensures
        secret_bytes(secrets).contains(bytes) <==> exists|k: int|
            0 <= k < secrets.len() && (#[trigger] secrets[k]).len() > 0 && encode_utf8(secrets[k])
                == bytes,
    decreases secrets.len(),
{
    if secrets.len() > 0 {
        let before = secrets.drop_last();
        given_secrets_are_looked_for(before, bytes);
        let all = secret_bytes(secrets);
        let earlier = secret_bytes(before);
        if earlier.contains(bytes) {
            let j = choose|j: int| 0 <= j < earlier.len() && earlier[j] == bytes;
            assert(all[j] == bytes);
            let k = choose|k: int|
                0 <= k < before.len() && (#[trigger] before[k]).len() > 0 && encode_utf8(before[k])
                    == bytes;
            assert(secrets[k] == before[k]);
        }
        if exists|k: int|
            0 <= k < secrets.len() && (#[trigger] secrets[k]).len() > 0 && encode_utf8(secrets[k])
                == bytes {
            let k = choose|k: int|
                0 <= k < secrets.len() && (#[trigger] secrets[k]).len() > 0 && encode_utf8(
                    secrets[k],
                ) == bytes;
            if k < before.len() {
                assert(before[k] == secrets[k]);
            } else {
                assert(all[all.len() - 1] == bytes);
            }
        }
        if all.contains(bytes) && !earlier.contains(bytes) {
            let j = choose|j: int| 0 <= j < all.len() && all[j] == bytes;
            if j < earlier.len() {
                assert(earlier[j] == bytes);
            }
            assert(secrets[secrets.len() - 1] == secrets.last());
        }
    }
}

} // verus!
