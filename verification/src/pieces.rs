//! Searching in texts, cutting them into pieces and putting pieces together.

use vstd::prelude::*;

use crate::text::{any, chars_of, lemma_texts_push, text_between, text_of, texts, CharClass};

verus! {

/// The text `part` stands in `s` at the position `at`.
pub open spec fn stands_at(s: Seq<char>, part: Seq<char>, at: int) -> bool {
    0 <= at && at + part.len() <= s.len() && s.subrange(at, at + part.len()) == part
}

/// The text `part` stands somewhere in `s`.
pub open spec fn holds(s: Seq<char>, part: Seq<char>) -> bool {
    exists|at: int| stands_at(s, part, at)
}

fn part_at(chars: &Vec<char>, part: &Vec<char>, at: usize) -> (found: bool)
    requires
        at <= chars@.len(),
    ensures
        found == stands_at(chars@, part@, at as int),
{
    if part.len() > chars.len() - at {
        return false;
    }
    let mut i: usize = 0;
    while i < part.len()
        invariant
            at + part.len() <= chars.len(),
            i <= part@.len(),
            forall|j: int| 0 <= j < i ==> chars@[at + j] == #[trigger] part@[j],
        decreases part@.len() - i,
    {
        if chars[at + i] != part[i] {
            assert(chars@.subrange(at as int, at + part@.len())[i as int] != part@[i as int]);
            return false;
        }
        i = i + 1;
    }
    assert(chars@.subrange(at as int, at + part@.len()) =~= part@);
    true
}

/// Whether `part` stands somewhere in the text.
pub fn contains(text: &str, part: &str) -> (found: bool)
    ensures
        found == holds(text@, part@),
{
    let chars = chars_of(text);
    let wanted = chars_of(part);
    if wanted.len() > chars.len() {
        return false;
    }
    let last: usize = chars.len() - wanted.len();
    let mut at: usize = 0;
    while at <= last
        invariant
            chars@ == text@,
            wanted@ == part@,
            last == text@.len() - part@.len(),
            at <= last + 1,
            chars@.len() <= usize::MAX,
            forall|k: int| 0 <= k < at ==> !#[trigger] stands_at(text@, part@, k),
        decreases last + 1 - at,
    {
        if part_at(&chars, &wanted, at) {
            return true;
        }
        if at == last {
            assert forall|k: int| !#[trigger] stands_at(text@, part@, k) by {
                if 0 <= k < at {
                }
            }
            return false;
        }
        at = at + 1;
    }
    assert forall|k: int| !#[trigger] stands_at(text@, part@, k) by {
        if 0 <= k < at {
        }
    }
    false
}

/// Whether the text begins with `prefix`.
pub fn starts_with(text: &str, prefix: &str) -> (found: bool)
    ensures
        found == prefix@.is_prefix_of(text@),
{
    let chars = chars_of(text);
    let wanted = chars_of(prefix);
    part_at(&chars, &wanted, 0)
}

/// What follows `prefix` in a text that begins with it.
pub open spec fn after_prefix(s: Seq<char>, prefix: Seq<char>) -> Option<Seq<char>> {
    if prefix.is_prefix_of(s) {
        Some(s.skip(prefix.len() as int))
    } else {
        None
    }
}

/// The view of an optional text.
pub open spec fn option_text(text: Option<String>) -> Option<Seq<char>> {
    match text {
        Some(value) => Some(value@),
        None => None,
    }
}

pub fn strip_prefix(text: &str, prefix: &str) -> (rest: Option<String>)
    ensures
        option_text(rest) == after_prefix(text@, prefix@),
{
    let chars = chars_of(text);
    let wanted = chars_of(prefix);
    if part_at(&chars, &wanted, 0) {
        assert(chars@.subrange(prefix@.len() as int, chars@.len() as int) =~= text@.skip(
            prefix@.len() as int,
        ));
        Some(text_between(&chars, wanted.len(), chars.len()))
    } else {
        None
    }
}

/// The position of the first character of the class, or the length of the text.
pub open spec fn first_of(s: Seq<char>, class: CharClass) -> int
    decreases s.len(),
{
    if s.len() == 0 || class.has(s[0]) {
        0
    } else {
        1 + first_of(s.drop_first(), class)
    }
}

/// The position of the last character of the class, or -1.
pub open spec fn last_of(s: Seq<char>, class: CharClass) -> int
    decreases s.len(),
{
    if s.len() == 0 || class.has(s.last()) {
        s.len() - 1
    } else {
        last_of(s.drop_last(), class)
    }
}

pub proof fn lemma_first_of(s: Seq<char>, class: CharClass)
    ensures
        0 <= first_of(s, class) <= s.len(),
        first_of(s, class) < s.len() ==> class.has(s[first_of(s, class)]),
        forall|i: int| 0 <= i < first_of(s, class) ==> !class.has(#[trigger] s[i]),
    decreases s.len(),
{
    if s.len() == 0 || class.has(s[0]) {
    } else {
        let rest = s.drop_first();
        lemma_first_of(rest, class);
        assert forall|i: int| 0 <= i < first_of(s, class) implies !class.has(#[trigger] s[i]) by {
            if i > 0 {
                assert(s[i] == rest[i - 1]);
            }
        }
    }
}

pub proof fn lemma_last_of(s: Seq<char>, class: CharClass)
    ensures
        -1 <= last_of(s, class) < s.len(),
        last_of(s, class) >= 0 ==> class.has(s[last_of(s, class)]),
        forall|i: int| last_of(s, class) < i < s.len() ==> !class.has(#[trigger] s[i]),
    decreases s.len(),
{
    if s.len() == 0 || class.has(s.last()) {
    } else {
        let rest = s.drop_last();
        lemma_last_of(rest, class);
        assert forall|i: int| last_of(s, class) < i < s.len() implies !class.has(
            #[trigger] s[i],
        ) by {
            if i < s.len() - 1 {
                assert(s[i] == rest[i]);
            }
        }
    }
}

/// The text before and after the first character of the class.
pub open spec fn cut_first(s: Seq<char>, class: CharClass) -> Option<(Seq<char>, Seq<char>)> {
    let at = first_of(s, class);
    if at < s.len() {
        Some((s.take(at), s.skip(at + 1)))
    } else {
        None
    }
}

/// The text before and after the last character of the class.
pub open spec fn cut_last(s: Seq<char>, class: CharClass) -> Option<(Seq<char>, Seq<char>)> {
    let at = last_of(s, class);
    if at >= 0 {
        Some((s.take(at), s.skip(at + 1)))
    } else {
        None
    }
}

pub open spec fn option_pair(pair: Option<(String, String)>) -> Option<(Seq<char>, Seq<char>)> {
    match pair {
        Some(p) => Some((p.0@, p.1@)),
        None => None,
    }
}

pub fn split_first(text: &str, class: CharClass) -> (parts: Option<(String, String)>)
    ensures
        option_pair(parts) == cut_first(text@, class),
{
    let chars = chars_of(text);
    let mut at: usize = 0;
    proof {
        lemma_first_of(text@, class);
    }
    while at < chars.len() && !class.contains(chars[at])
        invariant
            chars@ == text@,
            at <= first_of(text@, class) <= text@.len(),
            first_of(text@, class) < text@.len() ==> class.has(text@[first_of(text@, class)]),
        decreases chars@.len() - at,
    {
        at = at + 1;
    }
    if at == chars.len() {
        return None;
    }
    assert(at == first_of(text@, class)) by {
        if at < first_of(text@, class) {
            assert(!class.has(text@[at as int]));
        }
    }
    assert(chars@.subrange(0, at as int) =~= text@.take(at as int));
    assert(chars@.subrange(at + 1, chars@.len() as int) =~= text@.skip(at + 1));
    Some((text_between(&chars, 0, at), text_between(&chars, at + 1, chars.len())))
}

pub fn split_last(text: &str, class: CharClass) -> (parts: Option<(String, String)>)
    ensures
        option_pair(parts) == cut_last(text@, class),
{
    let chars = chars_of(text);
    let mut end: usize = chars.len();
    proof {
        lemma_last_of(text@, class);
    }
    while end > 0 && !class.contains(chars[end - 1])
        invariant
            chars@ == text@,
            last_of(text@, class) < end <= chars@.len(),
            last_of(text@, class) >= 0 ==> class.has(text@[last_of(text@, class)]),
        decreases end,
    {
        end = end - 1;
    }
    if end == 0 {
        return None;
    }
    assert(end - 1 == last_of(text@, class)) by {
        if end - 1 > last_of(text@, class) {
            assert(!class.has(text@[end - 1]));
        }
    }
    assert(chars@.subrange(0, end - 1) =~= text@.take(end - 1));
    assert(chars@.subrange(end as int, chars@.len() as int) =~= text@.skip(end as int));
    Some((text_between(&chars, 0, end - 1), text_between(&chars, end, chars.len())))
}

// ---------------------------------------------------------------------------
// Pieces
// ---------------------------------------------------------------------------

/// The pieces between the characters of the class, empty ones among them.
pub open spec fn pieces(s: Seq<char>, class: CharClass) -> Seq<Seq<char>>
    decreases s.len(),
{
    if s.len() == 0 {
        seq![Seq::<char>::empty()]
    } else {
        let before = pieces(s.drop_last(), class);
        if class.has(s.last()) {
            before.push(Seq::empty())
        } else {
            before.drop_last().push(before.last().push(s.last()))
        }
    }
}

pub proof fn lemma_pieces_not_empty(s: Seq<char>, class: CharClass)
    ensures
        pieces(s, class).len() > 0,
    decreases s.len(),
{
    if s.len() > 0 {
        lemma_pieces_not_empty(s.drop_last(), class);
    }
}

/// Cuts the text at the characters of the class.
pub fn split(text: &str, class: CharClass) -> (out: Vec<String>)
    ensures
        texts(out@) == pieces(text@, class),
{
    let chars = chars_of(text);
    let mut done: Vec<String> = Vec::new();
    let mut current = String::new();
    let mut i: usize = 0;
    assert(texts(done@).push(current@) =~= pieces(chars@.take(0), class));
    while i < chars.len()
        invariant
            i <= chars@.len(),
            texts(done@).push(current@) == pieces(chars@.take(i as int), class),
        decreases chars@.len() - i,
    {
        let ghost before = pieces(chars@.take(i as int), class);
        let ghost whole = chars@.take(i + 1);
        assert(whole.drop_last() =~= chars@.take(i as int));
        assert(before.drop_last() =~= texts(done@));
        if class.contains(chars[i]) {
            proof {
                lemma_texts_push(done@, current);
            }
            done.push(current);
            current = String::new();
        } else {
            current.push(chars[i]);
        }
        i = i + 1;
    }
    assert(chars@.take(i as int) =~= text@);
    proof {
        lemma_texts_push(done@, current);
    }
    done.push(current);
    done
}

/// The pieces that are not empty, in order.
pub open spec fn not_empty(items: Seq<Seq<char>>) -> Seq<Seq<char>>
    decreases items.len(),
{
    if items.len() == 0 {
        items
    } else if items.last().len() == 0 {
        not_empty(items.drop_last())
    } else {
        not_empty(items.drop_last()).push(items.last())
    }
}

/// The words of the text: its longest pieces without white space.
pub open spec fn words(s: Seq<char>) -> Seq<Seq<char>> {
    not_empty(pieces(s, CharClass::White))
}

/// Keeps the texts that are not empty.
pub fn keep_not_empty(items: Vec<String>) -> (out: Vec<String>)
    ensures
        texts(out@) == not_empty(texts(items@)),
{
    let mut out: Vec<String> = Vec::new();
    let mut i: usize = 0;
    assert(texts(items@).take(0) =~= Seq::<Seq<char>>::empty());
    assert(texts(out@) =~= Seq::<Seq<char>>::empty());
    while i < items.len()
        invariant
            i <= items@.len(),
            texts(out@) == not_empty(texts(items@).take(i as int)),
        decreases items@.len() - i,
    {
        assert(texts(items@).take(i + 1).drop_last() =~= texts(items@).take(i as int));
        if !items[i].as_str().is_empty() {
            proof {
                lemma_texts_push(out@, items@[i as int]);
            }
            out.push(items[i].clone());
        }
        i = i + 1;
    }
    assert(texts(items@).take(i as int) =~= texts(items@));
    out
}

pub fn split_words(text: &str) -> (out: Vec<String>)
    ensures
        texts(out@) == words(text@),
{
    keep_not_empty(split(text, CharClass::White))
}

/// The text without one carriage return at its end.
pub open spec fn without_carriage_return(s: Seq<char>) -> Seq<char> {
    if s.len() > 0 && s.last() == '\r' {
        s.drop_last()
    } else {
        s
    }
}

/// The lines of the text. A line ends with a line feed, before which one carriage return
/// belongs to the line's end; what follows the last line feed is a line where it is not empty.
pub open spec fn lines(s: Seq<char>) -> Seq<Seq<char>> {
    let all = pieces(s, CharClass::LineFeed);
    let ended = all.drop_last().map_values(|line: Seq<char>| without_carriage_return(line));
    if all.last().len() == 0 {
        ended
    } else {
        ended.push(all.last())
    }
}

pub fn split_lines(text: &str) -> (out: Vec<String>)
    ensures
        texts(out@) == lines(text@),
{
    let all = split(text, CharClass::LineFeed);
    let ghost model = pieces(text@, CharClass::LineFeed);
    proof {
        lemma_pieces_not_empty(text@, CharClass::LineFeed);
        assert(texts(all@).len() == all@.len());
    }
    let count: usize = all.len() - 1;
    let mut out: Vec<String> = Vec::new();
    let mut i: usize = 0;
    let ghost ended = model.drop_last().map_values(
        |line: Seq<char>| without_carriage_return(line),
    );
    assert(texts(out@) =~= ended.take(0));
    while i < count
        invariant
            count == all@.len() - 1,
            texts(all@) == model,
            ended == model.drop_last().map_values(
                |line: Seq<char>| without_carriage_return(line),
            ),
            i <= count,
            texts(out@) == ended.take(i as int),
        decreases count - i,
    {
        let chars = chars_of(all[i].as_str());
        assert(texts(all@)[i as int] == all@[i as int]@);
        let line = if chars.len() > 0 && chars[chars.len() - 1] == '\r' {
            assert(chars@.subrange(0, chars@.len() - 1) =~= chars@.drop_last());
            text_between(&chars, 0, chars.len() - 1)
        } else {
            text_of(chars.as_slice())
        };
        assert(line@ == ended[i as int]);
        proof {
            lemma_texts_push(out@, line);
        }
        out.push(line);
        i = i + 1;
        assert(texts(out@) =~= ended.take(i as int));
    }
    assert(texts(all@)[count as int] == all@[count as int]@);
    assert(ended.take(i as int) =~= ended);
    if !all[count].as_str().is_empty() {
        proof {
            lemma_texts_push(out@, all@[count as int]);
        }
        out.push(all[count].clone());
    }
    out
}

/// The texts one after the other, with `between` between any two neighbours.
pub open spec fn joined(items: Seq<Seq<char>>, between: Seq<char>) -> Seq<char>
    decreases items.len(),
{
    if items.len() == 0 {
        Seq::empty()
    } else if items.len() == 1 {
        items[0]
    } else {
        joined(items.drop_last(), between) + between + items.last()
    }
}

pub fn join(items: &Vec<String>, between: &str) -> (out: String)
    ensures
        out@ == joined(texts(items@), between@),
{
    let mut out = String::new();
    let mut i: usize = 0;
    while i < items.len()
        invariant
            i <= items@.len(),
            out@ == joined(texts(items@).take(i as int), between@),
        decreases items@.len() - i,
    {
        let ghost whole = texts(items@).take(i + 1);
        assert(whole.drop_last() =~= texts(items@).take(i as int));
        assert(whole.last() == items@[i as int]@);
        if i > 0 {
            out.append(between);
        }
        out.append(items[i].as_str());
        i = i + 1;
        assert(out@ =~= joined(whole, between@));
    }
    assert(texts(items@).take(i as int) =~= texts(items@));
    out
}

/// The text with each occurrence of `from`, taken from the left and without overlap,
/// replaced by `to`.
pub open spec fn replaced(s: Seq<char>, from: Seq<char>, to: Seq<char>) -> Seq<char>
    decreases s.len(),
{
    if from.len() == 0 || s.len() == 0 {
        s
    } else if from.is_prefix_of(s) {
        to + replaced(s.skip(from.len() as int), from, to)
    } else {
        seq![s[0]] + replaced(s.drop_first(), from, to)
    }
}

pub fn replace(text: &str, from: &str, to: &str) -> (out: String)
    requires
        from@.len() > 0,
    ensures
        out@ == replaced(text@, from@, to@),
{
    let chars = chars_of(text);
    let wanted = chars_of(from);
    let mut out = String::new();
    let mut at: usize = 0;
    assert(chars@.skip(0) =~= text@);
    assert(out@ + replaced(chars@.skip(0), from@, to@) =~= replaced(text@, from@, to@));
    while at < chars.len()
        invariant
            wanted@ == from@,
            from@.len() > 0,
            at <= chars@.len(),
            out@ + replaced(chars@.skip(at as int), from@, to@) == replaced(text@, from@, to@),
        decreases chars@.len() - at,
    {
        let ghost rest = chars@.skip(at as int);
        let ghost before = out@;
        if part_at(&chars, &wanted, at) {
            assert(rest.subrange(0, from@.len() as int) =~= from@);
            assert(from@.is_prefix_of(rest));
            out.append(to);
            at = at + wanted.len();
            assert(rest.skip(from@.len() as int) =~= chars@.skip(at as int));
        } else {
            assert(!from@.is_prefix_of(rest)) by {
                if from@.is_prefix_of(rest) {
                    assert(chars@.subrange(at as int, at + from@.len()) =~= rest.subrange(
                        0,
                        from@.len() as int,
                    ));
                }
            }
            out.push(chars[at]);
            at = at + 1;
            assert(rest.drop_first() =~= chars@.skip(at as int));
        }
        assert(out@ + replaced(chars@.skip(at as int), from@, to@) =~= before + replaced(
            rest,
            from@,
            to@,
        ));
    }
    assert(chars@.skip(at as int) =~= Seq::empty());
    assert(replaced(chars@.skip(at as int), from@, to@) =~= Seq::empty());
    assert(out@ + Seq::<char>::empty() =~= out@);
    out
}

/// At most the first `limit` characters.
pub open spec fn cut_to(s: Seq<char>, limit: int) -> Seq<char> {
    if s.len() <= limit {
        s
    } else {
        s.take(limit)
    }
}

pub fn first_chars(text: &str, limit: usize) -> (out: String)
    ensures
        out@ == cut_to(text@, limit as int),
{
    let chars = chars_of(text);
    if chars.len() <= limit {
        text_of(chars.as_slice())
    } else {
        assert(chars@.subrange(0, limit as int) =~= chars@.take(limit as int));
        text_between(&chars, 0, limit)
    }
}

/// A text that holds no separator is one piece.
pub proof fn undivided_texts_are_one_piece(s: Seq<char>, class: CharClass)
    requires
        !any(s, class),
    ensures
        pieces(s, class) == seq![s],
    decreases s.len(),
{
    if s.len() == 0 {
        assert(seq![s] =~= seq![Seq::<char>::empty()]) by {
            assert(s =~= Seq::empty());
        }
    } else {
        let rest = s.drop_last();
        assert(!class.has(s[s.len() - 1]));
        assert(!any(rest, class)) by {
            if any(rest, class) {
                let k = choose|k: int| 0 <= k < rest.len() && class.has(#[trigger] rest[k]);
                assert(class.has(s[k]));
            }
        }
        undivided_texts_are_one_piece(rest, class);
        assert(rest.push(s.last()) =~= s);
        assert(pieces(s, class) =~= seq![s]);
    }
}

/// A separator parts the pieces before it from the pieces behind it.
pub proof fn separators_part_the_pieces(
    before: Seq<char>,
    separator: char,
    after: Seq<char>,
    class: CharClass,
)
    requires
        class.has(separator),
    ensures
        pieces(before + seq![separator] + after, class) == pieces(before, class) + pieces(
            after,
            class,
        ),
    decreases after.len(),
{
    let whole = before + seq![separator] + after;
    let left = pieces(before, class);
    lemma_pieces_not_empty(after, class);
    if after.len() == 0 {
        assert(whole.last() == separator);
        assert(whole.drop_last() =~= before);
        assert(left.push(Seq::empty()) =~= left + pieces(after, class));
    } else {
        let rest = after.drop_last();
        assert(whole.last() == after.last());
        assert(whole.drop_last() =~= before + seq![separator] + rest);
        separators_part_the_pieces(before, separator, rest, class);
        lemma_pieces_not_empty(rest, class);
        let right = pieces(rest, class);
        assert((left + right).last() == right.last());
        assert((left + right).drop_last() =~= left + right.drop_last());
        if class.has(after.last()) {
            assert((left + right).push(Seq::empty()) =~= left + right.push(Seq::empty()));
        } else {
            let last = right.last().push(after.last());
            assert((left + right.drop_last()).push(last) =~= left + right.drop_last().push(last));
        }
    }
}

/// Nothing of a text is lost when it is cut: the pieces with the separator between them are the
/// text.
pub proof fn pieces_make_up_the_text(s: Seq<char>, separator: char, class: CharClass)
    requires
        forall|c: char| #[trigger] class.has(c) <==> c == separator,
    ensures
        joined(pieces(s, class), seq![separator]) == s,
    decreases s.len(),
{
    lemma_pieces_not_empty(s, class);
    if s.len() > 0 {
        let before = pieces(s.drop_last(), class);
        let all = pieces(s, class);
        lemma_pieces_not_empty(s.drop_last(), class);
        pieces_make_up_the_text(s.drop_last(), separator, class);
        let glue = seq![separator];
        if class.has(s.last()) {
            assert(all.drop_last() =~= before);
            assert(joined(all, glue) =~= s);
        } else {
            assert(all.drop_last() =~= before.drop_last());
            assert(joined(all, glue) =~= joined(before, glue).push(s.last())) by {
                if before.len() == 1 {
                    assert(joined(before, glue) == before[0]);
                    assert(joined(all, glue) == all[0]);
                } else {
                    assert(joined(before, glue) == joined(before.drop_last(), glue) + glue
                        + before.last());
                    assert(joined(all, glue) == joined(all.drop_last(), glue) + glue + all.last());
                }
            }
            assert(joined(before, glue).push(s.last()) =~= s);
        }
    }
}

/// No piece holds a separator.
pub proof fn pieces_hold_no_separator(s: Seq<char>, class: CharClass, i: int)
    requires
        0 <= i < pieces(s, class).len(),
    ensures
        !any(pieces(s, class)[i], class),
    decreases s.len(),
{
    if s.len() > 0 {
        let before = pieces(s.drop_last(), class);
        let all = pieces(s, class);
        lemma_pieces_not_empty(s.drop_last(), class);
        if i < all.len() - 1 {
            pieces_hold_no_separator(s.drop_last(), class, i);
        } else if !class.has(s.last()) {
            pieces_hold_no_separator(s.drop_last(), class, before.len() - 1);
            if any(all[i], class) {
                let k = choose|k: int| 0 <= k < all[i].len() && class.has(#[trigger] all[i][k]);
                if k < before.last().len() {
                    assert(class.has(before.last()[k]));
                }
            }
        }
    }
}

proof fn lemma_not_empty_parts(left: Seq<Seq<char>>, right: Seq<Seq<char>>)
    ensures
        not_empty(left + right) == not_empty(left) + not_empty(right),
    decreases right.len(),
{
    if right.len() == 0 {
        assert(left + right =~= left);
        assert(not_empty(left) + not_empty(right) =~= not_empty(left));
    } else {
        lemma_not_empty_parts(left, right.drop_last());
        assert((left + right).drop_last() =~= left + right.drop_last());
        assert((left + right).last() == right.last());
        if right.last().len() > 0 {
            assert((not_empty(left) + not_empty(right.drop_last())).push(right.last()) =~= not_empty(
                left,
            ) + not_empty(right));
        }
    }
}

/// White space parts words, however much of it there is. What holds none is a word, if it is
/// anything.
pub proof fn white_space_parts_words(before: Seq<char>, white: char, after: Seq<char>)
    requires
        CharClass::White.has(white),
    ensures
        words(before + seq![white] + after) == words(before) + words(after),
{
    separators_part_the_pieces(before, white, after, CharClass::White);
    lemma_not_empty_parts(pieces(before, CharClass::White), pieces(after, CharClass::White));
}

/// A text without white space is one word, and no word if it is empty.
pub proof fn texts_without_white_space_are_words(s: Seq<char>)
    requires
        !any(s, CharClass::White),
    ensures
        words(s) == if s.len() == 0 {
            Seq::<Seq<char>>::empty()
        } else {
            seq![s]
        },
{
    undivided_texts_are_one_piece(s, CharClass::White);
    let all = seq![s];
    assert(all.last() == s);
    assert(all.drop_last() =~= Seq::<Seq<char>>::empty());
    assert(not_empty(all.drop_last()) == Seq::<Seq<char>>::empty());
    if s.len() > 0 {
        assert(Seq::<Seq<char>>::empty().push(s) =~= seq![s]);
    }
}

/// A line goes up to a line feed, without a carriage return before it. What follows the last line
/// feed is a line if it is anything.
pub proof fn line_feeds_end_lines(line: Seq<char>, rest: Seq<char>)
    requires
        !any(line, CharClass::LineFeed),
    ensures
        lines(line + seq!['\n'] + rest) == seq![
            if line.len() > 0 && line.last() == '\r' {
                line.take(line.len() - 1)
            } else {
                line
            },
        ] + lines(rest),
        lines(line) == if line.len() == 0 {
            Seq::<Seq<char>>::empty()
        } else {
            seq![line]
        },
{
    let class = CharClass::LineFeed;
    separators_part_the_pieces(line, '\n', rest, class);
    undivided_texts_are_one_piece(line, class);
    lemma_pieces_not_empty(rest, class);
    let right = pieces(rest, class);
    let all = pieces(line + seq!['\n'] + rest, class);
    assert(all =~= seq![line] + right);
    assert(all.last() == right.last());
    assert(all.drop_last() =~= seq![line] + right.drop_last());
    let strip = |text: Seq<char>| without_carriage_return(text);
    assert(all.drop_last().map_values(strip) =~= seq![without_carriage_return(line)]
        + right.drop_last().map_values(strip));
    if line.len() > 0 {
        assert(line.drop_last() =~= line.take(line.len() - 1));
    }
    assert(lines(line + seq!['\n'] + rest) =~= seq![without_carriage_return(line)] + lines(rest));
    let one = pieces(line, class);
    assert(one.drop_last().map_values(strip) =~= Seq::<Seq<char>>::empty());
    assert(lines(line) =~= if line.len() == 0 {
        Seq::<Seq<char>>::empty()
    } else {
        seq![line]
    });
}

/// A text is cut at its first separator, and only where it has one.
pub proof fn texts_are_cut_at_the_first_separator(s: Seq<char>, class: CharClass)
    ensures
        cut_first(s, class) is None <==> !any(s, class),
        cut_first(s, class) matches Some((before, after)) ==> !any(before, class) && exists|c: char|
            #[trigger] class.has(c) && s == before + seq![c] + after,
{
    lemma_first_of(s, class);
    let at = first_of(s, class);
    if at < s.len() {
        assert(any(s, class));
        assert(s =~= s.take(at) + seq![s[at]] + s.skip(at + 1));
        assert(!any(s.take(at), class)) by {
            let before = s.take(at);
            if any(before, class) {
                let k = choose|k: int| 0 <= k < before.len() && class.has(#[trigger] before[k]);
                assert(before[k] == s[k]);
            }
        }
    }
}

/// A text is cut at its last separator, and only where it has one.
pub proof fn texts_are_cut_at_the_last_separator(s: Seq<char>, class: CharClass)
    ensures
        cut_last(s, class) is None <==> !any(s, class),
        cut_last(s, class) matches Some((before, after)) ==> !any(after, class) && exists|c: char|
            #[trigger] class.has(c) && s == before + seq![c] + after,
{
    lemma_last_of(s, class);
    let at = last_of(s, class);
    if at >= 0 {
        assert(any(s, class));
        assert(s =~= s.take(at) + seq![s[at]] + s.skip(at + 1));
        assert(!any(s.skip(at + 1), class)) by {
            let after = s.skip(at + 1);
            if any(after, class) {
                let k = choose|k: int| 0 <= k < after.len() && class.has(#[trigger] after[k]);
                assert(after[k] == s[at + 1 + k]);
            }
        }
    }
}

/// A text begins with a prefix exactly if something follows the prefix in it, or nothing.
pub proof fn prefixes_come_off(prefix: Seq<char>, rest: Seq<char>, s: Seq<char>)
    ensures
        after_prefix(prefix + rest, prefix) == Some(rest),
        after_prefix(s, prefix) matches Some(left) ==> s == prefix + left,
{
    assert((prefix + rest).skip(prefix.len() as int) =~= rest);
    assert((prefix + rest).take(prefix.len() as int) =~= prefix);
    if prefix.is_prefix_of(s) {
        assert(s =~= prefix + s.skip(prefix.len() as int));
    }
}

/// Replacing goes from the left. An occurrence is replaced as a whole, and what follows it is
/// treated for itself.
pub proof fn occurrences_are_replaced(from: Seq<char>, to: Seq<char>, rest: Seq<char>, s: Seq<char>)
    requires
        from.len() > 0,
    ensures
        replaced(from + rest, from, to) == to + replaced(rest, from, to),
        !holds(s, from) ==> replaced(s, from, to) == s,
    decreases s.len(),
{
    assert((from + rest).skip(from.len() as int) =~= rest);
    if !holds(s, from) && s.len() > 0 {
        let tail = s.drop_first();
        if from.is_prefix_of(s) {
            assert(stands_at(s, from, 0)) by {
                assert(s.subrange(0, from.len() as int) =~= from);
            }
        }
        assert(!holds(tail, from)) by {
            if holds(tail, from) {
                let at = choose|at: int| stands_at(tail, from, at);
                assert(s.subrange(at + 1, at + 1 + from.len()) =~= tail.subrange(
                    at,
                    at + from.len(),
                ));
                assert(stands_at(s, from, at + 1));
            }
        }
        occurrences_are_replaced(from, to, rest, tail);
        assert(seq![s[0]] + tail =~= s);
    }
}

} // verus!
