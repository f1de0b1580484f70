//! Text as sequences of characters: classes of characters, trimming, splitting,
//! searching, replacing, and comparing.

use vstd::prelude::*;

verus! {

/// `String::push`: appends the given character to the end of the string.
pub assume_specification[ String::push ](text: &mut String, c: char)
    ensures
        final(text)@ == old(text)@.push(c),
;

/// The views of a sequence of strings.
pub open spec fn texts(items: Seq<String>) -> Seq<Seq<char>> {
    items.map_values(|item: String| item@)
}

pub proof fn lemma_texts_push(items: Seq<String>, item: String)
    ensures
        texts(items.push(item)) == texts(items).push(item@),
{
    assert(texts(items.push(item)) =~= texts(items).push(item@));
}

/// The characters of a text, in order.
pub fn chars_of(text: &str) -> (chars: Vec<char>)
    ensures
        chars@ == text@,
{
    let mut chars: Vec<char> = Vec::new();
    for c in it: text.chars()
        invariant
            it.seq() == text@,
            chars@ == text@.take(it.index() as int),
    {
        chars.push(c);
        assert(chars@ =~= text@.take(it.index() + 1));
    }
    assert(text@.take(text@.len() as int) =~= text@);
    chars
}

/// The text made of the given characters.
pub fn text_of(chars: &[char]) -> (text: String)
    ensures
        text@ == chars@,
{
    let mut text = String::new();
    let mut i: usize = 0;
    while i < chars.len()
        invariant
            i <= chars@.len(),
            text@ == chars@.take(i as int),
        decreases chars@.len() - i,
    {
        text.push(chars[i]);
        i = i + 1;
        assert(text@ =~= chars@.take(i as int));
    }
    assert(chars@.take(i as int) =~= chars@);
    text
}

/// The characters from `start` up to, but not including, `end`, as a text.
pub fn text_between(chars: &Vec<char>, start: usize, end: usize) -> (text: String)
    requires
        start <= end <= chars@.len(),
    ensures
        text@ == chars@.subrange(start as int, end as int),
{
    let mut text = String::new();
    let mut i: usize = start;
    while i < end
        invariant
            start <= i <= end <= chars@.len(),
            text@ == chars@.subrange(start as int, i as int),
        decreases end - i,
    {
        text.push(chars[i]);
        i = i + 1;
        assert(text@ =~= chars@.subrange(start as int, i as int));
    }
    text
}

/// Whether two texts hold the same characters.
pub fn same_text(left: &str, right: &str) -> (same: bool)
    ensures
        same == (left@ == right@),
{
    left.to_owned() == right.to_owned()
}

// ---------------------------------------------------------------------------
// Classes of characters
// ---------------------------------------------------------------------------

pub open spec fn is_digit(c: char) -> bool {
    '0' <= c <= '9'
}

pub open spec fn is_lower(c: char) -> bool {
    'a' <= c <= 'z'
}

pub open spec fn is_upper(c: char) -> bool {
    'A' <= c <= 'Z'
}

pub open spec fn is_alnum(c: char) -> bool {
    is_digit(c) || is_lower(c) || is_upper(c)
}

/// Unicode's White_Space property.
pub open spec fn is_white(c: char) -> bool {
    let n = c as u32;
    9 <= n <= 13 || n == 32 || n == 0x85 || n == 0xA0 || n == 0x1680 || 0x2000 <= n <= 0x200A || n
        == 0x2028 || n == 0x2029 || n == 0x202F || n == 0x205F || n == 0x3000
}

/// A set of characters that the rules of the library speak of.
#[derive(Clone, Copy, PartialEq, Eq, Structural)]
pub enum CharClass {
    /// White space in the sense of Unicode.
    White,
    /// `\n`.
    LineFeed,
    /// `\r` and `\n`.
    LineBreak,
    /// `/`.
    Slash,
    /// `/` and `\`.
    PathSeparator,
    /// `:`.
    Colon,
    /// `=`.
    Equals,
    /// The bytes 0 to 31 and 127.
    Control,
    /// The decimal digits of ASCII.
    Digit,
    /// The hexadecimal digits of ASCII, in either case.
    Hex,
    /// Everything but the hexadecimal digits of ASCII.
    NotHex,
    /// Letters and digits of ASCII and `_`.
    Word,
    /// Letters and digits of ASCII, `-` and `_`.
    Slug,
    /// Lower case letters and digits of ASCII and `-`.
    Bucket,
    /// Letters and digits of ASCII, `.`, `-`, `_` and `@`.
    Segment,
    /// The characters of `Segment` and `/`.
    ObjectKey,
    /// Letters and digits of ASCII, `.`, `-` and `_`.
    HostName,
    /// Upper case letters and digits of ASCII and `_`.
    EnvName,
    /// Lower case letters and digits of ASCII, `_` and `-`.
    RoleCode,
    /// The characters of `ObjectKey`, `\\` and `:`.
    LocalPath,
    /// The visible characters of ASCII without quotes and without those that a shell gives a
    /// meaning: `$`, `\\`, `;`, `|`, `&`, `<` and `>`.
    Endpoint,
    /// Letters and digits of ASCII, `-`, `_`, `.`, `~`, `%`, `/`, `*`, `+`, `=` and `&`: they stand
    /// as they are in the path and in the query of a URL.
    UrlPlain,
}

impl CharClass {
    pub open spec fn has(self, c: char) -> bool {
        match self {
            CharClass::White => is_white(c),
            CharClass::LineFeed => c == '\n',
            CharClass::LineBreak => c == '\n' || c == '\r',
            CharClass::Slash => c == '/',
            CharClass::PathSeparator => c == '/' || c == '\\',
            CharClass::Colon => c == ':',
            CharClass::Equals => c == '=',
            CharClass::Control => (c as u32) < 32 || c as u32 == 127,
            CharClass::Digit => is_digit(c),
            CharClass::Hex => is_digit(c) || 'a' <= c <= 'f' || 'A' <= c <= 'F',
            CharClass::NotHex => !(is_digit(c) || 'a' <= c <= 'f' || 'A' <= c <= 'F'),
            CharClass::Word => is_alnum(c) || c == '_',
            CharClass::Slug => is_alnum(c) || c == '-' || c == '_',
            CharClass::Bucket => is_lower(c) || is_digit(c) || c == '-',
            CharClass::Segment => is_alnum(c) || c == '.' || c == '-' || c == '_' || c == '@',
            CharClass::ObjectKey => is_alnum(c) || c == '.' || c == '-' || c == '_' || c == '@' || c
                == '/',
            CharClass::HostName => is_alnum(c) || c == '.' || c == '-' || c == '_',
            CharClass::EnvName => is_upper(c) || is_digit(c) || c == '_',
            CharClass::RoleCode => is_lower(c) || is_digit(c) || c == '_' || c == '-',
            CharClass::LocalPath => is_alnum(c) || c == '.' || c == '-' || c == '_' || c == '@' || c
                == '/' || c == '\\' || c == ':',
            CharClass::Endpoint => '!' <= c <= '~' && c != '"' && c != '\'' && c != '`' && c != '$'
                && c != '\\' && c != ';' && c != '|' && c != '&' && c != '<' && c != '>',
            CharClass::UrlPlain => is_alnum(c) || c == '-' || c == '_' || c == '.' || c == '~' || c
                == '%' || c == '/' || c == '*' || c == '+' || c == '=' || c == '&',
        }
    }

    /// Whether the class holds the character.
    pub fn contains(self, c: char) -> (found: bool)
        ensures
            found == self.has(c),
    {
        let n: u32 = c as u32;
        let digit = '0' <= c && c <= '9';
        let lower = 'a' <= c && c <= 'z';
        let alnum = digit || lower || ('A' <= c && c <= 'Z');
        let hex = digit || ('a' <= c && c <= 'f') || ('A' <= c && c <= 'F');
        match self {
            CharClass::White => {
                (9 <= n && n <= 13) || n == 32 || n == 0x85 || n == 0xA0 || n == 0x1680 || (0x2000
                    <= n && n <= 0x200A) || n == 0x2028 || n == 0x2029 || n == 0x202F || n == 0x205F
                    || n == 0x3000
            },
            CharClass::LineFeed => c == '\n',
            CharClass::LineBreak => c == '\n' || c == '\r',
            CharClass::Slash => c == '/',
            CharClass::PathSeparator => c == '/' || c == '\\',
            CharClass::Colon => c == ':',
            CharClass::Equals => c == '=',
            CharClass::Control => n < 32 || n == 127,
            CharClass::Digit => digit,
            CharClass::Hex => hex,
            CharClass::NotHex => !hex,
            CharClass::Word => alnum || c == '_',
            CharClass::Slug => alnum || c == '-' || c == '_',
            CharClass::Bucket => lower || digit || c == '-',
            CharClass::Segment => alnum || c == '.' || c == '-' || c == '_' || c == '@',
            CharClass::ObjectKey => {
                alnum || c == '.' || c == '-' || c == '_' || c == '@' || c == '/'
            },
            CharClass::HostName => alnum || c == '.' || c == '-' || c == '_',
            CharClass::EnvName => ('A' <= c && c <= 'Z') || digit || c == '_',
            CharClass::RoleCode => lower || digit || c == '_' || c == '-',
            CharClass::LocalPath => {
                alnum || c == '.' || c == '-' || c == '_' || c == '@' || c == '/' || c == '\\' || c
                    == ':'
            },
            CharClass::Endpoint => {
                '!' <= c && c <= '~' && c != '"' && c != '\'' && c != '`' && c != '$' && c != '\\'
                    && c != ';' && c != '|' && c != '&' && c != '<' && c != '>'
            },
            CharClass::UrlPlain => {
                alnum || c == '-' || c == '_' || c == '.' || c == '~' || c == '%' || c == '/' || c
                    == '*' || c == '+' || c == '=' || c == '&'
            },
        }
    }
}

/// Every character of the text is in the class.
pub open spec fn every(s: Seq<char>, class: CharClass) -> bool {
    forall|i: int| 0 <= i < s.len() ==> class.has(#[trigger] s[i])
}

/// Some character of the text is in the class.
pub open spec fn any(s: Seq<char>, class: CharClass) -> bool {
    exists|i: int| 0 <= i < s.len() && class.has(#[trigger] s[i])
}

pub fn all_in(text: &str, class: CharClass) -> (all: bool)
    ensures
        all == every(text@, class),
{
    let chars = chars_of(text);
    let mut i: usize = 0;
    while i < chars.len()
        invariant
            chars@ == text@,
            i <= chars@.len(),
            forall|j: int| 0 <= j < i ==> class.has(#[trigger] text@[j]),
        decreases chars@.len() - i,
    {
        if !class.contains(chars[i]) {
            assert(!class.has(text@[i as int]));
            return false;
        }
        i = i + 1;
    }
    true
}

pub fn any_in(text: &str, class: CharClass) -> (found: bool)
    ensures
        found == any(text@, class),
{
    let chars = chars_of(text);
    let mut i: usize = 0;
    while i < chars.len()
        invariant
            chars@ == text@,
            i <= chars@.len(),
            forall|j: int| 0 <= j < i ==> !class.has(#[trigger] text@[j]),
        decreases chars@.len() - i,
    {
        if class.contains(chars[i]) {
            assert(class.has(text@[i as int]));
            return true;
        }
        i = i + 1;
    }
    false
}

// ---------------------------------------------------------------------------
// Trimming
// ---------------------------------------------------------------------------

/// The text without the characters of the class at its start.
pub open spec fn trimmed_start(s: Seq<char>, class: CharClass) -> Seq<char>
    decreases s.len(),
{
    if s.len() > 0 && class.has(s[0]) {
        trimmed_start(s.drop_first(), class)
    } else {
        s
    }
}

/// The text without the characters of the class at its end.
pub open spec fn trimmed_end(s: Seq<char>, class: CharClass) -> Seq<char>
    decreases s.len(),
{
    if s.len() > 0 && class.has(s.last()) {
        trimmed_end(s.drop_last(), class)
    } else {
        s
    }
}

/// The text without the characters of the class at either end.
pub open spec fn trimmed_of(s: Seq<char>, class: CharClass) -> Seq<char> {
    trimmed_end(trimmed_start(s, class), class)
}

/// The text without white space at either end.
pub open spec fn trimmed(s: Seq<char>) -> Seq<char> {
    trimmed_of(s, CharClass::White)
}

/// Whether nothing but white space stands in the text.
pub open spec fn is_blank(s: Seq<char>) -> bool {
    trimmed(s).len() == 0
}

pub fn trim_end_of(text: &str, class: CharClass) -> (out: String)
    ensures
        out@ == trimmed_end(text@, class),
{
    let chars = chars_of(text);
    let mut end: usize = chars.len();
    assert(chars@.take(end as int) =~= text@);
    while end > 0 && class.contains(chars[end - 1])
        invariant
            end <= chars@.len(),
            trimmed_end(text@, class) == trimmed_end(chars@.take(end as int), class),
        decreases end,
    {
        assert(chars@.take(end as int).drop_last() =~= chars@.take(end - 1));
        end = end - 1;
    }
    assert(chars@.subrange(0, end as int) =~= chars@.take(end as int));
    text_between(&chars, 0, end)
}

pub fn trim_of(text: &str, class: CharClass) -> (out: String)
    ensures
        out@ == trimmed_of(text@, class),
{
    let chars = chars_of(text);
    let mut start: usize = 0;
    assert(chars@.skip(0) =~= text@);
    while start < chars.len() && class.contains(chars[start])
        invariant
            start <= chars@.len(),
            trimmed_start(text@, class) == trimmed_start(chars@.skip(start as int), class),
        decreases chars@.len() - start,
    {
        assert(chars@.skip(start as int).drop_first() =~= chars@.skip(start + 1));
        start = start + 1;
    }
    let mut end: usize = chars.len();
    assert(chars@.subrange(start as int, end as int) =~= chars@.skip(start as int));
    while end > start && class.contains(chars[end - 1])
        invariant
            start <= end <= chars@.len(),
            trimmed_of(text@, class) == trimmed_end(
                chars@.subrange(start as int, end as int),
                class,
            ),
        decreases end,
    {
        assert(chars@.subrange(start as int, end as int).drop_last() =~= chars@.subrange(
            start as int,
            end - 1,
        ));
        end = end - 1;
    }
    text_between(&chars, start, end)
}

/// Removes white space at either end.
pub fn trim(text: &str) -> (out: String)
    ensures
        out@ == trimmed(text@),
{
    trim_of(text, CharClass::White)
}

/// Whether the text is empty or holds white space alone.
pub fn blank(text: &str) -> (is: bool)
    ensures
        is == is_blank(text@),
{
    trim(text).as_str().is_empty()
}

/// What is left of a trimmed text neither starts nor ends with a character of the class.
pub proof fn trimmed_ends(s: Seq<char>, class: CharClass)
    ensures
        trimmed_of(s, class).len() > 0 ==> !class.has(trimmed_of(s, class)[0]) && !class.has(
            trimmed_of(s, class).last(),
        ),
        trimmed_of(s, class).len() <= s.len(),
{
    lemma_trimmed_start(s, class);
    lemma_trimmed_end(trimmed_start(s, class), class);
}

proof fn lemma_trimmed_start(s: Seq<char>, class: CharClass)
    ensures
        trimmed_start(s, class).len() > 0 ==> !class.has(trimmed_start(s, class)[0]),
        trimmed_start(s, class).len() <= s.len(),
    decreases s.len(),
{
    if s.len() > 0 && class.has(s[0]) {
        lemma_trimmed_start(s.drop_first(), class);
    }
}

proof fn lemma_trimmed_end(s: Seq<char>, class: CharClass)
    ensures
        trimmed_end(s, class).len() > 0 ==> !class.has(trimmed_end(s, class).last()) && trimmed_end(
            s,
            class,
        )[0] == s[0],
        trimmed_end(s, class).len() <= s.len(),
    decreases s.len(),
{
    if s.len() > 0 && class.has(s.last()) {
        lemma_trimmed_end(s.drop_last(), class);
    }
}

/// A text that neither starts nor ends with a character of the class stays as it is.
pub proof fn trimmed_keeps(s: Seq<char>, class: CharClass)
    requires
        s.len() > 0 ==> !class.has(s[0]) && !class.has(s.last()),
    ensures
        trimmed_of(s, class) == s,
{
}

/// What is left of a trimmed text stands in the text.
pub proof fn trimmed_is_part(s: Seq<char>, class: CharClass, i: int)
    requires
        0 <= i < trimmed_of(s, class).len(),
    ensures
        s.contains(trimmed_of(s, class)[i]),
{
    lemma_start_is_part(s, class);
    let rest = trimmed_start(s, class);
    lemma_end_is_part(rest, class);
    assert(rest[i] == trimmed_of(s, class)[i]);
    assert(s[s.len() - rest.len() + i] == rest[i]);
}

proof fn lemma_start_is_part(s: Seq<char>, class: CharClass)
    ensures
        trimmed_start(s, class).len() <= s.len(),
        trimmed_start(s, class) == s.skip(s.len() - trimmed_start(s, class).len()),
        forall|i: int|
            0 <= i < s.len() - trimmed_start(s, class).len() ==> class.has(#[trigger] s[i]),
    decreases s.len(),
{
    if s.len() > 0 && class.has(s[0]) {
        let rest = s.drop_first();
        lemma_start_is_part(rest, class);
        let n = trimmed_start(s, class).len();
        assert(rest.skip(rest.len() - n) =~= s.skip(s.len() - n));
        assert forall|i: int| 0 <= i < s.len() - n implies class.has(#[trigger] s[i]) by {
            if i > 0 {
                assert(class.has(rest[i - 1]));
            }
        }
    } else {
        assert(s.skip(0) =~= s);
    }
}

proof fn lemma_end_is_part(s: Seq<char>, class: CharClass)
    ensures
        trimmed_end(s, class).len() <= s.len(),
        trimmed_end(s, class) == s.take(trimmed_end(s, class).len() as int),
        forall|i: int| trimmed_end(s, class).len() <= i < s.len() ==> class.has(#[trigger] s[i]),
    decreases s.len(),
{
    if s.len() > 0 && class.has(s.last()) {
        let rest = s.drop_last();
        lemma_end_is_part(rest, class);
        let n = trimmed_end(s, class).len() as int;
        assert(rest.take(n) =~= s.take(n));
        assert forall|i: int| n <= i < s.len() implies class.has(#[trigger] s[i]) by {
            if i < rest.len() {
                assert(class.has(rest[i]));
            }
        }
    } else {
        assert(s.take(s.len() as int) =~= s);
    }
}

/// What trimming removes is of the class: the text is what was removed, what is left, and what was
/// removed again.
pub proof fn trimming_removes_the_class_alone(s: Seq<char>, class: CharClass)
    ensures
        exists|before: Seq<char>, after: Seq<char>|
            #[trigger] every(before, class) && #[trigger] every(after, class) && s == before
                + trimmed_of(s, class) + after,
{
    lemma_start_is_part(s, class);
    let rest = trimmed_start(s, class);
    lemma_end_is_part(rest, class);
    let before = s.take(s.len() - rest.len());
    let after = rest.skip(trimmed_of(s, class).len() as int);
    assert(every(before, class));
    assert forall|i: int| 0 <= i < after.len() implies class.has(#[trigger] after[i]) by {
        assert(class.has(rest[trimmed_of(s, class).len() + i]));
    }
    assert(every(after, class));
    assert(s =~= before + trimmed_of(s, class) + after);
}

/// To trim twice is to trim once.
pub proof fn trimming_is_idempotent(s: Seq<char>, class: CharClass)
    ensures
        trimmed_of(trimmed_of(s, class), class) == trimmed_of(s, class),
{
    trimmed_ends(s, class);
    trimmed_keeps(trimmed_of(s, class), class);
}

// ---------------------------------------------------------------------------
// Letter case
// ---------------------------------------------------------------------------

/// The lower case form of an ASCII letter; any other character as it is.
pub open spec fn lower_char(c: char) -> char {
    if is_upper(c) {
        (c as u32 + 32) as char
    } else {
        c
    }
}

/// The text with the letters of ASCII in lower case.
pub open spec fn lowered(s: Seq<char>) -> Seq<char> {
    s.map_values(|c: char| lower_char(c))
}


/// The lower case form of an ASCII letter; any other character as it is.
pub fn lower_of(c: char) -> (out: char)
    ensures
        out == lower_char(c),
{
    if 'A' <= c && c <= 'Z' {
        let byte: u8 = c as u8;
        (byte + 32) as char
    } else {
        c
    }
}

pub fn lowercase(text: &str) -> (out: String)
    ensures
        out@ == lowered(text@),
{
    let chars = chars_of(text);
    let mut out = String::new();
    let mut i: usize = 0;
    while i < chars.len()
        invariant
            i <= chars@.len(),
            out@ == lowered(chars@.take(i as int)),
        decreases chars@.len() - i,
    {
        out.push(lower_of(chars[i]));
        i = i + 1;
        assert(out@ =~= lowered(chars@.take(i as int)));
    }
    assert(chars@.take(i as int) =~= text@);
    out
}

/// Whether two texts differ at most in the case of their ASCII letters.
pub fn same_ignoring_case(left: &str, right: &str) -> (same: bool)
    ensures
        same == (lowered(left@) == lowered(right@)),
{
    lowercase(left) == lowercase(right)
}

/// The characters that names of one kind or another may hold: letters and digits of ASCII, and a few
/// marks of their own.
pub proof fn names_hold_letters_digits_and_marks(c: char)
    ensures
        ({
            let n = c as u32;
            let digit = 0x30 <= n <= 0x39;
            let upper = 0x41 <= n <= 0x5A;
            let lower = 0x61 <= n <= 0x7A;
            let dash = n == 0x2D;
            let dot = n == 0x2E;
            let slash = n == 0x2F;
            let colon = n == 0x3A;
            let at = n == 0x40;
            let backslash = n == 0x5C;
            let underscore = n == 0x5F;
            &&& CharClass::Digit.has(c) == digit
            &&& CharClass::Word.has(c) == (digit || upper || lower || underscore)
            &&& CharClass::Slug.has(c) == (CharClass::Word.has(c) || dash)
            &&& CharClass::HostName.has(c) == (CharClass::Slug.has(c) || dot)
            &&& CharClass::Segment.has(c) == (CharClass::HostName.has(c) || at)
            &&& CharClass::ObjectKey.has(c) == (CharClass::Segment.has(c) || slash)
            &&& CharClass::LocalPath.has(c) == (CharClass::ObjectKey.has(c) || backslash || colon)
            &&& CharClass::Bucket.has(c) == (digit || lower || dash)
            &&& CharClass::RoleCode.has(c) == (CharClass::Bucket.has(c) || underscore)
            &&& CharClass::EnvName.has(c) == (digit || upper || underscore)
            &&& CharClass::Hex.has(c) == (digit || 0x41 <= n <= 0x46 || 0x61 <= n <= 0x66)
            &&& CharClass::NotHex.has(c) == !CharClass::Hex.has(c)
        }),
{
}

/// The characters that part texts and lines, and those that are not printed.
pub proof fn separators_are_single_characters(c: char)
    ensures
        ({
            let n = c as u32;
            &&& CharClass::LineFeed.has(c) == (n == 10)
            &&& CharClass::LineBreak.has(c) == (n == 10 || n == 13)
            &&& CharClass::Slash.has(c) == (n == 0x2F)
            &&& CharClass::PathSeparator.has(c) == (n == 0x2F || n == 0x5C)
            &&& CharClass::Colon.has(c) == (n == 0x3A)
            &&& CharClass::Equals.has(c) == (n == 0x3D)
            &&& CharClass::Control.has(c) == (n <= 0x1F || n == 0x7F)
        }),
{
}

/// What an endpoint may hold: visible characters of ASCII that a shell takes as they are, whether or
/// not they stand in quotes.
pub proof fn endpoints_hold_visible_characters(c: char)
    ensures
        CharClass::Endpoint.has(c) <==> 0x20 < c as u32 && (c as u32) < 0x7F && !seq![
            '"',
            '\'',
            '`',
            '$',
            '\\',
            ';',
            '|',
            '&',
            '<',
            '>',
        ].contains(c),
{
    let marks = seq!['"', '\'', '`', '$', '\\', ';', '|', '&', '<', '>'];
    assert(marks[0] == '"');
    assert(marks[1] == '\'');
    assert(marks[2] == '`');
    assert(marks[3] == '$');
    assert(marks[4] == '\\');
    assert(marks[5] == ';');
    assert(marks[6] == '|');
    assert(marks[7] == '&');
    assert(marks[8] == '<');
    assert(marks[9] == '>');
    if marks.contains(c) {
        let k = choose|k: int| 0 <= k < marks.len() && marks[k] == c;
        assert(k == 0 || k == 1 || k == 2 || k == 3 || k == 4 || k == 5 || k == 6 || k == 7 || k
            == 8 || k == 9);
    }
}

/// White space is what Unicode takes for it.
pub proof fn white_space_is_that_of_unicode(c: char)
    ensures
        CharClass::White.has(c) <==> {
            let n = c as u32;
            ||| n == 0x9
            ||| n == 0xA
            ||| n == 0xB
            ||| n == 0xC
            ||| n == 0xD
            ||| n == 0x20
            ||| n == 0x85
            ||| n == 0xA0
            ||| n == 0x1680
            ||| 0x2000 <= n <= 0x200A
            ||| n == 0x2028
            ||| n == 0x2029
            ||| n == 0x202F
            ||| n == 0x205F
            ||| n == 0x3000
        },
{
}

/// Lower case changes the capital letters of ASCII into the small ones and keeps everything else.
pub proof fn lower_case_keeps_what_is_no_capital(s: Seq<char>, i: int)
    requires
        0 <= i < s.len(),
    ensures
        lowered(s).len() == s.len(),
        0x41 <= s[i] as u32 <= 0x5A ==> lowered(s)[i] as u32 == s[i] as u32 + 0x20,
        !(0x41 <= s[i] as u32 <= 0x5A) ==> lowered(s)[i] == s[i],
{
}

} // verus!
