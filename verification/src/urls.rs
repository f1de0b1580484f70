//! URLs, taken apart and put together as texts.

use vstd::prelude::*;
use vstd::string::StringSliceAdditionalSpecFns;
use vstd::utf8::encode_utf8;

use crate::pieces::{cut_first, option_text, split_first};
use crate::text::{any, chars_of, every, trimmed_end, CharClass};

verus! {

/// What is read of a URL.
#[derive(Debug, Clone)]
pub struct UrlParts {
    pub scheme: String,
    pub host: Option<String>,
}

/// The scheme and the host of a text that is a URL.
pub uninterp spec fn parsed_url(text: Seq<char>) -> Option<(Seq<char>, Option<Seq<char>>)>;

pub open spec fn parts_view(parts: Option<UrlParts>) -> Option<(Seq<char>, Option<Seq<char>>)> {
    match parts {
        Some(known) => Some((known.scheme@, option_text(known.host))),
        None => None,
    }
}

/// A URL of the web that names a host.
pub open spec fn names_web_host(parts: Option<(Seq<char>, Option<Seq<char>>)>) -> bool {
    match parts {
        Some((scheme, host)) => (scheme == "http"@ || scheme == "https"@) && host is Some,
        None => false,
    }
}

/// `url::Url::parse`, of whose result the scheme and the host are kept. Whether the text is a URL,
/// and what these are, depends on the text alone. Slashes at the end of a text without white space
/// that is a URL of the web change neither the scheme nor the host, and they are not all that
/// follows the scheme, for a host stands there too. The rest of the grammar is not stated.
#[verifier::external_body]
fn parse_parts(text: &str) -> (parts: Option<UrlParts>)
    ensures
        parts_view(parts) == parsed_url(text@),
        names_web_host(parts_view(parts)) && !any(text@, CharClass::White) ==> parsed_url(
            trimmed_end(text@, CharClass::Slash),
        ) == parts_view(parts),
        names_web_host(parts_view(parts)) && "http://"@.is_prefix_of(text@)
            ==> "http://"@.is_prefix_of(trimmed_end(text@, CharClass::Slash)),
        names_web_host(parts_view(parts)) && "https://"@.is_prefix_of(text@)
            ==> "https://"@.is_prefix_of(trimmed_end(text@, CharClass::Slash)),
{
    url::Url::parse(text).ok().map(|url| UrlParts {
        scheme: url.scheme().to_owned(),
        host: url.host_str().map(|host| host.to_owned()),
    })
}

// ---------------------------------------------------------------------------
// Changes
// ---------------------------------------------------------------------------

/// Where the parts of a URL begin and end in its text, in bytes, and which parts it has.
#[derive(Debug, Clone, Copy)]
pub struct UrlMarks {
    pub host_start: usize,
    pub host_end: usize,
    pub path_start: usize,
    pub path_end: usize,
    /// Whether the scheme is one of the web, of WebSockets, of FTP or of files.
    pub special: bool,
    /// Whether two slashes follow the scheme.
    pub authority: bool,
    pub fragment: bool,
}

/// The marks of the URL that the text parses to.
pub uninterp spec fn url_marks(text: Seq<char>) -> Option<UrlMarks>;

/// `url::Url`'s slices by `url::Position`, on the URL that the text parses to: how long the text of
/// the URL is up to each position, and what `is_special`, `has_authority` and `fragment` say of it;
/// nothing where the text is not a URL. The marks depend on the text alone; the grammar is not
/// stated.
#[verifier::external_body]
fn measure(text: &str) -> (marks: Option<UrlMarks>)
    ensures
        marks == url_marks(text@),
{
    url::Url::parse(text).ok().map(|url| UrlMarks {
        host_start: url[..url::Position::BeforeHost].len(),
        host_end: url[..url::Position::AfterHost].len(),
        path_start: url[..url::Position::BeforePath].len(),
        path_end: url[..url::Position::AfterPath].len(),
        special: url.is_special(),
        authority: url.has_authority(),
        fragment: url.fragment().is_some(),
    })
}

/// How many bytes the host has once it is written.
pub uninterp spec fn host_bytes(host: Seq<char>) -> Option<usize>;

/// `url::Host::parse`: how long the host is that it reads from the text, written out again; nothing
/// where it reads none. That depends on the text alone; which hosts there are is not stated.
#[verifier::external_body]
fn measure_host(host: &str) -> (bytes: Option<usize>)
    ensures
        bytes == host_bytes(host@),
{
    url::Host::parse(host).ok().map(|parsed| parsed.to_string().len())
}

/// How many bytes the host of a URL that is not special has once it is written.
pub uninterp spec fn opaque_host_bytes(host: Seq<char>) -> Option<usize>;

/// `url::Host::parse_opaque`: how long the host is that it reads from the text, written out again;
/// nothing where it reads none. That depends on the text alone; which hosts there are is not stated.
#[verifier::external_body]
fn measure_opaque_host(host: &str) -> (bytes: Option<usize>)
    ensures
        bytes == opaque_host_bytes(host@),
{
    url::Host::parse_opaque(host).ok().map(|parsed| parsed.to_string().len())
}

/// What is taken of a host that is set: a name up to a colon, or an address in brackets.
pub open spec fn host_name(host: Seq<char>) -> Seq<char> {
    if host.len() > 0 && host[0] == '[' && host.last() == ']' {
        host
    } else {
        match cut_first(host, CharClass::Colon) {
            Some(parts) => parts.0,
            None => host,
        }
    }
}

/// How many bytes the host takes in a URL.
pub open spec fn written_host(marks: UrlMarks, host: Seq<char>) -> Option<usize> {
    if marks.special {
        host_bytes(host_name(host))
    } else {
        opaque_host_bytes(host_name(host))
    }
}

/// A path that stands in a URL as it is.
pub open spec fn is_plain_path(path: Seq<char>) -> bool {
    path.len() > 0 && path[0] == '/' && every(path, CharClass::UrlPlain)
}

/// How many bytes of a query stand before the fragment of a URL, the question mark among them.
pub open spec fn query_before_fragment(marks: UrlMarks, query: Option<Seq<char>>) -> int {
    match query {
        Some(text) => if marks.fragment {
            (1 + text.len()) as int
        } else {
            0
        },
        None => 0,
    }
}

/// A URL holds positions in its text in 32 bits. With another host, path and query the positions
/// still fit, and so does the end of the path, before the path is changed and after.
pub open spec fn change_fits(
    url: Seq<char>,
    host: Seq<char>,
    path: Seq<char>,
    query: Option<Seq<char>>,
) -> bool {
    match url_marks(url) {
        Some(marks) => match written_host(marks, host) {
            Some(bytes) => {
                let host_end = marks.host_start + (if marks.authority {
                    0int
                } else {
                    2
                }) + bytes;
                let shift = host_end - marks.host_end;
                &&& marks.path_end + shift <= u32::MAX
                &&& marks.path_start + shift + path.len() + query_before_fragment(marks, query)
                    <= u32::MAX
            },
            None => true,
        },
        None => true,
    }
}

/// The URL with another host, another path, and another query or none.
pub uninterp spec fn url_with(
    url: Seq<char>,
    host: Seq<char>,
    path: Seq<char>,
    query: Option<Seq<char>>,
) -> Option<Seq<char>>;

/// The view of an optional text that is borrowed.
pub open spec fn option_str(text: Option<&str>) -> Option<Seq<char>> {
    match text {
        Some(value) => Some(value@),
        None => None,
    }
}

/// `url::Url::set_host`, `set_path` and `set_query` one after another on the URL that the text
/// parses to, without its own query, written out again; nothing where the text is not a URL or the
/// host is refused. The setters stand together because the text of a URL does not tell all that a
/// URL holds between them. The outcome depends on the texts alone; what hosts are refused, and how
/// a URL is written, is not stated. A plain path and a plain query are not escaped, so they take no
/// more bytes than they have.
#[verifier::external_body]
fn replace_parts(url: &str, host: &str, path: &str, query: Option<&str>) -> (changed: Option<
    String,
>)
    requires
        is_plain_path(path@),
        query is Some ==> every(query->0@, CharClass::UrlPlain),
        change_fits(url@, host@, path@, option_str(query)),
    ensures
        option_text(changed) == url_with(url@, host@, path@, option_str(query)),
{
    let mut parsed = url::Url::parse(url).ok()?;
    parsed.set_query(None);
    parsed.set_host(Some(host)).ok()?;
    parsed.set_path(path);
    parsed.set_query(query);
    Some(parsed.to_string())
}

/// The scheme and the host of a URL.
pub open spec fn url_parts(text: Seq<char>) -> Option<(Seq<char>, Option<Seq<char>>)> {
    parsed_url(text)
}

/// Takes a URL apart. Slashes at its end do not matter.
pub fn parse_url(text: &str) -> (parts: Option<UrlParts>)
    ensures
        parts_view(parts) == url_parts(text@),
        names_web_host(parts_view(parts)) && !any(text@, CharClass::White) ==> url_parts(
            trimmed_end(text@, CharClass::Slash),
        ) == parts_view(parts),
        names_web_host(parts_view(parts)) && "http://"@.is_prefix_of(text@)
            ==> "http://"@.is_prefix_of(trimmed_end(text@, CharClass::Slash)),
        names_web_host(parts_view(parts)) && "https://"@.is_prefix_of(text@)
            ==> "https://"@.is_prefix_of(trimmed_end(text@, CharClass::Slash)),
{
    parse_parts(text)
}

fn change_has_room(url: &str, host: &str, path: &str, query: Option<&str>) -> (fits: bool)
    ensures
        fits == change_fits(url@, host@, path@, option_str(query)),
{
    let marks = match measure(url) {
        Some(marks) => marks,
        None => return true,
    };
    let chars = chars_of(host);
    let name = if chars.len() > 0 && chars[0] == '[' && chars[chars.len() - 1] == ']' {
        host.to_owned()
    } else {
        match split_first(host, CharClass::Colon) {
            Some(parts) => parts.0,
            None => host.to_owned(),
        }
    };
    assert(name@ == host_name(host@));
    let written = if marks.special {
        measure_host(name.as_str())
    } else {
        measure_opaque_host(name.as_str())
    };
    let bytes = match written {
        Some(bytes) => bytes,
        None => return true,
    };
    let slashes: u128 = if marks.authority {
        0
    } else {
        2
    };
    let before_fragment: u128 = match query {
        Some(text) => {
            if marks.fragment {
                1 + text.unicode_len() as u128
            } else {
                0
            }
        },
        None => 0,
    };
    let host_end: u128 = marks.host_start as u128 + slashes + bytes as u128;
    let room: u128 = u32::MAX as u128 + marks.host_end as u128;
    marks.path_end as u128 + host_end <= room && marks.path_start as u128 + host_end
        + path.unicode_len() as u128 + before_fragment <= room
}

/// The URL with another host, another path, and another query or none. Nothing where a position in
/// it would not fit.
pub open spec fn changed_url(
    url: Seq<char>,
    host: Seq<char>,
    path: Seq<char>,
    query: Option<Seq<char>>,
) -> Option<Seq<char>> {
    if change_fits(url, host, path, query) {
        url_with(url, host, path, query)
    } else {
        None
    }
}

pub fn change_url(url: &str, host: &str, path: &str, query: Option<&str>) -> (changed: Option<
    String,
>)
    requires
        is_plain_path(path@),
        query is Some ==> every(query->0@, CharClass::UrlPlain),
    ensures
        option_text(changed) == changed_url(url@, host@, path@, option_str(query)),
{
    if change_has_room(url, host, path, query) {
        replace_parts(url, host, path, query)
    } else {
        None
    }
}

// ---------------------------------------------------------------------------
// Escaping
// ---------------------------------------------------------------------------

/// The hexadecimal digit of a number below sixteen, in upper case.
pub open spec fn upper_hex(n: int) -> char {
    if n < 10 {
        ('0' as u32 + n) as char
    } else {
        ('A' as u32 + (n - 10)) as char
    }
}

/// A byte as a percent sign and two digits.
pub open spec fn percent(byte: u8) -> Seq<char> {
    seq!['%', upper_hex((byte / 16) as int), upper_hex((byte % 16) as int)]
}

pub open spec fn is_alnum_byte(byte: u8) -> bool {
    48 <= byte <= 57 || 65 <= byte <= 90 || 97 <= byte <= 122
}

/// A byte as it stands in the value of a form: letters, digits, `*`, `-`, `.` and `_` as they are,
/// a space as a plus sign, and everything else escaped.
pub open spec fn form_byte(byte: u8) -> Seq<char> {
    if is_alnum_byte(byte) || byte == 42 || byte == 45 || byte == 46 || byte == 95 {
        seq![byte as char]
    } else if byte == 32 {
        seq!['+']
    } else {
        percent(byte)
    }
}

pub open spec fn form_encoded(bytes: Seq<u8>) -> Seq<char>
    decreases bytes.len(),
{
    if bytes.len() == 0 {
        Seq::empty()
    } else {
        form_encoded(bytes.drop_last()) + form_byte(bytes.last())
    }
}

/// `url::form_urlencoded::byte_serialize`, its slices put together: each byte of the text's UTF-8
/// form is written as the value of a form.
#[verifier::external_body]
pub(crate) fn encode_query_component(value: &str) -> (text: String)
    ensures
        text@ == form_encoded(encode_utf8(value@)),
{
    url::form_urlencoded::byte_serialize(value.as_bytes()).collect()
}

/// A byte as it stands in a path: letters, digits, `-`, `_`, `.` and `~` as they are, and
/// everything else escaped.
pub open spec fn path_byte(byte: u8) -> Seq<char> {
    if is_alnum_byte(byte) || byte == 45 || byte == 95 || byte == 46 || byte == 126 {
        seq![byte as char]
    } else {
        percent(byte)
    }
}

pub open spec fn path_encoded(bytes: Seq<u8>) -> Seq<char>
    decreases bytes.len(),
{
    if bytes.len() == 0 {
        Seq::empty()
    } else {
        path_encoded(bytes.drop_last()) + path_byte(bytes.last())
    }
}

fn upper_hex_of(n: u8) -> (c: char)
    requires
        n < 16,
    ensures
        c == upper_hex(n as int),
{
    if n < 10 {
        (48 + n) as char
    } else {
        (65 + (n - 10)) as char
    }
}

pub fn encode_path_segment(value: &str) -> (text: String)
    ensures
        text@ == path_encoded(encode_utf8(value@)),
{
    let bytes = value.as_bytes();
    let mut text = String::new();
    let mut i: usize = 0;
    assert(bytes@.take(0) =~= Seq::empty());
    while i < bytes.len()
        invariant
            i <= bytes@.len(),
            text@ == path_encoded(bytes@.take(i as int)),
        decreases bytes@.len() - i,
    {
        let byte: u8 = bytes[i];
        let ghost before = text@;
        assert(bytes@.take(i + 1).drop_last() =~= bytes@.take(i as int));
        if (48 <= byte && byte <= 57) || (65 <= byte && byte <= 90) || (97 <= byte && byte <= 122)
            || byte == 45 || byte == 95 || byte == 46 || byte == 126 {
            text.push(byte as char);
        } else {
            text.push('%');
            text.push(upper_hex_of(byte / 16));
            text.push(upper_hex_of(byte % 16));
        }
        assert(text@ =~= before + path_byte(byte));
        i = i + 1;
    }
    assert(bytes@.take(i as int) =~= bytes@);
    text
}

/// What was escaped for a path is plain.
pub proof fn escaped_segments_are_plain(bytes: Seq<u8>)
    ensures
        every(path_encoded(bytes), CharClass::UrlPlain),
    decreases bytes.len(),
{
    if bytes.len() > 0 {
        escaped_segments_are_plain(bytes.drop_last());
        lemma_percent(bytes.last());
        lemma_both_plain(path_encoded(bytes.drop_last()), path_byte(bytes.last()));
    }
}

/// What was escaped for a query is plain.
pub proof fn escaped_values_are_plain(bytes: Seq<u8>)
    ensures
        every(form_encoded(bytes), CharClass::UrlPlain),
    decreases bytes.len(),
{
    if bytes.len() > 0 {
        escaped_values_are_plain(bytes.drop_last());
        lemma_percent(bytes.last());
        lemma_both_plain(form_encoded(bytes.drop_last()), form_byte(bytes.last()));
    }
}

proof fn lemma_percent(byte: u8)
    ensures
        every(percent(byte), CharClass::UrlPlain),
{
    assert forall|n: int| 0 <= n < 16 implies CharClass::UrlPlain.has(#[trigger] upper_hex(n)) by {}
    assert(CharClass::UrlPlain.has(upper_hex((byte / 16) as int)));
    assert(CharClass::UrlPlain.has(upper_hex((byte % 16) as int)));
}

pub proof fn lemma_both_plain(left: Seq<char>, right: Seq<char>)
    requires
        every(left, CharClass::UrlPlain),
        every(right, CharClass::UrlPlain),
    ensures
        every(left + right, CharClass::UrlPlain),
{
    assert forall|i: int| 0 <= i < (left + right).len() implies CharClass::UrlPlain.has(
        #[trigger] (left + right)[i],
    ) by {
        if i < left.len() {
            assert(CharClass::UrlPlain.has(left[i]));
        } else {
            assert(CharClass::UrlPlain.has(right[i - left.len()]));
        }
    }
}

/// Which bytes stand as they are in a path, and which in the value of a parameter. A space is a plus
/// sign in a parameter, and every other byte is written with a percent sign and two digits.
pub proof fn other_bytes_are_written_in_digits(byte: u8)
    ensures
        ({
            let plain = 0x30 <= byte <= 0x39 || 0x41 <= byte <= 0x5A || 0x61 <= byte <= 0x7A;
            let in_path = plain || byte == 0x2D || byte == 0x2E || byte == 0x5F || byte == 0x7E;
            let in_value = plain || byte == 0x2A || byte == 0x2D || byte == 0x2E || byte == 0x5F;
            &&& in_path ==> path_byte(byte) == seq![byte as char]
            &&& !in_path ==> path_byte(byte) == percent(byte)
            &&& in_value ==> form_byte(byte) == seq![byte as char]
            &&& byte == 0x20 ==> form_byte(byte) == seq!['+']
            &&& !in_value && byte != 0x20 ==> form_byte(byte) == percent(byte)
            &&& percent(byte).len() == 3
            &&& percent(byte)[0] == '%'
            &&& byte < 0xA0 ==> percent(byte)[1] as int == 0x30 + byte / 16
            &&& byte >= 0xA0 ==> percent(byte)[1] as int == 0x41 + byte / 16 - 10
            &&& byte % 16 < 10 ==> percent(byte)[2] as int == 0x30 + byte % 16
            &&& byte % 16 >= 10 ==> percent(byte)[2] as int == 0x41 + byte % 16 - 10
        }),
{
}

/// What is escaped is escaped byte by byte.
pub proof fn bytes_are_escaped_in_order(bytes: Seq<u8>, byte: u8)
    ensures
        path_encoded(Seq::empty()) == Seq::<char>::empty(),
        path_encoded(bytes.push(byte)) == path_encoded(bytes) + path_byte(byte),
        form_encoded(Seq::empty()) == Seq::<char>::empty(),
        form_encoded(bytes.push(byte)) == form_encoded(bytes) + form_byte(byte),
{
    assert(bytes.push(byte).drop_last() =~= bytes);
}

/// An address names a host on the web exactly if it is one of HTTP, secure or not, and has a host.
pub proof fn web_hosts_are_reached_over_http(scheme: Seq<char>, host: Option<Seq<char>>)
    ensures
        names_web_host(Some((scheme, host))) <==> (scheme == "http"@ || scheme == "https"@)
            && host is Some,
        !names_web_host(None),
{
}

} // verus!
