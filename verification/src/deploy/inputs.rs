//! The forms in which names, paths and addresses are accepted for commands.

use vstd::prelude::*;

use crate::artifact_storage::config::{has_plain_pieces, plain_pieces, to_slashes, with_slashes};
use crate::decimal::{parse_natural, parsed};
use crate::pieces::{contains, cut_last, holds, pieces, replace, replaced, split, split_last};
use crate::text::{
    all_in, chars_of, every, is_digit, is_lower, is_upper, same_text, texts, trim, trim_end_of,
    trimmed, trimmed_end, CharClass,
};

verus! {

#[derive(Debug)]
pub enum DeployError {
    InvalidInput(String),
    Command(String),
    Canceled(String),
}

/// An error as a mathematical value.
pub enum DeployFault {
    InvalidInput(Seq<char>),
    Command(Seq<char>),
    Canceled(Seq<char>),
}

impl View for DeployError {
    type V = DeployFault;

    open spec fn view(&self) -> DeployFault {
        match self {
            DeployError::InvalidInput(message) => DeployFault::InvalidInput(message@),
            DeployError::Command(message) => DeployFault::Command(message@),
            DeployError::Canceled(message) => DeployFault::Canceled(message@),
        }
    }
}

impl DeployFault {
    pub open spec fn text(self) -> Seq<char> {
        match self {
            DeployFault::InvalidInput(message) => message,
            DeployFault::Command(message) => message,
            DeployFault::Canceled(message) => message,
        }
    }
}

impl DeployError {
    pub fn message(&self) -> (message: &str)
        ensures
            message@ == self@.text(),
    {
        match self {
            DeployError::InvalidInput(message) => message.as_str(),
            DeployError::Command(message) => message.as_str(),
            DeployError::Canceled(message) => message.as_str(),
        }
    }
}

/// An accepted text or an error as a mathematical value.
pub open spec fn accepted(result: Result<String, DeployError>) -> Result<Seq<char>, DeployFault> {
    match result {
        Ok(text) => Ok(text@),
        Err(error) => Err(error@),
    }
}

pub(crate) fn invalid(message: &str) -> (error: DeployError)
    ensures
        error@ == DeployFault::InvalidInput(message@),
{
    DeployError::InvalidInput(message.to_owned())
}

// ---------------------------------------------------------------------------
// Paths
// ---------------------------------------------------------------------------

/// A drive letter, a colon and a separator.
pub open spec fn is_windows_absolute(path: Seq<char>) -> bool {
    path.len() >= 3 && (is_lower(path[0]) || is_upper(path[0])) && path[1] == ':' && (path[2] == '/'
        || path[2] == '\\')
}

pub fn is_windows_absolute_path(value: &str) -> (is: bool)
    ensures
        is == is_windows_absolute(value@),
{
    let chars = chars_of(value);
    chars.len() >= 3 && (('a' <= chars[0] && chars[0] <= 'z') || ('A' <= chars[0] && chars[0]
        <= 'Z')) && chars[1] == ':' && (chars[2] == '/' || chars[2] == '\\')
}

fn starts_with_slash(value: &str) -> (starts: bool)
    ensures
        starts == (value@.len() > 0 && value@[0] == '/'),
{
    let chars = chars_of(value);
    chars.len() > 0 && chars[0] == '/'
}

/// A path below the working directory.
pub open spec fn script_path(value: Seq<char>) -> Result<Seq<char>, DeployFault> {
    let path = with_slashes(trimmed(value));
    if path.len() == 0 || path[0] == '/' || is_windows_absolute(path) {
        Err(DeployFault::InvalidInput("部署脚本路径必须是相对路径"@))
    } else if !has_plain_pieces(path) || !every(path, CharClass::ObjectKey) {
        Err(
            DeployFault::InvalidInput(
                "部署脚本路径仅支持字母、数字、斜线、点、短横线、下划线和 @"@,
            ),
        )
    } else {
        Ok(path)
    }
}

pub fn normalize_script_relative_path(value: &str) -> (result: Result<String, DeployError>)
    ensures
        accepted(result) == script_path(value@),
{
    let path = to_slashes(trim(value).as_str());
    if path.as_str().is_empty() || starts_with_slash(path.as_str()) || is_windows_absolute_path(
        path.as_str(),
    ) {
        return Err(invalid("部署脚本路径必须是相对路径"));
    }
    if !plain_pieces(path.as_str()) || !all_in(path.as_str(), CharClass::ObjectKey) {
        return Err(invalid("部署脚本路径仅支持字母、数字、斜线、点、短横线、下划线和 @"));
    }
    Ok(path)
}

/// Some piece of the path means the directory itself or the one above.
pub open spec fn has_dots(path: Seq<char>) -> bool {
    exists|i: int|
        0 <= i < pieces(path, CharClass::Slash).len() && (#[trigger] pieces(
            path,
            CharClass::Slash,
        )[i] == "."@ || pieces(path, CharClass::Slash)[i] == ".."@)
}

fn dots_in(path: &str) -> (found: bool)
    ensures
        found == has_dots(path@),
{
    let parts = split(path, CharClass::Slash);
    let ghost model = pieces(path@, CharClass::Slash);
    let mut i: usize = 0;
    while i < parts.len()
        invariant
            i <= parts@.len(),
            texts(parts@) == model,
            model == pieces(path@, CharClass::Slash),
            forall|k: int| 0 <= k < i ==> #[trigger] model[k] != "."@ && model[k] != ".."@,
        decreases parts@.len() - i,
    {
        assert(texts(parts@)[i as int] == parts@[i as int]@);
        if same_text(parts[i].as_str(), ".") || same_text(parts[i].as_str(), "..") {
            return true;
        }
        i = i + 1;
    }
    assert(model.len() == parts@.len());
    false
}

/// An absolute path whose pieces are names.
pub open spec fn is_tidy_path(path: Seq<char>, class: CharClass) -> bool {
    !holds(path, "//"@) && every(path, class) && !has_dots(path)
}

fn tidy_path(path: &str, class: CharClass) -> (tidy: bool)
    ensures
        tidy == is_tidy_path(path@, class),
{
    !contains(path, "//") && all_in(path, class) && !dots_in(path)
}

/// An absolute path on another host, without slashes at its end.
pub open spec fn remote_path(value: Seq<char>) -> Result<Seq<char>, DeployFault> {
    let path = with_slashes(trimmed(value));
    if path.len() == 0 || path[0] != '/' {
        Err(DeployFault::InvalidInput("SSH 部署路径必须是绝对路径"@))
    } else if !is_tidy_path(path, CharClass::ObjectKey) {
        Err(
            DeployFault::InvalidInput(
                "SSH 部署路径仅支持字母、数字、斜线、点、短横线、下划线和 @"@,
            ),
        )
    } else {
        Ok(trimmed_end(path, CharClass::Slash))
    }
}

pub fn normalize_remote_absolute_path(value: &str) -> (result: Result<String, DeployError>)
    ensures
        accepted(result) == remote_path(value@),
{
    let path = to_slashes(trim(value).as_str());
    if !starts_with_slash(path.as_str()) {
        return Err(invalid("SSH 部署路径必须是绝对路径"));
    }
    if !tidy_path(path.as_str(), CharClass::ObjectKey) {
        return Err(invalid("SSH 部署路径仅支持字母、数字、斜线、点、短横线、下划线和 @"));
    }
    Ok(trim_end_of(path.as_str(), CharClass::Slash))
}

/// An absolute path on this host, without slashes at its end.
pub open spec fn local_path(value: Seq<char>) -> Result<Seq<char>, DeployFault> {
    let path = with_slashes(trimmed(value));
    if !(path.len() > 0 && path[0] == '/') && !is_windows_absolute(path) {
        Err(DeployFault::InvalidInput("本机配置路径必须是绝对路径"@))
    } else if !is_tidy_path(path, CharClass::LocalPath) {
        Err(
            DeployFault::InvalidInput(
                "本机配置路径仅支持字母、数字、斜线、盘符、点、短横线、下划线和 @"@,
            ),
        )
    } else {
        Ok(trimmed_end(path, CharClass::Slash))
    }
}

pub fn normalize_local_absolute_path(value: &str) -> (result: Result<String, DeployError>)
    ensures
        accepted(result) == local_path(value@),
{
    let path = to_slashes(trim(value).as_str());
    if !starts_with_slash(path.as_str()) && !is_windows_absolute_path(path.as_str()) {
        return Err(invalid("本机配置路径必须是绝对路径"));
    }
    if !tidy_path(path.as_str(), CharClass::LocalPath) {
        return Err(invalid("本机配置路径仅支持字母、数字、斜线、盘符、点、短横线、下划线和 @"));
    }
    Ok(trim_end_of(path.as_str(), CharClass::Slash))
}

// ---------------------------------------------------------------------------
// Names
// ---------------------------------------------------------------------------

/// A name that is not empty and consists of the characters of a class.
pub open spec fn plain_name(
    value: Seq<char>,
    class: CharClass,
    empty: Seq<char>,
    unsupported: Seq<char>,
) -> Result<Seq<char>, DeployFault> {
    let name = trimmed(value);
    if name.len() == 0 {
        Err(DeployFault::InvalidInput(empty))
    } else if !every(name, class) {
        Err(DeployFault::InvalidInput(unsupported))
    } else {
        Ok(name)
    }
}

fn accept_name(value: &str, class: CharClass, empty: &str, unsupported: &str) -> (result: Result<
    String,
    DeployError,
>)
    ensures
        accepted(result) == plain_name(value@, class, empty@, unsupported@),
{
    let name = trim(value);
    if name.as_str().is_empty() {
        return Err(invalid(empty));
    }
    if !all_in(name.as_str(), class) {
        return Err(invalid(unsupported));
    }
    Ok(name)
}

pub open spec fn ssh_user(value: Seq<char>) -> Result<Seq<char>, DeployFault> {
    plain_name(
        value,
        CharClass::Slug,
        "SSH 用户不能为空"@,
        "SSH 用户仅支持字母、数字、短横线和下划线"@,
    )
}

pub fn normalize_ssh_user(value: &str) -> (result: Result<String, DeployError>)
    ensures
        accepted(result) == ssh_user(value@),
{
    accept_name(
        value,
        CharClass::Slug,
        "SSH 用户不能为空",
        "SSH 用户仅支持字母、数字、短横线和下划线",
    )
}

pub open spec fn ssh_address(value: Seq<char>) -> Result<Seq<char>, DeployFault> {
    plain_name(
        value,
        CharClass::HostName,
        "SSH 地址不能为空"@,
        "SSH 地址仅支持主机名或 IPv4 地址"@,
    )
}

pub fn normalize_ssh_address(value: &str) -> (result: Result<String, DeployError>)
    ensures
        accepted(result) == ssh_address(value@),
{
    accept_name(
        value,
        CharClass::HostName,
        "SSH 地址不能为空",
        "SSH 地址仅支持主机名或 IPv4 地址",
    )
}

pub open spec fn compose_service(value: Seq<char>) -> Result<Seq<char>, DeployFault> {
    plain_name(
        value,
        CharClass::Slug,
        "服务名称不能为空"@,
        "服务名称仅支持字母、数字、短横线和下划线"@,
    )
}

pub fn normalize_compose_service_name(value: &str) -> (result: Result<String, DeployError>)
    ensures
        accepted(result) == compose_service(value@),
{
    accept_name(
        value,
        CharClass::Slug,
        "服务名称不能为空",
        "服务名称仅支持字母、数字、短横线和下划线",
    )
}

/// The text ends with `suffix`.
pub open spec fn ends_with(s: Seq<char>, suffix: Seq<char>) -> bool {
    suffix.is_suffix_of(s)
}

fn has_suffix(text: &str, suffix: &str) -> (found: bool)
    ensures
        found == ends_with(text@, suffix@),
{
    let chars = chars_of(text);
    let wanted = chars_of(suffix);
    if wanted.len() > chars.len() {
        return false;
    }
    let start: usize = chars.len() - wanted.len();
    let mut i: usize = 0;
    while i < wanted.len()
        invariant
            chars@ == text@,
            wanted@ == suffix@,
            i <= wanted@.len(),
            start + wanted@.len() == chars@.len(),
            start + wanted.len() == chars.len(),
            forall|k: int| 0 <= k < i ==> chars@[start + k] == #[trigger] wanted@[k],
        decreases wanted@.len() - i,
    {
        if chars[start + i] != wanted[i] {
            assert(text@.subrange(start as int, text@.len() as int)[i as int] != suffix@[i as int]);
            return false;
        }
        i = i + 1;
    }
    assert(suffix@ =~= text@.subrange(start as int, text@.len() as int));
    true
}

/// The name of a service unit of systemd.
pub open spec fn systemd_unit(value: Seq<char>) -> Result<Seq<char>, DeployFault> {
    let name = trimmed(value);
    if name.len() == 0 {
        Err(DeployFault::InvalidInput("systemd unit 不能为空"@))
    } else if !ends_with(name, ".service"@) {
        Err(DeployFault::InvalidInput("systemd unit 必须以 .service 结尾"@))
    } else if !every(name, CharClass::Segment) {
        Err(
            DeployFault::InvalidInput(
                "systemd unit 仅支持字母、数字、短横线、下划线、点和 @"@,
            ),
        )
    } else {
        Ok(name)
    }
}

pub fn normalize_systemd_unit_name(value: &str) -> (result: Result<String, DeployError>)
    ensures
        accepted(result) == systemd_unit(value@),
{
    let name = trim(value);
    if name.as_str().is_empty() {
        return Err(invalid("systemd unit 不能为空"));
    }
    if !has_suffix(name.as_str(), ".service") {
        return Err(invalid("systemd unit 必须以 .service 结尾"));
    }
    if !all_in(name.as_str(), CharClass::Segment) {
        return Err(invalid("systemd unit 仅支持字母、数字、短横线、下划线、点和 @"));
    }
    Ok(name)
}

/// The name of an environment variable of a script.
pub open spec fn env_name(value: Seq<char>) -> Result<Seq<char>, DeployFault> {
    let name = trimmed(value);
    if name.len() == 0 || is_digit(name[0]) || !every(name, CharClass::EnvName) {
        Err(
            DeployFault::InvalidInput(
                "部署脚本环境变量名仅支持大写字母、数字和下划线，且不能以数字开头"@,
            ),
        )
    } else {
        Ok(name)
    }
}

pub fn normalize_env_name(value: &str) -> (result: Result<String, DeployError>)
    ensures
        accepted(result) == env_name(value@),
{
    let name = trim(value);
    let chars = chars_of(name.as_str());
    if chars.len() == 0 || ('0' <= chars[0] && chars[0] <= '9') || !all_in(
        name.as_str(),
        CharClass::EnvName,
    ) {
        return Err(
            invalid("部署脚本环境变量名仅支持大写字母、数字和下划线，且不能以数字开头"),
        );
    }
    Ok(name)
}

// ---------------------------------------------------------------------------
// Addresses of health checks
// ---------------------------------------------------------------------------

/// The address of a health check that another host carries out.
pub open spec fn health_endpoint(value: Seq<char>, label: Seq<char>) -> Result<
    Seq<char>,
    DeployFault,
> {
    plain_name(
        value,
        CharClass::Endpoint,
        label + " 健康检查地址不能为空"@,
        label + " 健康检查地址包含不支持的字符"@,
    )
}

pub fn normalize_remote_health_endpoint(value: &str, label: &str) -> (result: Result<
    String,
    DeployError,
>)
    ensures
        accepted(result) == health_endpoint(value@, label@),
{
    let empty = label.to_owned().concat(" 健康检查地址不能为空");
    let unsupported = label.to_owned().concat(" 健康检查地址包含不支持的字符");
    accept_name(value, CharClass::Endpoint, empty.as_str(), unsupported.as_str())
}

/// A host and a port.
pub open spec fn tcp_endpoint(value: Seq<char>) -> Result<(Seq<char>, Seq<char>), DeployFault> {
    match health_endpoint(value, "TCP"@) {
        Err(fault) => Err(fault),
        Ok(endpoint) => match cut_last(endpoint, CharClass::Colon) {
            Some(parts) => if parts.0.len() > 0 && parsed(parts.1, u16::MAX as nat) is Some {
                Ok(parts)
            } else {
                Err(DeployFault::InvalidInput("TCP 健康检查地址格式应为 host:port"@))
            },
            None => Err(DeployFault::InvalidInput("TCP 健康检查地址格式应为 host:port"@)),
        },
    }
}

pub fn normalize_remote_tcp_endpoint(value: &str) -> (result: Result<
    (String, String),
    DeployError,
>)
    ensures
        match result {
            Ok(parts) => tcp_endpoint(value@) == Ok::<(Seq<char>, Seq<char>), DeployFault>(
                (parts.0@, parts.1@),
            ),
            Err(error) => tcp_endpoint(value@) == Err::<(Seq<char>, Seq<char>), DeployFault>(
                error@,
            ),
        },
{
    let endpoint = match normalize_remote_health_endpoint(value, "TCP") {
        Ok(endpoint) => endpoint,
        Err(error) => return Err(error),
    };
    match split_last(endpoint.as_str(), CharClass::Colon) {
        Some(parts) => {
            if parts.0.as_str().is_empty() || parse_natural(
                parts.1.as_str(),
                u16::MAX as u64,
            ).is_none() {
                return Err(invalid("TCP 健康检查地址格式应为 host:port"));
            }
            Ok(parts)
        },
        None => Err(invalid("TCP 健康检查地址格式应为 host:port")),
    }
}

// ---------------------------------------------------------------------------
// Quoting and limits
// ---------------------------------------------------------------------------

/// A text as one word of a POSIX shell.
pub open spec fn quoted(value: Seq<char>) -> Seq<char> {
    if value.len() == 0 {
        "''"@
    } else {
        "'"@ + replaced(value, "'"@, "'\\''"@) + "'"@
    }
}

pub fn shell_quote(value: &str) -> (text: String)
    ensures
        text@ == quoted(value@),
{
    if value.is_empty() {
        return "''".to_owned();
    }
    proof {
        reveal_strlit("'");
    }
    "'".to_owned().concat(replace(value, "'", "'\\''").as_str()).concat("'")
}

/// How many lines of a log are shown.
pub open spec fn tail_lines(value: u16) -> u16 {
    if value < 50 {
        50
    } else if value > 1000 {
        1000
    } else {
        value
    }
}

pub fn normalize_log_tail_lines(value: u16) -> (lines: u16)
    ensures
        lines == tail_lines(value),
{
    if value < 50 {
        50
    } else if value > 1000 {
        1000
    } else {
        value
    }
}

// ---------------------------------------------------------------------------
// Laws
// ---------------------------------------------------------------------------

/// Reads one word of a POSIX shell that consists of single-quoted parts and escaped quotes;
/// `open` says whether the text begins inside quotes.
pub open spec fn shell_word(s: Seq<char>, open: bool) -> Option<Seq<char>>
    decreases s.len(),
{
    if s.len() == 0 {
        if open {
            None
        } else {
            Some(Seq::empty())
        }
    } else if open {
        if s[0] == '\'' {
            shell_word(s.drop_first(), false)
        } else {
            match shell_word(s.drop_first(), true) {
                Some(rest) => Some(seq![s[0]] + rest),
                None => None,
            }
        }
    } else if s[0] == '\'' {
        shell_word(s.drop_first(), true)
    } else if s[0] == '\\' && s.len() > 1 {
        match shell_word(s.skip(2), false) {
            Some(rest) => Some(seq![s[1]] + rest),
            None => None,
        }
    } else {
        None
    }
}

proof fn lemma_quoted_reads_back(value: Seq<char>)
    ensures
        shell_word(replaced(value, "'"@, "'\\''"@) + "'"@, true) == Some(value),
    decreases value.len(),
{
    reveal_strlit("'");
    reveal_strlit("'\\''");
    let from = "'"@;
    let to = "'\\''"@;
    let text = replaced(value, from, to) + "'"@;
    if value.len() == 0 {
        assert(replaced(value, from, to) =~= Seq::empty());
        assert(text =~= seq!['\'']);
        assert(text.drop_first() =~= Seq::empty());
        assert(shell_word(text.drop_first(), false) == Some(Seq::<char>::empty()));
        assert(value =~= Seq::empty());
    } else {
        let rest = value.drop_first();
        lemma_quoted_reads_back(rest);
        let tail = replaced(rest, from, to) + "'"@;
        assert(value =~= seq![value[0]] + rest);
        if value[0] == '\'' {
            assert(value.subrange(0, 1) =~= from);
            assert(from.is_prefix_of(value));
            assert(value.skip(1) =~= rest);
            assert(text =~= to + tail);
            let a = text.drop_first();
            assert(a =~= seq!['\\', '\'', '\''] + tail);
            let b = a.skip(2);
            assert(b =~= seq!['\''] + tail);
            assert(b.drop_first() =~= tail);
            assert(shell_word(b, false) == shell_word(tail, true));
            assert(shell_word(a, false) == Some(seq!['\''] + rest));
        } else {
            assert(!from.is_prefix_of(value)) by {
                if from.is_prefix_of(value) {
                    assert(value.subrange(0, 1)[0] == from[0]);
                }
            }
            assert(text =~= seq![value[0]] + tail);
            assert(text.drop_first() =~= tail);
        }
    }
}

/// A shell reads a quoted text back as the very text, whatever characters it holds.
pub proof fn quoting_is_faithful(value: Seq<char>)
    ensures
        shell_word(quoted(value), false) == Some(value),
{
    reveal_strlit("'");
    reveal_strlit("''");
    if value.len() == 0 {
        let a = "''"@.drop_first();
        assert(a =~= seq!['\'']);
        assert(a.drop_first() =~= Seq::empty());
        assert(shell_word(a.drop_first(), false) == Some(Seq::<char>::empty()));
        assert(shell_word(a, true) == Some(Seq::<char>::empty()));
        assert(value =~= Seq::empty());
    } else {
        lemma_quoted_reads_back(value);
        let text = quoted(value);
        assert(text.drop_first() =~= replaced(value, "'"@, "'\\''"@) + "'"@);
        assert(text[0] == '\'');
    }
}

/// An accepted path on another host holds nothing that a shell gives a meaning.
pub proof fn remote_paths_are_plain(value: Seq<char>)
    requires
        remote_path(value) is Ok,
    ensures
        every(remote_path(value)->Ok_0, CharClass::ObjectKey),
{
    let path = with_slashes(trimmed(value));
    lemma_trimmed_end_every(path, CharClass::Slash, CharClass::ObjectKey);
}

proof fn lemma_trimmed_end_every(s: Seq<char>, end: CharClass, class: CharClass)
    requires
        every(s, class),
    ensures
        every(trimmed_end(s, end), class),
    decreases s.len(),
{
    if s.len() > 0 && end.has(s.last()) {
        lemma_trimmed_end_every(s.drop_last(), end, class);
    }
}

/// A letter or a digit of ASCII.
pub open spec fn is_letter_or_digit(c: char) -> bool {
    '0' <= c <= '9' || 'A' <= c <= 'Z' || 'a' <= c <= 'z'
}

/// A character that stands in paths: a letter, a digit, a slash, a dot, a dash, an underscore or an
/// at sign.
pub open spec fn is_path_char(c: char) -> bool {
    is_letter_or_digit(c) || c == '/' || c == '.' || c == '-' || c == '_' || c == '@'
}

/// No part of a path between slashes is a single dot or two dots.
pub open spec fn goes_nowhere_up(path: Seq<char>) -> bool {
    forall|i: int|
        0 <= i < pieces(path, CharClass::Slash).len() ==> (#[trigger] pieces(
            path,
            CharClass::Slash,
        )[i]) != "."@ && pieces(path, CharClass::Slash)[i] != ".."@
}

/// The path of a script is accepted exactly if it is relative, has no empty part, goes nowhere up
/// and holds nothing but the characters of paths. It is taken without white space around it, with
/// slashes for backslashes.
pub proof fn scripts_stay_below_their_directory(value: Seq<char>)
    ensures
        ({
            let path = with_slashes(trimmed(value));
            &&& script_path(value) is Ok <==> {
                &&& path.len() > 0
                &&& path[0] != '/'
                &&& forall|i: int| 0 <= i < path.len() ==> is_path_char(#[trigger] path[i])
                &&& goes_nowhere_up(path)
                &&& forall|i: int|
                    0 <= i < pieces(path, CharClass::Slash).len() ==> (#[trigger] pieces(
                        path,
                        CharClass::Slash,
                    )[i]).len() > 0
            }
            &&& script_path(value) is Ok ==> script_path(value)->Ok_0 == path
        }),
{
    let path = with_slashes(trimmed(value));
    let parts = pieces(path, CharClass::Slash);
    if has_plain_pieces(path) {
        assert forall|i: int| 0 <= i < parts.len() implies (#[trigger] parts[i]).len() > 0
            && parts[i] != "."@ && parts[i] != ".."@ by {
            assert(crate::artifact_storage::config::is_plain_piece(parts[i]));
        }
    }
    if every(path, CharClass::ObjectKey) {
        assert forall|i: int| 0 <= i < path.len() implies is_path_char(#[trigger] path[i]) by {
            assert(CharClass::ObjectKey.has(path[i]));
        }
    }
    if is_windows_absolute(path) {
        assert(!is_path_char(path[1]));
    }
    if forall|i: int| 0 <= i < path.len() ==> is_path_char(#[trigger] path[i]) {
        assert forall|i: int| 0 <= i < path.len() implies CharClass::ObjectKey.has(
            #[trigger] path[i],
        ) by {
            assert(is_path_char(path[i]));
        }
    }
    if goes_nowhere_up(path) && (forall|i: int|
        0 <= i < parts.len() ==> (#[trigger] parts[i]).len() > 0) {
        assert(has_plain_pieces(path));
    }
}

proof fn lemma_tidy_path(path: Seq<char>, class: CharClass)
    requires
        class == CharClass::ObjectKey || class == CharClass::LocalPath,
    ensures
        is_tidy_path(path, class) <==> {
            &&& !holds(path, "//"@)
            &&& goes_nowhere_up(path)
            &&& forall|i: int|
                0 <= i < path.len() ==> is_path_char(#[trigger] path[i]) || (class
                    == CharClass::LocalPath && (path[i] == ':' || path[i] == '\\'))
        },
{
    let parts = pieces(path, CharClass::Slash);
    if every(path, class) {
        assert forall|i: int| 0 <= i < path.len() implies is_path_char(#[trigger] path[i]) || (class
            == CharClass::LocalPath && (path[i] == ':' || path[i] == '\\')) by {
            assert(class.has(path[i]));
        }
    }
    if forall|i: int|
        0 <= i < path.len() ==> is_path_char(#[trigger] path[i]) || (class == CharClass::LocalPath
            && (path[i] == ':' || path[i] == '\\')) {
        assert(every(path, class));
    }
    if !has_dots(path) {
        assert(goes_nowhere_up(path));
    }
    if goes_nowhere_up(path) {
        assert(!has_dots(path));
    }
}

/// A path on another host is accepted exactly if it is absolute, has no two slashes in a row, goes
/// nowhere up and holds nothing but the characters of paths. It is taken without slashes at its end.
pub proof fn remote_paths_are_absolute(value: Seq<char>)
    ensures
        ({
            let path = with_slashes(trimmed(value));
            &&& remote_path(value) is Ok <==> {
                &&& path.len() > 0
                &&& path[0] == '/'
                &&& !holds(path, "//"@)
                &&& goes_nowhere_up(path)
                &&& forall|i: int| 0 <= i < path.len() ==> is_path_char(#[trigger] path[i])
            }
            &&& remote_path(value) is Ok ==> remote_path(value)->Ok_0 == trimmed_end(
                path,
                CharClass::Slash,
            )
        }),
{
    lemma_tidy_path(with_slashes(trimmed(value)), CharClass::ObjectKey);
}

/// A path on this host is accepted exactly if it begins with a slash, or with a letter, a colon and
/// a slash, has no two slashes in a row, goes nowhere up and holds nothing but the characters of
/// paths and colons.
pub proof fn local_paths_are_absolute(value: Seq<char>)
    ensures
        ({
            let path = with_slashes(trimmed(value));
            let drive = path.len() >= 3 && is_letter_or_digit(path[0]) && !('0' <= path[0]
                <= '9') && path[1] == ':' && path[2] == '/';
            &&& local_path(value) is Ok <==> {
                &&& path.len() > 0
                &&& path[0] == '/' || drive
                &&& !holds(path, "//"@)
                &&& goes_nowhere_up(path)
                &&& forall|i: int|
                    0 <= i < path.len() ==> is_path_char(#[trigger] path[i]) || path[i] == ':'
            }
            &&& local_path(value) is Ok ==> local_path(value)->Ok_0 == trimmed_end(
                path,
                CharClass::Slash,
            )
        }),
{
    let path = with_slashes(trimmed(value));
    lemma_tidy_path(path, CharClass::LocalPath);
    assert forall|i: int| 0 <= i < path.len() implies #[trigger] path[i] != '\\' by {}
}

/// Names of users and of services hold letters, digits, dashes and underscores; addresses of hosts
/// hold dots besides. None is empty, and white space around them is dropped.
pub proof fn names_are_accepted_by_their_characters(value: Seq<char>)
    ensures
        ({
            let name = trimmed(value);
            let plain = forall|i: int|
                0 <= i < name.len() ==> (is_letter_or_digit(#[trigger] name[i]) || name[i] == '-'
                    || name[i] == '_');
            let dotted = forall|i: int|
                0 <= i < name.len() ==> (is_letter_or_digit(#[trigger] name[i]) || name[i] == '-'
                    || name[i] == '_' || name[i] == '.');
            &&& ssh_user(value) is Ok <==> name.len() > 0 && plain
            &&& ssh_user(value) is Ok ==> ssh_user(value)->Ok_0 == name
            &&& compose_service(value) is Ok <==> name.len() > 0 && plain
            &&& compose_service(value) is Ok ==> compose_service(value)->Ok_0 == name
            &&& ssh_address(value) is Ok <==> name.len() > 0 && dotted
            &&& ssh_address(value) is Ok ==> ssh_address(value)->Ok_0 == name
        }),
{
    let name = trimmed(value);
    if every(name, CharClass::Slug) {
        assert forall|i: int| 0 <= i < name.len() implies (is_letter_or_digit(#[trigger] name[i])
            || name[i] == '-' || name[i] == '_') by {
            assert(CharClass::Slug.has(name[i]));
        }
    }
    if every(name, CharClass::HostName) {
        assert forall|i: int| 0 <= i < name.len() implies (is_letter_or_digit(#[trigger] name[i])
            || name[i] == '-' || name[i] == '_' || name[i] == '.') by {
            assert(CharClass::HostName.has(name[i]));
        }
    }
    if forall|i: int|
        0 <= i < name.len() ==> (is_letter_or_digit(#[trigger] name[i]) || name[i] == '-'
            || name[i] == '_') {
        assert forall|i: int| 0 <= i < name.len() implies CharClass::Slug.has(
            #[trigger] name[i],
        ) by {
            let c = name[i];
            assert(is_letter_or_digit(c) || c == '-' || c == '_');
        }
        assert(every(name, CharClass::Slug));
    }
    if forall|i: int|
        0 <= i < name.len() ==> (is_letter_or_digit(#[trigger] name[i]) || name[i] == '-'
            || name[i] == '_' || name[i] == '.') {
        assert forall|i: int| 0 <= i < name.len() implies CharClass::HostName.has(
            #[trigger] name[i],
        ) by {
            let c = name[i];
            assert(is_letter_or_digit(c) || c == '-' || c == '_' || c == '.');
        }
        assert(every(name, CharClass::HostName));
    }
}

/// A unit of systemd is a service: its name ends with `.service` and holds nothing but letters,
/// digits, dots, dashes, underscores and at signs.
pub proof fn units_are_services(value: Seq<char>)
    ensures
        ({
            let name = trimmed(value);
            &&& systemd_unit(value) is Ok <==> {
                &&& name.len() >= 8
                &&& name.skip(name.len() - 8) == seq!['.', 's', 'e', 'r', 'v', 'i', 'c', 'e']
                &&& forall|i: int|
                    0 <= i < name.len() ==> (is_letter_or_digit(#[trigger] name[i]) || name[i]
                        == '.' || name[i] == '-' || name[i] == '_' || name[i] == '@')
            }
            &&& systemd_unit(value) is Ok ==> systemd_unit(value)->Ok_0 == name
        }),
{
    reveal_strlit(".service");
    let name = trimmed(value);
    let service = ".service"@;
    assert(service =~= seq!['.', 's', 'e', 'r', 'v', 'i', 'c', 'e']);
    if name.len() >= 8 {
        assert(name.skip(name.len() - 8) =~= name.subrange(name.len() - 8, name.len() as int));
    }
    if every(name, CharClass::Segment) {
        assert forall|i: int| 0 <= i < name.len() implies (is_letter_or_digit(#[trigger] name[i])
            || name[i] == '.' || name[i] == '-' || name[i] == '_' || name[i] == '@') by {
            assert(CharClass::Segment.has(name[i]));
        }
    }
    if forall|i: int|
        0 <= i < name.len() ==> (is_letter_or_digit(#[trigger] name[i]) || name[i] == '.'
            || name[i] == '-' || name[i] == '_' || name[i] == '@') {
        assert forall|i: int| 0 <= i < name.len() implies CharClass::Segment.has(
            #[trigger] name[i],
        ) by {
            let c = name[i];
            assert(is_letter_or_digit(c) || c == '.' || c == '-' || c == '_' || c == '@');
        }
        assert(every(name, CharClass::Segment));
    }
}

/// A variable's name begins with a capital letter or an underscore and goes on with these and
/// digits.
pub proof fn variables_have_capital_names(value: Seq<char>)
    ensures
        ({
            let name = trimmed(value);
            &&& env_name(value) is Ok <==> {
                &&& name.len() > 0
                &&& 'A' <= name[0] <= 'Z' || name[0] == '_'
                &&& forall|i: int|
                    0 <= i < name.len() ==> ('A' <= #[trigger] name[i] <= 'Z' || '0' <= name[i] <= '9'
                        || name[i] == '_')
            }
            &&& env_name(value) is Ok ==> env_name(value)->Ok_0 == name
        }),
{
    let name = trimmed(value);
    if every(name, CharClass::EnvName) {
        assert forall|i: int| 0 <= i < name.len() implies ('A' <= #[trigger] name[i] <= 'Z'
            || '0' <= name[i] <= '9' || name[i] == '_') by {
            assert(CharClass::EnvName.has(name[i]));
        }
    }
    if forall|i: int|
        0 <= i < name.len() ==> ('A' <= #[trigger] name[i] <= 'Z' || '0' <= name[i] <= '9'
            || name[i] == '_') {
        assert forall|i: int| 0 <= i < name.len() implies CharClass::EnvName.has(
            #[trigger] name[i],
        ) by {
            let c = name[i];
            assert('A' <= c <= 'Z' || '0' <= c <= '9' || c == '_');
        }
        assert(every(name, CharClass::EnvName));
    }
}

/// An address that is tried over TCP is a host and a port, with a colon between them, and the port
/// is a number up to 65535.
pub proof fn tcp_addresses_are_host_and_port(value: Seq<char>)
    requires
        tcp_endpoint(value) is Ok,
    ensures
        ({
            let (host, port) = tcp_endpoint(value)->Ok_0;
            &&& trimmed(value) == host + seq![':'] + port
            &&& host.len() > 0
            &&& !port.contains(':')
            &&& parsed(port, 65535) is Some
        }),
{
    let endpoint = trimmed(value);
    crate::pieces::texts_are_cut_at_the_last_separator(endpoint, CharClass::Colon);
    let port = tcp_endpoint(value)->Ok_0.1;
    if port.contains(':') {
        let k = choose|k: int| 0 <= k < port.len() && port[k] == ':';
        assert(CharClass::Colon.has(port[k]));
    }
}

/// No fewer than 50 lines of a log are shown and no more than 1000; between, as many as asked for.
pub proof fn shown_lines_are_limited(value: u16)
    ensures
        50 <= tail_lines(value) <= 1000,
        50 <= value <= 1000 ==> tail_lines(value) == value,
        value < 50 ==> tail_lines(value) == 50,
        value > 1000 ==> tail_lines(value) == 1000,
{
}

} // verus!
