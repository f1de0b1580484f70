//! The configuration of artifact storage, and the forms in which its values are accepted.

use vstd::prelude::*;
use vstd::string::StringSliceAdditionalSpecFns;
use vstd::utf8::encode_utf8;

use crate::pieces::{contains, cut_last, holds, pieces, split, split_last, starts_with};
use crate::text::{
    all_in, any, any_in, blank, chars_of, every, is_blank, lowercase, lowered, same_text, texts,
    trim, trim_end_of, trim_of, trimmed, trimmed_end, trimmed_of, CharClass,
};
use crate::urls::{parse_url, url_parts};

verus! {

pub const STORAGE_PROVIDER_LOCAL: &'static str = "local";

pub const STORAGE_PROVIDER_ALIYUN_OSS: &'static str = "aliyun_oss";

pub const DEFAULT_ALIYUN_OSS_REGION: &'static str = "oss-cn-hangzhou";

pub const DEFAULT_ALIYUN_OSS_ENDPOINT: &'static str = "https://oss-cn-hangzhou.aliyuncs.com";

pub const DEFAULT_ALIYUN_OSS_OBJECT_PREFIX: &'static str = "easy-deploy/releases";

pub const DEFAULT_ALIYUN_OSS_UPLOAD_TTL_SECONDS: i64 = 900;

pub const DEFAULT_ALIYUN_OSS_DOWNLOAD_TTL_SECONDS: i64 = 600;

#[derive(Clone, Debug, PartialEq, Eq)]
pub struct ArtifactStorageConfig {
    pub provider: String,
    pub aliyun_oss: AliyunOssConfig,
}

#[derive(Clone, Debug, PartialEq, Eq)]
pub struct AliyunOssConfig {
    pub region: String,
    pub endpoint: String,
    pub bucket: String,
    pub object_prefix: String,
    pub access_key_id: String,
    pub access_key_secret: String,
    pub upload_url_ttl_seconds: i64,
    pub download_url_ttl_seconds: i64,
}

#[derive(Debug)]
pub enum ArtifactStorageError {
    InvalidInput(String),
    Unsupported(String),
    Internal(String),
}

/// An error as a mathematical value.
pub enum StorageFault {
    InvalidInput(Seq<char>),
    Unsupported(Seq<char>),
    Internal(Seq<char>),
}

impl View for ArtifactStorageError {
    type V = StorageFault;

    open spec fn view(&self) -> StorageFault {
        match self {
            ArtifactStorageError::InvalidInput(message) => StorageFault::InvalidInput(message@),
            ArtifactStorageError::Unsupported(message) => StorageFault::Unsupported(message@),
            ArtifactStorageError::Internal(message) => StorageFault::Internal(message@),
        }
    }
}

impl StorageFault {
    pub open spec fn text(self) -> Seq<char> {
        match self {
            StorageFault::InvalidInput(message) => message,
            StorageFault::Unsupported(message) => message,
            StorageFault::Internal(message) => message,
        }
    }
}

impl ArtifactStorageError {
    pub fn message(&self) -> (message: &str)
        ensures
            message@ == self@.text(),
    {
        match self {
            ArtifactStorageError::InvalidInput(message) => message.as_str(),
            ArtifactStorageError::Unsupported(message) => message.as_str(),
            ArtifactStorageError::Internal(message) => message.as_str(),
        }
    }
}

/// An outcome as a mathematical value.
pub open spec fn outcome(result: Result<String, ArtifactStorageError>) -> Result<
    Seq<char>,
    StorageFault,
> {
    match result {
        Ok(text) => Ok(text@),
        Err(error) => Err(error@),
    }
}

pub(crate) fn invalid(message: &str) -> (error: ArtifactStorageError)
    ensures
        error@ == StorageFault::InvalidInput(message@),
{
    ArtifactStorageError::InvalidInput(message.to_owned())
}

// ---------------------------------------------------------------------------
// Single values
// ---------------------------------------------------------------------------

pub open spec fn storage_provider(value: Seq<char>) -> Result<Seq<char>, StorageFault> {
    let name = lowered(trimmed(value));
    if name.len() == 0 || name == STORAGE_PROVIDER_LOCAL@ {
        Ok(STORAGE_PROVIDER_LOCAL@)
    } else if name == STORAGE_PROVIDER_ALIYUN_OSS@ {
        Ok(STORAGE_PROVIDER_ALIYUN_OSS@)
    } else {
        Err(StorageFault::Unsupported("制品存储后端暂只支持 local 和 aliyun_oss"@))
    }
}

pub fn normalize_storage_provider(value: &str) -> (result: Result<String, ArtifactStorageError>)
    ensures
        outcome(result) == storage_provider(value@),
{
    let name = lowercase(trim(value).as_str());
    if name.as_str().is_empty() || same_text(name.as_str(), STORAGE_PROVIDER_LOCAL) {
        Ok(STORAGE_PROVIDER_LOCAL.to_owned())
    } else if same_text(name.as_str(), STORAGE_PROVIDER_ALIYUN_OSS) {
        Ok(STORAGE_PROVIDER_ALIYUN_OSS.to_owned())
    } else {
        Err(
            ArtifactStorageError::Unsupported(
                "制品存储后端暂只支持 local 和 aliyun_oss".to_owned(),
            ),
        )
    }
}

/// The digest in lower case: 64 hexadecimal digits.
pub open spec fn checksum_sha256(value: Seq<char>) -> Result<Seq<char>, StorageFault> {
    let digest = lowered(trimmed(value));
    if digest.len() == 64 && every(digest, CharClass::Hex) {
        Ok(digest)
    } else {
        Err(StorageFault::InvalidInput("checksum_sha256 必须是 64 位十六进制 SHA-256"@))
    }
}

pub fn normalize_checksum_sha256(value: &str) -> (result: Result<String, ArtifactStorageError>)
    ensures
        outcome(result) == checksum_sha256(value@),
{
    let digest = lowercase(trim(value).as_str());
    if digest.as_str().unicode_len() != 64 || !all_in(digest.as_str(), CharClass::Hex) {
        return Err(invalid("checksum_sha256 必须是 64 位十六进制 SHA-256"));
    }
    Ok(digest)
}

/// A piece of a path that names something below it.
pub open spec fn is_plain_piece(piece: Seq<char>) -> bool {
    piece.len() > 0 && piece != "."@ && piece != ".."@
}

/// A path of plain pieces.
pub open spec fn has_plain_pieces(path: Seq<char>) -> bool {
    forall|i: int|
        0 <= i < pieces(path, CharClass::Slash).len() ==> is_plain_piece(
            #[trigger] pieces(path, CharClass::Slash)[i],
        )
}

pub(crate) fn plain_pieces(path: &str) -> (plain: bool)
    ensures
        plain == has_plain_pieces(path@),
{
    let parts = split(path, CharClass::Slash);
    let ghost model = pieces(path@, CharClass::Slash);
    let mut i: usize = 0;
    while i < parts.len()
        invariant
            i <= parts@.len(),
            texts(parts@) == model,
            model == pieces(path@, CharClass::Slash),
            forall|k: int| 0 <= k < i ==> is_plain_piece(#[trigger] model[k]),
        decreases parts@.len() - i,
    {
        let part = parts[i].as_str();
        assert(part@ == texts(parts@)[i as int]);
        if part.is_empty() || same_text(part, ".") || same_text(part, "..") {
            assert(!is_plain_piece(model[i as int]));
            return false;
        }
        i = i + 1;
    }
    assert(model.len() == parts@.len());
    true
}

/// The text with slashes in place of backslashes.
pub open spec fn with_slashes(s: Seq<char>) -> Seq<char> {
    s.map_values(
        |c: char|
            if c == '\\' {
                '/'
            } else {
                c
            },
    )
}

pub(crate) fn to_slashes(text: &str) -> (out: String)
    ensures
        out@ == with_slashes(text@),
{
    let chars = chars_of(text);
    let mut out = String::new();
    let mut i: usize = 0;
    while i < chars.len()
        invariant
            i <= chars@.len(),
            out@ == with_slashes(chars@.take(i as int)),
        decreases chars@.len() - i,
    {
        out.push(
            if chars[i] == '\\' {
                '/'
            } else {
                chars[i]
            },
        );
        i = i + 1;
        assert(out@ =~= with_slashes(chars@.take(i as int)));
    }
    assert(chars@.take(i as int) =~= text@);
    out
}

pub open spec fn object_key_fault() -> StorageFault {
    StorageFault::InvalidInput(
        "OSS ObjectKey 仅支持字母、数字、斜线、点、短横线、下划线和 @，且不能包含上级目录"@,
    )
}

/// A relative path of plain pieces, of letters, digits, `.`, `-`, `_` and `@`.
pub open spec fn object_key(value: Seq<char>) -> Result<Seq<char>, StorageFault> {
    let key = with_slashes(trimmed(value));
    if has_plain_pieces(key) && every(key, CharClass::ObjectKey) {
        Ok(key)
    } else {
        Err(object_key_fault())
    }
}

pub fn normalize_object_key(value: &str) -> (result: Result<String, ArtifactStorageError>)
    ensures
        outcome(result) == object_key(value@),
{
    let key = to_slashes(trim(value).as_str());
    if !plain_pieces(key.as_str()) || !all_in(key.as_str(), CharClass::ObjectKey) {
        return Err(
            invalid(
                "OSS ObjectKey 仅支持字母、数字、斜线、点、短横线、下划线和 @，且不能包含上级目录",
            ),
        );
    }
    Ok(key)
}

pub open spec fn region(value: Seq<char>) -> Seq<char> {
    if is_blank(value) {
        DEFAULT_ALIYUN_OSS_REGION@
    } else {
        trimmed(value)
    }
}

pub fn normalize_region(value: &str) -> (name: String)
    ensures
        name@ == region(value@),
{
    let name = trim(value);
    if name.as_str().is_empty() {
        DEFAULT_ALIYUN_OSS_REGION.to_owned()
    } else {
        name
    }
}

/// The endpoint that is meant: the given one, with a scheme, or that of the region.
pub open spec fn full_endpoint(value: Seq<char>, region: Seq<char>) -> Seq<char> {
    if is_blank(value) {
        if is_blank(region) {
            DEFAULT_ALIYUN_OSS_ENDPOINT@
        } else {
            "https://"@ + trimmed(region) + ".aliyuncs.com"@
        }
    } else if "http://"@.is_prefix_of(trimmed(value)) || "https://"@.is_prefix_of(trimmed(value)) {
        trimmed(value)
    } else {
        "https://"@ + trimmed(value)
    }
}

/// A URL of the web with a host.
pub open spec fn is_web_address(parts: (Seq<char>, Option<Seq<char>>)) -> bool {
    (parts.0 == "http"@ || parts.0 == "https"@) && parts.1 is Some && !is_blank(parts.1->0)
}

/// What becomes of an endpoint, given what it parses to.
pub open spec fn endpoint_from(
    full: Seq<char>,
    parts: Option<(Seq<char>, Option<Seq<char>>)>,
) -> Result<Seq<char>, StorageFault> {
    match parts {
        None => Err(StorageFault::InvalidInput("阿里云 OSS Endpoint 不是有效 URL"@)),
        Some(known) => if is_web_address(known) {
            Ok(trimmed_end(full, CharClass::Slash))
        } else {
            Err(StorageFault::InvalidInput("阿里云 OSS Endpoint 必须是 http/https URL"@))
        },
    }
}

pub open spec fn endpoint(value: Seq<char>, region: Seq<char>) -> Result<Seq<char>, StorageFault> {
    let full = full_endpoint(value, region);
    endpoint_from(full, url_parts(full))
}

/// Accepts an endpoint by what it parses to.
pub fn accept_endpoint(full: &str, parts: Option<crate::urls::UrlParts>) -> (result: Result<
    String,
    ArtifactStorageError,
>)
    ensures
        outcome(result) == endpoint_from(full@, crate::urls::parts_view(parts)),
{
    match parts {
        None => Err(invalid("阿里云 OSS Endpoint 不是有效 URL")),
        Some(known) => {
            let has_host = match &known.host {
                Some(host) => !blank(host.as_str()),
                None => false,
            };
            if has_host && (same_text(known.scheme.as_str(), "http") || same_text(
                known.scheme.as_str(),
                "https",
            )) {
                Ok(trim_end_of(full, CharClass::Slash))
            } else {
                Err(invalid("阿里云 OSS Endpoint 必须是 http/https URL"))
            }
        },
    }
}

pub fn normalize_endpoint(value: &str, region: &str) -> (result: Result<
    String,
    ArtifactStorageError,
>)
    ensures
        outcome(result) == endpoint(value@, region@),
        result is Ok && !any(trimmed(value@), CharClass::White) ==> forall|other: Seq<char>|
            #[trigger] endpoint(result->Ok_0@, other) == Ok::<Seq<char>, StorageFault>(
                result->Ok_0@,
            ),
{
    let given = trim(value);
    let full = if given.as_str().is_empty() {
        let name = trim(region);
        if name.as_str().is_empty() {
            DEFAULT_ALIYUN_OSS_ENDPOINT.to_owned()
        } else {
            "https://".to_owned().concat(name.as_str()).concat(".aliyuncs.com")
        }
    } else if starts_with(given.as_str(), "http://") || starts_with(given.as_str(), "https://") {
        given
    } else {
        "https://".to_owned().concat(given.as_str())
    };
    let parts = parse_url(full.as_str());
    let ghost known = crate::urls::parts_view(parts);
    let result = accept_endpoint(full.as_str(), parts);
    proof {
        if result is Ok && !any(trimmed(value@), CharClass::White) {
            lemma_endpoint_is_web(full@, value@, region@);
            lemma_endpoint_is_stable(full@, known, trimmed_end(full@, CharClass::Slash));
        }
    }
    result
}

/// The endpoint that is meant begins with a scheme of the web and ends visibly. Where white space
/// stands inside, it does not end with a slash.
proof fn lemma_endpoint_is_web(full: Seq<char>, value: Seq<char>, region: Seq<char>)
    requires
        full == full_endpoint(value, region),
        !any(trimmed(value), CharClass::White),
    ensures
        "http://"@.is_prefix_of(full) || "https://"@.is_prefix_of(full),
        full.len() > 0,
        !CharClass::White.has(full[0]),
        any(full, CharClass::White) ==> !CharClass::Slash.has(full.last())
            && !CharClass::White.has(full.last()),
{
    reveal_strlit("https://");
    reveal_strlit("http://");
    reveal_strlit(".aliyuncs.com");
    reveal_strlit("https://oss-cn-hangzhou.aliyuncs.com");
    let given = trimmed(value);
    if is_blank(value) {
        let scheme = "https://"@;
        assert(full.subrange(0, 8) =~= scheme);
        assert(full.last() == 'm');
    } else {
        if "http://"@.is_prefix_of(given) {
            assert(given.subrange(0, 7)[0] == given[0]);
        } else if "https://"@.is_prefix_of(given) {
            assert(given.subrange(0, 8)[0] == given[0]);
        } else {
            assert(full.subrange(0, 8) =~= "https://"@);
        }
        if any(full, CharClass::White) {
            let k = choose|k: int| 0 <= k < full.len() && CharClass::White.has(#[trigger] full[k]);
            if full.len() == given.len() {
                assert(CharClass::White.has(given[k]));
            } else if k >= 8 {
                assert(full[k] == given[k - 8]);
                assert(CharClass::White.has(given[k - 8]));
            } else {
                assert(full[k] == "https://"@[k]);
            }
        }
    }
}

proof fn lemma_end_is_prefix(s: Seq<char>, class: CharClass)
    ensures
        trimmed_end(s, class).len() <= s.len(),
        trimmed_end(s, class) == s.take(trimmed_end(s, class).len() as int),
        trimmed_end(trimmed_end(s, class), class) == trimmed_end(s, class),
        s.len() > 0 && !class.has(s.last()) ==> trimmed_end(s, class) == s,
    decreases s.len(),
{
    if s.len() > 0 && class.has(s.last()) {
        lemma_end_is_prefix(s.drop_last(), class);
        let n = trimmed_end(s, class).len() as int;
        assert(s.drop_last().take(n) =~= s.take(n));
    } else {
        assert(s.take(s.len() as int) =~= s);
    }
}

/// An accepted endpoint is accepted as it is, whatever the region.
proof fn lemma_endpoint_is_stable(
    full: Seq<char>,
    parts: Option<(Seq<char>, Option<Seq<char>>)>,
    accepted: Seq<char>,
)
    requires
        parts == url_parts(full),
        endpoint_from(full, parts) == Ok::<Seq<char>, StorageFault>(accepted),
        "http://"@.is_prefix_of(full) || "https://"@.is_prefix_of(full),
        full.len() > 0,
        !CharClass::White.has(full[0]),
        any(full, CharClass::White) ==> !CharClass::Slash.has(full.last())
            && !CharClass::White.has(full.last()),
        !any(full, CharClass::White) ==> url_parts(accepted) == parts,
        "http://"@.is_prefix_of(full) ==> "http://"@.is_prefix_of(accepted),
        "https://"@.is_prefix_of(full) ==> "https://"@.is_prefix_of(accepted),
    ensures
        forall|other: Seq<char>|
            #[trigger] endpoint(accepted, other) == Ok::<Seq<char>, StorageFault>(accepted),
{
    reveal_strlit("https://");
    reveal_strlit("http://");
    lemma_end_is_prefix(full, CharClass::Slash);
    assert(accepted.len() >= 7);
    assert(accepted[0] == full[0]);
    if !any(full, CharClass::White) {
        assert(accepted.last() == full[accepted.len() - 1]);
        assert(!CharClass::White.has(full[accepted.len() - 1]));
    } else {
        assert(accepted == full);
    }
    crate::text::trimmed_keeps(accepted, CharClass::White);
    assert forall|other: Seq<char>|
        #[trigger] endpoint(accepted, other) == Ok::<Seq<char>, StorageFault>(accepted) by {
        assert(full_endpoint(accepted, other) == accepted);
    }
}

/// Nothing, or 3 to 63 lower case letters, digits and dashes, with no dash at either end.
pub open spec fn bucket(value: Seq<char>) -> Result<Seq<char>, StorageFault> {
    let name = lowered(trimmed(value));
    if name.len() == 0 || (3 <= name.len() <= 63 && every(name, CharClass::Bucket) && name[0] != '-'
        && name.last() != '-') {
        Ok(name)
    } else {
        Err(
            StorageFault::InvalidInput(
                "阿里云 OSS Bucket 只能包含小写字母、数字和短横线，长度 3 到 63"@,
            ),
        )
    }
}

pub fn normalize_bucket(value: &str) -> (result: Result<String, ArtifactStorageError>)
    ensures
        outcome(result) == bucket(value@),
{
    let name = lowercase(trim(value).as_str());
    let chars = chars_of(name.as_str());
    if chars.len() == 0 {
        return Ok(name);
    }
    if chars.len() < 3 || chars.len() > 63 || !all_in(name.as_str(), CharClass::Bucket)
        || chars[0] == '-' || chars[chars.len() - 1] == '-' {
        return Err(invalid("阿里云 OSS Bucket 只能包含小写字母、数字和短横线，长度 3 到 63"));
    }
    Ok(name)
}

/// Nothing, or an object key.
pub open spec fn object_prefix(value: Seq<char>) -> Result<Seq<char>, StorageFault> {
    let prefix = trimmed_of(with_slashes(trimmed(value)), CharClass::Slash);
    if prefix.len() == 0 {
        Ok(prefix)
    } else {
        object_key(prefix)
    }
}

pub fn normalize_object_prefix(value: &str) -> (result: Result<String, ArtifactStorageError>)
    ensures
        outcome(result) == object_prefix(value@),
{
    let prefix = trim_of(to_slashes(trim(value).as_str()).as_str(), CharClass::Slash);
    if prefix.as_str().is_empty() {
        return Ok(prefix);
    }
    normalize_object_key(prefix.as_str())
}

/// How long a signed URL is valid: a minute to a day, with a default for what is not positive.
pub open spec fn ttl(value: i64, fallback: i64) -> Result<i64, StorageFault> {
    let seconds = if value > 0 {
        value
    } else {
        fallback
    };
    if 60 <= seconds <= 86_400 {
        Ok(seconds)
    } else {
        Err(StorageFault::InvalidInput("OSS 签名 URL TTL 必须在 60 到 86400 秒之间"@))
    }
}

pub fn normalize_ttl(value: i64, fallback: i64) -> (result: Result<i64, ArtifactStorageError>)
    ensures
        match result {
            Ok(seconds) => ttl(value, fallback) == Ok::<i64, StorageFault>(seconds),
            Err(error) => ttl(value, fallback) == Err::<i64, StorageFault>(error@),
        },
{
    let seconds: i64 = if value > 0 {
        value
    } else {
        fallback
    };
    if seconds < 60 || seconds > 86_400 {
        return Err(invalid("OSS 签名 URL TTL 必须在 60 到 86400 秒之间"));
    }
    Ok(seconds)
}

/// A version that can be named exactly: not empty, of at most 1024 bytes, without control
/// characters.
pub open spec fn deletable_version_id(value: Seq<char>) -> Result<Seq<char>, StorageFault> {
    let id = trimmed(value);
    if id.len() > 0 && encode_utf8(id).len() <= 1024 && !any(id, CharClass::Control) {
        Ok(id)
    } else {
        Err(StorageFault::InvalidInput("OSS 对象版本号格式无效"@))
    }
}

pub fn normalize_deletable_object_version_id(value: &str) -> (result: Result<
    String,
    ArtifactStorageError,
>)
    ensures
        outcome(result) == deletable_version_id(value@),
{
    let id = trim(value);
    if id.as_str().is_empty() || id.as_str().as_bytes().len() > 1024 || any_in(
        id.as_str(),
        CharClass::Control,
    ) {
        return Err(invalid("OSS 对象版本号格式无效"));
    }
    Ok(id)
}

pub open spec fn null_version_fault() -> StorageFault {
    StorageFault::InvalidInput(
        "OSS 返回 null 对象版本号，Bucket 可能处于暂停版本控制状态，无法固定已校验制品"@,
    )
}

/// A version that stays what it is: one that can be named exactly, but not `null`.
pub open spec fn object_version_id(value: Seq<char>) -> Result<Seq<char>, StorageFault> {
    match deletable_version_id(value) {
        Ok(id) => if id == "null"@ {
            Err(null_version_fault())
        } else {
            Ok(id)
        },
        Err(fault) => Err(fault),
    }
}

pub fn normalize_object_version_id(value: &str) -> (result: Result<String, ArtifactStorageError>)
    ensures
        outcome(result) == object_version_id(value@),
{
    let id = match normalize_deletable_object_version_id(value) {
        Ok(id) => id,
        Err(error) => return Err(error),
    };
    if same_text(id.as_str(), "null") {
        return Err(
            invalid(
                "OSS 返回 null 对象版本号，Bucket 可能处于暂停版本控制状态，无法固定已校验制品",
            ),
        );
    }
    Ok(id)
}

// ---------------------------------------------------------------------------
// Keys of objects
// ---------------------------------------------------------------------------

/// The characters of the class, in order.
pub open spec fn kept(s: Seq<char>, class: CharClass) -> Seq<char>
    decreases s.len(),
{
    if s.len() == 0 {
        s
    } else if class.has(s.last()) {
        kept(s.drop_last(), class).push(s.last())
    } else {
        kept(s.drop_last(), class)
    }
}

fn keep(text: &str, class: CharClass) -> (out: String)
    ensures
        out@ == kept(text@, class),
{
    let chars = chars_of(text);
    let mut out = String::new();
    let mut i: usize = 0;
    assert(chars@.take(0) =~= Seq::empty());
    while i < chars.len()
        invariant
            i <= chars@.len(),
            out@ == kept(chars@.take(i as int), class),
        decreases chars@.len() - i,
    {
        assert(chars@.take(i + 1).drop_last() =~= chars@.take(i as int));
        if class.contains(chars[i]) {
            out.push(chars[i]);
        }
        i = i + 1;
    }
    assert(chars@.take(i as int) =~= text@);
    out
}

/// What follows the last path separator.
pub open spec fn last_piece(s: Seq<char>) -> Seq<char> {
    match cut_last(s, CharClass::PathSeparator) {
        Some(parts) => parts.1,
        None => s,
    }
}

/// One piece of an object key: the last piece of the path, without what a key cannot hold.
pub open spec fn object_segment(value: Seq<char>) -> Seq<char> {
    kept(last_piece(trimmed(value)), CharClass::Segment)
}

pub fn safe_object_segment(value: &str) -> (segment: String)
    ensures
        segment@ == object_segment(value@),
{
    let path = trim(value);
    match split_last(path.as_str(), CharClass::PathSeparator) {
        Some(parts) => keep(parts.1.as_str(), CharClass::Segment),
        None => keep(path.as_str(), CharClass::Segment),
    }
}

/// A segment of an object key holds nothing but the characters that a key may hold, and no
/// separator.
pub proof fn object_segments_are_safe(value: Seq<char>)
    ensures
        every(object_segment(value), CharClass::Segment),
{
    lemma_kept(last_piece(trimmed(value)), CharClass::Segment);
}

proof fn lemma_kept(s: Seq<char>, class: CharClass)
    ensures
        every(kept(s, class), class),
    decreases s.len(),
{
    if s.len() > 0 {
        lemma_kept(s.drop_last(), class);
    }
}

impl AliyunOssConfig {
    /// The prefix of object keys, with the slash that follows it.
    pub open spec fn key_prefix(self) -> Seq<char> {
        let prefix = trimmed_of(self.object_prefix@, CharClass::Slash);
        if prefix.len() == 0 {
            prefix
        } else {
            prefix + "/"@
        }
    }

    fn key_start(&self) -> (prefix: String)
        ensures
            prefix@ == self.key_prefix(),
    {
        let prefix = trim_of(self.object_prefix.as_str(), CharClass::Slash);
        if prefix.as_str().is_empty() {
            prefix
        } else {
            prefix.concat("/")
        }
    }

    pub fn object_key(&self, app_key: &str, release_version: &str, file_name: &str) -> (key: String)
        ensures
            key@ == self.key_prefix() + object_segment(app_key@) + "/"@ + object_segment(
                release_version@,
            ) + "/"@ + object_segment(file_name@),
    {
        self.key_start().concat(safe_object_segment(app_key).as_str()).concat("/").concat(
            safe_object_segment(release_version).as_str(),
        ).concat("/").concat(safe_object_segment(file_name).as_str())
    }

    pub fn upload_object_key(
        &self,
        app_key: &str,
        release_version: &str,
        upload_id: &str,
        file_name: &str,
    ) -> (key: String)
        ensures
            key@ == self.key_prefix() + object_segment(app_key@) + "/"@ + object_segment(
                release_version@,
            ) + "/uploads/"@ + object_segment(upload_id@) + "/"@ + object_segment(file_name@),
    {
        self.key_start().concat(safe_object_segment(app_key).as_str()).concat("/").concat(
            safe_object_segment(release_version).as_str(),
        ).concat("/uploads/").concat(safe_object_segment(upload_id).as_str()).concat("/").concat(
            safe_object_segment(file_name).as_str(),
        )
    }
}

// ---------------------------------------------------------------------------
// The configuration as a whole
// ---------------------------------------------------------------------------

impl Default for AliyunOssConfig {
    fn default() -> (config: AliyunOssConfig)
        ensures
            config.region@ == DEFAULT_ALIYUN_OSS_REGION@,
            config.endpoint@ == DEFAULT_ALIYUN_OSS_ENDPOINT@,
            config.bucket@ == Seq::<char>::empty(),
            config.object_prefix@ == DEFAULT_ALIYUN_OSS_OBJECT_PREFIX@,
            config.access_key_id@ == Seq::<char>::empty(),
            config.access_key_secret@ == Seq::<char>::empty(),
            config.upload_url_ttl_seconds == DEFAULT_ALIYUN_OSS_UPLOAD_TTL_SECONDS,
            config.download_url_ttl_seconds == DEFAULT_ALIYUN_OSS_DOWNLOAD_TTL_SECONDS,
    {
        AliyunOssConfig {
            region: DEFAULT_ALIYUN_OSS_REGION.to_owned(),
            endpoint: DEFAULT_ALIYUN_OSS_ENDPOINT.to_owned(),
            bucket: String::new(),
            object_prefix: DEFAULT_ALIYUN_OSS_OBJECT_PREFIX.to_owned(),
            access_key_id: String::new(),
            access_key_secret: String::new(),
            upload_url_ttl_seconds: DEFAULT_ALIYUN_OSS_UPLOAD_TTL_SECONDS,
            download_url_ttl_seconds: DEFAULT_ALIYUN_OSS_DOWNLOAD_TTL_SECONDS,
        }
    }
}

impl Default for ArtifactStorageConfig {
    fn default() -> (config: ArtifactStorageConfig)
        ensures
            config.provider@ == STORAGE_PROVIDER_LOCAL@,
            config.aliyun_oss.bucket@ == Seq::<char>::empty(),
            config.aliyun_oss.region@ == DEFAULT_ALIYUN_OSS_REGION@,
            config.aliyun_oss.endpoint@ == DEFAULT_ALIYUN_OSS_ENDPOINT@,
            config.aliyun_oss.object_prefix@ == DEFAULT_ALIYUN_OSS_OBJECT_PREFIX@,
            config.aliyun_oss.access_key_id@ == Seq::<char>::empty(),
            config.aliyun_oss.access_key_secret@ == Seq::<char>::empty(),
            config.aliyun_oss.upload_url_ttl_seconds == DEFAULT_ALIYUN_OSS_UPLOAD_TTL_SECONDS,
            config.aliyun_oss.download_url_ttl_seconds == DEFAULT_ALIYUN_OSS_DOWNLOAD_TTL_SECONDS,
    {
        ArtifactStorageConfig {
            provider: STORAGE_PROVIDER_LOCAL.to_owned(),
            aliyun_oss: AliyunOssConfig::default(),
        }
    }
}

/// A configuration as a mathematical value.
pub struct OssSettings {
    pub region: Seq<char>,
    pub endpoint: Seq<char>,
    pub bucket: Seq<char>,
    pub object_prefix: Seq<char>,
    pub access_key_id: Seq<char>,
    pub access_key_secret: Seq<char>,
    pub upload_ttl: i64,
    pub download_ttl: i64,
}

impl View for AliyunOssConfig {
    type V = OssSettings;

    open spec fn view(&self) -> OssSettings {
        OssSettings {
            region: self.region@,
            endpoint: self.endpoint@,
            bucket: self.bucket@,
            object_prefix: self.object_prefix@,
            access_key_id: self.access_key_id@,
            access_key_secret: self.access_key_secret@,
            upload_ttl: self.upload_url_ttl_seconds,
            download_ttl: self.download_url_ttl_seconds,
        }
    }
}

/// The settings in their accepted forms; the first value that has none decides the error.
pub open spec fn normalized(settings: OssSettings) -> Result<OssSettings, StorageFault> {
    let name = region(settings.region);
    match endpoint(settings.endpoint, name) {
        Err(fault) => Err(fault),
        Ok(address) => match bucket(settings.bucket) {
            Err(fault) => Err(fault),
            Ok(container) => match object_prefix(settings.object_prefix) {
                Err(fault) => Err(fault),
                Ok(prefix) => match ttl(
                    settings.upload_ttl,
                    DEFAULT_ALIYUN_OSS_UPLOAD_TTL_SECONDS,
                ) {
                    Err(fault) => Err(fault),
                    Ok(upload) => match ttl(
                        settings.download_ttl,
                        DEFAULT_ALIYUN_OSS_DOWNLOAD_TTL_SECONDS,
                    ) {
                        Err(fault) => Err(fault),
                        Ok(download) => Ok(
                            OssSettings {
                                region: name,
                                endpoint: address,
                                bucket: container,
                                object_prefix: prefix,
                                access_key_id: trimmed(settings.access_key_id),
                                access_key_secret: trimmed(settings.access_key_secret),
                                upload_ttl: upload,
                                download_ttl: download,
                            },
                        ),
                    },
                },
            },
        },
    }
}

/// What is missing for requests to be signed.
pub open spec fn missing(settings: OssSettings) -> Option<StorageFault> {
    if is_blank(settings.bucket) {
        Some(StorageFault::InvalidInput("阿里云 OSS Bucket 不能为空"@))
    } else if is_blank(settings.access_key_id) || is_blank(settings.access_key_secret) {
        Some(StorageFault::InvalidInput("阿里云 OSS AccessKey ID 和 Secret 必须配置完整"@))
    } else {
        None
    }
}

impl AliyunOssConfig {
    /// Brings the settings into their accepted forms. Settings in these forms stay as they are;
    /// only an endpoint with white space inside may not.
    pub fn normalize(self) -> (result: Result<AliyunOssConfig, ArtifactStorageError>)
        ensures
            match result {
                Ok(config) => normalized(self@) == Ok::<OssSettings, StorageFault>(config@),
                Err(error) => normalized(self@) == Err::<OssSettings, StorageFault>(error@),
            },
            result is Ok && !any(trimmed(self.endpoint@), CharClass::White) ==> normalized(
                result->Ok_0@,
            ) == Ok::<OssSettings, StorageFault>(result->Ok_0@),
    {
        proof {
            if normalized(self@) is Ok {
                regions_are_stable(self@.region);
                bucket_names_are_stable(self@.bucket);
                object_prefixes_are_stable(self@.object_prefix);
                crate::text::trimming_is_idempotent(self@.access_key_id, CharClass::White);
                crate::text::trimming_is_idempotent(self@.access_key_secret, CharClass::White);
            }
        }
        let region = normalize_region(self.region.as_str());
        let endpoint = match normalize_endpoint(self.endpoint.as_str(), region.as_str()) {
            Ok(value) => value,
            Err(error) => return Err(error),
        };
        let bucket = match normalize_bucket(self.bucket.as_str()) {
            Ok(value) => value,
            Err(error) => return Err(error),
        };
        let object_prefix = match normalize_object_prefix(self.object_prefix.as_str()) {
            Ok(value) => value,
            Err(error) => return Err(error),
        };
        let upload_url_ttl_seconds: i64 = match normalize_ttl(
            self.upload_url_ttl_seconds,
            DEFAULT_ALIYUN_OSS_UPLOAD_TTL_SECONDS,
        ) {
            Ok(value) => value,
            Err(error) => return Err(error),
        };
        let download_url_ttl_seconds: i64 = match normalize_ttl(
            self.download_url_ttl_seconds,
            DEFAULT_ALIYUN_OSS_DOWNLOAD_TTL_SECONDS,
        ) {
            Ok(value) => value,
            Err(error) => return Err(error),
        };
        Ok(
            AliyunOssConfig {
                region,
                endpoint,
                bucket,
                object_prefix,
                access_key_id: trim(self.access_key_id.as_str()),
                access_key_secret: trim(self.access_key_secret.as_str()),
                upload_url_ttl_seconds,
                download_url_ttl_seconds,
            },
        )
    }

    pub fn validate_required(&self) -> (result: Result<(), ArtifactStorageError>)
        ensures
            match result {
                Ok(_) => missing(self@) is None,
                Err(error) => missing(self@) == Some(error@),
            },
    {
        if blank(self.bucket.as_str()) {
            return Err(invalid("阿里云 OSS Bucket 不能为空"));
        }
        if blank(self.access_key_id.as_str()) || blank(self.access_key_secret.as_str()) {
            return Err(invalid("阿里云 OSS AccessKey ID 和 Secret 必须配置完整"));
        }
        Ok(())
    }
}

impl ArtifactStorageConfig {
    pub fn is_aliyun_oss(&self) -> (is: bool)
        ensures
            is == (self.provider@ == STORAGE_PROVIDER_ALIYUN_OSS@),
    {
        same_text(self.provider.as_str(), STORAGE_PROVIDER_ALIYUN_OSS)
    }

    pub fn normalize(self) -> (result: Result<ArtifactStorageConfig, ArtifactStorageError>)
        ensures
            match result {
                Ok(config) => {
                    &&& storage_provider(self.provider@) == Ok::<Seq<char>, StorageFault>(
                        config.provider@,
                    )
                    &&& normalized(self.aliyun_oss@) == Ok::<OssSettings, StorageFault>(
                        config.aliyun_oss@,
                    )
                    &&& config.provider@ == STORAGE_PROVIDER_ALIYUN_OSS@ ==> missing(
                        config.aliyun_oss@,
                    ) is None
                },
                Err(error) => match storage_provider(self.provider@) {
                    Err(fault) => error@ == fault,
                    Ok(provider) => match normalized(self.aliyun_oss@) {
                        Err(fault) => error@ == fault,
                        Ok(settings) => provider == STORAGE_PROVIDER_ALIYUN_OSS@ && missing(
                            settings,
                        ) == Some(error@),
                    },
                },
            },
    {
        let provider = match normalize_storage_provider(self.provider.as_str()) {
            Ok(value) => value,
            Err(error) => return Err(error),
        };
        let aliyun_oss = match self.aliyun_oss.normalize() {
            Ok(value) => value,
            Err(error) => return Err(error),
        };
        let config = ArtifactStorageConfig { provider, aliyun_oss };
        if config.is_aliyun_oss() {
            match config.aliyun_oss.validate_required() {
                Ok(_) => {},
                Err(error) => return Err(error),
            }
        }
        Ok(config)
    }
}

// ---------------------------------------------------------------------------
// Laws
// ---------------------------------------------------------------------------

proof fn lemma_no_white(s: Seq<char>, class: CharClass)
    requires
        every(s, class),
        forall|c: char| #[trigger] class.has(c) ==> !CharClass::White.has(c),
    ensures
        trimmed(s) == s,
{
    if s.len() > 0 {
        assert(class.has(s[0]));
        assert(class.has(s[s.len() - 1]));
        crate::text::trimmed_keeps(s, CharClass::White);
    }
}

proof fn lemma_lowered_twice(s: Seq<char>)
    ensures
        lowered(lowered(s)) == lowered(s),
{
    assert(lowered(lowered(s)) =~= lowered(s));
}

/// An accepted object key is accepted as it is.
pub proof fn object_keys_are_stable(value: Seq<char>)
    requires
        object_key(value) is Ok,
    ensures
        object_key(object_key(value)->Ok_0) == object_key(value),
{
    let key = object_key(value)->Ok_0;
    lemma_no_white(key, CharClass::ObjectKey);
    assert forall|i: int| 0 <= i < key.len() implies key[i] != '\\' by {
        assert(CharClass::ObjectKey.has(key[i]));
    }
    assert(with_slashes(key) =~= key);
}

/// No piece of an accepted object key leads out of the directory above it, and none is empty.
pub proof fn object_keys_stay_inside(value: Seq<char>)
    requires
        object_key(value) is Ok,
    ensures
        has_plain_pieces(object_key(value)->Ok_0),
        every(object_key(value)->Ok_0, CharClass::ObjectKey),
{
}

/// An accepted checksum is accepted as it is.
pub proof fn checksums_are_stable(value: Seq<char>)
    requires
        checksum_sha256(value) is Ok,
    ensures
        checksum_sha256(checksum_sha256(value)->Ok_0) == checksum_sha256(value),
{
    let digest = checksum_sha256(value)->Ok_0;
    lemma_no_white(digest, CharClass::Hex);
    lemma_lowered_twice(trimmed(value));
}

/// An accepted bucket name is accepted as it is.
pub proof fn bucket_names_are_stable(value: Seq<char>)
    requires
        bucket(value) is Ok,
    ensures
        bucket(bucket(value)->Ok_0) == bucket(value),
{
    let name = bucket(value)->Ok_0;
    if name.len() > 0 {
        lemma_no_white(name, CharClass::Bucket);
    }
    lemma_lowered_twice(trimmed(value));
}

/// An accepted region is accepted as it is.
pub proof fn regions_are_stable(value: Seq<char>)
    ensures
        region(region(value)) == region(value),
{
    reveal_strlit("oss-cn-hangzhou");
    if is_blank(value) {
        crate::text::trimmed_keeps(DEFAULT_ALIYUN_OSS_REGION@, CharClass::White);
    } else {
        crate::text::trimming_is_idempotent(value, CharClass::White);
    }
}

proof fn lemma_leading_separator(s: Seq<char>, class: CharClass)
    requires
        s.len() > 0,
        class.has(s[0]),
    ensures
        pieces(s, class).len() >= 2,
        pieces(s, class)[0].len() == 0,
    decreases s.len(),
{
    let rest = s.drop_last();
    if rest.len() == 0 {
        assert(pieces(rest, class) =~= seq![Seq::<char>::empty()]);
    } else {
        lemma_leading_separator(rest, class);
    }
}

/// An accepted prefix of object keys is accepted as it is.
pub proof fn object_prefixes_are_stable(value: Seq<char>)
    requires
        object_prefix(value) is Ok,
    ensures
        object_prefix(object_prefix(value)->Ok_0) == object_prefix(value),
{
    let prefix = trimmed_of(with_slashes(trimmed(value)), CharClass::Slash);
    let key = object_prefix(value)->Ok_0;
    if prefix.len() == 0 {
        assert(trimmed(key) =~= key);
        assert(with_slashes(key) =~= key);
        assert(trimmed_of(key, CharClass::Slash) =~= key);
    } else {
        object_keys_are_stable(prefix);
        lemma_no_white(key, CharClass::ObjectKey);
        assert forall|i: int| 0 <= i < key.len() implies key[i] != '\\' by {
            assert(CharClass::ObjectKey.has(key[i]));
        }
        assert(with_slashes(key) =~= key);
        let parts = pieces(key, CharClass::Slash);
        crate::pieces::lemma_pieces_not_empty(key, CharClass::Slash);
        assert(is_plain_piece(parts[0]));
        assert(is_plain_piece(parts[parts.len() - 1]));
        if key.len() > 0 {
            if CharClass::Slash.has(key[0]) {
                lemma_leading_separator(key, CharClass::Slash);
            }
            crate::text::trimmed_keeps(key, CharClass::Slash);
        }
    }
}

/// An accepted lifetime is accepted as it is, and lasts from a minute to a day.
pub proof fn lifetimes_are_stable(value: i64, fallback: i64, other: i64)
    requires
        ttl(value, fallback) is Ok,
    ensures
        ttl(ttl(value, fallback)->Ok_0, other) == ttl(value, fallback),
        60 <= ttl(value, fallback)->Ok_0 <= 86_400,
{
}

/// A version that may be downloaded may be deleted, and both name it alike.
pub proof fn downloadable_versions_are_deletable(value: Seq<char>)
    requires
        object_version_id(value) is Ok,
    ensures
        deletable_version_id(value) == object_version_id(value),
        object_version_id(value)->Ok_0 != "null"@,
{
}

/// Where artifacts are kept: on this host unless something else is said, or in the object store;
/// nothing else is known. The case of the letters does not matter.
pub proof fn artifacts_are_kept_in_one_of_two_places(value: Seq<char>)
    ensures
        ({
            let name = lowered(trimmed(value));
            &&& storage_provider(value) is Ok <==> name.len() == 0 || name == "local"@ || name
                == "aliyun_oss"@
            &&& name == "aliyun_oss"@ ==> storage_provider(value) == Ok::<Seq<char>, StorageFault>(
                "aliyun_oss"@,
            )
            &&& name.len() == 0 || name == "local"@ ==> storage_provider(value) == Ok::<
                Seq<char>,
                StorageFault,
            >("local"@)
        }),
{
    reveal_strlit("local");
    reveal_strlit("aliyun_oss");
    assert("local"@.len() == 5);
    assert("aliyun_oss"@.len() == 10);
}

/// A checksum is accepted exactly if it has 64 hexadecimal digits; it is kept in small letters.
pub proof fn checksums_have_64_digits(value: Seq<char>)
    ensures
        ({
            let digest = lowered(trimmed(value));
            &&& checksum_sha256(value) is Ok <==> digest.len() == 64 && forall|i: int|
                0 <= i < digest.len() ==> ('0' <= #[trigger] digest[i] <= '9' || 'a' <= digest[i]
                    <= 'f')
            &&& checksum_sha256(value) is Ok ==> checksum_sha256(value)->Ok_0 == digest
        }),
{
    let digest = lowered(trimmed(value));
    let source = trimmed(value);
    if every(digest, CharClass::Hex) {
        assert forall|i: int| 0 <= i < digest.len() implies ('0' <= #[trigger] digest[i] <= '9'
            || 'a' <= digest[i] <= 'f') by {
            assert(CharClass::Hex.has(digest[i]));
            let c = source[i];
            assert(digest[i] == crate::text::lower_char(c));
        }
    }
    if forall|i: int|
        0 <= i < digest.len() ==> ('0' <= #[trigger] digest[i] <= '9' || 'a' <= digest[i] <= 'f') {
        assert forall|i: int| 0 <= i < digest.len() implies CharClass::Hex.has(
            #[trigger] digest[i],
        ) by {
            let c = digest[i];
        }
        assert(every(digest, CharClass::Hex));
    }
}

/// The name of a bucket is accepted exactly if it is empty, or has 3 to 63 small letters, digits and
/// dashes with no dash at either end.
pub proof fn buckets_have_names_of_3_to_63_characters(value: Seq<char>)
    ensures
        ({
            let name = lowered(trimmed(value));
            let plain = forall|i: int|
                0 <= i < name.len() ==> ('a' <= #[trigger] name[i] <= 'z' || '0' <= name[i] <= '9'
                    || name[i] == '-');
            &&& bucket(value) is Ok <==> name.len() == 0 || (name.len() >= 3 && name.len() < 64
                && plain && name[0] != '-' && name[name.len() - 1] != '-')
            &&& bucket(value) is Ok ==> bucket(value)->Ok_0 == name
        }),
{
    let name = lowered(trimmed(value));
    if every(name, CharClass::Bucket) {
        assert forall|i: int| 0 <= i < name.len() implies ('a' <= #[trigger] name[i] <= 'z' || '0'
            <= name[i] <= '9' || name[i] == '-') by {
            assert(CharClass::Bucket.has(name[i]));
        }
    }
    if forall|i: int|
        0 <= i < name.len() ==> ('a' <= #[trigger] name[i] <= 'z' || '0' <= name[i] <= '9'
            || name[i] == '-') {
        assert forall|i: int| 0 <= i < name.len() implies CharClass::Bucket.has(
            #[trigger] name[i],
        ) by {
            let c = name[i];
        }
        assert(every(name, CharClass::Bucket));
    }
}

/// The key of an object is accepted exactly if it holds nothing but letters, digits, slashes, dots,
/// dashes, underscores and at signs, and no part of it between slashes is empty or leads up or
/// nowhere. Backslashes count as slashes.
pub proof fn keys_are_plain_paths(value: Seq<char>)
    ensures
        ({
            let key = with_slashes(trimmed(value));
            let parts = pieces(key, CharClass::Slash);
            &&& object_key(value) is Ok <==> {
                &&& forall|i: int|
                    0 <= i < key.len() ==> ('a' <= #[trigger] key[i] <= 'z' || 'A' <= key[i] <= 'Z'
                        || '0' <= key[i] <= '9' || key[i] == '/' || key[i] == '.' || key[i] == '-'
                        || key[i] == '_' || key[i] == '@')
                &&& forall|i: int|
                    0 <= i < parts.len() ==> (#[trigger] parts[i]).len() > 0 && parts[i] != "."@
                        && parts[i] != ".."@
            }
            &&& object_key(value) is Ok ==> object_key(value)->Ok_0 == key
        }),
{
    let key = with_slashes(trimmed(value));
    let parts = pieces(key, CharClass::Slash);
    if every(key, CharClass::ObjectKey) {
        assert forall|i: int| 0 <= i < key.len() implies ('a' <= #[trigger] key[i] <= 'z' || 'A'
            <= key[i] <= 'Z' || '0' <= key[i] <= '9' || key[i] == '/' || key[i] == '.' || key[i]
            == '-' || key[i] == '_' || key[i] == '@') by {
            assert(CharClass::ObjectKey.has(key[i]));
        }
    }
    if forall|i: int|
        0 <= i < key.len() ==> ('a' <= #[trigger] key[i] <= 'z' || 'A' <= key[i] <= 'Z' || '0'
            <= key[i] <= '9' || key[i] == '/' || key[i] == '.' || key[i] == '-' || key[i] == '_'
            || key[i] == '@') {
        assert forall|i: int| 0 <= i < key.len() implies CharClass::ObjectKey.has(
            #[trigger] key[i],
        ) by {
            let c = key[i];
        }
        assert(every(key, CharClass::ObjectKey));
    }
    if has_plain_pieces(key) {
        assert forall|i: int| 0 <= i < parts.len() implies (#[trigger] parts[i]).len() > 0
            && parts[i] != "."@ && parts[i] != ".."@ by {
            assert(is_plain_piece(parts[i]));
        }
    }
    if forall|i: int|
        0 <= i < parts.len() ==> (#[trigger] parts[i]).len() > 0 && parts[i] != "."@ && parts[i]
            != ".."@ {
        assert(has_plain_pieces(key));
    }
}

/// Slashes stand for backslashes, and nothing else changes.
pub proof fn backslashes_become_slashes(s: Seq<char>, i: int)
    requires
        0 <= i < s.len(),
    ensures
        with_slashes(s).len() == s.len(),
        s[i] == '\\' ==> with_slashes(s)[i] == '/',
        s[i] != '\\' ==> with_slashes(s)[i] == s[i],
{
}

/// A lifetime that is given is taken, another where none is; either must last from a minute to a
/// day.
pub proof fn lifetimes_last_from_a_minute_to_a_day(value: i64, fallback: i64)
    ensures
        value > 0 ==> (ttl(value, fallback) is Ok <==> 60 <= value <= 24 * 60 * 60),
        value <= 0 ==> (ttl(value, fallback) is Ok <==> 60 <= fallback <= 24 * 60 * 60),
        ttl(value, fallback) matches Ok(seconds) ==> seconds == if value > 0 {
            value
        } else {
            fallback
        },
{
}

/// Settings that say nothing of lifetimes get a quarter of an hour for uploads and ten minutes for
/// downloads. What is accepted of the rest is what each value's own rule accepts.
pub proof fn settings_are_completed(settings: OssSettings)
    requires
        normalized(settings) is Ok,
    ensures
        ({
            let full = normalized(settings)->Ok_0;
            &&& settings.upload_ttl <= 0 ==> full.upload_ttl == 15 * 60
            &&& settings.download_ttl <= 0 ==> full.download_ttl == 10 * 60
            &&& settings.upload_ttl > 0 ==> full.upload_ttl == settings.upload_ttl
            &&& settings.download_ttl > 0 ==> full.download_ttl == settings.download_ttl
            &&& full.access_key_id == trimmed(settings.access_key_id)
            &&& full.access_key_secret == trimmed(settings.access_key_secret)
            &&& Ok::<Seq<char>, StorageFault>(full.bucket) == bucket(settings.bucket)
            &&& Ok::<Seq<char>, StorageFault>(full.object_prefix) == object_prefix(
                settings.object_prefix,
            )
            &&& full.region == region(settings.region)
            &&& Ok::<Seq<char>, StorageFault>(full.endpoint) == endpoint(
                settings.endpoint,
                full.region,
            )
        }),
{
}

/// A region is what is given, or that of Hangzhou.
pub proof fn regions_have_a_default(value: Seq<char>)
    ensures
        trimmed(value).len() == 0 ==> region(value) == "oss-cn-hangzhou"@,
        trimmed(value).len() > 0 ==> region(value) == trimmed(value),
{
}

/// An endpoint is what is given, as a secure address where it does not say otherwise, or that of
/// the region.
pub proof fn endpoints_are_completed(value: Seq<char>, region: Seq<char>)
    ensures
        ({
            let given = trimmed(value);
            let place = trimmed(region);
            let web = "http://"@.is_prefix_of(given) || "https://"@.is_prefix_of(given);
            &&& given.len() > 0 && web ==> full_endpoint(value, region) == given
            &&& given.len() > 0 && !web ==> full_endpoint(value, region) == "https://"@ + given
            &&& given.len() == 0 && place.len() > 0 ==> full_endpoint(value, region) == "https://"@
                + place + ".aliyuncs.com"@
            &&& given.len() == 0 && place.len() == 0 ==> full_endpoint(value, region)
                == "https://oss-cn-hangzhou.aliyuncs.com"@
        }),
{
}

/// An endpoint is accepted exactly if it is the address of a host on the web, and is kept without
/// slashes at its end.
pub proof fn endpoints_are_web_addresses(
    full: Seq<char>,
    scheme: Seq<char>,
    host: Option<Seq<char>>,
)
    ensures
        endpoint_from(full, None) is Err,
        endpoint_from(full, Some((scheme, host))) is Ok <==> (scheme == "http"@ || scheme
            == "https"@) && host is Some && trimmed(host->0).len() > 0,
        endpoint_from(full, Some((scheme, host))) matches Ok(kept_part) ==> kept_part == trimmed_end(
            full,
            CharClass::Slash,
        ),
{
}

/// A version is accepted exactly if it is something, has no more than 1024 bytes and holds no control
/// character; one that is to be fetched must not be `null`.
pub proof fn versions_are_short_and_printable(value: Seq<char>)
    ensures
        ({
            let id = trimmed(value);
            let printable = forall|i: int|
                0 <= i < id.len() ==> (#[trigger] id[i] >= ' ' && id[i] != '\x7f');
            &&& deletable_version_id(value) is Ok <==> id.len() > 0 && encode_utf8(id).len() < 1025
                && printable
            &&& deletable_version_id(value) is Ok ==> deletable_version_id(value)->Ok_0 == id
            &&& object_version_id(value) is Ok <==> deletable_version_id(value) is Ok && id
                != "null"@
            &&& object_version_id(value) is Ok ==> object_version_id(value)->Ok_0 == id
        }),
{
    let id = trimmed(value);
    let class = CharClass::Control;
    if !any(id, class) {
        assert forall|i: int| 0 <= i < id.len() implies (#[trigger] id[i] >= ' ' && id[i]
            != '\x7f') by {
            lemma_control(id[i]);
            assert(!class.has(id[i]));
        }
    }
    if any(id, class) {
        let k = choose|k: int| 0 <= k < id.len() && class.has(#[trigger] id[k]);
        lemma_control(id[k]);
        assert(!(id[k] >= ' ' && id[k] != '\x7f'));
    }
}

proof fn lemma_control(c: char)
    ensures
        CharClass::Control.has(c) <==> !(c >= ' ' && c != '\x7f'),
{
}

/// Requests need a bucket, a key and its secret.
pub proof fn requests_need_bucket_and_keys(settings: OssSettings)
    ensures
        missing(settings) is None <==> trimmed(settings.bucket).len() > 0 && trimmed(
            settings.access_key_id,
        ).len() > 0 && trimmed(settings.access_key_secret).len() > 0,
{
}

/// A segment of a key is what follows the last slash or backslash, without the characters that
/// segments do not hold.
pub proof fn segments_follow_the_last_separator(directory: Seq<char>, separator: char, name: Seq<char>)
    requires
        separator == '/' || separator == '\\',
        forall|i: int|
            0 <= i < name.len() ==> ('a' <= #[trigger] name[i] <= 'z' || 'A' <= name[i] <= 'Z'
                || '0' <= name[i] <= '9' || name[i] == '.' || name[i] == '-' || name[i] == '_'
                || name[i] == '@'),
    ensures
        kept(last_piece(directory + seq![separator] + name), CharClass::Segment) == name,
        kept(last_piece(name), CharClass::Segment) == name,
{
    let class = CharClass::PathSeparator;
    let whole = directory + seq![separator] + name;
    crate::pieces::lemma_last_of(whole, class);
    crate::pieces::lemma_last_of(name, class);
    let at = crate::pieces::last_of(whole, class);
    assert(class.has(whole[directory.len() as int]));
    if at > directory.len() {
        assert(whole[at] == name[at - directory.len() - 1]);
    }
    assert(at == directory.len());
    assert(whole.skip(at + 1) =~= name);
    let alone = crate::pieces::last_of(name, class);
    if alone >= 0 {
        assert(class.has(name[alone]));
    }
    assert forall|i: int| 0 <= i < name.len() implies CharClass::Segment.has(
        #[trigger] name[i],
    ) by {
        let c = name[i];
    }
    lemma_kept_all(name, CharClass::Segment);
}

proof fn lemma_kept_all(s: Seq<char>, class: CharClass)
    requires
        every(s, class),
    ensures
        kept(s, class) == s,
    decreases s.len(),
{
    if s.len() > 0 {
        assert(class.has(s[s.len() - 1]));
        assert forall|i: int| 0 <= i < s.drop_last().len() implies class.has(
            #[trigger] s.drop_last()[i],
        ) by {
            assert(class.has(s[i]));
        }
        lemma_kept_all(s.drop_last(), class);
        assert(s.drop_last().push(s.last()) =~= s);
    }
}

/// Characters that are not kept are left out, and the others stay in their order.
pub proof fn other_characters_are_left_out(s: Seq<char>, c: char)
    ensures
        kept(s.push(c), CharClass::Segment) == if 'a' <= c <= 'z' || 'A' <= c <= 'Z' || '0' <= c
            <= '9' || c == '.' || c == '-' || c == '_' || c == '@' {
            kept(s, CharClass::Segment).push(c)
        } else {
            kept(s, CharClass::Segment)
        },
{
    assert(s.push(c).drop_last() =~= s);
}

} // verus!
