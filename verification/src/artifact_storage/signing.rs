//! Signed requests to an object store.

use vstd::prelude::*;
use vstd::string::StringSliceAdditionalSpecFns;
use vstd::utf8::encode_utf8;

use super::config::{
    deletable_version_id, has_plain_pieces, invalid, missing,
    normalize_deletable_object_version_id, normalize_object_key, normalize_object_version_id,
    object_key, object_version_id, outcome, AliyunOssConfig, ArtifactStorageError,
    OssSettings, StorageFault,
};
use crate::clock::{clamped, later, timestamp, timestamp_text, unix_timestamp_now};
use crate::decimal::{decimal, digit_char, integer_text, natural_text, signed_decimal};
use crate::digest::{base64_standard, base64_standard_of, hmac_sha1, hmac_sha1_of};
use crate::order::{text_before, text_less, text_order_is_strict, text_order_is_transitive};
use crate::pieces::{
    join, joined, option_text, pieces, separators_part_the_pieces, split, split_words, starts_with,
    texts_without_white_space_are_words, undivided_texts_are_one_piece, words,
};
use crate::text::{
    any, blank, every, is_blank, lemma_texts_push, lowercase, lowered, texts, trim, trimmed,
    trimmed_keeps, CharClass,
};
use crate::urls::{
    change_url, changed_url, encode_path_segment, encode_query_component,
    escaped_segments_are_plain, escaped_values_are_plain, form_encoded, is_plain_path,
    lemma_both_plain, option_str, parse_url, path_encoded, url_parts,
};

verus! {

pub const ARTIFACT_UPLOAD_CONTENT_TYPE: &'static str = "application/octet-stream";

pub const ARTIFACT_UPLOAD_FORBID_OVERWRITE_HEADER: &'static str = "x-oss-forbid-overwrite";

pub const ARTIFACT_UPLOAD_FORBID_OVERWRITE_VALUE: &'static str = "true";

pub const OSS_LIST_OBJECT_VERSIONS_MAX_KEYS: u64 = 999;

#[derive(Clone, Debug, PartialEq, Eq)]
pub struct PresignedUpload {
    pub method: &'static str,
    pub url: String,
    pub headers: Vec<(String, String)>,
    pub expires_at: String,
}

#[derive(Clone, Debug, PartialEq, Eq)]
pub struct PresignedDownload {
    pub url: String,
    pub expires_at: String,
}

// ---------------------------------------------------------------------------
// What is signed
// ---------------------------------------------------------------------------

/// The views of headers.
pub open spec fn header_views(headers: Seq<(String, String)>) -> Seq<(Seq<char>, Seq<char>)> {
    headers.map_values(|header: (String, String)| (header.0@, header.1@))
}

/// A header stands before another by name, then by value.
pub open spec fn header_before(
    left: (Seq<char>, Seq<char>),
    right: (Seq<char>, Seq<char>),
) -> bool {
    text_before(left.0, right.0) || (left.0 == right.0 && text_before(left.1, right.1))
}

/// The headers with another one, in front of the first that stands behind it.
pub open spec fn with_header(
    headers: Seq<(Seq<char>, Seq<char>)>,
    header: (Seq<char>, Seq<char>),
) -> Seq<(Seq<char>, Seq<char>)>
    decreases headers.len(),
{
    if headers.len() == 0 {
        seq![header]
    } else if header_before(header, headers[0]) {
        seq![header] + headers
    } else {
        seq![headers[0]] + with_header(headers.drop_first(), header)
    }
}

/// The headers of the object store, with names in lower case and single spaces in values, sorted.
pub open spec fn store_headers(headers: Seq<(Seq<char>, Seq<char>)>) -> Seq<
    (Seq<char>, Seq<char>),
>
    decreases headers.len(),
{
    if headers.len() == 0 {
        headers
    } else {
        let before = store_headers(headers.drop_last());
        let name = lowered(trimmed(headers.last().0));
        if "x-oss-"@.is_prefix_of(name) {
            with_header(before, (name, joined(words(headers.last().1), " "@)))
        } else {
            before
        }
    }
}

/// A line for each header.
pub open spec fn header_lines(headers: Seq<(Seq<char>, Seq<char>)>) -> Seq<char>
    decreases headers.len(),
{
    if headers.len() == 0 {
        Seq::empty()
    } else {
        header_lines(headers.drop_last()) + headers.last().0 + ":"@ + headers.last().1 + "\n"@
    }
}

proof fn lemma_with_header(
    headers: Seq<(Seq<char>, Seq<char>)>,
    header: (Seq<char>, Seq<char>),
    at: int,
)
    requires
        0 <= at <= headers.len(),
        forall|i: int| 0 <= i < at ==> !header_before(header, #[trigger] headers[i]),
        at < headers.len() ==> header_before(header, headers[at]),
    ensures
        with_header(headers, header) == headers.insert(at, header),
    decreases headers.len(),
{
    if at == 0 {
        assert(with_header(headers, header) =~= headers.insert(0, header));
    } else {
        assert(!header_before(header, headers[0]));
        let rest = headers.drop_first();
        assert forall|i: int| 0 <= i < at - 1 implies !header_before(header, #[trigger] rest[i]) by {
            assert(rest[i] == headers[i + 1]);
        }
        lemma_with_header(rest, header, at - 1);
        assert(with_header(headers, header) =~= headers.insert(at, header));
    }
}

fn put_header(headers: &mut Vec<(String, String)>, name: String, value: String)
    ensures
        header_views(final(headers)@) == with_header(
            header_views(old(headers)@),
            (name@, value@),
        ),
{
    let mut at: usize = 0;
    let ghost model = header_views(headers@);
    let ghost header = (name@, value@);
    while at < headers.len() && !(text_less(name.as_str(), headers[at].0.as_str()) || (name
        == headers[at].0 && text_less(value.as_str(), headers[at].1.as_str())))
        invariant
            at <= headers@.len(),
            headers@ == old(headers)@,
            model == header_views(headers@),
            header == (name@, value@),
            forall|i: int| 0 <= i < at ==> !header_before(header, #[trigger] model[i]),
        decreases headers@.len() - at,
    {
        assert(model[at as int] == (headers@[at as int].0@, headers@[at as int].1@));
        at = at + 1;
    }
    proof {
        if at < headers@.len() {
            assert(model[at as int] == (headers@[at as int].0@, headers@[at as int].1@));
        }
        lemma_with_header(model, header, at as int);
    }
    headers.insert(at, (name, value));
    assert(header_views(headers@) =~= model.insert(at as int, header));
}

/// The lines of the headers that take part in a signature.
pub fn canonicalized_oss_headers(headers: &[(String, String)]) -> (lines: String)
    ensures
        lines@ == header_lines(store_headers(header_views(headers@))),
{
    let mut chosen: Vec<(String, String)> = Vec::new();
    let mut i: usize = 0;
    let ghost all = header_views(headers@);
    assert(header_views(chosen@) =~= store_headers(all.take(0)));
    while i < headers.len()
        invariant
            i <= headers@.len(),
            all == header_views(headers@),
            header_views(chosen@) == store_headers(all.take(i as int)),
        decreases headers@.len() - i,
    {
        assert(all.take(i + 1).drop_last() =~= all.take(i as int));
        assert(all.take(i + 1).last() == (headers@[i as int].0@, headers@[i as int].1@));
        let name = lowercase(trim(headers[i].0.as_str()).as_str());
        if starts_with(name.as_str(), "x-oss-") {
            let value = join(&split_words(headers[i].1.as_str()), " ");
            put_header(&mut chosen, name, value);
        }
        i = i + 1;
    }
    assert(all.take(i as int) =~= all);
    let ghost sorted = header_views(chosen@);
    let mut lines = String::new();
    let mut k: usize = 0;
    assert(sorted.take(0) =~= Seq::empty());
    while k < chosen.len()
        invariant
            k <= chosen@.len(),
            sorted == header_views(chosen@),
            lines@ == header_lines(sorted.take(k as int)),
        decreases chosen@.len() - k,
    {
        assert(sorted.take(k + 1).drop_last() =~= sorted.take(k as int));
        lines.append(chosen[k].0.as_str());
        lines.append(":");
        lines.append(chosen[k].1.as_str());
        lines.append("\n");
        k = k + 1;
    }
    assert(sorted.take(k as int) =~= sorted);
    lines
}

/// The object that a request is about, with its version.
pub open spec fn object_resource(
    bucket: Seq<char>,
    key: Seq<char>,
    version: Option<Seq<char>>,
) -> Seq<char> {
    let resource = "/"@ + bucket + "/"@ + key;
    match version {
        Some(id) => resource + "?versionId="@ + id,
        None => resource,
    }
}

pub fn canonicalized_oss_resource(
    bucket: &str,
    object_key: &str,
    version_id: Option<&str>,
) -> (resource: String)
    ensures
        resource@ == object_resource(bucket@, object_key@, option_str(version_id)),
{
    let resource = "/".to_owned().concat(bucket).concat("/").concat(object_key);
    match version_id {
        Some(id) => resource.concat("?versionId=").concat(id),
        None => resource,
    }
}

/// A part of the bucket that a request is about.
pub open spec fn bucket_resource(bucket: Seq<char>, subresource: Seq<char>) -> Seq<char> {
    "/"@ + bucket + "/?"@ + subresource
}

pub fn canonicalized_oss_bucket_resource(bucket: &str, subresource: &str) -> (resource: String)
    ensures
        resource@ == bucket_resource(bucket@, subresource@),
{
    "/".to_owned().concat(bucket).concat("/?").concat(subresource)
}

/// The text that is signed.
pub open spec fn text_to_sign(
    method: Seq<char>,
    content_type: Seq<char>,
    expires: i64,
    headers: Seq<(Seq<char>, Seq<char>)>,
    resource: Seq<char>,
) -> Seq<char> {
    method + "\n\n"@ + content_type + "\n"@ + signed_decimal(expires as int) + "\n"@
        + header_lines(store_headers(headers)) + resource
}

/// The signature under the given secret.
pub open spec fn signature(secret: Seq<char>, text: Seq<char>) -> Seq<char> {
    base64_standard(hmac_sha1(encode_utf8(secret), encode_utf8(text)))
}

// ---------------------------------------------------------------------------
// Addresses
// ---------------------------------------------------------------------------

pub open spec fn endpoint_fault() -> StorageFault {
    StorageFault::InvalidInput("阿里云 OSS Endpoint 不是有效 URL"@)
}

pub open spec fn host_fault() -> StorageFault {
    StorageFault::InvalidInput("无法构造阿里云 OSS Bucket 访问域名"@)
}

/// The host of a bucket: a subdomain of the endpoint's host.
pub open spec fn bucket_host(bucket: Seq<char>, host: Option<Seq<char>>) -> Seq<char> {
    bucket + "."@ + (match host {
        Some(name) => name,
        None => Seq::empty(),
    })
}

/// The address of a path in a bucket, with a query or without one.
pub open spec fn address(
    endpoint: Seq<char>,
    bucket: Seq<char>,
    path: Seq<char>,
    query: Option<Seq<char>>,
) -> Result<Seq<char>, StorageFault> {
    match url_parts(endpoint) {
        None => Err(endpoint_fault()),
        Some(parts) => match changed_url(endpoint, bucket_host(bucket, parts.1), path, query) {
            None => Err(host_fault()),
            Some(url) => Ok(url),
        },
    }
}

fn address_of(endpoint: &str, bucket: &str, path: &str, query: Option<&str>) -> (result: Result<
    String,
    ArtifactStorageError,
>)
    requires
        is_plain_path(path@),
        query is Some ==> every(query->0@, CharClass::UrlPlain),
    ensures
        outcome(result) == address(endpoint@, bucket@, path@, option_str(query)),
{
    let parts = match parse_url(endpoint) {
        Some(parts) => parts,
        None => return Err(invalid("阿里云 OSS Endpoint 不是有效 URL")),
    };
    let base = match &parts.host {
        Some(host) => host.clone(),
        None => String::new(),
    };
    let host = bucket.to_owned().concat(".").concat(base.as_str());
    assert(host@ == bucket_host(bucket@, option_text(parts.host)));
    match change_url(endpoint, host.as_str(), path, query) {
        Some(url) => Ok(url),
        None => Err(invalid("无法构造阿里云 OSS Bucket 访问域名")),
    }
}

/// The root of a bucket, without path and query.
pub open spec fn bucket_address(endpoint: Seq<char>, bucket: Seq<char>) -> Result<
    Seq<char>,
    StorageFault,
> {
    address(endpoint, bucket, "/"@, None)
}

pub fn bucket_url(endpoint: &str, bucket: &str) -> (result: Result<String, ArtifactStorageError>)
    ensures
        outcome(result) == bucket_address(endpoint@, bucket@),
{
    proof {
        lemma_root_is_plain();
    }
    address_of(endpoint, bucket, "/", None)
}

/// The escaped pieces of a path.
pub open spec fn escaped_pieces(items: Seq<Seq<char>>) -> Seq<Seq<char>> {
    items.map_values(|piece: Seq<char>| path_encoded(encode_utf8(piece)))
}

/// A path with every piece escaped.
pub open spec fn escaped_path(path: Seq<char>) -> Seq<char> {
    joined(escaped_pieces(pieces(path, CharClass::Slash)), "/"@)
}

pub fn encode_object_path(value: &str) -> (path: String)
    ensures
        path@ == escaped_path(value@),
{
    let parts = split(value, CharClass::Slash);
    let ghost model = escaped_pieces(texts(parts@));
    let mut escaped: Vec<String> = Vec::new();
    let mut i: usize = 0;
    assert(texts(escaped@) =~= model.take(0));
    while i < parts.len()
        invariant
            i <= parts@.len(),
            model == escaped_pieces(texts(parts@)),
            texts(escaped@) == model.take(i as int),
        decreases parts@.len() - i,
    {
        let piece = encode_path_segment(parts[i].as_str());
        assert(texts(parts@)[i as int] == parts@[i as int]@);
        assert(piece@ == model[i as int]);
        proof {
            lemma_texts_push(escaped@, piece);
        }
        escaped.push(piece);
        i = i + 1;
        assert(texts(escaped@) =~= model.take(i as int));
    }
    assert(model.take(i as int) =~= model);
    join(&escaped, "/")
}

/// The path of an object.
pub open spec fn object_path(key: Seq<char>) -> Seq<char> {
    "/"@ + escaped_path(key)
}

/// The address of an object.
pub open spec fn object_address(
    endpoint: Seq<char>,
    bucket: Seq<char>,
    key: Seq<char>,
) -> Result<Seq<char>, StorageFault> {
    address(endpoint, bucket, object_path(key), None)
}

pub fn object_url(endpoint: &str, bucket: &str, object_key: &str) -> (result: Result<
    String,
    ArtifactStorageError,
>)
    requires
        has_plain_pieces(object_key@),
    ensures
        outcome(result) == object_address(endpoint@, bucket@, object_key@),
{
    let path = "/".to_owned().concat(encode_object_path(object_key).as_str());
    proof {
        object_paths_are_plain(object_key@);
    }
    address_of(endpoint, bucket, path.as_str(), None)
}

proof fn lemma_root_is_plain()
    ensures
        "/"@ == seq!['/'],
        is_plain_path("/"@),
{
    reveal_strlit("/");
    assert("/"@ =~= seq!['/']);
}

proof fn lemma_joined_is_plain(items: Seq<Seq<char>>)
    requires
        forall|i: int| 0 <= i < items.len() ==> every(#[trigger] items[i], CharClass::UrlPlain),
    ensures
        every(joined(items, "/"@), CharClass::UrlPlain),
    decreases items.len(),
{
    lemma_root_is_plain();
    if items.len() > 0 {
        let before = items.drop_last();
        lemma_joined_is_plain(before);
        assert(every(items[items.len() - 1], CharClass::UrlPlain));
        if items.len() > 1 {
            lemma_both_plain(joined(before, "/"@), "/"@);
            lemma_both_plain(joined(before, "/"@) + "/"@, items.last());
        }
    }
}

/// The path of an object stands in a URL as it is.
pub proof fn object_paths_are_plain(key: Seq<char>)
    ensures
        is_plain_path(object_path(key)),
{
    let items = escaped_pieces(pieces(key, CharClass::Slash));
    assert forall|i: int| 0 <= i < items.len() implies every(
        #[trigger] items[i],
        CharClass::UrlPlain,
    ) by {
        escaped_segments_are_plain(encode_utf8(pieces(key, CharClass::Slash)[i]));
    }
    lemma_joined_is_plain(items);
    lemma_root_is_plain();
    lemma_both_plain("/"@, escaped_path(key));
}

// ---------------------------------------------------------------------------
// Signed URLs
// ---------------------------------------------------------------------------

/// The value of a form, escaped.
pub open spec fn escaped(value: Seq<char>) -> Seq<char> {
    form_encoded(encode_utf8(value))
}

/// The query of a signed request for an object.
pub open spec fn object_query(
    settings: OssSettings,
    method: Seq<char>,
    key: Seq<char>,
    content_type: Seq<char>,
    expires: i64,
    headers: Seq<(Seq<char>, Seq<char>)>,
    version: Option<Seq<char>>,
) -> Seq<char> {
    let resource = object_resource(settings.bucket, key, version);
    let text = text_to_sign(method, content_type, expires, headers, resource);
    (match version {
        Some(id) => "versionId="@ + escaped(id) + "&"@,
        None => Seq::empty(),
    }) + signing_query(settings.access_key_id, expires, signature(settings.access_key_secret, text))
}

proof fn lemma_decimal_is_plain(n: nat)
    ensures
        every(decimal(n), CharClass::UrlPlain),
    decreases n,
{
    if n >= 10 {
        lemma_decimal_is_plain(n / 10);
    }
    assert(CharClass::UrlPlain.has(digit_char((n % 10) as int)));
}

proof fn lemma_signed_is_plain(n: int)
    ensures
        every(signed_decimal(n), CharClass::UrlPlain),
{
    if n < 0 {
        lemma_decimal_is_plain((-n) as nat);
        lemma_both_plain(seq!['-'], decimal((-n) as nat));
    } else {
        lemma_decimal_is_plain(n as nat);
    }
}

/// The end of a query: who signs, until when, and the signature.
pub open spec fn signing_query(key_id: Seq<char>, expires: i64, code: Seq<char>) -> Seq<char> {
    "OSSAccessKeyId="@ + escaped(key_id) + "&Expires="@ + signed_decimal(expires as int)
        + "&Signature="@ + escaped(code)
}

proof fn lemma_signing_is_plain(key_id: Seq<char>, expires: i64, code: Seq<char>)
    ensures
        every(signing_query(key_id, expires, code), CharClass::UrlPlain),
{
    reveal_strlit("OSSAccessKeyId=");
    reveal_strlit("&Expires=");
    reveal_strlit("&Signature=");
    let a = "OSSAccessKeyId="@;
    let b = escaped(key_id);
    let c = "&Expires="@;
    let d = signed_decimal(expires as int);
    let e = "&Signature="@;
    let f = escaped(code);
    assert(every(a, CharClass::UrlPlain));
    assert(every(c, CharClass::UrlPlain));
    assert(every(e, CharClass::UrlPlain));
    escaped_values_are_plain(encode_utf8(key_id));
    escaped_values_are_plain(encode_utf8(code));
    lemma_signed_is_plain(expires as int);
    lemma_both_plain(a, b);
    lemma_both_plain(a + b, c);
    lemma_both_plain(a + b + c, d);
    lemma_both_plain(a + b + c + d, e);
    lemma_both_plain(a + b + c + d + e, f);
}

fn signing_text(key_id: &str, expires: i64, code: &str) -> (text: String)
    ensures
        text@ == signing_query(key_id@, expires, code@),
{
    "OSSAccessKeyId=".to_owned().concat(encode_query_component(key_id).as_str()).concat(
        "&Expires=",
    ).concat(integer_text(expires).as_str()).concat("&Signature=").concat(
        encode_query_component(code).as_str(),
    )
}

/// The URL of a signed request for an object whose key is accepted already.
pub open spec fn signed_object_url(
    settings: OssSettings,
    method: Seq<char>,
    key: Seq<char>,
    content_type: Seq<char>,
    expires: i64,
    headers: Seq<(Seq<char>, Seq<char>)>,
    version: Option<Seq<char>>,
) -> Result<Seq<char>, StorageFault> {
    address(
        settings.endpoint,
        settings.bucket,
        object_path(key),
        Some(object_query(settings, method, key, content_type, expires, headers, version)),
    )
}

/// An optional version: none where the text is blank.
pub open spec fn optional_version(
    version: Option<Seq<char>>,
    pinned: bool,
) -> Result<Option<Seq<char>>, StorageFault> {
    match version {
        Some(value) => if is_blank(value) {
            Ok(None)
        } else {
            match (if pinned {
                object_version_id(value)
            } else {
                deletable_version_id(value)
            }) {
                Ok(id) => Ok(Some(id)),
                Err(fault) => Err(fault),
            }
        },
        None => Ok(None),
    }
}

/// The URL of a signed request for an object. A version that is read must be pinned.
pub open spec fn presigned(
    settings: OssSettings,
    method: Seq<char>,
    key: Seq<char>,
    content_type: Seq<char>,
    expires: i64,
    headers: Seq<(Seq<char>, Seq<char>)>,
    version: Option<Seq<char>>,
    pinned: bool,
) -> Result<Seq<char>, StorageFault> {
    match object_key(key) {
        Err(fault) => Err(fault),
        Ok(accepted) => match optional_version(version, pinned) {
            Err(fault) => Err(fault),
            Ok(id) => signed_object_url(
                settings,
                method,
                accepted,
                content_type,
                expires,
                headers,
                id,
            ),
        },
    }
}

fn accept_version(version: Option<&str>, pinned: bool) -> (result: Result<
    Option<String>,
    ArtifactStorageError,
>)
    ensures
        match result {
            Ok(id) => optional_version(option_str(version), pinned) == Ok::<
                Option<Seq<char>>,
                StorageFault,
            >(option_text(id)),
            Err(error) => optional_version(option_str(version), pinned) == Err::<
                Option<Seq<char>>,
                StorageFault,
            >(error@),
        },
{
    match version {
        Some(value) => {
            if blank(value) {
                return Ok(None);
            }
            let accepted = if pinned {
                normalize_object_version_id(value)
            } else {
                normalize_deletable_object_version_id(value)
            };
            match accepted {
                Ok(id) => Ok(Some(id)),
                Err(error) => Err(error),
            }
        },
        None => Ok(None),
    }
}

pub(crate) fn as_text(value: &Option<String>) -> (text: Option<&str>)
    ensures
        option_str(text) == option_text(*value),
{
    match value {
        Some(known) => Some(known.as_str()),
        None => None,
    }
}

impl AliyunOssConfig {
    fn presign_signature(
        &self,
        method: &str,
        content_type: &str,
        expires: i64,
        headers: &[(String, String)],
        resource: &str,
    ) -> (code: String)
        ensures
            code@ == signature(
                self@.access_key_secret,
                text_to_sign(
                    method@,
                    content_type@,
                    expires,
                    header_views(headers@),
                    resource@,
                ),
            ),
    {
        let lines = canonicalized_oss_headers(headers);
        let text = method.to_owned().concat("\n\n").concat(content_type).concat("\n").concat(
            integer_text(expires).as_str(),
        ).concat("\n").concat(lines.as_str()).concat(resource);
        let code = hmac_sha1_of(
            self.access_key_secret.as_str().as_bytes(),
            text.as_str().as_bytes(),
        );
        base64_standard_of(code.as_slice())
    }

    fn presign_normalized(
        &self,
        method: &str,
        object_key: &str,
        content_type: &str,
        expires: i64,
        headers: &[(String, String)],
        version_id: Option<&str>,
    ) -> (result: Result<String, ArtifactStorageError>)
        requires
            has_plain_pieces(object_key@),
        ensures
            outcome(result) == signed_object_url(
                self@,
                method@,
                object_key@,
                content_type@,
                expires,
                header_views(headers@),
                option_str(version_id),
            ),
    {
        let resource = canonicalized_oss_resource(self.bucket.as_str(), object_key, version_id);
        let code = self.presign_signature(
            method,
            content_type,
            expires,
            headers,
            resource.as_str(),
        );
        let path = "/".to_owned().concat(encode_object_path(object_key).as_str());
        let start = match version_id {
            Some(id) => "versionId=".to_owned().concat(encode_query_component(id).as_str()).concat(
                "&",
            ),
            None => String::new(),
        };
        let end = signing_text(self.access_key_id.as_str(), expires, code.as_str());
        proof {
            lemma_signing_is_plain(self@.access_key_id, expires, code@);
            if version_id is Some {
                let id = escaped(version_id->0@);
                reveal_strlit("versionId=");
                reveal_strlit("&");
                assert(every("versionId="@, CharClass::UrlPlain));
                assert(every("&"@, CharClass::UrlPlain));
                escaped_values_are_plain(encode_utf8(version_id->0@));
                lemma_both_plain("versionId="@, id);
                lemma_both_plain("versionId="@ + id, "&"@);
            }
            lemma_both_plain(start@, end@);
            object_paths_are_plain(object_key@);
        }
        let query = start.concat(end.as_str());
        address_of(
            self.endpoint.as_str(),
            self.bucket.as_str(),
            path.as_str(),
            Some(query.as_str()),
        )
    }

    /// Signs a request for an object until the given time.
    pub fn presign(
        &self,
        method: &str,
        object_key: &str,
        content_type: &str,
        expires: i64,
        headers: &[(String, String)],
        version_id: Option<&str>,
    ) -> (result: Result<String, ArtifactStorageError>)
        ensures
            outcome(result) == presigned(
                self@,
                method@,
                object_key@,
                content_type@,
                expires,
                header_views(headers@),
                option_str(version_id),
                true,
            ),
    {
        let key = match normalize_object_key(object_key) {
            Ok(key) => key,
            Err(error) => return Err(error),
        };
        let version = match accept_version(version_id, true) {
            Ok(version) => version,
            Err(error) => return Err(error),
        };
        self.presign_normalized(
            method,
            key.as_str(),
            content_type,
            expires,
            headers,
            as_text(&version),
        )
    }
}

/// The headers that an upload must carry.
pub open spec fn upload_headers() -> Seq<(Seq<char>, Seq<char>)> {
    seq![
        ("Content-Type"@, ARTIFACT_UPLOAD_CONTENT_TYPE@),
        (ARTIFACT_UPLOAD_FORBID_OVERWRITE_HEADER@, ARTIFACT_UPLOAD_FORBID_OVERWRITE_VALUE@),
    ]
}

/// The outcome of a request to sign an upload at the time `now`.
pub open spec fn upload_signed_at(
    settings: OssSettings,
    key: Seq<char>,
    now: i64,
    result: Result<PresignedUpload, ArtifactStorageError>,
) -> bool {
    let expires = clamped(now + settings.upload_ttl);
    let url = presigned(
        settings,
        "PUT"@,
        key,
        ARTIFACT_UPLOAD_CONTENT_TYPE@,
        expires,
        upload_headers(),
        None,
        true,
    );
    match missing(settings) {
        Some(fault) => result is Err && result->Err_0@ == fault,
        None => match result {
            Ok(upload) => {
                &&& url == Ok::<Seq<char>, StorageFault>(upload.url@)
                &&& upload.method@ == "PUT"@
                &&& header_views(upload.headers@) == upload_headers()
                &&& upload.expires_at@ == timestamp(expires as int)
            },
            Err(error) => url == Err::<Seq<char>, StorageFault>(error@),
        },
    }
}

/// The outcome of a request to sign a download at the time `now`.
pub open spec fn download_signed_at(
    settings: OssSettings,
    key: Seq<char>,
    version: Option<Seq<char>>,
    now: i64,
    result: Result<PresignedDownload, ArtifactStorageError>,
) -> bool {
    let expires = clamped(now + settings.download_ttl);
    let url = presigned(
        settings,
        "GET"@,
        key,
        Seq::empty(),
        expires,
        Seq::empty(),
        version,
        true,
    );
    match missing(settings) {
        Some(fault) => result is Err && result->Err_0@ == fault,
        None => match result {
            Ok(download) => {
                &&& url == Ok::<Seq<char>, StorageFault>(download.url@)
                &&& download.expires_at@ == timestamp(expires as int)
            },
            Err(error) => url == Err::<Seq<char>, StorageFault>(error@),
        },
    }
}

/// The outcome of a request to sign a deletion at the time `now`.
pub open spec fn delete_signed_at(
    settings: OssSettings,
    key: Seq<char>,
    version: Option<Seq<char>>,
    now: i64,
) -> Result<Seq<char>, StorageFault> {
    match missing(settings) {
        Some(fault) => Err(fault),
        None => presigned(
            settings,
            "DELETE"@,
            key,
            Seq::empty(),
            clamped(now + settings.download_ttl),
            Seq::empty(),
            version,
            false,
        ),
    }
}

/// An optional key: none where the text is blank.
pub open spec fn optional_key(key: Option<Seq<char>>) -> Result<Option<Seq<char>>, StorageFault> {
    match key {
        Some(value) => if is_blank(value) {
            Ok(None)
        } else {
            match object_key(value) {
                Ok(accepted) => Ok(Some(accepted)),
                Err(fault) => Err(fault),
            }
        },
        None => Ok(None),
    }
}

/// A parameter of a query, where there is one.
pub open spec fn marker(name: Seq<char>, value: Option<Seq<char>>) -> Seq<char> {
    match value {
        Some(text) => name + escaped(text) + "&"@,
        None => Seq::empty(),
    }
}

/// The query of a signed request for the versions of an object.
pub open spec fn versions_query(
    settings: OssSettings,
    key: Seq<char>,
    key_marker: Option<Seq<char>>,
    version_marker: Option<Seq<char>>,
    expires: i64,
) -> Seq<char> {
    let text = text_to_sign(
        "GET"@,
        Seq::empty(),
        expires,
        Seq::empty(),
        bucket_resource(settings.bucket, "versions"@),
    );
    "versions&prefix="@ + escaped(key) + "&max-keys="@ + decimal(
        OSS_LIST_OBJECT_VERSIONS_MAX_KEYS as nat,
    ) + "&"@ + marker("key-marker="@, key_marker) + marker("version-id-marker="@, version_marker)
        + signing_query(settings.access_key_id, expires, signature(settings.access_key_secret, text))
}

proof fn lemma_marker_is_plain(name: Seq<char>, value: Option<Seq<char>>)
    requires
        every(name, CharClass::UrlPlain),
    ensures
        every(marker(name, value), CharClass::UrlPlain),
{
    if value is Some {
        reveal_strlit("&");
        assert(every("&"@, CharClass::UrlPlain));
        escaped_values_are_plain(encode_utf8(value->0));
        lemma_both_plain(name, escaped(value->0));
        lemma_both_plain(name + escaped(value->0), "&"@);
    }
}

proof fn lemma_versions_query_is_plain(
    settings: OssSettings,
    key: Seq<char>,
    key_marker: Option<Seq<char>>,
    version_marker: Option<Seq<char>>,
    expires: i64,
)
    ensures
        every(
            versions_query(settings, key, key_marker, version_marker, expires),
            CharClass::UrlPlain,
        ),
{
    reveal_strlit("versions&prefix=");
    reveal_strlit("&max-keys=");
    reveal_strlit("&");
    reveal_strlit("key-marker=");
    reveal_strlit("version-id-marker=");
    let text = text_to_sign(
        "GET"@,
        Seq::empty(),
        expires,
        Seq::empty(),
        bucket_resource(settings.bucket, "versions"@),
    );
    let a = "versions&prefix="@;
    let b = escaped(key);
    let c = "&max-keys="@;
    let d = decimal(OSS_LIST_OBJECT_VERSIONS_MAX_KEYS as nat);
    let e = "&"@;
    let f = marker("key-marker="@, key_marker);
    let g = marker("version-id-marker="@, version_marker);
    let code = signature(settings.access_key_secret, text);
    let h = signing_query(settings.access_key_id, expires, code);
    assert(every(a, CharClass::UrlPlain));
    assert(every(c, CharClass::UrlPlain));
    assert(every(e, CharClass::UrlPlain));
    assert(every("key-marker="@, CharClass::UrlPlain));
    assert(every("version-id-marker="@, CharClass::UrlPlain));
    escaped_values_are_plain(encode_utf8(key));
    lemma_decimal_is_plain(OSS_LIST_OBJECT_VERSIONS_MAX_KEYS as nat);
    lemma_marker_is_plain("key-marker="@, key_marker);
    lemma_marker_is_plain("version-id-marker="@, version_marker);
    lemma_signing_is_plain(settings.access_key_id, expires, code);
    lemma_both_plain(a, b);
    lemma_both_plain(a + b, c);
    lemma_both_plain(a + b + c, d);
    lemma_both_plain(a + b + c + d, e);
    lemma_both_plain(a + b + c + d + e, f);
    lemma_both_plain(a + b + c + d + e + f, g);
    lemma_both_plain(a + b + c + d + e + f + g, h);
}

/// The outcome of a request to sign the listing of an object's versions at the time `now`.
pub open spec fn versions_signed_at(
    settings: OssSettings,
    key: Seq<char>,
    key_marker: Option<Seq<char>>,
    version_marker: Option<Seq<char>>,
    now: i64,
) -> Result<Seq<char>, StorageFault> {
    match missing(settings) {
        Some(fault) => Err(fault),
        None => match object_key(key) {
            Err(fault) => Err(fault),
            Ok(accepted) => match optional_key(key_marker) {
                Err(fault) => Err(fault),
                Ok(from_key) => match optional_version(version_marker, false) {
                    Err(fault) => Err(fault),
                    Ok(from_version) => if from_version is Some && from_key is None {
                        Err(
                            StorageFault::InvalidInput(
                                "枚举 OSS 对象版本时 version-id-marker 必须与 key-marker 一起使用"@,
                            ),
                        )
                    } else {
                        address(
                            settings.endpoint,
                            settings.bucket,
                            "/"@,
                            Some(
                                versions_query(
                                    settings,
                                    accepted,
                                    from_key,
                                    from_version,
                                    clamped(now + settings.download_ttl),
                                ),
                            ),
                        )
                    },
                },
            },
        },
    }
}

fn accept_key(key: Option<&str>) -> (result: Result<Option<String>, ArtifactStorageError>)
    ensures
        match result {
            Ok(accepted) => optional_key(option_str(key)) == Ok::<Option<Seq<char>>, StorageFault>(
                option_text(accepted),
            ),
            Err(error) => optional_key(option_str(key)) == Err::<Option<Seq<char>>, StorageFault>(
                error@,
            ),
        },
{
    match key {
        Some(value) => {
            if blank(value) {
                return Ok(None);
            }
            match normalize_object_key(value) {
                Ok(accepted) => Ok(Some(accepted)),
                Err(error) => Err(error),
            }
        },
        None => Ok(None),
    }
}

fn marker_text(name: &str, value: &Option<String>) -> (text: String)
    ensures
        text@ == marker(name@, option_text(*value)),
{
    match value {
        Some(known) => name.to_owned().concat(
            encode_query_component(known.as_str()).as_str(),
        ).concat("&"),
        None => String::new(),
    }
}

impl AliyunOssConfig {
    /// Signs an upload at the given time.
    pub fn presign_upload_at(&self, object_key: &str, now: i64) -> (result: Result<
        PresignedUpload,
        ArtifactStorageError,
    >)
        ensures
            upload_signed_at(self@, object_key@, now, result),
    {
        match self.validate_required() {
            Ok(_) => {},
            Err(error) => return Err(error),
        }
        let expires = later(now, self.upload_url_ttl_seconds);
        let mut headers: Vec<(String, String)> = Vec::new();
        headers.push(("Content-Type".to_owned(), ARTIFACT_UPLOAD_CONTENT_TYPE.to_owned()));
        headers.push(
            (
                ARTIFACT_UPLOAD_FORBID_OVERWRITE_HEADER.to_owned(),
                ARTIFACT_UPLOAD_FORBID_OVERWRITE_VALUE.to_owned(),
            ),
        );
        assert(header_views(headers@) =~= upload_headers());
        match self.presign(
            "PUT",
            object_key,
            ARTIFACT_UPLOAD_CONTENT_TYPE,
            expires,
            headers.as_slice(),
            None,
        ) {
            Ok(url) => Ok(
                PresignedUpload { method: "PUT", url, headers, expires_at: timestamp_text(expires) },
            ),
            Err(error) => Err(error),
        }
    }

    /// Signs an upload from now on.
    pub fn presign_upload(&self, object_key: &str) -> (result: Result<
        PresignedUpload,
        ArtifactStorageError,
    >)
        ensures
            exists|now: i64| #[trigger] upload_signed_at(self@, object_key@, now, result),
    {
        let now = unix_timestamp_now();
        self.presign_upload_at(object_key, now)
    }

    /// Signs a download at the given time.
    pub fn presign_download_at(
        &self,
        object_key: &str,
        version_id: Option<&str>,
        now: i64,
    ) -> (result: Result<PresignedDownload, ArtifactStorageError>)
        ensures
            download_signed_at(self@, object_key@, option_str(version_id), now, result),
    {
        match self.validate_required() {
            Ok(_) => {},
            Err(error) => return Err(error),
        }
        let expires = later(now, self.download_url_ttl_seconds);
        let none: Vec<(String, String)> = Vec::new();
        assert(header_views(none@) =~= Seq::empty());
        let empty = String::new();
        match self.presign(
            "GET",
            object_key,
            empty.as_str(),
            expires,
            none.as_slice(),
            version_id,
        ) {
            Ok(url) => Ok(PresignedDownload { url, expires_at: timestamp_text(expires) }),
            Err(error) => Err(error),
        }
    }

    /// Signs a download of the current version from now on.
    pub fn presign_download(&self, object_key: &str) -> (result: Result<
        PresignedDownload,
        ArtifactStorageError,
    >)
        ensures
            exists|now: i64|
                #[trigger] download_signed_at(self@, object_key@, None, now, result),
    {
        self.presign_download_version(object_key, None)
    }

    /// Signs a download from now on.
    pub fn presign_download_version(&self, object_key: &str, version_id: Option<&str>) -> (result:
        Result<PresignedDownload, ArtifactStorageError>)
        ensures
            exists|now: i64|
                #[trigger] download_signed_at(
                    self@,
                    object_key@,
                    option_str(version_id),
                    now,
                    result,
                ),
    {
        let now = unix_timestamp_now();
        self.presign_download_at(object_key, version_id, now)
    }

    /// Signs a deletion at the given time.
    pub fn presign_delete_at(
        &self,
        object_key: &str,
        version_id: Option<&str>,
        now: i64,
    ) -> (result: Result<String, ArtifactStorageError>)
        ensures
            outcome(result) == delete_signed_at(self@, object_key@, option_str(version_id), now),
    {
        match self.validate_required() {
            Ok(_) => {},
            Err(error) => return Err(error),
        }
        let expires = later(now, self.download_url_ttl_seconds);
        let key = match normalize_object_key(object_key) {
            Ok(key) => key,
            Err(error) => return Err(error),
        };
        let version = match accept_version(version_id, false) {
            Ok(version) => version,
            Err(error) => return Err(error),
        };
        let none: Vec<(String, String)> = Vec::new();
        assert(header_views(none@) =~= Seq::empty());
        let empty = String::new();
        self.presign_normalized(
            "DELETE",
            key.as_str(),
            empty.as_str(),
            expires,
            none.as_slice(),
            as_text(&version),
        )
    }

    /// Signs a deletion from now on.
    pub fn presign_delete(&self, object_key: &str, version_id: Option<&str>) -> (result: Result<
        String,
        ArtifactStorageError,
    >)
        ensures
            exists|now: i64|
                outcome(result) == #[trigger] delete_signed_at(
                    self@,
                    object_key@,
                    option_str(version_id),
                    now,
                ),
    {
        let now = unix_timestamp_now();
        self.presign_delete_at(object_key, version_id, now)
    }

    /// Signs the listing of an object's versions at the given time.
    pub fn presign_list_object_versions_at(
        &self,
        object_key: &str,
        key_marker: Option<&str>,
        version_id_marker: Option<&str>,
        now: i64,
    ) -> (result: Result<String, ArtifactStorageError>)
        ensures
            outcome(result) == versions_signed_at(
                self@,
                object_key@,
                option_str(key_marker),
                option_str(version_id_marker),
                now,
            ),
    {
        match self.validate_required() {
            Ok(_) => {},
            Err(error) => return Err(error),
        }
        let key = match normalize_object_key(object_key) {
            Ok(key) => key,
            Err(error) => return Err(error),
        };
        let from_key = match accept_key(key_marker) {
            Ok(value) => value,
            Err(error) => return Err(error),
        };
        let from_version = match accept_version(version_id_marker, false) {
            Ok(value) => value,
            Err(error) => return Err(error),
        };
        if from_version.is_some() && from_key.is_none() {
            return Err(
                invalid("枚举 OSS 对象版本时 version-id-marker 必须与 key-marker 一起使用"),
            );
        }
        let expires = later(now, self.download_url_ttl_seconds);
        let resource = canonicalized_oss_bucket_resource(self.bucket.as_str(), "versions");
        let none: Vec<(String, String)> = Vec::new();
        assert(header_views(none@) =~= Seq::empty());
        let empty = String::new();
        let code = self.presign_signature(
            "GET",
            empty.as_str(),
            expires,
            none.as_slice(),
            resource.as_str(),
        );
        let query = "versions&prefix=".to_owned().concat(
            encode_query_component(key.as_str()).as_str(),
        ).concat("&max-keys=").concat(
            natural_text(OSS_LIST_OBJECT_VERSIONS_MAX_KEYS).as_str(),
        ).concat("&").concat(marker_text("key-marker=", &from_key).as_str()).concat(
            marker_text("version-id-marker=", &from_version).as_str(),
        ).concat(signing_text(self.access_key_id.as_str(), expires, code.as_str()).as_str());
        proof {
            lemma_versions_query_is_plain(
                self@,
                key@,
                option_text(from_key),
                option_text(from_version),
                expires,
            );
        }
        proof {
            lemma_root_is_plain();
        }
        address_of(
            self.endpoint.as_str(),
            self.bucket.as_str(),
            "/",
            Some(query.as_str()),
        )
    }

    /// Signs the listing of an object's versions from now on.
    pub fn presign_list_object_versions(
        &self,
        object_key: &str,
        key_marker: Option<&str>,
        version_id_marker: Option<&str>,
    ) -> (result: Result<String, ArtifactStorageError>)
        ensures
            exists|now: i64|
                outcome(result) == #[trigger] versions_signed_at(
                    self@,
                    object_key@,
                    option_str(key_marker),
                    option_str(version_id_marker),
                    now,
                ),
    {
        let now = unix_timestamp_now();
        self.presign_list_object_versions_at(object_key, key_marker, version_id_marker, now)
    }
}

// ---------------------------------------------------------------------------
// Laws
// ---------------------------------------------------------------------------

/// Each header stands before the next, or is equal to it.
pub open spec fn headers_are_sorted(headers: Seq<(Seq<char>, Seq<char>)>) -> bool {
    forall|i: int, j: int|
        0 <= i < j < headers.len() ==> !header_before(headers[j], headers[i])
}

proof fn lemma_header_order(
    a: (Seq<char>, Seq<char>),
    b: (Seq<char>, Seq<char>),
    c: (Seq<char>, Seq<char>),
)
    ensures
        header_before(a, b) ==> !header_before(b, a),
        !header_before(b, a) && !header_before(c, b) ==> !header_before(c, a),
{
    text_order_is_strict(a.0, b.0);
    text_order_is_strict(b.0, c.0);
    text_order_is_strict(a.0, c.0);
    text_order_is_strict(a.1, b.1);
    text_order_is_strict(b.1, c.1);
    text_order_is_strict(a.1, c.1);
    if text_before(a.0, b.0) && text_before(b.0, c.0) {
        text_order_is_transitive(a.0, b.0, c.0);
    }
    if text_before(a.1, b.1) && text_before(b.1, c.1) {
        text_order_is_transitive(a.1, b.1, c.1);
    }
}

proof fn lemma_with_header_sorted(
    headers: Seq<(Seq<char>, Seq<char>)>,
    header: (Seq<char>, Seq<char>),
)
    requires
        headers_are_sorted(headers),
    ensures
        headers_are_sorted(with_header(headers, header)),
        forall|other: (Seq<char>, Seq<char>)|
            #[trigger] with_header(headers, header).contains(other) ==> other == header
                || headers.contains(other),
    decreases headers.len(),
{
    let after = with_header(headers, header);
    if headers.len() == 0 {
    } else if header_before(header, headers[0]) {
        assert forall|i: int, j: int| 0 <= i < j < after.len() implies !header_before(
            after[j],
            after[i],
        ) by {
            if i == 0 {
                if j > 1 {
                    lemma_header_order(header, headers[0], headers[j - 1]);
                } else {
                    lemma_header_order(header, headers[0], header);
                }
                lemma_header_order(header, headers[0], header);
            }
        }
        assert forall|other: (Seq<char>, Seq<char>)| after.contains(other) implies other == header
            || headers.contains(other) by {
            let k = choose|k: int| 0 <= k < after.len() && after[k] == other;
            if k > 0 {
                assert(headers[k - 1] == other);
            }
        }
    } else {
        let rest = headers.drop_first();
        assert forall|i: int, j: int| 0 <= i < j < rest.len() implies !header_before(
            rest[j],
            rest[i],
        ) by {
            assert(!header_before(headers[j + 1], headers[i + 1]));
        }
        lemma_with_header_sorted(rest, header);
        let tail = with_header(rest, header);
        assert(after =~= seq![headers[0]] + tail);
        assert forall|i: int, j: int| 0 <= i < j < after.len() implies !header_before(
            after[j],
            after[i],
        ) by {
            if i == 0 {
                assert(after[j] == tail[j - 1]);
                assert(tail.contains(after[j]));
                if after[j] != header {
                    let k = choose|k: int| 0 <= k < rest.len() && rest[k] == after[j];
                    assert(!header_before(headers[k + 1], headers[0]));
                }
            } else {
                assert(after[j] == tail[j - 1] && after[i] == tail[i - 1]);
            }
        }
        assert forall|other: (Seq<char>, Seq<char>)| after.contains(other) implies other == header
            || headers.contains(other) by {
            let k = choose|k: int| 0 <= k < after.len() && after[k] == other;
            if k == 0 {
                assert(headers[0] == other);
            } else {
                assert(tail[k - 1] == other);
                assert(tail.contains(other));
                if other != header {
                    let m = choose|m: int| 0 <= m < rest.len() && rest[m] == other;
                    assert(headers[m + 1] == other);
                }
            }
        }
    }
}

/// The headers that take part in a signature are sorted, and all of them are headers of the
/// object store.
pub proof fn signed_headers_are_sorted(headers: Seq<(Seq<char>, Seq<char>)>)
    ensures
        headers_are_sorted(store_headers(headers)),
        forall|i: int|
            0 <= i < store_headers(headers).len() ==> "x-oss-"@.is_prefix_of(
                (#[trigger] store_headers(headers)[i]).0,
            ),
    decreases headers.len(),
{
    if headers.len() > 0 {
        signed_headers_are_sorted(headers.drop_last());
        let before = store_headers(headers.drop_last());
        let name = lowered(trimmed(headers.last().0));
        let header = (name, joined(words(headers.last().1), " "@));
        if "x-oss-"@.is_prefix_of(name) {
            lemma_with_header_sorted(before, header);
            assert forall|i: int| 0 <= i < store_headers(headers).len() implies "x-oss-"@.is_prefix_of(
                (#[trigger] store_headers(headers)[i]).0,
            ) by {
                let found = store_headers(headers)[i];
                assert(with_header(before, header).contains(found));
                if found != header {
                    let k = choose|k: int| 0 <= k < before.len() && before[k] == found;
                }
            }
        }
    }
}

/// A version is signed as it is and escaped in the URL: two requests that differ in the version
/// alone sign different texts.
pub proof fn versions_are_signed(
    bucket: Seq<char>,
    key: Seq<char>,
    left: Seq<char>,
    right: Seq<char>,
)
    requires
        object_resource(bucket, key, Some(left)) == object_resource(bucket, key, Some(right)),
    ensures
        left == right,
{
    let start = "/"@ + bucket + "/"@ + key + "?versionId="@;
    assert(object_resource(bucket, key, Some(left)) =~= start + left);
    assert(object_resource(bucket, key, Some(right)) =~= start + right);
    assert(left =~= (start + left).skip(start.len() as int));
    assert(right =~= (start + right).skip(start.len() as int));
}

proof fn lemma_plain_is_one_line(s: Seq<char>)
    requires
        every(s, CharClass::UrlPlain),
    ensures
        !any(s, CharClass::LineFeed),
{
    if any(s, CharClass::LineFeed) {
        let k = choose|k: int| 0 <= k < s.len() && CharClass::LineFeed.has(#[trigger] s[k]);
        assert(CharClass::UrlPlain.has(s[k]));
    }
}

proof fn lemma_line(line: Seq<char>, rest: Seq<char>)
    requires
        !any(line, CharClass::LineFeed),
    ensures
        pieces(line + seq!['\n'] + rest, CharClass::LineFeed) == seq![line] + pieces(
            rest,
            CharClass::LineFeed,
        ),
{
    separators_part_the_pieces(line, '\n', rest, CharClass::LineFeed);
    undivided_texts_are_one_piece(line, CharClass::LineFeed);
}

/// What is signed, line by line: the method; nothing, where a checksum of the content could stand;
/// the type of the content; the time up to which the signature holds. The lines of the headers and
/// the resource follow.
pub proof fn signed_texts_consist_of_lines(
    method: Seq<char>,
    content_type: Seq<char>,
    expires: i64,
    headers: Seq<(Seq<char>, Seq<char>)>,
    resource: Seq<char>,
)
    requires
        !method.contains('\n'),
        !content_type.contains('\n'),
    ensures
        ({
            let text = text_to_sign(method, content_type, expires, headers, resource);
            let all = pieces(text, CharClass::LineFeed);
            &&& all.len() >= 5
            &&& all[0] == method
            &&& all[1] == Seq::<char>::empty()
            &&& all[2] == content_type
            &&& all[3] == signed_decimal(expires as int)
            &&& all.skip(4) == pieces(
                header_lines(store_headers(headers)) + resource,
                CharClass::LineFeed,
            )
            &&& text == method + seq!['\n', '\n'] + content_type + seq!['\n'] + signed_decimal(
                expires as int,
            ) + seq!['\n'] + header_lines(store_headers(headers)) + resource
        }),
{
    reveal_strlit("\n\n");
    reveal_strlit("\n");
    let text = text_to_sign(method, content_type, expires, headers, resource);
    let time = signed_decimal(expires as int);
    let end = header_lines(store_headers(headers)) + resource;
    lemma_signed_is_plain(expires as int);
    lemma_plain_is_one_line(time);
    let fourth = time + seq!['\n'] + end;
    let third = content_type + seq!['\n'] + fourth;
    let nothing = Seq::<char>::empty();
    let second = nothing + seq!['\n'] + third;
    assert(text =~= method + seq!['\n'] + second);
    assert(!any(method, CharClass::LineFeed));
    assert(!any(content_type, CharClass::LineFeed));
    lemma_line(time, end);
    lemma_line(content_type, fourth);
    lemma_line(nothing, third);
    lemma_line(method, second);
    crate::pieces::lemma_pieces_not_empty(end, CharClass::LineFeed);
    assert(pieces(text, CharClass::LineFeed).skip(4) =~= pieces(end, CharClass::LineFeed));
    assert(text =~= method + seq!['\n', '\n'] + content_type + seq!['\n'] + time + seq!['\n']
        + header_lines(store_headers(headers)) + resource);
}

/// Every header is signed in a line of its own, its value after a colon, and what follows the
/// headers begins in a new line.
pub proof fn signed_headers_are_lines(headers: Seq<(Seq<char>, Seq<char>)>, rest: Seq<char>)
    requires
        forall|i: int|
            0 <= i < headers.len() ==> !(#[trigger] headers[i]).0.contains('\n')
                && !headers[i].1.contains('\n'),
    ensures
        ({
            let all = pieces(header_lines(headers) + rest, CharClass::LineFeed);
            &&& all.len() > headers.len()
            &&& all.skip(headers.len() as int) == pieces(rest, CharClass::LineFeed)
            &&& forall|i: int|
                0 <= i < headers.len() ==> #[trigger] all[i] == headers[i].0 + seq![':']
                    + headers[i].1
        }),
    decreases headers.len(),
{
    let class = CharClass::LineFeed;
    crate::pieces::lemma_pieces_not_empty(rest, class);
    if headers.len() == 0 {
        assert(header_lines(headers) + rest =~= rest);
        assert(pieces(rest, class).skip(0) =~= pieces(rest, class));
    } else {
        reveal_strlit(":");
        reveal_strlit("\n");
        let before = headers.drop_last();
        let last = headers[headers.len() - 1];
        let line = last.0 + seq![':'] + last.1;
        let tail = line + seq!['\n'] + rest;
        assert(header_lines(headers) + rest =~= header_lines(before) + tail);
        assert(!any(line, class)) by {
            if any(line, class) {
                let k = choose|k: int| 0 <= k < line.len() && class.has(#[trigger] line[k]);
                if k < last.0.len() {
                    assert(last.0[k] == '\n');
                } else if k > last.0.len() {
                    assert(last.1[k - last.0.len() - 1] == '\n');
                }
            }
        }
        lemma_line(line, rest);
        signed_headers_are_lines(before, tail);
        let all = pieces(header_lines(headers) + rest, class);
        assert(all.skip(before.len() as int) == seq![line] + pieces(rest, class));
        assert(all[before.len() as int] == all.skip(before.len() as int)[0]);
        assert(all.skip(headers.len() as int) =~= all.skip(before.len() as int).skip(1));
        assert((seq![line] + pieces(rest, class)).skip(1) =~= pieces(rest, class));
        assert forall|i: int| 0 <= i < headers.len() implies #[trigger] all[i] == headers[i].0
            + seq![':'] + headers[i].1 by {
            if i < before.len() {
                assert(before[i] == headers[i]);
            }
        }
    }
}

proof fn lemma_with_header_members(
    headers: Seq<(Seq<char>, Seq<char>)>,
    header: (Seq<char>, Seq<char>),
)
    ensures
        with_header(headers, header).to_multiset() == headers.to_multiset().insert(header),
    decreases headers.len(),
{
    let none = Seq::<(Seq<char>, Seq<char>)>::empty();
    none.to_multiset_ensures();
    vstd::seq_lib::to_multiset_build(none, header);
    assert(none.push(header) =~= seq![header]);
    if headers.len() == 0 {
        assert(headers =~= Seq::empty());
    } else if header_before(header, headers[0]) {
        vstd::seq_lib::lemma_multiset_commutative(seq![header], headers);
        assert(with_header(headers, header) == seq![header] + headers);
        assert(with_header(headers, header).to_multiset() =~= headers.to_multiset().insert(header));
    } else {
        let rest = headers.drop_first();
        lemma_with_header_members(rest, header);
        vstd::seq_lib::to_multiset_build(none, headers[0]);
        assert(none.push(headers[0]) =~= seq![headers[0]]);
        vstd::seq_lib::lemma_multiset_commutative(seq![headers[0]], with_header(rest, header));
        vstd::seq_lib::lemma_multiset_commutative(seq![headers[0]], rest);
        assert(seq![headers[0]] + rest =~= headers);
        assert(with_header(headers, header) == seq![headers[0]] + with_header(rest, header));
        assert(with_header(headers, header).to_multiset() =~= headers.to_multiset().insert(header));
    }
}

/// A header takes part in the signature exactly if its name begins with `x-oss-`, whatever the case
/// of its letters. It takes part under its name in small letters, with single spaces between the
/// words of its value.
pub proof fn headers_of_the_store_are_signed(
    headers: Seq<(Seq<char>, Seq<char>)>,
    header: (Seq<char>, Seq<char>),
)
    ensures
        ({
            let name = lowered(trimmed(header.0));
            let signed = name.len() >= 6 && name[0] == 'x' && name[1] == '-' && name[2] == 'o'
                && name[3] == 's' && name[4] == 's' && name[5] == '-';
            store_headers(headers.push(header)).to_multiset() == if signed {
                store_headers(headers).to_multiset().insert(
                    (name, joined(words(header.1), seq![' '])),
                )
            } else {
                store_headers(headers).to_multiset()
            }
        }),
{
    reveal_strlit("x-oss-");
    reveal_strlit(" ");
    assert(" "@ =~= seq![' ']);
    let name = lowered(trimmed(header.0));
    let all = headers.push(header);
    assert(all.drop_last() =~= headers);
    assert(all.last() == header);
    let signed = name.len() >= 6 && name[0] == 'x' && name[1] == '-' && name[2] == 'o' && name[3]
        == 's' && name[4] == 's' && name[5] == '-';
    assert("x-oss-"@.is_prefix_of(name) == signed) by {
        if signed {
            assert(name.take(6) =~= "x-oss-"@);
        }
        if "x-oss-"@.is_prefix_of(name) {
            assert(name.subrange(0, 6) =~= "x-oss-"@);
            assert(forall|i: int| 0 <= i < 6 ==> name[i] == name.subrange(0, 6)[i]);
        }
    }
    if signed {
        lemma_with_header_members(store_headers(headers), (name, joined(words(header.1), " "@)));
    }
}

/// The resource of an object: its bucket and its key, each after a slash, and its version where one
/// is meant.
pub proof fn resources_name_bucket_key_and_version(
    bucket: Seq<char>,
    key: Seq<char>,
    version: Seq<char>,
    part: Seq<char>,
)
    ensures
        object_resource(bucket, key, None) == seq!['/'] + bucket + seq!['/'] + key,
        object_resource(bucket, key, Some(version)) == object_resource(bucket, key, None)
            + "?versionId="@ + version,
        bucket_resource(bucket, part) == object_resource(bucket, Seq::empty(), None) + seq!['?']
            + part,
{
    reveal_strlit("/");
    reveal_strlit("/?");
    assert("/"@ =~= seq!['/']);
    assert(bucket_resource(bucket, part) =~= object_resource(bucket, Seq::empty(), None) + seq!['?']
        + part);
}

/// The headers that uploads send: one of them is signed.
proof fn lemma_upload_headers()
    ensures
        header_lines(store_headers(upload_headers())) == "x-oss-forbid-overwrite:true\n"@,
{
    reveal_strlit("Content-Type");
    reveal_strlit("x-oss-forbid-overwrite");
    reveal_strlit("true");
    reveal_strlit("x-oss-");
    reveal_strlit(":");
    reveal_strlit("\n");
    reveal_strlit(" ");
    reveal_strlit("x-oss-forbid-overwrite:true\n");
    let all = upload_headers();
    let one = all.drop_last();
    assert(one =~= seq![all[0]]);
    let first = "Content-Type"@;
    trimmed_keeps(first, CharClass::White);
    assert(lowered(first)[0] == 'c');
    assert(!"x-oss-"@.is_prefix_of(lowered(trimmed(one.last().0)))) by {
        if "x-oss-"@.is_prefix_of(lowered(first)) {
            assert(lowered(first).subrange(0, 6)[0] == 'x');
        }
    }
    assert(one.drop_last() =~= Seq::<(Seq<char>, Seq<char>)>::empty());
    assert(store_headers(one) == store_headers(one.drop_last()));
    let name = "x-oss-forbid-overwrite"@;
    trimmed_keeps(name, CharClass::White);
    assert(lowered(name) =~= name);
    assert(name.take(6) =~= "x-oss-"@);
    let value = "true"@;
    texts_without_white_space_are_words(value);
    assert(joined(seq![value], " "@) == value);
    assert(store_headers(all) =~= seq![(name, value)]);
    let signed = seq![(name, value)];
    assert(signed.drop_last() =~= Seq::<(Seq<char>, Seq<char>)>::empty());
    assert(header_lines(signed.drop_last()) == Seq::<char>::empty());
    assert(header_lines(signed) =~= "x-oss-forbid-overwrite:true\n"@);
}

/// The parameters by which a request shows who signed it, until when, and with what.
pub open spec fn shows_signature(
    settings: OssSettings,
    query: Seq<char>,
    before: Seq<char>,
    expires: int,
    text: Seq<char>,
) -> bool {
    query == before + "OSSAccessKeyId="@ + form_encoded(encode_utf8(settings.access_key_id))
        + "&Expires="@ + signed_decimal(expires) + "&Signature="@ + form_encoded(
        encode_utf8(
            base64_standard(hmac_sha1(encode_utf8(settings.access_key_secret), encode_utf8(text))),
        ),
    )
}

/// An upload is a `PUT` of bytes that does not overwrite: the text that it signs says so, and it
/// holds as long as uploads may take.
pub proof fn uploads_sign_what_they_send(
    settings: OssSettings,
    key: Seq<char>,
    now: i64,
    upload: PresignedUpload,
)
    requires
        upload_signed_at(settings, key, now, Ok(upload)),
        missing(settings) is None,
        now + settings.upload_ttl <= i64::MAX,
        now >= 0,
        settings.upload_ttl >= 0,
    ensures
        object_key(key) is Ok,
        ({
            let expires = now + settings.upload_ttl;
            let text = "PUT\n\napplication/octet-stream\n"@ + signed_decimal(expires)
                + "\nx-oss-forbid-overwrite:true\n/"@ + settings.bucket + "/"@ + object_key(
                key,
            )->Ok_0;
            exists|query: Seq<char>|
                shows_signature(settings, query, Seq::empty(), expires, text) && Ok::<
                    Seq<char>,
                    StorageFault,
                >(upload.url@) == #[trigger] address(
                    settings.endpoint,
                    settings.bucket,
                    "/"@ + escaped_path(object_key(key)->Ok_0),
                    Some(query),
                )
        }),
        upload.method@ == "PUT"@,
        header_views(upload.headers@) == seq![
            ("Content-Type"@, "application/octet-stream"@),
            ("x-oss-forbid-overwrite"@, "true"@),
        ],
        upload.expires_at@ == timestamp(now + settings.upload_ttl),
{
    let expires = (now + settings.upload_ttl) as i64;
    let accepted = object_key(key)->Ok_0;
    lemma_upload_headers();
    reveal_strlit("PUT");
    reveal_strlit("\n\n");
    reveal_strlit("application/octet-stream");
    reveal_strlit("\n");
    reveal_strlit("/");
    reveal_strlit("x-oss-forbid-overwrite:true\n");
    reveal_strlit("PUT\n\napplication/octet-stream\n");
    reveal_strlit("\nx-oss-forbid-overwrite:true\n/");
    let resource = object_resource(settings.bucket, accepted, None);
    let text = text_to_sign(
        "PUT"@,
        "application/octet-stream"@,
        expires,
        upload_headers(),
        resource,
    );
    let written = "PUT\n\napplication/octet-stream\n"@ + signed_decimal(expires as int)
        + "\nx-oss-forbid-overwrite:true\n/"@ + settings.bucket + "/"@ + accepted;
    assert(text =~= written);
    let query = object_query(
        settings,
        "PUT"@,
        accepted,
        "application/octet-stream"@,
        expires,
        upload_headers(),
        None,
    );
    assert(query =~= Seq::<char>::empty() + "OSSAccessKeyId="@ + form_encoded(
        encode_utf8(settings.access_key_id),
    ) + "&Expires="@ + signed_decimal(expires as int) + "&Signature="@ + form_encoded(
        encode_utf8(
            base64_standard(
                hmac_sha1(encode_utf8(settings.access_key_secret), encode_utf8(written)),
            ),
        ),
    ));
    assert(shows_signature(settings, query, Seq::empty(), expires as int, written));
}

/// The parameter that names a version, where one is meant.
pub open spec fn version_parameter(version: Option<Seq<char>>) -> Seq<char> {
    match version {
        Some(id) => "versionId="@ + form_encoded(encode_utf8(id)) + "&"@,
        None => Seq::empty(),
    }
}

proof fn lemma_empty_request(
    settings: OssSettings,
    method: Seq<char>,
    key: Seq<char>,
    expires: i64,
    version: Option<Seq<char>>,
)
    ensures
        shows_signature(
            settings,
            object_query(settings, method, key, Seq::empty(), expires, Seq::empty(), version),
            version_parameter(version),
            expires as int,
            method + "\n\n\n"@ + signed_decimal(expires as int) + "\n"@ + object_resource(
                settings.bucket,
                key,
                version,
            ),
        ),
{
    reveal_strlit("\n\n");
    reveal_strlit("\n");
    reveal_strlit("\n\n\n");
    let resource = object_resource(settings.bucket, key, version);
    let none = Seq::<(Seq<char>, Seq<char>)>::empty();
    assert(store_headers(none) == none);
    assert(header_lines(none) == Seq::<char>::empty());
    let text = text_to_sign(method, Seq::empty(), expires, none, resource);
    let written = method + "\n\n\n"@ + signed_decimal(expires as int) + "\n"@ + resource;
    assert(text =~= written);
    let query = object_query(settings, method, key, Seq::empty(), expires, none, version);
    assert(query =~= version_parameter(version) + "OSSAccessKeyId="@ + form_encoded(
        encode_utf8(settings.access_key_id),
    ) + "&Expires="@ + signed_decimal(expires as int) + "&Signature="@ + form_encoded(
        encode_utf8(
            base64_standard(
                hmac_sha1(encode_utf8(settings.access_key_secret), encode_utf8(written)),
            ),
        ),
    ));
}

/// A download is a `GET` without content, of a version where one is named, and holds as long as
/// downloads may take.
pub proof fn downloads_sign_what_they_fetch(
    settings: OssSettings,
    key: Seq<char>,
    version: Option<Seq<char>>,
    now: i64,
    download: PresignedDownload,
)
    requires
        download_signed_at(settings, key, version, now, Ok(download)),
        missing(settings) is None,
        now + settings.download_ttl <= i64::MAX,
        now >= 0,
        settings.download_ttl >= 0,
    ensures
        object_key(key) is Ok,
        optional_version(version, true) is Ok,
        ({
            let expires = now + settings.download_ttl;
            let accepted = object_key(key)->Ok_0;
            let id = optional_version(version, true)->Ok_0;
            let text = "GET"@ + "\n\n\n"@ + signed_decimal(expires) + "\n"@ + object_resource(
                settings.bucket,
                accepted,
                id,
            );
            exists|query: Seq<char>|
                shows_signature(settings, query, version_parameter(id), expires, text) && Ok::<
                    Seq<char>,
                    StorageFault,
                >(download.url@) == #[trigger] address(
                    settings.endpoint,
                    settings.bucket,
                    "/"@ + escaped_path(accepted),
                    Some(query),
                )
        }),
        download.expires_at@ == timestamp(now + settings.download_ttl),
{
    let expires = (now + settings.download_ttl) as i64;
    let accepted = object_key(key)->Ok_0;
    let id = optional_version(version, true)->Ok_0;
    lemma_empty_request(settings, "GET"@, accepted, expires, id);
}

/// A deletion is a `DELETE` without content, of a version where one is named.
pub proof fn deletions_sign_what_they_delete(
    settings: OssSettings,
    key: Seq<char>,
    version: Option<Seq<char>>,
    now: i64,
)
    requires
        delete_signed_at(settings, key, version, now) is Ok,
        now + settings.download_ttl <= i64::MAX,
        now >= 0,
        settings.download_ttl >= 0,
    ensures
        missing(settings) is None,
        object_key(key) is Ok,
        optional_version(version, false) is Ok,
        ({
            let expires = now + settings.download_ttl;
            let accepted = object_key(key)->Ok_0;
            let id = optional_version(version, false)->Ok_0;
            let text = "DELETE"@ + "\n\n\n"@ + signed_decimal(expires) + "\n"@ + object_resource(
                settings.bucket,
                accepted,
                id,
            );
            exists|query: Seq<char>|
                shows_signature(settings, query, version_parameter(id), expires, text)
                    && delete_signed_at(settings, key, version, now) == #[trigger] address(
                    settings.endpoint,
                    settings.bucket,
                    "/"@ + escaped_path(accepted),
                    Some(query),
                )
        }),
{
    let expires = (now + settings.download_ttl) as i64;
    let accepted = object_key(key)->Ok_0;
    let id = optional_version(version, false)->Ok_0;
    lemma_empty_request(settings, "DELETE"@, accepted, expires, id);
}

/// A parameter that says where a listing goes on, where it does.
pub open spec fn marker_parameter(name: Seq<char>, value: Option<Seq<char>>) -> Seq<char> {
    match value {
        Some(text) => name + "="@ + form_encoded(encode_utf8(text)) + "&"@,
        None => Seq::empty(),
    }
}

/// A listing is a `GET` of the bucket's versions, of those whose keys begin with the given one, at
/// most 999 at a time. It goes on after a version only where it goes on after a key.
pub proof fn listings_sign_what_they_list(
    settings: OssSettings,
    key: Seq<char>,
    key_marker: Option<Seq<char>>,
    version_marker: Option<Seq<char>>,
    now: i64,
)
    requires
        versions_signed_at(settings, key, key_marker, version_marker, now) is Ok,
        now + settings.download_ttl <= i64::MAX,
        now >= 0,
        settings.download_ttl >= 0,
    ensures
        missing(settings) is None,
        object_key(key) is Ok,
        optional_key(key_marker) is Ok,
        optional_version(version_marker, false) is Ok,
        optional_version(version_marker, false)->Ok_0 is Some ==> optional_key(
            key_marker,
        )->Ok_0 is Some,
        ({
            let expires = now + settings.download_ttl;
            let accepted = object_key(key)->Ok_0;
            let text = "GET\n\n\n"@ + signed_decimal(expires) + "\n/"@ + settings.bucket
                + "/?versions"@;
            let before = "versions&prefix="@ + form_encoded(encode_utf8(accepted))
                + "&max-keys=999&"@ + marker_parameter(
                "key-marker"@,
                optional_key(key_marker)->Ok_0,
            ) + marker_parameter(
                "version-id-marker"@,
                optional_version(version_marker, false)->Ok_0,
            );
            exists|query: Seq<char>|
                shows_signature(settings, query, before, expires, text) && versions_signed_at(
                    settings,
                    key,
                    key_marker,
                    version_marker,
                    now,
                ) == #[trigger] address(settings.endpoint, settings.bucket, "/"@, Some(query))
        }),
{
    let expires = (now + settings.download_ttl) as i64;
    let accepted = object_key(key)->Ok_0;
    let from_key = optional_key(key_marker)->Ok_0;
    let from_version = optional_version(version_marker, false)->Ok_0;
    reveal_strlit("GET");
    reveal_strlit("\n\n");
    reveal_strlit("\n");
    reveal_strlit("/");
    reveal_strlit("/?");
    reveal_strlit("versions");
    reveal_strlit("GET\n\n\n");
    reveal_strlit("\n/");
    reveal_strlit("/?versions");
    reveal_strlit("&");
    reveal_strlit("=");
    reveal_strlit("&max-keys=");
    reveal_strlit("&max-keys=999&");
    reveal_strlit("key-marker");
    reveal_strlit("key-marker=");
    reveal_strlit("version-id-marker");
    reveal_strlit("version-id-marker=");
    let none = Seq::<(Seq<char>, Seq<char>)>::empty();
    assert(store_headers(none) == none);
    assert(header_lines(none) == Seq::<char>::empty());
    let text = text_to_sign(
        "GET"@,
        Seq::empty(),
        expires,
        none,
        bucket_resource(settings.bucket, "versions"@),
    );
    let written = "GET\n\n\n"@ + signed_decimal(expires as int) + "\n/"@ + settings.bucket
        + "/?versions"@;
    assert(text =~= written);
    assert(decimal(999) =~= seq!['9', '9', '9']) by {
        reveal_with_fuel(decimal, 4);
    }
    assert(marker("key-marker="@, from_key) =~= marker_parameter("key-marker"@, from_key)) by {
        assert("key-marker="@ =~= "key-marker"@ + "="@);
    }
    assert(marker("version-id-marker="@, from_version) =~= marker_parameter(
        "version-id-marker"@,
        from_version,
    )) by {
        assert("version-id-marker="@ =~= "version-id-marker"@ + "="@);
    }
    assert("&max-keys="@ + decimal(999) + "&"@ =~= "&max-keys=999&"@);
    let before = "versions&prefix="@ + form_encoded(encode_utf8(accepted)) + "&max-keys=999&"@
        + marker_parameter("key-marker"@, from_key) + marker_parameter(
        "version-id-marker"@,
        from_version,
    );
    let query = versions_query(settings, accepted, from_key, from_version, expires);
    assert(query =~= before + "OSSAccessKeyId="@ + form_encoded(
        encode_utf8(settings.access_key_id),
    ) + "&Expires="@ + signed_decimal(expires as int) + "&Signature="@ + form_encoded(
        encode_utf8(
            base64_standard(
                hmac_sha1(encode_utf8(settings.access_key_secret), encode_utf8(written)),
            ),
        ),
    ));
    assert(shows_signature(settings, query, before, expires as int, written));
}

/// A request goes to the bucket's own host: the bucket's name, a dot and the host of the endpoint.
pub proof fn requests_go_to_the_host_of_the_bucket(
    endpoint: Seq<char>,
    bucket: Seq<char>,
    path: Seq<char>,
    query: Option<Seq<char>>,
    scheme: Seq<char>,
    host: Seq<char>,
)
    requires
        url_parts(endpoint) == Some((scheme, Some(host))),
    ensures
        address(endpoint, bucket, path, query) is Ok <==> changed_url(
            endpoint,
            bucket + seq!['.'] + host,
            path,
            query,
        ) is Some,
        address(endpoint, bucket, path, query) matches Ok(url) ==> changed_url(
            endpoint,
            bucket + seq!['.'] + host,
            path,
            query,
        ) == Some(url),
{
    reveal_strlit(".");
    assert("."@ =~= seq!['.']);
}

/// A version that is blank is no version. Any other must be one that can be deleted, and one that
/// stays what it is where it is to be fetched.
pub proof fn blank_versions_are_none(version: Seq<char>, pinned: bool)
    ensures
        optional_version(None, pinned) == Ok::<Option<Seq<char>>, StorageFault>(None),
        optional_version(Some(version), pinned) == Ok::<Option<Seq<char>>, StorageFault>(None)
            <==> trimmed(version).len() == 0,
        trimmed(version) == "null"@ ==> optional_version(Some(version), true) is Err,
{
    reveal_strlit("null");
}

} // verus!
