//! The answers of an object store: what is read, deleted and listed there.

use vstd::prelude::*;
use vstd::utf8::{decode_utf8, valid_utf8};

use super::config::{
    deletable_version_id, invalid, normalize_deletable_object_version_id, normalize_object_key,
    normalize_object_version_id, object_key, object_version_id, AliyunOssConfig,
    ArtifactStorageError, StorageFault,
};
use super::signing::{as_text, versions_signed_at};
use crate::bytes::{extend_bytes, text_from_utf8};
use crate::decimal::{decimal, natural_text};
use crate::digest::{sha256_hex, Sha256Stream};
use crate::pieces::option_text;
use crate::text::{blank, is_blank, same_text, trim, trimmed};
use crate::urls::option_str;

verus! {

pub const MAX_ARTIFACT_OBJECT_BYTES: u64 = 5 * 1024 * 1024 * 1024;

pub const OSS_LIST_OBJECT_VERSIONS_MAX_RESPONSE_BYTES: usize = 8 * 1024 * 1024;

pub const OSS_LIST_OBJECT_VERSIONS_MAX_PAGES: usize = 1_000;

#[derive(Clone, Debug, PartialEq, Eq)]
pub struct VerifiedArtifactObject {
    pub checksum_sha256: String,
    pub size_bytes: u64,
    pub version_id: Option<String>,
}

#[derive(Clone, Debug, PartialEq, Eq)]
pub struct ArtifactObjectVersion {
    pub version_id: Option<String>,
    pub is_delete_marker: bool,
}

pub(crate) fn internal(message: &str) -> (error: ArtifactStorageError)
    ensures
        error@ == StorageFault::Internal(message@),
{
    ArtifactStorageError::Internal(message.to_owned())
}

/// A status that says that the request was carried out.
pub open spec fn is_success(status: u16) -> bool {
    200 <= status <= 299
}

/// An error, where there is one.
pub open spec fn fault_of(result: Result<(), ArtifactStorageError>) -> Option<StorageFault> {
    match result {
        Ok(_) => None,
        Err(error) => Some(error@),
    }
}

// ---------------------------------------------------------------------------
// Reading an object to verify it
// ---------------------------------------------------------------------------

/// An object of that size is accepted.
pub open spec fn object_fits(size: int) -> bool {
    size <= MAX_ARTIFACT_OBJECT_BYTES
}

pub open spec fn too_large() -> StorageFault {
    StorageFault::InvalidInput(
        "OSS 上传对象超过最大允许大小 "@ + decimal(MAX_ARTIFACT_OBJECT_BYTES as nat) + " 字节"@,
    )
}

fn too_large_error() -> (error: ArtifactStorageError)
    ensures
        error@ == too_large(),
{
    invalid(
        "OSS 上传对象超过最大允许大小 ".to_owned().concat(
            natural_text(MAX_ARTIFACT_OBJECT_BYTES).as_str(),
        ).concat(" 字节").as_str(),
    )
}

/// What is wrong with the answer to a read, before its body is read.
pub open spec fn read_fault(
    status: u16,
    status_text: Seq<char>,
    content_length: Option<u64>,
) -> Option<StorageFault> {
    if status == 404 {
        Some(StorageFault::InvalidInput("OSS 上传对象不存在，请先完成文件上传"@))
    } else if !is_success(status) {
        Some(StorageFault::Internal("读取 OSS 上传对象失败，响应状态为 "@ + status_text))
    } else if content_length is Some && content_length->0 > MAX_ARTIFACT_OBJECT_BYTES {
        Some(too_large())
    } else {
        None
    }
}

/// What the answer says of the version: nothing, a text, or bytes that are no text.
#[derive(Clone, Debug)]
pub enum VersionHeader {
    Absent,
    Text(String),
    NotText,
}

pub open spec fn version_of(header: VersionHeader) -> Result<Option<Seq<char>>, StorageFault> {
    match header {
        VersionHeader::Absent => Ok(None),
        VersionHeader::Text(value) => match object_version_id(value@) {
            Ok(id) => Ok(Some(id)),
            Err(fault) => Err(fault),
        },
        VersionHeader::NotText => Err(StorageFault::Internal("OSS 返回的对象版本号格式无效"@)),
    }
}

/// An object that is being read: how much of it has arrived, and in which version it is.
pub struct ObjectReading {
    size_bytes: u64,
    stream: Sha256Stream,
    version_id: Option<String>,
}

impl ObjectReading {
    /// What has arrived.
    pub closed spec fn bytes(self) -> Seq<u8> {
        self.stream.bytes()
    }

    pub closed spec fn version(self) -> Option<Seq<char>> {
        option_text(self.version_id)
    }

    /// What has arrived is counted and hashed, and is no more than an object may hold.
    pub closed spec fn wf(self) -> bool {
        &&& self.stream.wf()
        &&& self.size_bytes == self.bytes().len()
        &&& self.size_bytes <= MAX_ARTIFACT_OBJECT_BYTES
    }

    /// No more has arrived than an object may hold.
    pub proof fn size_is_bounded(self)
        requires
            self.wf(),
        ensures
            self.bytes().len() <= MAX_ARTIFACT_OBJECT_BYTES,
    {
    }

    /// Accepts the answer to a read before its body is read.
    pub fn begin(
        status: u16,
        status_text: &str,
        content_length: Option<u64>,
        header: VersionHeader,
    ) -> (result: Result<ObjectReading, ArtifactStorageError>)
        ensures
            match result {
                Ok(reading) => {
                    &&& read_fault(status, status_text@, content_length) is None
                    &&& version_of(header) == Ok::<Option<Seq<char>>, StorageFault>(
                        reading.version(),
                    )
                    &&& reading.bytes() == Seq::<u8>::empty()
                    &&& reading.wf()
                },
                Err(error) => match read_fault(status, status_text@, content_length) {
                    Some(fault) => error@ == fault,
                    None => version_of(header) == Err::<Option<Seq<char>>, StorageFault>(error@),
                },
            },
    {
        if status == 404 {
            return Err(invalid("OSS 上传对象不存在，请先完成文件上传"));
        }
        if status < 200 || status > 299 {
            return Err(
                internal(
                    "读取 OSS 上传对象失败，响应状态为 ".to_owned().concat(status_text).as_str(),
                ),
            );
        }
        match content_length {
            Some(length) => {
                if length > MAX_ARTIFACT_OBJECT_BYTES {
                    return Err(too_large_error());
                }
            },
            None => {},
        }
        let version_id = match header {
            VersionHeader::Absent => None,
            VersionHeader::Text(value) => match normalize_object_version_id(value.as_str()) {
                Ok(id) => Some(id),
                Err(error) => return Err(error),
            },
            VersionHeader::NotText => return Err(internal("OSS 返回的对象版本号格式无效")),
        };
        Ok(ObjectReading { size_bytes: 0, stream: Sha256Stream::new(), version_id })
    }

    /// Takes a chunk of the body; an object that is too large is refused.
    pub fn add_chunk(&mut self, chunk: &[u8]) -> (result: Result<(), ArtifactStorageError>)
        requires
            old(self).wf(),
        ensures
            final(self).wf(),
            match result {
                Ok(_) => {
                    &&& old(self).bytes().len() + chunk@.len() <= MAX_ARTIFACT_OBJECT_BYTES
                    &&& final(self).bytes() == old(self).bytes() + chunk@
                    &&& final(self).version() == old(self).version()
                },
                Err(error) => {
                    &&& old(self).bytes().len() + chunk@.len() > MAX_ARTIFACT_OBJECT_BYTES
                    &&& *final(self) == *old(self)
                    &&& error@ == (if old(self).bytes().len() + chunk@.len() > u64::MAX {
                        StorageFault::Internal("OSS 上传对象大小超出支持范围"@)
                    } else {
                        too_large()
                    })
                },
            },
            result is Ok <==> object_fits((old(self).bytes().len() + chunk@.len()) as int),
    {
        let length: u64 = chunk.len() as u64;
        if length > u64::MAX - self.size_bytes {
            return Err(internal("OSS 上传对象大小超出支持范围"));
        }
        let size: u64 = self.size_bytes + length;
        if size > MAX_ARTIFACT_OBJECT_BYTES {
            return Err(too_large_error());
        }
        self.stream.update(chunk);
        self.size_bytes = size;
        Ok(())
    }

    /// The object that was read.
    pub fn finish(self) -> (object: VerifiedArtifactObject)
        requires
            self.wf(),
        ensures
            object.checksum_sha256@ == sha256_hex(self.bytes()),
            object.size_bytes == self.bytes().len(),
            option_text(object.version_id) == self.version(),
    {
        VerifiedArtifactObject {
            checksum_sha256: self.stream.finish(),
            size_bytes: self.size_bytes,
            version_id: self.version_id,
        }
    }
}

// ---------------------------------------------------------------------------
// Deleting an object
// ---------------------------------------------------------------------------

/// What is wrong with the answer to a deletion.
pub open spec fn delete_fault(status: u16, status_text: Seq<char>) -> Option<StorageFault> {
    if is_success(status) || status == 404 {
        None
    } else {
        Some(StorageFault::Internal("删除 OSS 上传对象失败，响应状态为 "@ + status_text))
    }
}

/// The outcome of a deletion: an object that does not exist counts as deleted.
pub fn accept_delete_status(status: u16, status_text: &str) -> (result: Result<
    (),
    ArtifactStorageError,
>)
    ensures
        fault_of(result) == delete_fault(status, status_text@),
{
    if (200 <= status && status <= 299) || status == 404 {
        return Ok(());
    }
    Err(internal("删除 OSS 上传对象失败，响应状态为 ".to_owned().concat(status_text).as_str()))
}

// ---------------------------------------------------------------------------
// Listing the versions of an object
// ---------------------------------------------------------------------------

/// What is wrong with the answer to a listing, before its body is read.
pub open spec fn listing_fault(
    status: u16,
    status_text: Seq<char>,
    content_length: Option<u64>,
) -> Option<StorageFault> {
    if !is_success(status) {
        Some(
            StorageFault::Internal(
                "枚举 OSS 上传对象版本失败，响应状态为 "@ + status_text
                    + "；请确认 AccessKey 具备 oss:ListObjectVersions 权限"@,
            ),
        )
    } else if content_length is Some && content_length->0
        > OSS_LIST_OBJECT_VERSIONS_MAX_RESPONSE_BYTES {
        Some(StorageFault::Internal("OSS 对象版本列表响应超过 8 MiB 上限"@))
    } else {
        None
    }
}

pub fn accept_listing_status(
    status: u16,
    status_text: &str,
    content_length: Option<u64>,
) -> (result: Result<(), ArtifactStorageError>)
    ensures
        fault_of(result) == listing_fault(status, status_text@, content_length),
{
    if status < 200 || status > 299 {
        return Err(
            internal(
                "枚举 OSS 上传对象版本失败，响应状态为 ".to_owned().concat(status_text).concat(
                    "；请确认 AccessKey 具备 oss:ListObjectVersions 权限",
                ).as_str(),
            ),
        );
    }
    match content_length {
        Some(length) => {
            if length > OSS_LIST_OBJECT_VERSIONS_MAX_RESPONSE_BYTES as u64 {
                return Err(internal("OSS 对象版本列表响应超过 8 MiB 上限"));
            }
        },
        None => {},
    }
    Ok(())
}

/// Appends a chunk of a response, unless the response would become too long.
pub fn append_bounded_oss_response_chunk(
    body: &mut Vec<u8>,
    chunk: &[u8],
    max_bytes: usize,
) -> (result: Result<(), ArtifactStorageError>)
    ensures
        match result {
            Ok(_) => {
                &&& old(body)@.len() + chunk@.len() <= max_bytes
                &&& final(body)@ == old(body)@ + chunk@
            },
            Err(error) => {
                &&& old(body)@.len() + chunk@.len() > max_bytes
                &&& final(body)@ == old(body)@
                &&& error@ == (if old(body)@.len() + chunk@.len() > usize::MAX {
                    StorageFault::Internal("OSS 对象版本列表响应大小溢出"@)
                } else {
                    StorageFault::Internal(
                        "OSS 对象版本列表响应超过 "@ + decimal(max_bytes as nat) + " 字节上限"@,
                    )
                })
            },
        },
{
    if chunk.len() > usize::MAX - body.len() {
        return Err(internal("OSS 对象版本列表响应大小溢出"));
    }
    let next_size: usize = body.len() + chunk.len();
    if next_size > max_bytes {
        return Err(
            internal(
                "OSS 对象版本列表响应超过 ".to_owned().concat(
                    natural_text(max_bytes as u64).as_str(),
                ).concat(" 字节上限").as_str(),
            ),
        );
    }
    extend_bytes(body, chunk);
    Ok(())
}

/// The text of a response.
pub fn oss_response_text(body: Vec<u8>) -> (result: Result<String, ArtifactStorageError>)
    ensures
        match result {
            Ok(text) => valid_utf8(body@) && text@ == decode_utf8(body@),
            Err(error) => !valid_utf8(body@) && error@ == StorageFault::Internal(
                "OSS 对象版本列表响应不是有效 UTF-8"@,
            ),
        },
{
    match text_from_utf8(body) {
        Some(text) => Ok(text),
        None => Err(internal("OSS 对象版本列表响应不是有效 UTF-8")),
    }
}

/// A version of an object in a listing.
#[derive(Clone, Debug)]
pub struct OssListedObjectVersion {
    pub key: String,
    pub version_id: Option<String>,
}

/// A page of a listing as the object store writes it.
#[derive(Clone, Debug)]
pub struct OssObjectVersionsPageResponse {
    pub is_truncated: Option<String>,
    pub next_key_marker: Option<String>,
    pub next_version_id_marker: Option<String>,
    pub versions: Vec<OssListedObjectVersion>,
    pub delete_markers: Vec<OssListedObjectVersion>,
}

/// A page of a listing.
#[derive(Clone, Debug)]
pub struct OssObjectVersionsPage {
    pub is_truncated: bool,
    pub next_key_marker: Option<String>,
    pub next_version_id_marker: Option<String>,
    pub versions: Vec<OssListedObjectVersion>,
    pub delete_markers: Vec<OssListedObjectVersion>,
}

/// Whether another page follows, where the page says so.
pub open spec fn truncation(text: Option<Seq<char>>) -> Option<bool> {
    match text {
        Some(value) => if trimmed(value) == "true"@ {
            Some(true)
        } else if trimmed(value) == "false"@ {
            Some(false)
        } else {
            None
        },
        None => None,
    }
}

/// Accepts a page that says whether another one follows.
pub fn parse_oss_object_versions_page(response: OssObjectVersionsPageResponse) -> (result: Result<
    OssObjectVersionsPage,
    ArtifactStorageError,
>)
    ensures
        match result {
            Ok(page) => {
                &&& truncation(option_text(response.is_truncated)) == Some(page.is_truncated)
                &&& page.next_key_marker == response.next_key_marker
                &&& page.next_version_id_marker == response.next_version_id_marker
                &&& page.versions == response.versions
                &&& page.delete_markers == response.delete_markers
            },
            Err(error) => {
                &&& truncation(option_text(response.is_truncated)) is None
                &&& error@ == StorageFault::Internal(
                    "OSS 对象版本列表缺少或包含无效的 IsTruncated"@,
                )
            },
        },
{
    let is_truncated = match &response.is_truncated {
        Some(value) => {
            let text = trim(value.as_str());
            if same_text(text.as_str(), "true") {
                Some(true)
            } else if same_text(text.as_str(), "false") {
                proof {
                    reveal_strlit("true");
                    reveal_strlit("false");
                }
                Some(false)
            } else {
                None
            }
        },
        None => None,
    };
    match is_truncated {
        Some(more) => Ok(
            OssObjectVersionsPage {
                is_truncated: more,
                next_key_marker: response.next_key_marker,
                next_version_id_marker: response.next_version_id_marker,
                versions: response.versions,
                delete_markers: response.delete_markers,
            },
        ),
        None => Err(internal("OSS 对象版本列表缺少或包含无效的 IsTruncated")),
    }
}

/// A listed version as a mathematical value.
pub struct ListedVersion {
    pub id: Option<Seq<char>>,
    pub is_delete_marker: bool,
}

impl View for ArtifactObjectVersion {
    type V = ListedVersion;

    open spec fn view(&self) -> ListedVersion {
        ListedVersion {
            id: option_text(self.version_id),
            is_delete_marker: self.is_delete_marker,
        }
    }
}

pub open spec fn version_views(versions: Seq<ArtifactObjectVersion>) -> Seq<ListedVersion> {
    versions.map_values(|version: ArtifactObjectVersion| version@)
}

/// What an item of a listing says of a version; a blank identifier is none.
pub open spec fn listed_version(item: OssListedObjectVersion, is_delete_marker: bool) -> Result<
    ListedVersion,
    StorageFault,
> {
    match item.version_id {
        Some(value) => if is_blank(value@) {
            Ok(ListedVersion { id: None, is_delete_marker })
        } else {
            match deletable_version_id(value@) {
                Ok(id) => Ok(ListedVersion { id: Some(id), is_delete_marker }),
                Err(fault) => Err(fault),
            }
        },
        None => Ok(ListedVersion { id: None, is_delete_marker }),
    }
}

pub fn artifact_object_version_from_list_item(
    item: &OssListedObjectVersion,
    is_delete_marker: bool,
) -> (result: Result<ArtifactObjectVersion, ArtifactStorageError>)
    ensures
        match result {
            Ok(version) => listed_version(*item, is_delete_marker) == Ok::<
                ListedVersion,
                StorageFault,
            >(version@),
            Err(error) => listed_version(*item, is_delete_marker) == Err::<
                ListedVersion,
                StorageFault,
            >(error@),
        },
{
    match &item.version_id {
        Some(value) => {
            if blank(value.as_str()) {
                return Ok(ArtifactObjectVersion { version_id: None, is_delete_marker });
            }
            match normalize_deletable_object_version_id(value.as_str()) {
                Ok(id) => Ok(ArtifactObjectVersion { version_id: Some(id), is_delete_marker }),
                Err(error) => Err(error),
            }
        },
        None => Ok(ArtifactObjectVersion { version_id: None, is_delete_marker }),
    }
}

/// The versions of the object among the items of a page, after the ones that are known.
pub open spec fn versions_of_key(
    known: Seq<ListedVersion>,
    items: Seq<OssListedObjectVersion>,
    key: Seq<char>,
    is_delete_marker: bool,
) -> Result<Seq<ListedVersion>, StorageFault>
    decreases items.len(),
{
    if items.len() == 0 {
        Ok(known)
    } else {
        match versions_of_key(known, items.drop_last(), key, is_delete_marker) {
            Err(fault) => Err(fault),
            Ok(before) => if items.last().key@ == key {
                match listed_version(items.last(), is_delete_marker) {
                    Ok(version) => Ok(before.push(version)),
                    Err(fault) => Err(fault),
                }
            } else {
                Ok(before)
            },
        }
    }
}

proof fn lemma_listing_fails(
    known: Seq<ListedVersion>,
    items: Seq<OssListedObjectVersion>,
    key: Seq<char>,
    is_delete_marker: bool,
    count: int,
)
    requires
        0 <= count <= items.len(),
        versions_of_key(known, items.take(count), key, is_delete_marker) is Err,
    ensures
        versions_of_key(known, items, key, is_delete_marker) == versions_of_key(
            known,
            items.take(count),
            key,
            is_delete_marker,
        ),
    decreases items.len() - count,
{
    if count < items.len() {
        assert(items.take(count + 1).drop_last() =~= items.take(count));
        lemma_listing_fails(known, items, key, is_delete_marker, count + 1);
    } else {
        assert(items.take(count) =~= items);
    }
}

fn collect_versions(
    listed: &mut Vec<ArtifactObjectVersion>,
    items: &Vec<OssListedObjectVersion>,
    key: &str,
    is_delete_marker: bool,
) -> (result: Result<(), ArtifactStorageError>)
    ensures
        match result {
            Ok(_) => versions_of_key(
                version_views(old(listed)@),
                items@,
                key@,
                is_delete_marker,
            ) == Ok::<Seq<ListedVersion>, StorageFault>(version_views(final(listed)@)),
            Err(error) => versions_of_key(
                version_views(old(listed)@),
                items@,
                key@,
                is_delete_marker,
            ) == Err::<Seq<ListedVersion>, StorageFault>(error@),
        },
{
    let ghost known = version_views(listed@);
    let mut i: usize = 0;
    assert(items@.take(0) =~= Seq::empty());
    while i < items.len()
        invariant
            i <= items@.len(),
            known == version_views(old(listed)@),
            versions_of_key(known, items@.take(i as int), key@, is_delete_marker) == Ok::<
                Seq<ListedVersion>,
                StorageFault,
            >(version_views(listed@)),
        decreases items@.len() - i,
    {
        assert(items@.take(i + 1).drop_last() =~= items@.take(i as int));
        let ghost before = version_views(listed@);
        if same_text(items[i].key.as_str(), key) {
            match artifact_object_version_from_list_item(&items[i], is_delete_marker) {
                Ok(version) => {
                    listed.push(version);
                    assert(version_views(listed@) =~= before.push(version@));
                },
                Err(error) => {
                    proof {
                        lemma_listing_fails(known, items@, key@, is_delete_marker, i + 1);
                    }
                    return Err(error);
                },
            }
        }
        i = i + 1;
    }
    assert(items@.take(i as int) =~= items@);
    Ok(())
}

// ---------------------------------------------------------------------------
// The versions that were listed
// ---------------------------------------------------------------------------

/// What is wrong with the versions that were listed.
pub open spec fn versions_fault(versions: Seq<ListedVersion>) -> Option<StorageFault> {
    if exists|i: int|
        0 <= i < versions.len() && (#[trigger] versions[i]).is_delete_marker && versions[i].id
            is None {
        Some(StorageFault::Internal("OSS 删除标记缺少版本号，拒绝将对象标记为已清理"@))
    } else if (exists|i: int| 0 <= i < versions.len() && (#[trigger] versions[i]).id is Some) && (
    exists|i: int| 0 <= i < versions.len() && (#[trigger] versions[i]).id is None) {
        Some(StorageFault::Internal("OSS 对象版本列表混入未标识版本，拒绝将对象标记为已清理"@))
    } else {
        None
    }
}

/// The identifier occurs among the versions.
pub open spec fn has_id(versions: Seq<ListedVersion>, id: Option<Seq<char>>) -> bool {
    exists|i: int| 0 <= i < versions.len() && (#[trigger] versions[i]).id == id
}

/// The first version of each identifier, in order.
pub open spec fn distinct_versions(versions: Seq<ListedVersion>) -> Seq<ListedVersion>
    decreases versions.len(),
{
    if versions.len() == 0 {
        versions
    } else {
        let before = distinct_versions(versions.drop_last());
        if has_id(before, versions.last().id) {
            before
        } else {
            before.push(versions.last())
        }
    }
}

fn same_id(left: &Option<String>, right: &Option<String>) -> (same: bool)
    ensures
        same == (option_text(*left) == option_text(*right)),
{
    match (left, right) {
        (Some(a), Some(b)) => same_text(a.as_str(), b.as_str()),
        (None, None) => true,
        _ => false,
    }
}

fn id_is_known(versions: &Vec<ArtifactObjectVersion>, id: &Option<String>) -> (known: bool)
    ensures
        known == has_id(version_views(versions@), option_text(*id)),
{
    let ghost model = version_views(versions@);
    let mut i: usize = 0;
    while i < versions.len()
        invariant
            i <= versions@.len(),
            model == version_views(versions@),
            forall|k: int| 0 <= k < i ==> (#[trigger] model[k]).id != option_text(*id),
        decreases versions@.len() - i,
    {
        assert(model[i as int] == versions@[i as int]@);
        if same_id(&versions[i].version_id, id) {
            return true;
        }
        i = i + 1;
    }
    false
}

fn clone_id(id: &Option<String>) -> (copy: Option<String>)
    ensures
        option_text(copy) == option_text(*id),
{
    match id {
        Some(value) => Some(value.clone()),
        None => None,
    }
}

/// Accepts the versions that were listed, each once: either all of them have an identifier, or
/// none has, and then there is no delete marker.
pub fn validate_listed_object_versions(listed_versions: Vec<ArtifactObjectVersion>) -> (result:
    Result<Vec<ArtifactObjectVersion>, ArtifactStorageError>)
    ensures
        match result {
            Ok(versions) => {
                &&& versions_fault(version_views(listed_versions@)) is None
                &&& version_views(versions@) == distinct_versions(version_views(listed_versions@))
            },
            Err(error) => versions_fault(version_views(listed_versions@)) == Some(error@),
        },
{
    let ghost model = version_views(listed_versions@);
    let mut unmarked = false;
    let mut named = false;
    let mut nameless = false;
    let mut i: usize = 0;
    while i < listed_versions.len()
        invariant
            i <= listed_versions@.len(),
            model == version_views(listed_versions@),
            unmarked == exists|k: int|
                0 <= k < i && (#[trigger] model[k]).is_delete_marker && model[k].id is None,
            named == exists|k: int| 0 <= k < i && (#[trigger] model[k]).id is Some,
            nameless == exists|k: int| 0 <= k < i && (#[trigger] model[k]).id is None,
        decreases listed_versions@.len() - i,
    {
        assert(model[i as int] == listed_versions@[i as int]@);
        if listed_versions[i].version_id.is_none() {
            nameless = true;
            if listed_versions[i].is_delete_marker {
                unmarked = true;
            }
        } else {
            named = true;
        }
        i = i + 1;
    }
    if unmarked {
        return Err(internal("OSS 删除标记缺少版本号，拒绝将对象标记为已清理"));
    }
    if named && nameless {
        return Err(internal("OSS 对象版本列表混入未标识版本，拒绝将对象标记为已清理"));
    }
    let mut versions: Vec<ArtifactObjectVersion> = Vec::new();
    let mut j: usize = 0;
    assert(version_views(versions@) =~= distinct_versions(model.take(0)));
    while j < listed_versions.len()
        invariant
            j <= listed_versions@.len(),
            model == version_views(listed_versions@),
            version_views(versions@) == distinct_versions(model.take(j as int)),
        decreases listed_versions@.len() - j,
    {
        assert(model.take(j + 1).drop_last() =~= model.take(j as int));
        assert(model[j as int] == listed_versions@[j as int]@);
        let ghost before = version_views(versions@);
        if !id_is_known(&versions, &listed_versions[j].version_id) {
            let version = ArtifactObjectVersion {
                version_id: clone_id(&listed_versions[j].version_id),
                is_delete_marker: listed_versions[j].is_delete_marker,
            };
            versions.push(version);
            assert(version_views(versions@) =~= before.push(model[j as int]));
        }
        j = j + 1;
    }
    assert(model.take(j as int) =~= model);
    Ok(versions)
}

// ---------------------------------------------------------------------------
// The listing, page by page
// ---------------------------------------------------------------------------

/// A listing in progress.
#[derive(Clone, Debug)]
pub struct VersionListing {
    object_key: String,
    key_marker: Option<String>,
    version_id_marker: Option<String>,
    seen_markers: Vec<(String, String)>,
    listed_versions: Vec<ArtifactObjectVersion>,
    pages: usize,
}

/// A listing as a mathematical value.
pub struct ListingState {
    pub key: Seq<char>,
    pub key_marker: Option<Seq<char>>,
    pub version_marker: Option<Seq<char>>,
    pub seen: Seq<(Seq<char>, Seq<char>)>,
    pub listed: Seq<ListedVersion>,
    pub pages: nat,
}

pub open spec fn marker_views(markers: Seq<(String, String)>) -> Seq<(Seq<char>, Seq<char>)> {
    markers.map_values(|marker: (String, String)| (marker.0@, marker.1@))
}

impl View for VersionListing {
    type V = ListingState;

    closed spec fn view(&self) -> ListingState {
        ListingState {
            key: self.object_key@,
            key_marker: option_text(self.key_marker),
            version_marker: option_text(self.version_id_marker),
            seen: marker_views(self.seen_markers@),
            listed: version_views(self.listed_versions@),
            pages: self.pages as nat,
        }
    }
}

/// What follows from a page.
#[derive(Clone, Debug)]
pub enum ListingStep {
    /// Another page has to be requested.
    Next(VersionListing),
    /// The listing is complete.
    Complete(Vec<ArtifactObjectVersion>),
}

/// A text that is not blank.
pub open spec fn not_blank(text: Option<Seq<char>>) -> Option<Seq<char>> {
    match text {
        Some(value) => if is_blank(value) {
            None
        } else {
            Some(value)
        },
        None => None,
    }
}

/// The text, or the empty one.
pub open spec fn or_empty_text(text: Option<Seq<char>>) -> Seq<char> {
    match text {
        Some(value) => value,
        None => Seq::empty(),
    }
}

impl ListingState {
    /// All versions of the object up to and including the page.
    pub open spec fn with_page(self, page: OssObjectVersionsPage) -> Result<
        Seq<ListedVersion>,
        StorageFault,
    > {
        match versions_of_key(self.listed, page.versions@, self.key, false) {
            Err(fault) => Err(fault),
            Ok(versions) => versions_of_key(versions, page.delete_markers@, self.key, true),
        }
    }

    /// Where the next page begins.
    pub open spec fn next_marker(self, page: OssObjectVersionsPage) -> Option<
        (Seq<char>, Seq<char>),
    > {
        match not_blank(option_text(page.next_key_marker)) {
            Some(key) => Some(
                (key, or_empty_text(not_blank(option_text(page.next_version_id_marker)))),
            ),
            None => None,
        }
    }

    /// Why the listing cannot go on after a page that is not the last.
    pub open spec fn next_fault(self, page: OssObjectVersionsPage) -> Option<StorageFault> {
        match self.next_marker(page) {
            None => Some(StorageFault::Internal("OSS 对象版本列表缺少下一页 key-marker"@)),
            Some(marker) => if self.seen.contains(marker) {
                Some(
                    StorageFault::Internal(
                        "OSS 对象版本列表分页标记重复，拒绝将对象标记为已清理"@,
                    ),
                )
            } else if self.pages + 1 >= OSS_LIST_OBJECT_VERSIONS_MAX_PAGES {
                Some(
                    StorageFault::Internal(
                        "OSS 对象版本数量超过清理上限，拒绝将对象标记为已清理"@,
                    ),
                )
            } else {
                None
            },
        }
    }

    /// The listing after a page that is not the last.
    pub open spec fn after_page(
        self,
        page: OssObjectVersionsPage,
        versions: Seq<ListedVersion>,
    ) -> ListingState {
        ListingState {
            key_marker: not_blank(option_text(page.next_key_marker)),
            version_marker: not_blank(option_text(page.next_version_id_marker)),
            seen: self.seen.push(self.next_marker(page)->0),
            listed: versions,
            pages: self.pages + 1,
            ..self
        }
    }
}

fn text_not_blank(text: &Option<String>) -> (kept: Option<String>)
    ensures
        option_text(kept) == not_blank(option_text(*text)),
{
    match text {
        Some(value) => {
            if blank(value.as_str()) {
                None
            } else {
                Some(value.clone())
            }
        },
        None => None,
    }
}

impl VersionListing {
    /// Fewer pages have been read than may be.
    pub closed spec fn wf(self) -> bool {
        self.pages < OSS_LIST_OBJECT_VERSIONS_MAX_PAGES
    }

    /// Fewer pages have been read than may be.
    pub proof fn pages_are_bounded(self)
        requires
            self.wf(),
        ensures
            self@.pages < OSS_LIST_OBJECT_VERSIONS_MAX_PAGES,
    {
    }

    /// Begins the listing of an object's versions.
    pub fn new(object_key: &str) -> (result: Result<VersionListing, ArtifactStorageError>)
        ensures
            match result {
                Ok(listing) => {
                    &&& super::config::object_key(object_key@) == Ok::<Seq<char>, StorageFault>(
                        listing@.key,
                    )
                    &&& listing@ == (ListingState {
                        key: listing@.key,
                        key_marker: None,
                        version_marker: None,
                        seen: Seq::empty(),
                        listed: Seq::empty(),
                        pages: 0,
                    })
                    &&& listing.wf()
                },
                Err(error) => super::config::object_key(object_key@) == Err::<
                    Seq<char>,
                    StorageFault,
                >(error@),
            },
    {
        let key = match normalize_object_key(object_key) {
            Ok(key) => key,
            Err(error) => return Err(error),
        };
        let listing = VersionListing {
            object_key: key,
            key_marker: None,
            version_id_marker: None,
            seen_markers: Vec::new(),
            listed_versions: Vec::new(),
            pages: 0,
        };
        assert(listing@.seen =~= Seq::empty());
        assert(listing@.listed =~= Seq::empty());
        Ok(listing)
    }

    /// The signed request for the next page.
    pub fn request(&self, config: &AliyunOssConfig) -> (result: Result<
        String,
        ArtifactStorageError,
    >)
        ensures
            exists|now: i64|
                super::config::outcome(result) == #[trigger] versions_signed_at(
                    config@,
                    self@.key,
                    self@.key_marker,
                    self@.version_marker,
                    now,
                ),
    {
        let key = self.object_key.as_str();
        let key_marker = as_text(&self.key_marker);
        let version_marker = as_text(&self.version_id_marker);
        let result = config.presign_list_object_versions(key, key_marker, version_marker);
        proof {
            let now = choose|now: i64|
                super::config::outcome(result) == #[trigger] versions_signed_at(
                    config@,
                    key@,
                    option_str(key_marker),
                    option_str(version_marker),
                    now,
                );
            assert(super::config::outcome(result) == versions_signed_at(
                config@,
                self@.key,
                self@.key_marker,
                self@.version_marker,
                now,
            ));
        }
        result
    }

    fn marker_is_seen(&self, key: &str, version: &str) -> (seen: bool)
        ensures
            seen == self@.seen.contains((key@, version@)),
    {
        let ghost model = self@.seen;
        let mut i: usize = 0;
        while i < self.seen_markers.len()
            invariant
                i <= self.seen_markers@.len(),
                model == marker_views(self.seen_markers@),
                forall|k: int| 0 <= k < i ==> #[trigger] model[k] != (key@, version@),
            decreases self.seen_markers@.len() - i,
        {
            assert(model[i as int] == (
                self.seen_markers@[i as int].0@,
                self.seen_markers@[i as int].1@,
            ));
            if same_text(self.seen_markers[i].0.as_str(), key) && same_text(
                self.seen_markers[i].1.as_str(),
                version,
            ) {
                assert(model[i as int] == (key@, version@));
                return true;
            }
            i = i + 1;
        }
        false
    }

    /// Takes a page. The listing ends with the page that says so, or goes on; a page that leads
    /// nowhere, a place that was listed before, and too many pages are errors.
    pub fn accept_page(self, page: OssObjectVersionsPage) -> (result: Result<
        ListingStep,
        ArtifactStorageError,
    >)
        requires
            self.wf(),
        ensures
            match self@.with_page(page) {
                Err(fault) => result is Err && result->Err_0@ == fault,
                Ok(versions) => if page.is_truncated {
                    match (self@.next_fault(page), result) {
                        (Some(fault), Err(error)) => error@ == fault,
                        (None, Ok(ListingStep::Next(listing))) => {
                            &&& listing@ == self@.after_page(page, versions)
                            &&& listing.wf()
                        },
                        _ => false,
                    }
                } else {
                    match result {
                        Ok(ListingStep::Complete(complete)) => {
                            &&& versions_fault(versions) is None
                            &&& version_views(complete@) == distinct_versions(versions)
                        },
                        Err(error) => versions_fault(versions) == Some(error@),
                        _ => false,
                    }
                },
            },
    {
        let mut listing = self;
        let ghost state = self@;
        match collect_versions(
            &mut listing.listed_versions,
            &page.versions,
            listing.object_key.as_str(),
            false,
        ) {
            Ok(_) => {},
            Err(error) => return Err(error),
        }
        match collect_versions(
            &mut listing.listed_versions,
            &page.delete_markers,
            listing.object_key.as_str(),
            true,
        ) {
            Ok(_) => {},
            Err(error) => return Err(error),
        }
        let ghost versions = version_views(listing.listed_versions@);
        assert(state.with_page(page) == Ok::<Seq<ListedVersion>, StorageFault>(versions));
        if !page.is_truncated {
            return match validate_listed_object_versions(listing.listed_versions) {
                Ok(complete) => Ok(ListingStep::Complete(complete)),
                Err(error) => Err(error),
            };
        }
        let next_key = match text_not_blank(&page.next_key_marker) {
            Some(key) => key,
            None => return Err(internal("OSS 对象版本列表缺少下一页 key-marker")),
        };
        let next_version = text_not_blank(&page.next_version_id_marker);
        let marker_version = match &next_version {
            Some(version) => version.clone(),
            None => String::new(),
        };
        assert(state.next_marker(page) == Some((next_key@, marker_version@)));
        if listing.marker_is_seen(next_key.as_str(), marker_version.as_str()) {
            return Err(internal("OSS 对象版本列表分页标记重复，拒绝将对象标记为已清理"));
        }
        if listing.pages + 1 >= OSS_LIST_OBJECT_VERSIONS_MAX_PAGES {
            return Err(internal("OSS 对象版本数量超过清理上限，拒绝将对象标记为已清理"));
        }
        let ghost seen = marker_views(listing.seen_markers@);
        listing.seen_markers.push((next_key.clone(), marker_version));
        assert(marker_views(listing.seen_markers@) =~= seen.push((next_key@, marker_version@)));
        listing.key_marker = Some(next_key);
        listing.version_id_marker = next_version;
        listing.pages = listing.pages + 1;
        Ok(ListingStep::Next(listing))
    }
}

// ---------------------------------------------------------------------------
// Laws
// ---------------------------------------------------------------------------

proof fn lemma_distinct_members(versions: Seq<ListedVersion>)
    ensures
        forall|i: int|
            0 <= i < distinct_versions(versions).len() ==> versions.contains(
                #[trigger] distinct_versions(versions)[i],
            ),
        forall|i: int|
            0 <= i < versions.len() ==> has_id(
                distinct_versions(versions),
                (#[trigger] versions[i]).id,
            ),
        forall|i: int, j: int|
            0 <= i < j < distinct_versions(versions).len() ==> distinct_versions(versions)[i].id
                != distinct_versions(versions)[j].id,
    decreases versions.len(),
{
    if versions.len() > 0 {
        let rest = versions.drop_last();
        let before = distinct_versions(rest);
        let after = distinct_versions(versions);
        lemma_distinct_members(rest);
        assert forall|i: int| 0 <= i < after.len() implies versions.contains(#[trigger] after[i]) by {
            if i < before.len() {
                assert(rest.contains(before[i]));
                let k = choose|k: int| 0 <= k < rest.len() && rest[k] == before[i];
                assert(versions[k] == after[i]);
            } else {
                assert(versions[versions.len() - 1] == after[i]);
            }
        }
        assert forall|i: int| 0 <= i < versions.len() implies has_id(
            after,
            (#[trigger] versions[i]).id,
        ) by {
            if i < rest.len() {
                assert(rest[i] == versions[i]);
                assert(has_id(before, rest[i].id));
                let k = choose|k: int| 0 <= k < before.len() && (#[trigger] before[k]).id
                    == rest[i].id;
                assert(after[k] == before[k]);
            } else if !has_id(before, versions.last().id) {
                assert(after[before.len() as int].id == versions[i].id);
            }
        }
        assert forall|i: int, j: int| 0 <= i < j < after.len() implies after[i].id
            != after[j].id by {
            if j < before.len() {
                assert(before[i].id != before[j].id);
            } else {
                assert(before[i].id == after[i].id);
            }
        }
    }
}

/// In an accepted listing no version occurs twice and none is missing, and either every version
/// is named or no delete marker occurs.
pub proof fn accepted_versions_can_all_be_deleted(versions: Seq<ListedVersion>)
    requires
        versions_fault(versions) is None,
    ensures
        ({
            let accepted = distinct_versions(versions);
            &&& forall|i: int, j: int|
                0 <= i < j < accepted.len() ==> accepted[i].id != accepted[j].id
            &&& forall|i: int|
                0 <= i < versions.len() ==> has_id(accepted, (#[trigger] versions[i]).id)
            &&& forall|i: int|
                0 <= i < accepted.len() && (#[trigger] accepted[i]).is_delete_marker
                    ==> accepted[i].id is Some
            &&& (exists|i: int| 0 <= i < accepted.len() && (#[trigger] accepted[i]).id is Some)
                ==> forall|i: int| 0 <= i < accepted.len() ==> (#[trigger] accepted[i]).id is Some
        }),
{
    let accepted = distinct_versions(versions);
    lemma_distinct_members(versions);
    assert forall|i: int|
        0 <= i < accepted.len() && (#[trigger] accepted[i]).is_delete_marker implies accepted[i].id
        is Some by {
        let k = choose|k: int| 0 <= k < versions.len() && versions[k] == accepted[i];
        assert(versions[k] == accepted[i]);
    }
    if exists|i: int| 0 <= i < accepted.len() && (#[trigger] accepted[i]).id is Some {
        let m = choose|m: int| 0 <= m < accepted.len() && (#[trigger] accepted[m]).id is Some;
        assert(versions.contains(accepted[m]));
        let n = choose|n: int| 0 <= n < versions.len() && versions[n] == accepted[m];
        assert(versions[n].id is Some);
        assert forall|i: int| 0 <= i < accepted.len() implies (#[trigger] accepted[i]).id
            is Some by {
            let k = choose|k: int| 0 <= k < versions.len() && versions[k] == accepted[i];
            assert(versions[k] == accepted[i]);
        }
    }
}

/// An object is read exactly if the store answers with success and says nothing of more than five
/// gibibytes.
pub proof fn objects_are_read_up_to_five_gibibytes(
    status: u16,
    status_text: Seq<char>,
    content_length: Option<u64>,
)
    ensures
        read_fault(status, status_text, content_length) is None <==> status / 100 == 2 && (
        content_length is Some ==> content_length->0 <= 0x1_4000_0000),
        status == 404 ==> read_fault(status, status_text, content_length)->0 is InvalidInput,
        status != 404 && status / 100 != 2 ==> read_fault(
            status,
            status_text,
            content_length,
        )->0 is Internal,
{
}

/// An object is deleted where the store says so, and where it is not there.
pub proof fn missing_objects_are_deleted(status: u16, status_text: Seq<char>)
    ensures
        delete_fault(status, status_text) is None <==> status / 100 == 2 || status == 404,
{
}

/// A list of versions is read exactly if the store answers with success and says nothing of more
/// than eight mebibytes.
pub proof fn lists_are_read_up_to_eight_mebibytes(
    status: u16,
    status_text: Seq<char>,
    content_length: Option<u64>,
)
    ensures
        listing_fault(status, status_text, content_length) is None <==> status / 100 == 2 && (
        content_length is Some ==> content_length->0 <= 0x80_0000),
{
}

/// A list says whether it goes on: `true` or `false`, and nothing else.
pub proof fn lists_say_whether_they_go_on(text: Seq<char>)
    ensures
        truncation(Some(text)) == Some(true) <==> trimmed(text) == "true"@,
        truncation(Some(text)) == Some(false) <==> trimmed(text) == "false"@,
        truncation(None) is None,
{
    reveal_strlit("true");
    reveal_strlit("false");
    assert("true"@.len() == 4);
    assert("false"@.len() == 5);
}

/// Of a list the versions of the very key are taken, in their order, and others are passed over.
pub proof fn versions_of_other_keys_are_passed_over(
    known: Seq<ListedVersion>,
    items: Seq<OssListedObjectVersion>,
    item: OssListedObjectVersion,
    key: Seq<char>,
    is_delete_marker: bool,
)
    requires
        versions_of_key(known, items, key, is_delete_marker) is Ok,
    ensures
        versions_of_key(known, Seq::empty(), key, is_delete_marker) == Ok::<
            Seq<ListedVersion>,
            StorageFault,
        >(known),
        item.key@ != key ==> versions_of_key(known, items.push(item), key, is_delete_marker)
            == versions_of_key(known, items, key, is_delete_marker),
        item.key@ == key && listed_version(item, is_delete_marker) is Ok ==> versions_of_key(
            known,
            items.push(item),
            key,
            is_delete_marker,
        ) == Ok::<Seq<ListedVersion>, StorageFault>(
            versions_of_key(known, items, key, is_delete_marker)->Ok_0.push(
                listed_version(item, is_delete_marker)->Ok_0,
            ),
        ),
        item.key@ == key && listed_version(item, is_delete_marker) is Err ==> versions_of_key(
            known,
            items.push(item),
            key,
            is_delete_marker,
        ) is Err,
{
    assert(items.push(item).drop_last() =~= items);
}

/// A version that is listed without a name, or with a blank one, has none; with any other it must be
/// one that can be deleted. It is a deletion's mark exactly if it was listed as one.
pub proof fn listed_versions_can_be_deleted(item: OssListedObjectVersion, is_delete_marker: bool)
    ensures
        listed_version(item, is_delete_marker) matches Ok(version) ==> version.is_delete_marker
            == is_delete_marker,
        item.version_id is None || trimmed(item.version_id->0@).len() == 0 ==> listed_version(
            item,
            is_delete_marker,
        ) == Ok::<ListedVersion, StorageFault>(ListedVersion { id: None, is_delete_marker }),
        item.version_id is Some && trimmed(item.version_id->0@).len() > 0 ==> (listed_version(
            item,
            is_delete_marker,
        ) is Ok <==> deletable_version_id(item.version_id->0@) is Ok),
        item.version_id is Some && trimmed(item.version_id->0@).len() > 0 && listed_version(
            item,
            is_delete_marker,
        ) is Ok ==> listed_version(item, is_delete_marker)->Ok_0.id == Some(
            trimmed(item.version_id->0@),
        ),
{
}

/// A list is accepted exactly if all its versions have names, or none has one and none is a
/// deletion's mark.
pub proof fn lists_name_all_versions_or_none(versions: Seq<ListedVersion>)
    ensures
        versions_fault(versions) is None <==> (forall|i: int|
            0 <= i < versions.len() ==> (#[trigger] versions[i]).id is Some) || (forall|i: int|
            0 <= i < versions.len() ==> (#[trigger] versions[i]).id is None
                && !versions[i].is_delete_marker),
{
}

/// A listing goes on exactly if the store says after which key, has not said so before, and fewer
/// than 999 pages were read; it then goes on there.
pub proof fn listings_go_on_where_the_store_says(
    state: ListingState,
    page: OssObjectVersionsPage,
    versions: Seq<ListedVersion>,
)
    ensures
        ({
            let key = option_text(page.next_key_marker);
            let version = option_text(page.next_version_id_marker);
            let named = key is Some && trimmed(key->0).len() > 0;
            let version_named = version is Some && trimmed(version->0).len() > 0;
            let marker = (
                key->0,
                if version_named {
                    version->0
                } else {
                    Seq::empty()
                },
            );
            &&& state.next_fault(page) is None <==> named && !state.seen.contains(marker)
                && state.pages < 999
            &&& state.next_fault(page) is None ==> {
                let next = state.after_page(page, versions);
                &&& next.key == state.key
                &&& next.key_marker == key
                &&& next.version_marker == if version_named {
                    version
                } else {
                    None
                }
                &&& next.seen == state.seen.push(marker)
                &&& next.listed == versions
                &&& next.pages == state.pages + 1
            }
        }),
{
}

/// Of versions with one name the first is kept.
pub proof fn the_first_of_equal_versions_is_kept(
    versions: Seq<ListedVersion>,
    version: ListedVersion,
)
    ensures
        distinct_versions(Seq::empty()) == Seq::<ListedVersion>::empty(),
        has_id(distinct_versions(versions), version.id) ==> distinct_versions(
            versions.push(version),
        ) == distinct_versions(versions),
        !has_id(distinct_versions(versions), version.id) ==> distinct_versions(
            versions.push(version),
        ) == distinct_versions(versions).push(version),
{
    assert(versions.push(version).drop_last() =~= versions);
}

/// The name of an object's version is read from its header where there is one.
pub proof fn versions_are_read_from_their_header(value: String)
    ensures
        version_of(VersionHeader::Absent) == Ok::<Option<Seq<char>>, StorageFault>(None),
        version_of(VersionHeader::NotText) is Err,
        version_of(VersionHeader::Text(value)) is Ok <==> object_version_id(value@) is Ok,
        version_of(VersionHeader::Text(value)) matches Ok(id) ==> id == Some(
            object_version_id(value@)->Ok_0,
        ),
{
}

/// An object is read as long as it has no more than five gibibytes.
pub proof fn objects_have_five_gibibytes_at_most(size: int)
    ensures
        object_fits(size) <==> size <= 0x1_4000_0000,
{
}

} // verus!
