//! Where the artifact of a unit release lies, and what of it may be deleted.

use vstd::prelude::*;

use crate::artifact_storage::config::{
    AliyunOssConfig, OssSettings, STORAGE_PROVIDER_ALIYUN_OSS, STORAGE_PROVIDER_LOCAL,
};
use crate::pieces::{
    keep_not_empty, not_empty, option_text, pieces, split,
};
use crate::text::{blank, chars_of, is_blank, same_text, texts, trim, trimmed, CharClass};

verus! {

#[derive(Debug, Clone, PartialEq, Eq)]
pub struct ArtifactDeletionTarget {
    pub provider: String,
    pub package_path: String,
    pub extract_dir: String,
    pub bucket: String,
    pub endpoint: String,
    pub object_key: String,
    pub object_version_id: String,
}

/// What has to be deleted.
#[derive(Debug, Clone)]
pub enum ArtifactDeletion {
    /// Paths below the data directory.
    Local(Vec<String>),
    /// One version of an object.
    Object { config: AliyunOssConfig, object_key: String, version_id: String },
}

/// The settings under which an object is deleted: the place is that of the artifact, and the
/// credentials are the current ones.
pub open spec fn deletion_settings(
    settings: OssSettings,
    target: ArtifactDeletionTarget,
) -> OssSettings {
    OssSettings {
        bucket: trimmed(target.bucket@),
        endpoint: if is_blank(target.endpoint@) {
            settings.endpoint
        } else {
            trimmed(target.endpoint@)
        },
        ..settings
    }
}

/// It is known what to delete of an artifact.
pub open spec fn can_be_deleted(target: ArtifactDeletionTarget) -> bool {
    target.provider@ == STORAGE_PROVIDER_LOCAL@ || (target.provider@ == STORAGE_PROVIDER_ALIYUN_OSS@
        && !is_blank(target.object_version_id@))
}

/// Decides how an artifact is deleted. An object is deleted in the very version that was stored;
/// without one nothing is deleted.
pub fn plan_artifact_deletion(
    target: &ArtifactDeletionTarget,
    config: &AliyunOssConfig,
) -> (result: Result<ArtifactDeletion, String>)
    ensures
        if target.provider@ == STORAGE_PROVIDER_LOCAL@ {
            match result {
                Ok(ArtifactDeletion::Local(paths)) => texts(paths@) == seq![
                    target.package_path@,
                    target.extract_dir@,
                ],
                _ => false,
            }
        } else if target.provider@ == STORAGE_PROVIDER_ALIYUN_OSS@ {
            match result {
                Ok(ArtifactDeletion::Object { config: used, object_key, version_id }) => {
                    &&& !is_blank(target.object_version_id@)
                    &&& used@ == deletion_settings(config@, *target)
                    &&& object_key@ == target.object_key@
                    &&& version_id@ == trimmed(target.object_version_id@)
                },
                Err(error) => is_blank(target.object_version_id@) && error@
                    == "OSS 制品缺少精确对象版本号，拒绝删除当前版本"@,
                _ => false,
            }
        } else {
            result is Err && result->Err_0@ == "不支持清理存储类型 "@ + target.provider@
        },
        result is Ok <==> can_be_deleted(*target),
{
    let provider = target.provider.as_str();
    if same_text(provider, STORAGE_PROVIDER_LOCAL) {
        let mut paths: Vec<String> = Vec::new();
        paths.push(target.package_path.clone());
        paths.push(target.extract_dir.clone());
        assert(texts(paths@) =~= seq![target.package_path@, target.extract_dir@]);
        return Ok(ArtifactDeletion::Local(paths));
    }
    if same_text(provider, STORAGE_PROVIDER_ALIYUN_OSS) {
        let version_id = trim(target.object_version_id.as_str());
        if version_id.as_str().is_empty() {
            return Err("OSS 制品缺少精确对象版本号，拒绝删除当前版本".to_owned());
        }
        let endpoint = if blank(target.endpoint.as_str()) {
            config.endpoint.clone()
        } else {
            trim(target.endpoint.as_str())
        };
        let used = AliyunOssConfig {
            region: config.region.clone(),
            endpoint,
            bucket: trim(target.bucket.as_str()),
            object_prefix: config.object_prefix.clone(),
            access_key_id: config.access_key_id.clone(),
            access_key_secret: config.access_key_secret.clone(),
            upload_url_ttl_seconds: config.upload_url_ttl_seconds,
            download_url_ttl_seconds: config.download_url_ttl_seconds,
        };
        return Ok(
            ArtifactDeletion::Object {
                config: used,
                object_key: target.object_key.clone(),
                version_id,
            },
        );
    }
    Err("不支持清理存储类型 ".to_owned().concat(provider))
}

// ---------------------------------------------------------------------------
// Local paths
// ---------------------------------------------------------------------------

/// What stands at a path.
#[derive(Debug, Clone, Copy, PartialEq, Eq, Structural)]
pub enum LocalPathKind {
    Missing,
    Symlink,
    Directory,
    File,
    Other,
}

/// How what stands at a path is removed.
#[derive(Debug, Clone, Copy, PartialEq, Eq, Structural)]
pub enum LocalRemoval {
    Directory,
    File,
}

/// The path, below the directory unless it is absolute.
pub open spec fn below(directory: Seq<char>, path: Seq<char>) -> Seq<char> {
    if path.len() > 0 && path[0] == '/' {
        path
    } else if directory.len() == 0 || directory.last() == '/' {
        directory + path
    } else {
        directory + "/"@ + path
    }
}

/// The place that a recorded path means, where one is recorded.
pub open spec fn recorded_place(data_dir: Seq<char>, path: Seq<char>) -> Option<Seq<char>> {
    if is_blank(path) {
        None
    } else {
        Some(below(data_dir, trimmed(path)))
    }
}

pub fn local_candidate(data_dir: &str, path: &str) -> (candidate: Option<String>)
    ensures
        option_text(candidate) == recorded_place(data_dir@, path@),
{
    let value = trim(path);
    let chars = chars_of(value.as_str());
    if chars.len() == 0 {
        return None;
    }
    if chars[0] == '/' {
        return Some(value);
    }
    let directory = chars_of(data_dir);
    if directory.len() == 0 || directory[directory.len() - 1] == '/' {
        Some(data_dir.to_owned().concat(value.as_str()))
    } else {
        Some(data_dir.to_owned().concat("/").concat(value.as_str()))
    }
}

/// The names along a path.
pub open spec fn path_names(path: Seq<char>) -> Seq<Seq<char>> {
    not_empty(pieces(path, CharClass::Slash))
}

/// The path leads to something below the root, and not to the root itself.
pub open spec fn is_strictly_inside(root: Seq<char>, path: Seq<char>) -> bool {
    path_names(root).len() < path_names(path).len() && path_names(root).is_prefix_of(
        path_names(path),
    )
}

fn strictly_inside(root: &str, path: &str) -> (inside: bool)
    ensures
        inside == is_strictly_inside(root@, path@),
{
    let outer = keep_not_empty(split(root, CharClass::Slash));
    let inner = keep_not_empty(split(path, CharClass::Slash));
    let ghost a = path_names(root@);
    let ghost b = path_names(path@);
    assert(a.len() == outer@.len() && b.len() == inner@.len());
    if outer.len() >= inner.len() {
        return false;
    }
    let mut i: usize = 0;
    while i < outer.len()
        invariant
            i <= outer@.len(),
            outer@.len() < inner@.len(),
            texts(outer@) == a,
            texts(inner@) == b,
            a == path_names(root@),
            b == path_names(path@),
            a.len() == outer@.len(),
            b.len() == inner@.len(),
            forall|k: int| 0 <= k < i ==> #[trigger] a[k] == b[k],
        decreases outer@.len() - i,
    {
        assert(texts(outer@)[i as int] == outer@[i as int]@);
        assert(texts(inner@)[i as int] == inner@[i as int]@);
        if !same_text(outer[i].as_str(), inner[i].as_str()) {
            assert(a[i as int] != b[i as int]);
            assert(!is_strictly_inside(root@, path@)) by {
                if a.is_prefix_of(b) {
                    assert(b.subrange(0, a.len() as int)[i as int] == b[i as int]);
                }
            }
            return false;
        }
        i = i + 1;
    }
    assert(a =~= b.subrange(0, a.len() as int));
    true
}

/// What is answered for a path, given what stands there and where it really leads.
pub open spec fn local_path_answer(
    root: Seq<char>,
    candidate: Seq<char>,
    kind: LocalPathKind,
    canonical: Seq<char>,
) -> Result<bool, Seq<char>> {
    if kind == LocalPathKind::Missing {
        Ok(false)
    } else if kind == LocalPathKind::Symlink {
        Err("本地制品路径 "@ + candidate + " 是符号链接，拒绝清理"@)
    } else if !is_strictly_inside(root, canonical) {
        Err("本地制品路径 "@ + candidate + " 不在平台数据目录内，拒绝清理"@)
    } else {
        Ok(true)
    }
}

/// Whether the path is to be removed; a path that is missing is not, and a symbolic link or a
/// path that leads out of the data directory is refused.
pub fn check_local_path(
    root: &str,
    candidate: &str,
    kind: LocalPathKind,
    canonical: &str,
) -> (result: Result<bool, String>)
    ensures
        match result {
            Ok(remove) => local_path_answer(root@, candidate@, kind, canonical@) == Ok::<
                bool,
                Seq<char>,
            >(remove),
            Err(error) => local_path_answer(root@, candidate@, kind, canonical@) == Err::<
                bool,
                Seq<char>,
            >(error@),
        },
{
    if kind == LocalPathKind::Missing {
        return Ok(false);
    }
    if kind == LocalPathKind::Symlink {
        return Err(
            "本地制品路径 ".to_owned().concat(candidate).concat(" 是符号链接，拒绝清理"),
        );
    }
    if !strictly_inside(root, canonical) {
        return Err(
            "本地制品路径 ".to_owned().concat(candidate).concat(
                " 不在平台数据目录内，拒绝清理",
            ),
        );
    }
    Ok(true)
}

/// How what stands at the path is removed: directories and files are, and nothing else.
pub fn local_removal(candidate: &str, kind: LocalPathKind) -> (result: Result<
    LocalRemoval,
    String,
>)
    ensures
        match result {
            Ok(LocalRemoval::Directory) => kind == LocalPathKind::Directory,
            Ok(LocalRemoval::File) => kind == LocalPathKind::File,
            Err(error) => kind != LocalPathKind::Directory && kind != LocalPathKind::File && error@
                == "本地制品路径 "@ + candidate@ + " 不是普通文件或目录，拒绝清理"@,
        },
{
    match kind {
        LocalPathKind::Directory => Ok(LocalRemoval::Directory),
        LocalPathKind::File => Ok(LocalRemoval::File),
        _ => Err(
            "本地制品路径 ".to_owned().concat(candidate).concat(
                " 不是普通文件或目录，拒绝清理",
            ),
        ),
    }
}

/// Nothing but what lies below the data directory is ever removed, and never the directory
/// itself.
pub proof fn removals_stay_inside(
    root: Seq<char>,
    candidate: Seq<char>,
    kind: LocalPathKind,
    canonical: Seq<char>,
)
    requires
        local_path_answer(root, candidate, kind, canonical) == Ok::<bool, Seq<char>>(true),
    ensures
        is_strictly_inside(root, canonical),
        path_names(canonical) != path_names(root),
        kind != LocalPathKind::Symlink,
{
}

/// A path below a directory: an absolute path is taken as it is, another stands behind the directory
/// with one slash between them.
pub proof fn paths_stand_below_their_directory(directory: Seq<char>, path: Seq<char>)
    ensures
        path.len() > 0 && path[0] == '/' ==> below(directory, path) == path,
        !(path.len() > 0 && path[0] == '/') && directory.len() > 0 && directory.last() != '/'
            ==> below(directory, path) == directory + seq!['/'] + path,
        !(path.len() > 0 && path[0] == '/') && directory.len() > 0 && directory.last() == '/'
            ==> below(directory, path) == directory + path,
        directory.len() == 0 ==> below(directory, path) == path,
{
    reveal_strlit("/");
    assert("/"@ =~= seq!['/']);
    if directory.len() == 0 {
        assert(directory + path =~= path);
    }
}

/// What is inside a directory: whatever is named below it, and neither the directory itself nor one
/// whose name merely begins alike.
pub proof fn names_below_a_directory_are_inside(root: Seq<char>, name: Seq<char>, rest: Seq<char>)
    requires
        name.len() > 0,
        !name.contains('/'),
    ensures
        is_strictly_inside(root, root + seq!['/'] + name),
        is_strictly_inside(root, root + seq!['/'] + (name + seq!['/'] + rest)),
        !is_strictly_inside(root, root),
        !is_strictly_inside(root, root + seq!['/']),
{
    let class = CharClass::Slash;
    let below_root = name + seq!['/'] + rest;
    let nothing = Seq::<char>::empty();
    assert(!crate::text::any(name, class)) by {
        if crate::text::any(name, class) {
            let k = choose|k: int| 0 <= k < name.len() && class.has(#[trigger] name[k]);
            assert(name[k] == '/');
        }
    }
    crate::pieces::undivided_texts_are_one_piece(name, class);
    crate::pieces::undivided_texts_are_one_piece(nothing, class);
    crate::pieces::separators_part_the_pieces(root, '/', name, class);
    crate::pieces::separators_part_the_pieces(name, '/', rest, class);
    crate::pieces::separators_part_the_pieces(root, '/', below_root, class);
    crate::pieces::separators_part_the_pieces(root, '/', nothing, class);
    assert(root + seq!['/'] + nothing =~= root + seq!['/']);
    let outer = pieces(root, class);
    lemma_names_add(outer, seq![name]);
    lemma_names_add(seq![name], pieces(rest, class));
    lemma_names_add(outer, seq![name] + pieces(rest, class));
    lemma_names_add(outer, seq![nothing]);
    assert(seq![name].drop_last() =~= Seq::<Seq<char>>::empty());
    assert(seq![nothing].drop_last() =~= Seq::<Seq<char>>::empty());
    assert(not_empty(seq![name].drop_last()) == Seq::<Seq<char>>::empty());
    assert(not_empty(seq![name]) =~= seq![name]);
    assert(not_empty(seq![nothing]) =~= Seq::<Seq<char>>::empty());
    let names = path_names(root);
    assert((names + seq![name]).take(names.len() as int) =~= names);
    let more = seq![name] + not_empty(pieces(rest, class));
    assert((names + more).take(names.len() as int) =~= names);
    assert(names + Seq::<Seq<char>>::empty() =~= names);
}

proof fn lemma_names_add(left: Seq<Seq<char>>, right: Seq<Seq<char>>)
    ensures
        not_empty(left + right) == not_empty(left) + not_empty(right),
    decreases right.len(),
{
    if right.len() == 0 {
        assert(left + right =~= left);
        assert(not_empty(left) + not_empty(right) =~= not_empty(left));
    } else {
        lemma_names_add(left, right.drop_last());
        assert((left + right).drop_last() =~= left + right.drop_last());
        assert(not_empty(left + right) =~= not_empty(left) + not_empty(right));
    }
}

/// Nothing is done about a path that is not there. A link is refused, wherever it leads, and so is
/// what lies outside the data directory; everything else is removed.
pub proof fn links_and_outside_paths_are_refused(
    root: Seq<char>,
    candidate: Seq<char>,
    kind: LocalPathKind,
    canonical: Seq<char>,
)
    ensures
        local_path_answer(root, candidate, LocalPathKind::Missing, canonical) == Ok::<
            bool,
            Seq<char>,
        >(false),
        local_path_answer(root, candidate, LocalPathKind::Symlink, canonical) is Err,
        kind != LocalPathKind::Missing && !is_strictly_inside(root, canonical)
            ==> local_path_answer(root, candidate, kind, canonical) is Err,
        kind != LocalPathKind::Missing && kind != LocalPathKind::Symlink && is_strictly_inside(
            root,
            canonical,
        ) ==> local_path_answer(root, candidate, kind, canonical) == Ok::<bool, Seq<char>>(true),
{
}

/// An object is deleted with the keys of the platform, in the bucket that was recorded, at the
/// endpoint that was recorded or else at that of the platform.
pub proof fn objects_are_deleted_where_they_were_put(
    settings: OssSettings,
    target: ArtifactDeletionTarget,
)
    ensures
        ({
            let used = deletion_settings(settings, target);
            &&& used.bucket == trimmed(target.bucket@)
            &&& trimmed(target.endpoint@).len() > 0 ==> used.endpoint == trimmed(target.endpoint@)
            &&& trimmed(target.endpoint@).len() == 0 ==> used.endpoint == settings.endpoint
            &&& used.access_key_id == settings.access_key_id
            &&& used.access_key_secret == settings.access_key_secret
            &&& used.region == settings.region
            &&& used.object_prefix == settings.object_prefix
            &&& used.upload_ttl == settings.upload_ttl
            &&& used.download_ttl == settings.download_ttl
        }),
{
}

/// A place that was not recorded is none; any other lies below the data directory, unless it is
/// absolute.
pub proof fn blank_places_are_none(data_dir: Seq<char>, path: Seq<char>)
    ensures
        recorded_place(data_dir, path) is None <==> trimmed(path).len() == 0,
        recorded_place(data_dir, path) matches Some(place) ==> place == below(
            data_dir,
            trimmed(path),
        ),
{
}

/// An artifact is deleted on this host, or in the object store with the very version that was
/// recorded; nowhere else, and no other version.
pub proof fn artifacts_are_deleted_by_version(target: ArtifactDeletionTarget)
    ensures
        can_be_deleted(target) <==> target.provider@ == "local"@ || (target.provider@
            == "aliyun_oss"@ && trimmed(target.object_version_id@).len() > 0),
{
    reveal_strlit("local");
    reveal_strlit("aliyun_oss");
    assert("local"@.len() == 5);
    assert("aliyun_oss"@.len() == 10);
}

} // verus!
