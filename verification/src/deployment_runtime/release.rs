//! The release that a unit runs: where its package comes from, how it is fetched, and how it is
//! verified.

use vstd::prelude::*;

use super::error::{
    config_error, not_found, runtime_fault, runtime_outcome, validation, DeploymentRuntimeError,
    RuntimeFault,
};
use crate::artifact_storage::config::{missing, ArtifactStorageConfig, OssSettings, StorageFault};
use crate::artifact_storage::signing::presigned;
use crate::clock::{clamped, unix_timestamp_now};
use crate::decimal::{decimal, integer_text, natural_text, signed_decimal};
use crate::deploy::commands::path_below;
use crate::deployment_orchestrator::DeploymentAction;
use crate::deployment_retention::deletion::below;
use crate::digest::{sha256_hex, Sha256Stream};
use crate::text::{
    any, any_in, blank, is_blank, lowered, same_ignoring_case, same_text, trim, trim_end_of,
    trimmed, trimmed_end, CharClass,
};

verus! {

#[derive(Debug, Clone, PartialEq, Eq)]
pub struct UnitReleaseSpec {
    pub id: i64,
    pub version: String,
    pub version_code: i64,
    pub package_name: String,
    pub package_path: String,
    pub checksum_sha256: String,
    pub size_bytes: i64,
    pub storage_provider: String,
    pub storage_bucket: String,
    pub storage_object_key: String,
    pub storage_endpoint: String,
    pub storage_object_version_id: String,
}

// ---------------------------------------------------------------------------
// Which release
// ---------------------------------------------------------------------------

/// The action runs nothing.
pub open spec fn runs_without_release(action: DeploymentAction) -> bool {
    action == DeploymentAction::Stop
}

/// A release of that provider lies in the object store.
pub open spec fn lies_in_store(provider: Seq<char>) -> bool {
    provider == "aliyun_oss"@
}

/// The release that is looked up for an action: only a stop needs none.
pub fn release_to_load(action: DeploymentAction, unit_release_id: Option<i64>) -> (result: Result<
    Option<i64>,
    DeploymentRuntimeError,
>)
    ensures
        match result {
            Ok(id) => id == unit_release_id && (id is Some || action == DeploymentAction::Stop),
            Err(error) => unit_release_id is None && action != DeploymentAction::Stop && error@
                == RuntimeFault::Validation("deployment action requires a unit release"@),
        },
        result is Ok <==> unit_release_id is Some || runs_without_release(action),
{
    if unit_release_id.is_none() && action != DeploymentAction::Stop {
        return Err(validation("deployment action requires a unit release"));
    }
    Ok(unit_release_id)
}

/// What is wrong with a release that was looked up.
pub open spec fn release_fault(release: UnitReleaseSpec) -> Option<RuntimeFault> {
    if release.storage_provider@ == "local"@ && is_blank(release.package_path@) {
        Some(RuntimeFault::Validation("local unit release package path is empty"@))
    } else if release.storage_provider@ == "aliyun_oss"@ && (is_blank(release.storage_bucket@)
        || is_blank(release.storage_object_key@)) {
        Some(RuntimeFault::Validation("OSS unit release location is incomplete"@))
    } else {
        None
    }
}

/// Accepts the release that was looked up.
pub fn load_release(row: Option<UnitReleaseSpec>) -> (result: Result<
    UnitReleaseSpec,
    DeploymentRuntimeError,
>)
    ensures
        match result {
            Ok(release) => row == Some(release) && release_fault(release) is None,
            Err(error) => match row {
                None => error@ == RuntimeFault::NotFound(
                    "active deployment unit release not found"@,
                ),
                Some(release) => release_fault(release) == Some(error@),
            },
        },
{
    match row {
        None => Err(not_found("active deployment unit release not found")),
        Some(release) => {
            if same_text(release.storage_provider.as_str(), "local") && blank(
                release.package_path.as_str(),
            ) {
                return Err(validation("local unit release package path is empty"));
            }
            if same_text(release.storage_provider.as_str(), "aliyun_oss") && (blank(
                release.storage_bucket.as_str(),
            ) || blank(release.storage_object_key.as_str())) {
                return Err(validation("OSS unit release location is incomplete"));
            }
            Ok(release)
        },
    }
}

// ---------------------------------------------------------------------------
// Fetching a package
// ---------------------------------------------------------------------------

/// Whether a release lies in an object store and has to be fetched.
pub fn needs_download(release: &Option<UnitReleaseSpec>) -> (needed: bool)
    ensures
        needed == (release is Some && lies_in_store(release->0.storage_provider@)),
{
    match release {
        Some(release) => same_text(release.storage_provider.as_str(), "aliyun_oss"),
        None => false,
    }
}

/// A name that can stand for a file: one that leads to no other directory.
pub open spec fn is_safe_name(name: Seq<char>) -> bool {
    name.len() > 0 && name != "."@ && name != ".."@ && !any(name, CharClass::PathSeparator)
}

pub open spec fn package_name(name: Seq<char>) -> Result<Seq<char>, RuntimeFault> {
    if is_safe_name(trimmed(name)) {
        Ok(trimmed(name))
    } else {
        Err(RuntimeFault::Validation("unit release package name is unsafe"@))
    }
}

pub fn safe_package_name(name: &str) -> (result: Result<String, DeploymentRuntimeError>)
    ensures
        runtime_outcome(result) == package_name(name@),
{
    let name = trim(name);
    if name.as_str().is_empty() || same_text(name.as_str(), ".") || same_text(name.as_str(), "..")
        || any_in(name.as_str(), CharClass::PathSeparator) {
        return Err(validation("unit release package name is unsafe"));
    }
    Ok(name)
}

/// What is wrong with the place of a release in an object store: it must be in the store of the
/// platform.
pub open spec fn location_fault(
    release: UnitReleaseSpec,
    storage: ArtifactStorageConfig,
) -> Option<RuntimeFault> {
    if storage.provider@ != "aliyun_oss"@ {
        Some(
            RuntimeFault::Config("unit release uses OSS but platform OSS storage is disabled"@),
        )
    } else if storage.aliyun_oss.bucket@ != release.storage_bucket@ || trimmed_end(
        storage.aliyun_oss.endpoint@,
        CharClass::Slash,
    ) != trimmed_end(release.storage_endpoint@, CharClass::Slash) {
        Some(
            RuntimeFault::Config(
                "unit release OSS location does not match current platform storage"@,
            ),
        )
    } else {
        None
    }
}

fn check_location(release: &UnitReleaseSpec, storage: &ArtifactStorageConfig) -> (result: Result<
    (),
    DeploymentRuntimeError,
>)
    ensures
        runtime_fault(result) == location_fault(*release, *storage),
{
    if !same_text(storage.provider.as_str(), "aliyun_oss") {
        return Err(config_error("unit release uses OSS but platform OSS storage is disabled"));
    }
    let own = trim_end_of(storage.aliyun_oss.endpoint.as_str(), CharClass::Slash);
    let recorded = trim_end_of(release.storage_endpoint.as_str(), CharClass::Slash);
    if !same_text(storage.aliyun_oss.bucket.as_str(), release.storage_bucket.as_str())
        || !same_text(own.as_str(), recorded.as_str()) {
        return Err(
            config_error("unit release OSS location does not match current platform storage"),
        );
    }
    Ok(())
}

/// The version of an object that is fetched: the recorded one, where one is recorded.
pub open spec fn recorded_version(id: Seq<char>) -> Option<Seq<char>> {
    if is_blank(id) {
        None
    } else {
        Some(id)
    }
}

/// The signed address of a download.
pub open spec fn download_url_at(
    settings: OssSettings,
    key: Seq<char>,
    version: Option<Seq<char>>,
    now: i64,
) -> Result<Seq<char>, StorageFault> {
    match missing(settings) {
        Some(fault) => Err(fault),
        None => presigned(
            settings,
            "GET"@,
            key,
            Seq::empty(),
            clamped(now + settings.download_ttl),
            Seq::empty(),
            version,
            true,
        ),
    }
}

/// Where downloads for a unit of a run are kept.
pub open spec fn download_directory(
    staging_root: Seq<char>,
    deployment_run_id: i64,
    unit_id: i64,
) -> Seq<char> {
    below(
        below(below(staging_root, "downloads"@), signed_decimal(deployment_run_id as int)),
        signed_decimal(unit_id as int),
    )
}

pub fn download_root(staging_root: &str, deployment_run_id: i64, unit_id: i64) -> (path: String)
    ensures
        path@ == download_directory(staging_root@, deployment_run_id, unit_id),
{
    let downloads = path_below(staging_root, "downloads");
    let run = path_below(downloads.as_str(), integer_text(deployment_run_id).as_str());
    path_below(run.as_str(), integer_text(unit_id).as_str())
}

/// A download: from where, and to which file.
#[derive(Debug, Clone)]
pub struct ReleaseDownload {
    pub url: String,
    pub destination: String,
}

pub open spec fn download_views(result: Result<ReleaseDownload, DeploymentRuntimeError>) -> Result<
    (Seq<char>, Seq<char>),
    RuntimeFault,
> {
    match result {
        Ok(download) => Ok((download.url@, download.destination@)),
        Err(error) => Err(error@),
    }
}

/// The address and the file of the download of a release.
pub open spec fn download_at(
    release: UnitReleaseSpec,
    storage: ArtifactStorageConfig,
    staging_root: Seq<char>,
    deployment_run_id: i64,
    unit_id: i64,
    now: i64,
) -> Result<(Seq<char>, Seq<char>), RuntimeFault> {
    match location_fault(release, storage) {
        Some(fault) => Err(fault),
        None => match download_url_at(
            storage.aliyun_oss@,
            release.storage_object_key@,
            recorded_version(release.storage_object_version_id@),
            now,
        ) {
            Err(fault) => Err(RuntimeFault::Config(fault.text())),
            Ok(url) => match package_name(release.package_name@) {
                Err(fault) => Err(fault),
                Ok(name) => Ok(
                    (
                        url,
                        below(download_directory(staging_root, deployment_run_id, unit_id), name),
                    ),
                ),
            },
        },
    }
}

/// Prepares the download of a release at the given time.
pub fn plan_release_download_at(
    release: &UnitReleaseSpec,
    storage: &ArtifactStorageConfig,
    staging_root: &str,
    deployment_run_id: i64,
    unit_id: i64,
    now: i64,
) -> (result: Result<ReleaseDownload, DeploymentRuntimeError>)
    ensures
        download_views(result) == download_at(
            *release,
            *storage,
            staging_root@,
            deployment_run_id,
            unit_id,
            now,
        ),
{
    match check_location(release, storage) {
        Ok(_) => {},
        Err(error) => return Err(error),
    }
    let version = if blank(release.storage_object_version_id.as_str()) {
        None
    } else {
        Some(release.storage_object_version_id.as_str())
    };
    match storage.aliyun_oss.presign_download_at(
        release.storage_object_key.as_str(),
        version,
        now,
    ) {
        Err(error) => Err(config_error(error.message())),
        Ok(download) => match safe_package_name(release.package_name.as_str()) {
            Err(error) => Err(error),
            Ok(name) => {
                let directory = download_root(staging_root, deployment_run_id, unit_id);
                let destination = path_below(directory.as_str(), name.as_str());
                Ok(ReleaseDownload { url: download.url, destination })
            },
        },
    }
}

/// Prepares the download of a release from now on.
pub fn plan_release_download(
    release: &UnitReleaseSpec,
    storage: &ArtifactStorageConfig,
    staging_root: &str,
    deployment_run_id: i64,
    unit_id: i64,
) -> (result: Result<ReleaseDownload, DeploymentRuntimeError>)
    ensures
        exists|now: i64|
            download_views(result) == #[trigger] download_at(
                *release,
                *storage,
                staging_root@,
                deployment_run_id,
                unit_id,
                now,
            ),
{
    let now = unix_timestamp_now();
    plan_release_download_at(release, storage, staging_root, deployment_run_id, unit_id, now)
}

/// What is wrong with the status of a download.
pub open spec fn download_fault(status: u16, status_text: Seq<char>) -> Option<RuntimeFault> {
    if 200 <= status <= 299 {
        None
    } else {
        Some(RuntimeFault::NotFound("download OSS unit release returned HTTP "@ + status_text))
    }
}

/// Accepts the answer to a download before its body is read.
pub fn accept_download_status(status: u16, status_text: &str) -> (result: Result<
    (),
    DeploymentRuntimeError,
>)
    ensures
        runtime_fault(result) == download_fault(status, status_text@),
{
    if 200 <= status && status <= 299 {
        Ok(())
    } else {
        Err(
            not_found(
                "download OSS unit release returned HTTP ".to_owned().concat(
                    status_text,
                ).as_str(),
            ),
        )
    }
}

/// A size that is recorded; a number that is not positive records none.
pub open spec fn recorded_size(size_bytes: i64) -> Option<nat> {
    if size_bytes > 0 {
        Some(size_bytes as nat)
    } else {
        None
    }
}

/// Whether bytes are those of a package: as many as are recorded, with the recorded digest.
pub open spec fn is_package(bytes: Seq<u8>, size_bytes: i64, checksum: Seq<char>) -> bool {
    &&& match recorded_size(size_bytes) {
        Some(size) => bytes.len() == size,
        None => true,
    }
    &&& lowered(checksum) == lowered(sha256_hex(bytes))
}

/// What is wrong with a download of which so much has come.
pub open spec fn download_size_fault(size_bytes: i64, received: nat) -> Option<RuntimeFault> {
    match recorded_size(size_bytes) {
        Some(size) => if received > size {
            Some(RuntimeFault::Validation("OSS unit release is larger than registered size"@))
        } else {
            None
        },
        None => None,
    }
}

/// What is wrong with the size of a package.
pub open spec fn package_size_fault(expected_size: i64, actual: u64) -> Option<RuntimeFault> {
    if recorded_size(expected_size) is Some && recorded_size(expected_size) != Some(actual as nat) {
        Some(
            RuntimeFault::Validation(
                "unit release package size mismatch: expected "@ + signed_decimal(
                    expected_size as int,
                ) + ", got "@ + decimal(actual as nat),
            ),
        )
    } else {
        None
    }
}

/// A package that is arriving from an object store.
pub struct ReleaseReceiving {
    received: u64,
    stream: Sha256Stream,
}

impl ReleaseReceiving {
    /// What has arrived.
    pub closed spec fn bytes(self) -> Seq<u8> {
        self.stream.bytes()
    }

    /// What has arrived is counted and hashed.
    pub closed spec fn wf(self) -> bool {
        self.stream.wf() && self.received == (if self.bytes().len() > u64::MAX {
            u64::MAX as int
        } else {
            self.bytes().len() as int
        })
    }

    pub fn new() -> (receiving: ReleaseReceiving)
        ensures
            receiving.wf(),
            receiving.bytes() == Seq::<u8>::empty(),
    {
        ReleaseReceiving { received: 0, stream: Sha256Stream::new() }
    }

    /// Takes a chunk; more than the recorded size is refused.
    pub fn add_chunk(&mut self, chunk: &[u8], size_bytes: i64) -> (result: Result<
        (),
        DeploymentRuntimeError,
    >)
        requires
            old(self).wf(),
        ensures
            final(self).wf(),
            final(self).bytes() == old(self).bytes() + chunk@,
            runtime_fault(result) == download_size_fault(size_bytes, final(self).bytes().len()),
    {
        let length: u64 = chunk.len() as u64;
        self.stream.update(chunk);
        self.received = if length > u64::MAX - self.received {
            u64::MAX
        } else {
            self.received + length
        };
        if size_bytes > 0 && self.received > size_bytes as u64 {
            return Err(validation("OSS unit release is larger than registered size"));
        }
        Ok(())
    }

    /// Accepts what has arrived if it is the recorded package.
    pub fn finish(self, size_bytes: i64, checksum: &str) -> (result: Result<
        (),
        DeploymentRuntimeError,
    >)
        requires
            self.wf(),
        ensures
            runtime_fault(result) == (if is_package(self.bytes(), size_bytes, checksum@) {
                None
            } else {
                Some(
                    RuntimeFault::Validation(
                        "downloaded OSS unit release integrity check failed"@,
                    ),
                )
            }),
    {
        let received: u64 = self.received;
        let actual = self.stream.finish();
        if (size_bytes > 0 && received != size_bytes as u64) || !same_ignoring_case(
            checksum,
            actual.as_str(),
        ) {
            return Err(validation("downloaded OSS unit release integrity check failed"));
        }
        Ok(())
    }
}

/// The release once its package has been fetched to the given file.
pub fn downloaded_release(release: UnitReleaseSpec, destination: String) -> (local: UnitReleaseSpec)
    ensures
        local == (UnitReleaseSpec {
            package_path: destination,
            storage_provider: local.storage_provider,
            ..release
        }),
        local.storage_provider@ == "local"@,
{
    let mut local = release;
    local.package_path = destination;
    local.storage_provider = "local".to_owned();
    local
}

// ---------------------------------------------------------------------------
// Verifying a package
// ---------------------------------------------------------------------------

/// A package that is unpacked: its file, and what is recorded of it.
#[derive(Debug, Clone)]
pub struct PackageSource {
    pub path: String,
    pub checksum_sha256: String,
    pub size_bytes: i64,
}

/// What is wrong with the place of a package that is to be unpacked.
pub open spec fn source_fault(release: Option<UnitReleaseSpec>) -> Option<RuntimeFault> {
    match release {
        None => None,
        Some(release) => if release.storage_provider@ == "local"@ {
            None
        } else if release.storage_provider@ == "aliyun_oss"@ {
            Some(
                RuntimeFault::Validation(
                    "OSS unit release must be downloaded before runtime preparation"@,
                ),
            )
        } else {
            Some(RuntimeFault::Validation("unsupported unit release storage provider"@))
        },
    }
}

/// The package of a release that lies on this host.
pub fn package_source(release: &Option<UnitReleaseSpec>) -> (result: Result<
    Option<PackageSource>,
    DeploymentRuntimeError,
>)
    ensures
        match result {
            Ok(None) => release is None,
            Ok(Some(source)) => {
                &&& release is Some
                &&& source_fault(*release) is None
                &&& source.path@ == release->0.package_path@
                &&& source.checksum_sha256@ == release->0.checksum_sha256@
                &&& source.size_bytes == release->0.size_bytes
            },
            Err(error) => source_fault(*release) == Some(error@),
        },
{
    match release {
        None => Ok(None),
        Some(release) => {
            if same_text(release.storage_provider.as_str(), "local") {
                Ok(
                    Some(
                        PackageSource {
                            path: release.package_path.clone(),
                            checksum_sha256: release.checksum_sha256.clone(),
                            size_bytes: release.size_bytes,
                        },
                    ),
                )
            } else if same_text(release.storage_provider.as_str(), "aliyun_oss") {
                Err(
                    validation(
                        "OSS unit release must be downloaded before runtime preparation",
                    ),
                )
            } else {
                Err(validation("unsupported unit release storage provider"))
            }
        },
    }
}

/// Accepts the size of a package file.
pub fn check_package_size(expected_size: i64, actual: u64) -> (result: Result<
    (),
    DeploymentRuntimeError,
>)
    ensures
        runtime_fault(result) == package_size_fault(expected_size, actual),
{
    if expected_size > 0 && actual != expected_size as u64 {
        return Err(
            validation(
                "unit release package size mismatch: expected ".to_owned().concat(
                    integer_text(expected_size).as_str(),
                ).concat(", got ").concat(natural_text(actual).as_str()).as_str(),
            ),
        );
    }
    Ok(())
}

/// Accepts a package file by the digest of its bytes.
pub fn check_package_checksum(expected_checksum: &str, stream: Sha256Stream) -> (result: Result<
    (),
    DeploymentRuntimeError,
>)
    requires
        stream.wf(),
    ensures
        runtime_fault(result) == (if lowered(expected_checksum@) == lowered(
            sha256_hex(stream.bytes()),
        ) {
            None
        } else {
            Some(RuntimeFault::Validation("unit release package checksum mismatch"@))
        }),
{
    let actual = stream.finish();
    if !same_ignoring_case(expected_checksum, actual.as_str()) {
        return Err(validation("unit release package checksum mismatch"));
    }
    Ok(())
}

// ---------------------------------------------------------------------------
// Laws
// ---------------------------------------------------------------------------

/// A package is fetched to a file directly below the directory of its run and unit.
pub proof fn downloads_stay_inside(
    staging_root: Seq<char>,
    deployment_run_id: i64,
    unit_id: i64,
    name: Seq<char>,
)
    requires
        package_name(name) is Ok,
    ensures
        ({
            let directory = download_directory(staging_root, deployment_run_id, unit_id);
            let file = package_name(name)->Ok_0;
            &&& directory.is_prefix_of(below(directory, file))
            &&& !any(file, CharClass::PathSeparator)
            &&& file != ".."@
        }),
{
    let directory = download_directory(staging_root, deployment_run_id, unit_id);
    let file = package_name(name)->Ok_0;
    if file[0] == '/' {
        assert(CharClass::PathSeparator.has(file[0]));
        assert(any(file, CharClass::PathSeparator));
    }
    assert(directory =~= below(directory, file).subrange(0, directory.len() as int));
}

/// A release that was fetched can be unpacked.
pub proof fn downloaded_releases_can_be_unpacked(release: UnitReleaseSpec)
    requires
        release.storage_provider@ == "local"@,
    ensures
        source_fault(Some(release)) is None,
{
}

/// A release is accepted exactly if it says where it lies: on this host under a path, in the object
/// store in a bucket under a key.
pub proof fn releases_say_where_they_lie(release: UnitReleaseSpec)
    ensures
        release.storage_provider@ == "local"@ ==> (release_fault(release) is None <==> trimmed(
            release.package_path@,
        ).len() > 0),
        release.storage_provider@ == "aliyun_oss"@ ==> (release_fault(release) is None <==> trimmed(
            release.storage_bucket@,
        ).len() > 0 && trimmed(release.storage_object_key@).len() > 0),
{
    reveal_strlit("local");
    reveal_strlit("aliyun_oss");
    assert("local"@.len() == 5);
    assert("aliyun_oss"@.len() == 10);
}

/// The name of a package is accepted exactly if it names a file in a directory: it is something,
/// holds neither a slash nor a backslash, and is not a way up or nowhere.
pub proof fn package_names_are_names_of_files(name: Seq<char>)
    ensures
        ({
            let file = trimmed(name);
            &&& package_name(name) is Ok <==> {
                &&& file.len() > 0
                &&& !file.contains('/')
                &&& !file.contains('\\')
                &&& file != "."@
                &&& file != ".."@
            }
            &&& package_name(name) is Ok ==> package_name(name)->Ok_0 == file
        }),
{
    let file = trimmed(name);
    let class = CharClass::PathSeparator;
    if any(file, class) {
        let k = choose|k: int| 0 <= k < file.len() && class.has(#[trigger] file[k]);
        assert(file[k] == '/' || file[k] == '\\');
    }
    if file.contains('/') {
        let k = choose|k: int| 0 <= k < file.len() && file[k] == '/';
        assert(class.has(file[k]));
    }
    if file.contains('\\') {
        let k = choose|k: int| 0 <= k < file.len() && file[k] == '\\';
        assert(class.has(file[k]));
    }
}

/// A release is fetched from the object store of the platform exactly if that is in use, and is the
/// one where the release lies; slashes at the end of an endpoint do not matter.
pub proof fn releases_are_fetched_where_they_lie(
    release: UnitReleaseSpec,
    storage: ArtifactStorageConfig,
)
    ensures
        location_fault(release, storage) is None <==> {
            &&& storage.provider@ == "aliyun_oss"@
            &&& storage.aliyun_oss.bucket@ == release.storage_bucket@
            &&& trimmed_end(storage.aliyun_oss.endpoint@, CharClass::Slash) == trimmed_end(
                release.storage_endpoint@,
                CharClass::Slash,
            )
        },
        location_fault(release, storage) matches Some(fault) ==> fault is Config,
{
}

/// A package is the one that was recorded exactly if it has the recorded size, where there is one,
/// and the recorded checksum, whatever the case of its letters.
pub proof fn packages_have_size_and_checksum(bytes: Seq<u8>, size_bytes: i64, checksum: Seq<char>)
    ensures
        is_package(bytes, size_bytes, checksum) <==> (size_bytes <= 0 || bytes.len() == size_bytes)
            && lowered(checksum) == lowered(sha256_hex(bytes)),
        recorded_size(size_bytes) is Some <==> size_bytes > 0,
        recorded_version(checksum) is Some <==> trimmed(checksum).len() > 0,
        recorded_version(checksum) matches Some(id) ==> id == checksum,
{
}

/// A download succeeds with the statuses from 200 to 299 alone.
pub proof fn downloads_succeed_in_the_two_hundreds(status: u16, text: Seq<char>)
    ensures
        download_fault(status, text) is None <==> status / 100 == 2,
{
}

/// Only a package on this host is unpacked: one in the object store must be fetched first, and no
/// other place is known.
pub proof fn packages_are_unpacked_from_this_host(release: UnitReleaseSpec)
    ensures
        source_fault(None) is None,
        source_fault(Some(release)) is None <==> release.storage_provider@ == "local"@,
{
    reveal_strlit("local");
    reveal_strlit("aliyun_oss");
    assert("local"@.len() == 5);
    assert("aliyun_oss"@.len() == 10);
}

/// Every execution of every unit has a directory of its own for what it fetches.
pub proof fn downloads_have_their_own_directories(
    staging_root: Seq<char>,
    deployment_run_id: i64,
    unit_id: i64,
)
    requires
        staging_root.len() > 0,
        staging_root.last() != '/',
    ensures
        download_directory(staging_root, deployment_run_id, unit_id) == staging_root
            + "/downloads/"@ + signed_decimal(deployment_run_id as int) + "/"@ + signed_decimal(
            unit_id as int,
        ),
{
    reveal_strlit("/");
    reveal_strlit("downloads");
    reveal_strlit("/downloads/");
    lemma_number_is_name(deployment_run_id as int);
    lemma_number_is_name(unit_id as int);
    let first = below(staging_root, "downloads"@);
    assert(first =~= staging_root + "/"@ + "downloads"@);
    assert(first.last() == 's');
    let run = signed_decimal(deployment_run_id as int);
    let second = below(first, run);
    assert(second == first + "/"@ + run);
    assert(second.last() == run.last());
    let unit = signed_decimal(unit_id as int);
    assert(below(second, unit) == second + "/"@ + unit);
    assert(second + "/"@ + unit =~= staging_root + "/downloads/"@ + run + "/"@ + unit);
}

pub(crate) proof fn lemma_number_is_name(n: int)
    ensures
        signed_decimal(n).len() > 0,
        signed_decimal(n)[0] != '/',
        signed_decimal(n).last() != '/',
{
    if n < 0 {
        lemma_digits_are_name((-n) as nat);
    } else {
        lemma_digits_are_name(n as nat);
    }
}

proof fn lemma_digits_are_name(n: nat)
    ensures
        decimal(n).len() > 0,
        decimal(n)[0] != '/',
        decimal(n).last() != '/',
    decreases n,
{
    if n >= 10 {
        lemma_digits_are_name(n / 10);
    }
}

/// A download is stopped as soon as more has come than was recorded, and a package is refused that
/// has another size; nothing is recorded of a size of zero or less.
pub proof fn packages_are_refused_by_size(size_bytes: i64, received: nat, actual: u64)
    ensures
        download_size_fault(size_bytes, received) is None <==> size_bytes <= 0 || received
            <= size_bytes,
        package_size_fault(size_bytes, actual) is None <==> size_bytes <= 0 || actual == size_bytes,
{
}

/// A release is fetched from where it lies, in the version that was recorded, with a request that is
/// signed as any download is; and it is put into the directory of its execution under its own name.
pub proof fn releases_are_fetched_as_recorded(
    release: UnitReleaseSpec,
    storage: ArtifactStorageConfig,
    staging_root: Seq<char>,
    deployment_run_id: i64,
    unit_id: i64,
    now: i64,
    download: crate::artifact_storage::signing::PresignedDownload,
)
    requires
        crate::artifact_storage::signing::download_signed_at(
            storage.aliyun_oss@,
            release.storage_object_key@,
            if trimmed(release.storage_object_version_id@).len() > 0 {
                Some(release.storage_object_version_id@)
            } else {
                None
            },
            now,
            Ok(download),
        ),
        missing(storage.aliyun_oss@) is None,
        location_fault(release, storage) is None,
    ensures
        ({
            let found = download_at(
                release,
                storage,
                staging_root,
                deployment_run_id,
                unit_id,
                now,
            );
            &&& found is Ok <==> package_name(release.package_name@) is Ok
            &&& found matches Ok((url, place)) ==> url == download.url@ && place == below(
                download_directory(staging_root, deployment_run_id, unit_id),
                package_name(release.package_name@)->Ok_0,
            )
        }),
{
}

/// Everything but a stop needs a release, and only a release in the object store is fetched.
pub proof fn only_stops_need_no_release(action: DeploymentAction, provider: Seq<char>)
    ensures
        runs_without_release(action) <==> action is Stop,
        lies_in_store(provider) <==> provider == "aliyun_oss"@,
{
}

} // verus!
