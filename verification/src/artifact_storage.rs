//! Storage of release artifacts: its configuration, the keys of objects, signed requests to an
//! object store and the answers to them.

pub mod config;
pub mod responses;
pub mod signing;

pub use config::{
    normalize_checksum_sha256, normalize_object_key, normalize_object_version_id,
    normalize_storage_provider, AliyunOssConfig, ArtifactStorageConfig, ArtifactStorageError,
    DEFAULT_ALIYUN_OSS_DOWNLOAD_TTL_SECONDS, DEFAULT_ALIYUN_OSS_ENDPOINT,
    DEFAULT_ALIYUN_OSS_OBJECT_PREFIX, DEFAULT_ALIYUN_OSS_REGION,
    DEFAULT_ALIYUN_OSS_UPLOAD_TTL_SECONDS, STORAGE_PROVIDER_ALIYUN_OSS, STORAGE_PROVIDER_LOCAL,
};
pub use responses::{
    append_bounded_oss_response_chunk, artifact_object_version_from_list_item,
    parse_oss_object_versions_page, validate_listed_object_versions, ArtifactObjectVersion,
    VerifiedArtifactObject, MAX_ARTIFACT_OBJECT_BYTES,
};
pub use signing::{
    canonicalized_oss_bucket_resource, canonicalized_oss_resource, PresignedDownload,
    PresignedUpload, ARTIFACT_UPLOAD_CONTENT_TYPE, ARTIFACT_UPLOAD_FORBID_OVERWRITE_HEADER,
    ARTIFACT_UPLOAD_FORBID_OVERWRITE_VALUE,
};
