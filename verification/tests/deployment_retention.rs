use easy_deploy::artifact_storage::AliyunOssConfig;
use easy_deploy::deployment_retention::{
    admit_history_delete, admit_log_delete, admit_snapshot_delete,
    application_release_cleanup_preview, archive_application_release, artifact_cleanup_preview,
    check_local_path, delete_application_release, deployment_history_delete_preview,
    finish_artifact_cleanup, finish_history_delete, finish_log_delete, finish_release_delete,
    finish_snapshot_delete, history_delete_event, is_assignment_terminator, live_preview,
    local_candidate, local_removal, plan_artifact_deletion, redact_log_text, select_task_previews,
    sensitive_assignment_prefix, start_artifact_cleanup, stored_preview, task_budget,
    truncate_cleanup_error, ActiveStepLog, ApplicationReleaseRecord, ApplicationReleaseReferences,
    ArtifactDeletion, ArtifactDeletionTarget, ArtifactRecord, ArtifactReferences, BoundedLogBuffer,
    DeploymentRetentionError, DeploymentRunRecord, LocalPathKind, LocalRemoval, StoredPreview,
    StoredStepLog, StoredTaskBudget, StreamingRedactor, TaskLogBudget,
};

#[test]
fn small_log_is_preserved_without_truncation() {
    let mut task = TaskLogBudget::new(100);
    let mut buffer = BoundedLogBuffer::new(10, 20, vec![]);
    buffer.append(b"hello", &mut task);
    buffer.finish(&mut task);

    let snapshot = buffer.snapshot();
    assert_eq!(snapshot.head, b"hello");
    assert!(snapshot.tail.is_empty());
    assert!(!snapshot.truncated);
    assert_eq!(task.stored_bytes(), 5);
}

#[test]
fn keeps_head_and_latest_tail_with_drop_counts() {
    let mut task = TaskLogBudget::new(10);
    let mut buffer = BoundedLogBuffer::new(4, 6, vec![]);
    buffer.append(b"abcdefghijklmnop", &mut task);
    buffer.finish(&mut task);

    let snapshot = buffer.snapshot();
    assert_eq!(snapshot.head, b"abcd");
    assert_eq!(snapshot.tail, b"klmnop");
    assert_eq!(snapshot.stored_bytes, 10);
    assert_eq!(snapshot.received_bytes, 16);
    assert_eq!(snapshot.dropped_bytes, 6);
    assert!(snapshot.truncated);
    assert_eq!(task.dropped_bytes(), 6);
}

#[test]
fn task_budget_prevents_steps_from_growing_total_storage() {
    let mut task = TaskLogBudget::new(8);
    let mut first = BoundedLogBuffer::new(4, 4, vec![]);
    let mut second = BoundedLogBuffer::new(4, 4, vec![]);
    first.append(b"12345678", &mut task);
    second.append(b"abcdefgh", &mut task);
    first.finish(&mut task);
    second.finish(&mut task);

    assert_eq!(task.stored_bytes(), 8);
    assert_eq!(task.received_bytes(), 16);
    assert_eq!(task.dropped_bytes(), 8);
    assert!(task.truncated());
    assert_eq!(second.snapshot().stored_bytes, 0);
}

#[test]
fn redacts_secret_split_across_chunks_and_common_assignments() {
    let mut task = TaskLogBudget::new(1024);
    let mut buffer = BoundedLogBuffer::new(1024, 0, vec!["very-sensitive-value".to_owned()]);
    buffer.append(b"value=very-sensi", &mut task);
    buffer.append(b"tive-value\npassword=hunter2\n", &mut task);
    buffer.finish(&mut task);
    let content = String::from_utf8(buffer.snapshot().head).expect("utf8 log");

    assert!(!content.contains("very-sensitive-value"));
    assert!(!content.contains("hunter2"));
    assert!(content.contains("[REDACTED]"));
}

#[test]
fn redacts_secret_crossing_stream_processing_boundary() {
    let secret = "boundary-secret-value";
    let mut task = TaskLogBudget::new(4096);
    let mut buffer = BoundedLogBuffer::new(4096, 0, vec![secret.to_owned()]);
    let mut first = vec![b'x'; 35];
    first.extend_from_slice(secret.as_bytes());
    first.extend_from_slice(&vec![b'y'; 244]);
    buffer.append(&first, &mut task);
    buffer.finish(&mut task);
    let content = String::from_utf8(buffer.snapshot().head).expect("utf8 log");

    assert!(!content.contains(secret));
    assert!(!content.contains("boundary-se"));
    assert!(content.contains("[REDACTED]"));
}

#[test]
fn bytes_are_stored_or_counted_as_dropped() {
    let mut task = TaskLogBudget::new(12);
    let mut buffer = BoundedLogBuffer::new(4, 4, vec![]);
    for chunk in [b"abc".as_slice(), b"defghij", b"kl"] {
        buffer.append(chunk, &mut task);
    }
    buffer.finish(&mut task);
    buffer.record_external_drop(5, &mut task);
    let snapshot = buffer.snapshot();
    assert_eq!(snapshot.received_bytes, 17);
    assert_eq!(
        snapshot.stored_bytes + snapshot.dropped_bytes,
        snapshot.received_bytes
    );
    assert_eq!(snapshot.head, b"abcd");
    assert_eq!(snapshot.tail, b"ijkl");
    let preview = buffer.preview(2, 3);
    assert_eq!(preview.head, b"ab");
    assert_eq!(preview.tail, b"jkl");
    assert_eq!(preview.preview_omitted_bytes, 3);
}

#[test]
fn chunks_do_not_change_what_is_redacted() {
    let text = b"TOKEN=abc user=bob\nAuthorization: Bearer xyz\nthe-secret stays hidden\n";
    let whole = {
        let mut redactor = StreamingRedactor::new(vec!["the-secret".to_owned()]);
        let mut out = redactor.push(text);
        out.extend(redactor.finish());
        out
    };
    for size in 1..text.len() {
        let mut redactor = StreamingRedactor::new(vec!["the-secret".to_owned()]);
        let mut out = Vec::new();
        for chunk in text.chunks(size) {
            out.extend(redactor.push(chunk));
        }
        out.extend(redactor.finish());
        assert_eq!(out, whole);
    }
    let shown = String::from_utf8(whole).expect("utf8");
    assert!(!shown.contains("abc"));
    assert!(!shown.contains("the-secret"));
    assert!(shown.contains("[REDACTED]"));
}

#[test]
fn harmless_text_is_kept_as_it_is() {
    assert_eq!(redact_log_text(&vec![], "deployed in 3 seconds"), "deployed in 3 seconds");
    assert_eq!(
        redact_log_text(&vec!["s3cret".to_owned()], "s3cret"),
        "[REDACTED]"
    );
    assert!(is_assignment_terminator(b','));
    assert!(!is_assignment_terminator(b' '));
    assert!(sensitive_assignment_prefix(b"password = x", 0).is_some());
    assert!(sensitive_assignment_prefix(b"passphrase", 0).is_none());
}

fn references(app_releases: i64, runtime_states: i64, snapshots: i64) -> ArtifactReferences {
    ArtifactReferences {
        app_releases,
        runtime_states,
        snapshots,
    }
}

fn artifact(status: &str) -> Option<ArtifactRecord> {
    Some(ArtifactRecord {
        version: "1.0.0".to_owned(),
        size_bytes: 2048,
        artifact_status: status.to_owned(),
    })
}

#[test]
fn artifacts_are_cleaned_up_only_without_references() {
    let blocked =
        artifact_cleanup_preview(7, artifact("active"), references(1, 0, 0)).expect("preview");
    assert!(!blocked.allowed());
    assert!(matches!(
        start_artifact_cleanup(&blocked, "admin"),
        Err(DeploymentRetentionError::InvalidState(_))
    ));
    let free =
        artifact_cleanup_preview(7, artifact("active"), references(0, 0, 0)).expect("preview");
    assert!(free.allowed());
    assert_eq!(free.size_bytes, 2048);
    let event = start_artifact_cleanup(&free, "admin").expect("start");
    assert_eq!(event.target_id, "7");
    assert!(matches!(
        artifact_cleanup_preview(7, None, references(0, 0, 0)),
        Err(DeploymentRetentionError::NotFound(_))
    ));
}

#[test]
fn failed_cleanups_are_reported_and_can_be_tried_again() {
    let (failed, event) = finish_artifact_cleanup(7, "admin", Err("disk is busy".to_owned()));
    assert_eq!(failed.status, "delete_failed");
    assert_eq!(failed.error, "disk is busy");
    assert!(event.detail.contains("disk is busy"));
    let (done, _) = finish_artifact_cleanup(7, "admin", Ok(()));
    assert_eq!(done.status, "deleted");
    assert_eq!(done.error, "");
    assert_eq!(truncate_cleanup_error(&"x".repeat(2000)).len(), 1000);
}

fn no_references() -> ApplicationReleaseReferences {
    ApplicationReleaseReferences {
        current_environments: 0,
        active_runs: 0,
        deployment_runs: 0,
        active_queue: 0,
        queue: 0,
        tasks: 0,
        legacy_runs: 0,
        base_releases: 0,
    }
}

fn release(status: &str) -> Option<ApplicationReleaseRecord> {
    Some(ApplicationReleaseRecord {
        version: "2.0.0".to_owned(),
        version_code: 200,
        immutable_status: status.to_owned(),
        estimated_bytes: 4096,
    })
}

#[test]
fn releases_are_archived_before_they_are_deleted() {
    let current =
        application_release_cleanup_preview(3, release("ready"), no_references())
            .expect("preview");
    assert!(current.can_archive());
    assert!(!current.can_delete());
    assert!(archive_application_release(&current, "admin").is_ok());
    assert!(delete_application_release(&current, "admin").is_err());

    let archived = application_release_cleanup_preview(3, release("archived"), no_references())
        .expect("preview");
    assert!(archived.can_delete());
    assert!(delete_application_release(&archived, "admin").is_ok());
    assert_eq!(finish_release_delete(&archived, 1).expect("deleted"), 4096);
    assert!(finish_release_delete(&archived, 0).is_err());

    let used = application_release_cleanup_preview(
        3,
        release("archived"),
        ApplicationReleaseReferences {
            deployment_runs: 2,
            ..no_references()
        },
    )
    .expect("preview");
    assert!(!used.can_delete());
    assert!(application_release_cleanup_preview(3, None, no_references()).is_err());
}

fn run(status: &str, snapshot_status: &str) -> Option<DeploymentRunRecord> {
    Some(DeploymentRunRecord {
        app_release_id: 3,
        task_id: Some(9),
        status: status.to_owned(),
        snapshot_status: snapshot_status.to_owned(),
    })
}

#[test]
fn histories_are_deleted_last() {
    let preview =
        deployment_history_delete_preview(5, run("success", "deleted"), 2, 0, 0).expect("preview");
    assert!(preview.allowed());
    assert!(admit_history_delete(&preview).is_ok());
    let event = history_delete_event(&preview, "admin", 1, true);
    assert_eq!(event.target_id, "5");
    let result = finish_history_delete(&preview, 1, 1, true).expect("deleted");
    assert_eq!(result.deleted_unit_results, 2);
    assert_eq!(result.deleted_queue_rows, 1);
    assert!(result.cleared_task_release);
    assert!(finish_history_delete(&preview, 0, 0, false).is_err());

    let running =
        deployment_history_delete_preview(5, run("running", "deleted"), 2, 0, 0).expect("preview");
    assert!(!running.allowed());
    assert!(admit_history_delete(&running).is_err());
    let logged =
        deployment_history_delete_preview(5, run("success", "deleted"), 2, 1, 0).expect("preview");
    assert!(!logged.allowed());
    let kept =
        deployment_history_delete_preview(5, run("success", "active"), 2, 0, 0).expect("preview");
    assert!(!kept.allowed());
    let queued =
        deployment_history_delete_preview(5, run("success", "deleted"), 2, 0, 1).expect("preview");
    assert!(!queued.allowed());
    assert!(deployment_history_delete_preview(5, None, 0, 0, 0).is_err());
}

#[test]
fn snapshots_and_logs_of_running_deployments_are_kept() {
    assert!(admit_snapshot_delete(Some("success".to_owned())).is_ok());
    assert!(admit_snapshot_delete(Some("running".to_owned())).is_err());
    assert!(matches!(
        admit_snapshot_delete(None),
        Err(DeploymentRetentionError::NotFound(_))
    ));
    let (bytes, event) = finish_snapshot_delete(5, "admin", 100);
    assert_eq!(bytes, 100);
    assert_eq!(event.target_id, "5");
    assert!(admit_log_delete(Some("success".to_owned()), false).is_ok());
    assert!(admit_log_delete(Some("running".to_owned()), false).is_err());
    assert!(admit_log_delete(Some("success".to_owned()), true).is_err());
    assert!(admit_log_delete(None, false).is_err());
    let (bytes, _) = finish_log_delete(5, "admin", 100, 20);
    assert_eq!(bytes, 120);
}

fn deletion_target(provider: &str) -> ArtifactDeletionTarget {
    ArtifactDeletionTarget {
        provider: provider.to_owned(),
        package_path: "releases/a.tar.gz".to_owned(),
        extract_dir: "".to_owned(),
        bucket: "stored-bucket".to_owned(),
        endpoint: "https://oss-cn-beijing.aliyuncs.com".to_owned(),
        object_key: "a/b.tar.gz".to_owned(),
        object_version_id: "v-1".to_owned(),
    }
}

#[test]
fn stored_places_decide_what_is_deleted() {
    let config = AliyunOssConfig {
        bucket: "current-bucket".to_owned(),
        access_key_id: "id".to_owned(),
        access_key_secret: "key".to_owned(),
        ..AliyunOssConfig::default()
    };
    match plan_artifact_deletion(&deletion_target("aliyun_oss"), &config).expect("object") {
        ArtifactDeletion::Object {
            config,
            object_key,
            version_id,
        } => {
            assert_eq!(config.bucket, "stored-bucket");
            assert_eq!(config.endpoint, "https://oss-cn-beijing.aliyuncs.com");
            assert_eq!(object_key, "a/b.tar.gz");
            assert_eq!(version_id, "v-1");
        }
        ArtifactDeletion::Local(_) => panic!("an object is deleted"),
    }
    match plan_artifact_deletion(&deletion_target("local"), &config).expect("paths") {
        ArtifactDeletion::Local(paths) => {
            assert!(paths.contains(&"releases/a.tar.gz".to_owned()))
        }
        ArtifactDeletion::Object { .. } => panic!("paths are deleted"),
    }
    assert!(plan_artifact_deletion(&deletion_target("ftp"), &config).is_err());
}

#[test]
fn only_paths_inside_the_data_directory_are_removed() {
    assert_eq!(
        local_candidate("/data", " releases/a ").as_deref(),
        Some("/data/releases/a")
    );
    assert_eq!(local_candidate("/data", "/other").as_deref(), Some("/other"));
    assert_eq!(local_candidate("/data", "  "), None);
    assert_eq!(
        check_local_path("/data", "/data/a", LocalPathKind::File, "/data/a"),
        Ok(true)
    );
    assert_eq!(
        check_local_path("/data", "/data/a", LocalPathKind::Missing, ""),
        Ok(false)
    );
    assert!(check_local_path("/data", "/other", LocalPathKind::File, "/other").is_err());
    assert!(check_local_path("/data", "/data", LocalPathKind::Directory, "/data").is_err());
    assert!(check_local_path("/data", "/database", LocalPathKind::File, "/database").is_err());
    assert!(check_local_path("/data", "/data/l", LocalPathKind::Symlink, "/data/l").is_err());
    assert!(matches!(
        local_removal("/data/a", LocalPathKind::Directory),
        Ok(LocalRemoval::Directory)
    ));
    assert!(matches!(
        local_removal("/data/a", LocalPathKind::File),
        Ok(LocalRemoval::File)
    ));
    assert!(local_removal("/data/a", LocalPathKind::Other).is_err());
}

fn stored_log(finished: bool) -> Option<StoredStepLog> {
    Some(StoredStepLog {
        step_updated_at: "2026-01-01T00:00:00Z".to_owned(),
        head: Some(b"head".to_vec()),
        tail: Some(Vec::new()),
        received_bytes: Some(4),
        dropped_bytes: Some(0),
        head_limit: Some(8),
        tail_limit: Some(8),
        finished: Some(finished),
        log_updated_at: None,
    })
}

#[test]
fn step_logs_go_on_where_they_were() {
    let mut budget = task_budget(
        Some(StoredTaskBudget {
            stored_bytes: 4,
            received_bytes: 4,
            dropped_bytes: 0,
            max_bytes: 100,
        }),
        50,
    );
    let mut log = match ActiveStepLog::load(stored_log(false), 1024, 1024, vec![]) {
        Ok(log) => log,
        Err(error) => panic!("{}", error.message()),
    };
    log.mutate_buffer(Some(b"more"), 0, true, &mut budget)
        .expect("append");
    let snapshot = log.buffer.snapshot();
    assert_eq!(snapshot.head, b"headmore");
    assert_eq!(budget.received_bytes(), 8);
    assert!(ActiveStepLog::load(None, 1024, 1024, vec![]).is_err());
    let shown = live_preview(1, &log, 4, 0);
    assert_eq!(shown.head, b"head");
    assert!(shown.live);
}

fn preview_row(step_id: i64, updated_at: &str) -> StoredPreview {
    StoredPreview {
        step_id,
        head: b"ab".to_vec(),
        tail: Vec::new(),
        stored_bytes: 5,
        dropped_bytes: -1,
        truncated: false,
        updated_at: updated_at.to_owned(),
    }
}

#[test]
fn live_previews_replace_stored_ones_and_the_latest_are_shown() {
    let first = stored_preview(preview_row(1, "2026-01-01"));
    assert_eq!(first.preview_omitted_bytes, 3);
    assert_eq!(first.dropped_bytes, 0);
    let mut live = stored_preview(preview_row(1, "2026-01-03"));
    live.live = true;
    let shown = select_task_previews(
        vec![first, stored_preview(preview_row(2, "2026-01-02"))],
        vec![live],
        1,
    );
    assert_eq!(shown.len(), 1);
    assert_eq!(shown[0].step_id, 1);
    assert!(shown[0].live);
}

#[test]
fn secrets_are_not_shown_wherever_they_stand() {
    let secrets = vec!["abab".to_owned(), "ab-token".to_owned(), "密钥".to_owned()];
    for text in ["xababab", "ababab-token!", "a密钥b密钥", "token: abab\nabab", "AB-TOKENab-token"] {
        let shown = redact_log_text(&secrets, text);
        for secret in &secrets {
            assert!(!shown.contains(secret.as_str()), "{text}");
        }
        assert!(shown.contains("[REDACTED]"));
    }
    assert_eq!(
        redact_log_text(&secrets, "password = abc, user=bob"),
        "password = [REDACTED], user=bob"
    );
}

#[test]
fn redacted_texts_hold_no_secret_and_cut_no_character() {
    let secrets = vec!["tok-1".to_owned(), "k_9".to_owned(), "tok-1-long".to_owned()];
    let padding = "é".repeat(130);
    for text in [
        "tok-1tok-1 k_9".to_owned(),
        "password=tok-1, then tok-1-long".to_owned(),
        format!("{padding}tok-1{padding}k_9"),
        "secret: 密码\ntok-tok-1k_9".to_owned(),
        "tok-1-lontok-1-long".to_owned(),
    ] {
        let shown = redact_log_text(&secrets, &text);
        for secret in &secrets {
            assert!(!shown.contains(secret.as_str()), "{shown}");
        }
        assert!(!shown.contains('\u{fffd}'));
    }
    assert_eq!(
        redact_log_text(&secrets, &format!("{padding}tok-1{padding}")),
        format!("{padding}[REDACTED]{padding}")
    );
    assert_eq!(
        redact_log_text(&secrets, "令牌 token=值，密\n完"),
        "令牌 token=[REDACTED]\n完"
    );
}

#[test]
fn logs_depend_on_the_output_and_not_on_its_chunks() {
    let secrets = vec!["tok-1".to_owned()];
    let text = format!("start tok-1 {} password=x,\nend tok-1", "0123456789".repeat(40));
    let whole = redact_log_text(&secrets, &text).into_bytes();
    for size in [1, 3, 100, 1_000] {
        let mut task = TaskLogBudget::new(40);
        let mut buffer = BoundedLogBuffer::new(15, 20, secrets.clone());
        for chunk in text.as_bytes().chunks(size) {
            buffer.append(chunk, &mut task);
        }
        buffer.finish(&mut task);
        let snapshot = buffer.snapshot();
        assert_eq!(snapshot.head, &whole[..15]);
        assert_eq!(snapshot.tail, &whole[whole.len() - 20..]);
        assert_eq!(snapshot.received_bytes, whole.len() as u64);
        assert_eq!(snapshot.dropped_bytes, whole.len() as u64 - 35);
        assert_eq!(task.stored_bytes(), 35);
        assert_eq!(task.dropped_bytes(), snapshot.dropped_bytes);
    }
}

#[test]
fn secrets_that_cannot_arise_are_gone() {
    let secrets = vec![
        "hunter".to_owned(),
        "p@ss w/rd!".to_owned(),
        "密钥值".to_owned(),
        "x=[y]".to_owned(),
    ];
    for text in [
        "hunterhunter p@ss w/rd!",
        "password: hunter, hunter",
        "token=密钥值\n密钥值密钥值",
        "x=[y]x=[y] secret=x=[y]'x=[y]",
    ] {
        let shown = redact_log_text(&secrets, text);
        for secret in &secrets {
            assert!(!shown.contains(secret.as_str()), "{shown}");
        }
    }
    // These arise from what redaction itself writes.
    assert!(redact_log_text(&vec!["DACT".to_owned()], "DACT").contains("DACT"));
    assert!(redact_log_text(&vec!["word=".to_owned()], "password=x").contains("word="));
    assert!(redact_log_text(&vec![",abc".to_owned()], "password=x,abc").contains(",abc"));
}
