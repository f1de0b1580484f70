use easy_deploy::artifact_storage::{AliyunOssConfig, ArtifactStorageConfig};
use easy_deploy::deploy::{CommandSpec, ComposeCommandOutput, DeployError, SshExecutor, SshTarget};
use easy_deploy::deployment_orchestrator::DeploymentAction;
use easy_deploy::deployment_retention::{BoundedLogSnapshot, DeploymentRetentionError};
use easy_deploy::deployment_runtime::{
    accept_download_status, accept_identity, accept_sync_output, accept_target_node,
    account_queued, barrier_result, begin_node_health_check, check_package_checksum,
    check_package_size, command_summary, download_root, downloaded_release, endpoint_health_result,
    ensure_not_canceled, ensure_target_nodes, ensure_unit_belongs, environment_variables,
    execute_prepared_unit_on_node, execution_environment, failure_line, find_unit,
    finish_node_health_check, flush_outcome, load_release, load_unit_spec, log_chunks,
    merge_execution_and_cleanup, merge_execution_and_log_finish,
    merge_execution_and_output_finish, needs_download, node_target, normalized_unit_health_check,
    package_source, plan_release_download_at, prepare_unit_runtime, redact_node_execution_result,
    redact_runtime_error, release_to_load, remote_file_paths, render_environment_file,
    result_from_output, run_compose_action, run_script, safe_package_name, script_file_name,
    script_relative_path, secrets_of, sort_runtime_files, unit_environment, unit_outcome,
    unit_root, validate_environment_variables, validated_target_work_dir, BarrierOutcome,
    CheckpointOutcome, ConfigRevision, ConfigUnit, DeploymentLogWriter, DeploymentRuntimeError,
    DeploymentTargetNode, ExecutionIdentity, FlushOutcome, NodeHealthCheck, NodeHealthResult,
    NodeStep, NodeSummaries, QueueOutcome, ReleaseReceiving, ScriptSlot, StepOutcome,
    UnitExecutionOutcome, UnitExecutionSpec, UnitHealthCheck, UnitNodeExecutionResult,
    UnitReleaseSpec, DEPLOYMENT_LOG_FLUSH_BYTES, DEPLOYMENT_LOG_WRITER_CHUNK_BYTES,
};
use easy_deploy::digest::Sha256Stream;
use easy_deploy::health::{normalize_health_config, HealthCheckOutcome, HealthError};

fn entry(name: &str, value: &str) -> (String, String) {
    (name.to_owned(), value.to_owned())
}

#[test]
fn extracts_only_selected_environment_and_unit_secrets() {
    let values = vec![
        entry("production.api.DATABASE_URL", "prod"),
        entry("production.web.TOKEN", "web"),
        entry("test.api.DATABASE_URL", "test"),
    ];
    assert_eq!(
        environment_variables(&values, "production", "api"),
        vec![entry("DATABASE_URL", "prod")]
    );
}

#[test]
fn deployment_result_and_error_summaries_are_redacted() {
    let secrets = vec!["very-sensitive-value".to_owned()];
    let result = redact_node_execution_result(
        UnitNodeExecutionResult {
            success: false,
            summary: "deploy failed with very-sensitive-value".to_owned(),
        },
        &secrets,
    );
    assert!(!result.summary.contains("very-sensitive-value"));

    let error = redact_runtime_error(
        DeploymentRuntimeError::Validation(
            "command env TOKEN=very-sensitive-value failed".to_owned(),
        ),
        &secrets,
    );
    assert!(!error.message().contains("very-sensitive-value"));
    assert!(error.message().contains("[REDACTED]"));
}

#[test]
fn rejects_environment_file_injection_and_unknown_script_slots() {
    assert!(
        validate_environment_variables(&vec![entry("TOKEN", "value\nINJECTED=true")]).is_err()
    );
    assert!(script_file_name("unknown").is_err());
    assert!(safe_package_name("../package.tar.gz").is_err());
    assert!(safe_package_name("package.tar.gz").is_ok());
}

#[test]
fn staging_cleanup_failure_does_not_hide_cancellation_state() {
    let result = merge_execution_and_cleanup(
        Err(DeploymentRuntimeError::Canceled(
            "部署命令已取消".to_owned(),
        )),
        Err(DeploymentRuntimeError::Database("目录仍被占用".to_owned())),
    );

    assert!(matches!(
        result,
        Err(DeploymentRuntimeError::Canceled(message))
            if message.contains("部署命令已取消") && message.contains("目录仍被占用")
    ));
}

#[test]
fn later_failures_are_told_together_with_earlier_ones() {
    let both = merge_execution_and_cleanup(
        Err(DeploymentRuntimeError::Validation("a".to_owned())),
        Err(DeploymentRuntimeError::Database("b".to_owned())),
    );
    assert_eq!(
        both,
        Err(DeploymentRuntimeError::Database(
            "deployment failed: a; staging cleanup failed: b".to_owned()
        ))
    );
    let output = merge_execution_and_output_finish(
        Ok("done".to_owned()),
        Err(DeploymentRuntimeError::Validation("b".to_owned())),
    );
    assert_eq!(
        output,
        Err(DeploymentRuntimeError::Validation("b".to_owned()))
    );
    let log = merge_execution_and_log_finish(
        Ok("done".to_owned()),
        Err(DeploymentRetentionError::Database("b".to_owned())),
    );
    assert_eq!(
        log,
        Err(DeploymentRuntimeError::Database(
            "部署完成，但步骤日志收口失败：b".to_owned()
        ))
    );
    let snapshot = BoundedLogSnapshot {
        head: Vec::new(),
        tail: Vec::new(),
        stored_bytes: 0,
        received_bytes: 0,
        dropped_bytes: 0,
        truncated: false,
    };
    assert_eq!(
        merge_execution_and_log_finish(Ok("done".to_owned()), Ok(snapshot)),
        Ok("done".to_owned())
    );
}

#[test]
fn outcomes_name_the_kind_of_failure() {
    let cases = [
        (DeploymentRuntimeError::Validation("m".to_owned()), "validation"),
        (
            DeploymentRuntimeError::NotFound("m".to_owned()),
            "resource_not_found",
        ),
        (DeploymentRuntimeError::Config("m".to_owned()), "config_error"),
        (
            DeploymentRuntimeError::Database("m".to_owned()),
            "database_error",
        ),
    ];
    for (error, kind) in cases {
        assert_eq!(failure_line(&error), "部署执行失败：m\n");
        match unit_outcome(Err(error)) {
            UnitExecutionOutcome::Failed {
                failure_kind,
                summary,
                exit_code,
            } => {
                assert_eq!(failure_kind, kind);
                assert_eq!(summary, "m");
                assert_eq!(exit_code, None);
            }
            _ => panic!("a failure is reported"),
        }
    }
    assert!(matches!(
        unit_outcome(Err(DeploymentRuntimeError::Canceled("m".to_owned()))),
        UnitExecutionOutcome::CanceledUnknown { .. }
    ));
    assert!(matches!(
        unit_outcome(Ok("m".to_owned())),
        UnitExecutionOutcome::Success { .. }
    ));
    assert!(ensure_not_canceled(false).is_ok());
    assert!(matches!(
        ensure_not_canceled(true),
        Err(DeploymentRuntimeError::Canceled(_))
    ));
    assert_eq!(
        DeploymentRuntimeError::from_deploy(DeployError::Command("c".to_owned())),
        DeploymentRuntimeError::Validation("c".to_owned())
    );
    assert_eq!(
        DeploymentRuntimeError::from_deploy(DeployError::Canceled("c".to_owned())),
        DeploymentRuntimeError::Canceled("c".to_owned())
    );
}

#[test]
fn environment_files_hold_a_line_for_each_variable() {
    let variables = vec![entry("A", "1"), entry("B_2", "x y")];
    assert!(validate_environment_variables(&variables).is_ok());
    assert_eq!(render_environment_file(&variables), b"A=1\nB_2=x y\n");
    assert_eq!(secrets_of(&variables), vec!["1".to_owned(), "x y".to_owned()]);
    for name in ["", "1A", "A-B", "变量"] {
        assert_eq!(
            validate_environment_variables(&vec![entry(name, "v")]),
            Err(DeploymentRuntimeError::Validation(format!(
                "invalid deployment environment variable {name}"
            )))
        );
    }
    let env = execution_environment(&variables, "orders", "production", "api", "1.0.0");
    assert_eq!(env.len(), 6);
    assert_eq!(env[2], entry("EASY_DEPLOY_APP_KEY", "orders"));
    assert_eq!(env[5], entry("EASY_DEPLOY_VERSION", "1.0.0"));
}

fn release() -> UnitReleaseSpec {
    UnitReleaseSpec {
        id: 5,
        version: "1.0.0".to_owned(),
        version_code: 100,
        package_name: "api.tar.gz".to_owned(),
        package_path: "/data/api.tar.gz".to_owned(),
        checksum_sha256: "BA7816BF8F01CFEA414140DE5DAE2223B00361A396177A9CB410FF61F20015AD"
            .to_owned(),
        size_bytes: 3,
        storage_provider: "local".to_owned(),
        storage_bucket: "easy-deploy-test".to_owned(),
        storage_object_key: "a/api.tar.gz".to_owned(),
        storage_endpoint: "https://oss-cn-hangzhou.aliyuncs.com/".to_owned(),
        storage_object_version_id: "v-1".to_owned(),
    }
}

fn oss_release() -> UnitReleaseSpec {
    UnitReleaseSpec {
        storage_provider: "aliyun_oss".to_owned(),
        ..release()
    }
}

fn storage() -> ArtifactStorageConfig {
    ArtifactStorageConfig {
        provider: "aliyun_oss".to_owned(),
        aliyun_oss: AliyunOssConfig {
            bucket: "easy-deploy-test".to_owned(),
            access_key_id: "test-key".to_owned(),
            access_key_secret: "test-secret".to_owned(),
            ..AliyunOssConfig::default()
        },
    }
}

#[test]
fn releases_are_accepted_with_a_place() {
    assert_eq!(
        release_to_load(DeploymentAction::Deploy, Some(5)).expect("release"),
        Some(5)
    );
    assert_eq!(
        release_to_load(DeploymentAction::Stop, None).expect("no release"),
        None
    );
    assert!(release_to_load(DeploymentAction::Deploy, None).is_err());
    assert_eq!(load_release(Some(release())).expect("release").id, 5);
    assert!(matches!(
        load_release(None),
        Err(DeploymentRuntimeError::NotFound(_))
    ));
    let mut nowhere = release();
    nowhere.package_path = " ".to_owned();
    assert!(load_release(Some(nowhere)).is_err());
    let mut no_key = oss_release();
    no_key.storage_object_key = "".to_owned();
    assert!(load_release(Some(no_key)).is_err());
}

#[test]
fn releases_are_fetched_from_the_store_of_the_platform() {
    assert!(needs_download(&Some(oss_release())));
    assert!(!needs_download(&Some(release())));
    assert!(!needs_download(&None));
    let download =
        plan_release_download_at(&oss_release(), &storage(), "/staging", 21, 4, 1_700_000_000)
            .expect("download");
    assert_eq!(download.destination, "/staging/downloads/21/4/api.tar.gz");
    assert!(download.url.contains("versionId=v-1"));
    assert!(download.url.contains("Expires=1700000600"));
    assert_eq!(download_root("/staging", 21, 4), "/staging/downloads/21/4");

    let mut disabled = storage();
    disabled.provider = "local".to_owned();
    assert!(matches!(
        plan_release_download_at(&oss_release(), &disabled, "/staging", 21, 4, 0),
        Err(DeploymentRuntimeError::Config(_))
    ));
    let mut moved = storage();
    moved.aliyun_oss.bucket = "other".to_owned();
    assert!(plan_release_download_at(&oss_release(), &moved, "/staging", 21, 4, 0).is_err());
    let mut unsafe_name = oss_release();
    unsafe_name.package_name = "..".to_owned();
    assert!(matches!(
        plan_release_download_at(&unsafe_name, &storage(), "/staging", 21, 4, 0),
        Err(DeploymentRuntimeError::Validation(_))
    ));
    assert!(accept_download_status(200, "200 OK").is_ok());
    assert_eq!(
        accept_download_status(403, "403 Forbidden"),
        Err(DeploymentRuntimeError::NotFound(
            "download OSS unit release returned HTTP 403 Forbidden".to_owned()
        ))
    );
}

#[test]
fn packages_are_accepted_by_size_and_digest() {
    let recorded = release();
    let mut receiving = ReleaseReceiving::new();
    receiving.add_chunk(b"ab", recorded.size_bytes).expect("ab");
    receiving.add_chunk(b"c", recorded.size_bytes).expect("c");
    assert!(receiving
        .finish(recorded.size_bytes, &recorded.checksum_sha256)
        .is_ok());

    let mut too_long = ReleaseReceiving::new();
    assert!(too_long.add_chunk(b"abcd", 3).is_err());
    let mut too_short = ReleaseReceiving::new();
    too_short.add_chunk(b"ab", 3).expect("ab");
    assert!(too_short.finish(3, &recorded.checksum_sha256).is_err());
    let mut other = ReleaseReceiving::new();
    other.add_chunk(b"abd", 0).expect("abd");
    assert!(other.finish(0, &recorded.checksum_sha256).is_err());

    let local = downloaded_release(oss_release(), "/staging/api.tar.gz".to_owned());
    assert_eq!(local.package_path, "/staging/api.tar.gz");
    let source = package_source(&Some(local)).expect("source").expect("package");
    assert_eq!(source.path, "/staging/api.tar.gz");
    assert!(package_source(&Some(oss_release())).is_err());
    let mut unknown = release();
    unknown.storage_provider = "ftp".to_owned();
    assert!(package_source(&Some(unknown)).is_err());

    assert!(check_package_size(3, 3).is_ok());
    assert!(check_package_size(0, 9).is_ok());
    assert_eq!(
        check_package_size(3, 4),
        Err(DeploymentRuntimeError::Validation(
            "unit release package size mismatch: expected 3, got 4".to_owned()
        ))
    );
    let mut stream = Sha256Stream::new();
    stream.update(b"abc");
    assert!(check_package_checksum(&recorded.checksum_sha256, stream).is_ok());
    assert!(check_package_checksum(&recorded.checksum_sha256, Sha256Stream::new()).is_err());
}

fn health_check() -> UnitHealthCheck {
    UnitHealthCheck {
        kind: None,
        endpoint: None,
        timeout_secs: None,
        expected_status: None,
    }
}

fn unit(scripts: Vec<(String, String)>) -> ConfigUnit {
    ConfigUnit {
        key: "api".to_owned(),
        name: "API".to_owned(),
        required: true,
        status: "active".to_owned(),
        work_dir: "/srv/orders/api".to_owned(),
        compose_content: "services:\n  api:\n    image: example/api".to_owned(),
        scripts,
        health_check: health_check(),
    }
}

fn node(node_type: &str) -> DeploymentTargetNode {
    DeploymentTargetNode {
        id: 1,
        node_key: "node-1".to_owned(),
        name: "Node".to_owned(),
        node_type: node_type.to_owned(),
        address: "10.0.0.8".to_owned(),
        ssh_port: 22,
        ssh_user: "deploy".to_owned(),
        credential_private_key_path: Some(" /keys/id ".to_owned()),
        work_dir: "/srv".to_owned(),
        status: "online".to_owned(),
        docker_status: "available".to_owned(),
    }
}

fn spec(action: DeploymentAction, scripts: Vec<(String, String)>) -> UnitExecutionSpec {
    UnitExecutionSpec {
        app_id: 1,
        app_key: "orders".to_owned(),
        environment_id: 2,
        environment_key: "production".to_owned(),
        config_revision_id: 3,
        config_hash: "config-hash".to_owned(),
        unit_id: 4,
        unit_key: "api".to_owned(),
        unit: unit(scripts),
        action,
        release: Some(release()),
        target_nodes: Vec::new(),
        environment_variables: vec![entry("APP_SECRET", "secret")],
    }
}

fn all_scripts() -> Vec<(String, String)> {
    vec![
        entry("cleanup", "echo cleanup"),
        entry("deploy", "docker compose up -d"),
        entry("post_deploy", "echo post"),
        entry("pre_deploy", "echo pre"),
        entry("switch_traffic", "echo switch"),
    ]
}

#[test]
fn executions_are_loaded_for_their_unit() {
    let identity = ExecutionIdentity {
        app_id: 1,
        app_key: "orders".to_owned(),
        environment_key: "production".to_owned(),
        config_revision_id: 3,
    };
    let revision = ConfigRevision {
        revision_id: 3,
        config_hash: "hash".to_owned(),
        units: vec![
            ConfigUnit {
                key: "web".to_owned(),
                ..unit(vec![])
            },
            unit(vec![]),
        ],
        secret_values: vec![entry("production.api.A", "1"), entry("production.web.B", "2")],
    };
    assert!(accept_identity(None).is_err());
    let identity = accept_identity(Some(identity)).expect("identity");
    let at = find_unit(&revision.units, "api").expect("unit");
    assert_eq!(at, 1);
    assert!(find_unit(&revision.units, "worker").is_err());
    assert!(ensure_unit_belongs(true).is_ok());
    assert!(ensure_unit_belongs(false).is_err());
    assert!(ensure_target_nodes(&vec![7]).is_ok());
    assert!(ensure_target_nodes(&Vec::new()).is_err());
    let loaded = load_unit_spec(
        identity,
        2,
        revision,
        at,
        4,
        "api".to_owned(),
        DeploymentAction::Deploy,
        Some(release()),
        vec![node("local")],
    );
    assert_eq!(loaded.unit.key, "api");
    assert_eq!(loaded.environment_variables, vec![entry("A", "1")]);
    assert_eq!(loaded.target_nodes.len(), 1);
}

#[test]
fn nodes_must_be_ready() {
    assert!(accept_target_node(Some(node("ssh"))).is_ok());
    assert!(accept_target_node(None).is_err());
    let mut offline = node("ssh");
    offline.status = "offline".to_owned();
    assert_eq!(
        accept_target_node(Some(offline)).map(|node| node.id),
        Err(DeploymentRuntimeError::Validation(
            "target node node-1 is not ready for Docker deployment".to_owned()
        ))
    );
    let mut no_key = node("ssh");
    no_key.credential_private_key_path = None;
    assert_eq!(
        accept_target_node(Some(no_key)).map(|node| node.id),
        Err(DeploymentRuntimeError::Validation(
            "SSH target node node-1 has no deploy credential".to_owned()
        ))
    );
    let target = node_target(&node("ssh")).expect("target").expect("account");
    assert_eq!(target.destination(), "deploy@10.0.0.8");
    assert_eq!(target.identity_file(), Some("/keys/id"));
    assert!(node_target(&node("local")).expect("local").is_none());
    assert!(node_target(&node("winrm")).is_err());
}

#[test]
fn unit_files_are_put_together_below_the_staging_root() {
    let (prepared, files) =
        prepare_unit_runtime(&spec(DeploymentAction::Deploy, all_scripts()), "/staging")
            .expect("prepare runtime");
    assert_eq!(prepared.root, "/staging/1/2/4");
    assert_eq!(prepared.root, unit_root("/staging", 1, 2, 4));
    assert_eq!(prepared.compose_path, "/staging/1/2/4/compose.yaml");
    assert_eq!(prepared.env_path, "/staging/1/2/4/.env");
    assert_eq!(prepared.package_path.as_deref(), Some("/data/api.tar.gz"));
    assert_eq!(prepared.script_paths.len(), 5);
    assert_eq!(
        prepared.script_paths[1],
        entry("deploy", "/staging/1/2/4/.easy-deploy/scripts/deploy.sh")
    );
    assert_eq!(files.len(), 7);
    assert_eq!(files[1].path, prepared.env_path);
    assert_eq!(files[1].content, b"APP_SECRET=secret\n");
    assert_eq!(files[3].content, b"docker compose up -d");

    let mut unknown = spec(DeploymentAction::Deploy, vec![entry("reboot", "x")]);
    assert!(prepare_unit_runtime(&unknown, "/staging").is_err());
    unknown.unit.scripts = Vec::new();
    unknown.environment_variables = vec![entry("1", "x")];
    assert!(prepare_unit_runtime(&unknown, "/staging").is_err());
    let mut elsewhere = spec(DeploymentAction::Deploy, Vec::new());
    elsewhere.release = Some(oss_release());
    assert!(prepare_unit_runtime(&elsewhere, "/staging").is_err());
}

fn output(success: bool, text: &str) -> ComposeCommandOutput {
    ComposeCommandOutput {
        command: "command".to_owned(),
        success,
        status_code: Some(if success { 0 } else { 1 }),
        output: text.to_owned(),
    }
}

fn healthy(message: &str) -> StepOutcome {
    StepOutcome::Checked(NodeHealthResult {
        healthy: true,
        message: message.to_owned(),
    })
}

#[test]
fn deployments_take_their_steps_in_order() {
    let spec = spec(DeploymentAction::Deploy, all_scripts());
    let started = match execute_prepared_unit_on_node(&spec, &node("local")) {
        Ok(started) => started,
        Err(error) => panic!("{}", error.message()),
    };
    assert_eq!(started.work_dir, "/srv/orders/api");
    assert!(started.target.is_none());
    let mut execution = started.execution;
    let mut steps = Vec::new();
    let result = loop {
        let step = execution.next_step().expect("another step");
        steps.push(step);
        let outcome = match step {
            NodeStep::Sync => StepOutcome::Synced,
            NodeStep::Health => healthy("ok"),
            _ => StepOutcome::Output(output(true, "done")),
        };
        if let Some(result) = execution.step_done(outcome) {
            break result;
        }
    };
    assert_eq!(
        steps,
        vec![
            NodeStep::Sync,
            NodeStep::Script(ScriptSlot::PreDeploy),
            NodeStep::Script(ScriptSlot::Deploy),
            NodeStep::Script(ScriptSlot::PostDeploy),
            NodeStep::Health,
            NodeStep::Script(ScriptSlot::SwitchTraffic),
            NodeStep::Script(ScriptSlot::Cleanup),
        ]
    );
    assert!(result.success);
    assert_eq!(result.summary, "节点 node-1 部署成功：ok");
    assert!(execution.next_step().is_none());
}

#[test]
fn stops_and_failures_end_an_execution() {
    let stop = spec(DeploymentAction::Stop, all_scripts());
    let mut execution = match execute_prepared_unit_on_node(&stop, &node("ssh")) {
        Ok(started) => started.execution,
        Err(error) => panic!("{}", error.message()),
    };
    assert_eq!(execution.next_step(), Some(NodeStep::Compose));
    let result = execution
        .step_done(StepOutcome::Output(output(true, "")))
        .expect("result");
    assert!(result.success);
    assert_eq!(result.summary, "Compose 服务已停止");

    let deploy = spec(DeploymentAction::Deploy, vec![entry("pre_deploy", "x")]);
    let mut execution = match execute_prepared_unit_on_node(&deploy, &node("local")) {
        Ok(started) => started.execution,
        Err(error) => panic!("{}", error.message()),
    };
    assert!(execution.step_done(StepOutcome::Synced).is_none());
    let result = execution
        .step_done(StepOutcome::Output(output(false, " \n")))
        .expect("result");
    assert!(!result.success);
    assert_eq!(result.summary, "脚本 pre_deploy 执行失败");
    assert_eq!(
        execution.next_step(),
        Some(NodeStep::Script(ScriptSlot::PreDeploy))
    );

    let plain = spec(DeploymentAction::Upgrade, Vec::new());
    let mut execution = match execute_prepared_unit_on_node(&plain, &node("local")) {
        Ok(started) => started.execution,
        Err(error) => panic!("{}", error.message()),
    };
    assert!(execution.step_done(StepOutcome::Synced).is_none());
    assert_eq!(execution.next_step(), Some(NodeStep::Compose));
    assert!(execution
        .step_done(StepOutcome::Output(output(true, "")))
        .is_none());
    let result = execution
        .step_done(StepOutcome::Checked(NodeHealthResult {
            healthy: false,
            message: "down".to_owned(),
        }))
        .expect("result");
    assert!(!result.success);
    assert_eq!(result.summary, "down");

    let mut relative = spec(DeploymentAction::Deploy, Vec::new());
    relative.unit.work_dir = "srv".to_owned();
    assert!(execute_prepared_unit_on_node(&relative, &node("local")).is_err());
}

#[test]
fn work_directories_are_absolute_and_below_the_root() {
    assert_eq!(
        validated_target_work_dir(" /srv/app// ").expect("directory"),
        "/srv/app"
    );
    for path in ["", "srv", "/", "//", "/./"] {
        assert!(validated_target_work_dir(path).is_err());
    }
}

#[test]
fn summaries_show_the_first_line_that_says_something() {
    assert_eq!(command_summary(&output(false, "\n  \n first\nsecond"), "x"), " first");
    assert_eq!(command_summary(&output(false, " \n"), "x"), "x");
    assert_eq!(
        command_summary(&output(false, &"长".repeat(600)), "x"),
        "长".repeat(500)
    );
    assert_eq!(
        result_from_output(&output(false, ""), "ok").summary,
        "Docker Compose 命令失败"
    );
    let mut summaries = NodeSummaries::new();
    assert!(summaries
        .add(
            "a",
            UnitNodeExecutionResult {
                success: true,
                summary: "one".to_owned()
            }
        )
        .is_ok());
    assert_eq!(
        summaries.add(
            "b",
            UnitNodeExecutionResult {
                success: false,
                summary: "two".to_owned()
            }
        ),
        Err(DeploymentRuntimeError::Validation(
            "节点 b 执行失败：two".to_owned()
        ))
    );
    assert_eq!(summaries.finish(), "one；two");
}

#[test]
fn files_are_copied_in_order_to_their_places() {
    let files = vec![entry("/r/b", "b"), entry("/r/a/c", "a/c"), entry("/r/a", "a")];
    let sorted = sort_runtime_files(files);
    let order: Vec<&str> = sorted.iter().map(|file| file.1.as_str()).collect();
    assert_eq!(order, vec!["a", "a/c", "b"]);
    assert_eq!(
        remote_file_paths("/srv/app", "scripts\\run.sh"),
        entry("/srv/app/scripts/run.sh", "/srv/app/scripts")
    );
    assert!(accept_sync_output(&output(true, ""), true).is_ok());
    assert_eq!(
        accept_sync_output(&output(false, ""), false),
        Err(DeploymentRuntimeError::Validation(
            "SSH 创建部署目录失败".to_owned()
        ))
    );
    assert_eq!(
        accept_sync_output(&output(false, ""), true),
        Err(DeploymentRuntimeError::Validation(
            "SSH 同步部署文件失败".to_owned()
        ))
    );
}

#[test]
fn steps_run_where_the_node_is() {
    let ssh = SshExecutor::new();
    let target = Some(SshTarget::new("deploy", "10.0.0.8", 22).expect("target"));
    let up = run_compose_action(DeploymentAction::Deploy, "/staging", &None, &ssh, "/srv/app")
        .expect("up");
    assert_eq!(up.program, "docker");
    assert_eq!(up.args, vec!["compose", "up", "-d", "--remove-orphans"]);
    assert_eq!(up.current_dir, "/srv/app");
    let down = run_compose_action(DeploymentAction::Stop, "/staging", &target, &ssh, "/srv/app")
        .expect("down");
    assert_eq!(down.program, "ssh");
    assert_eq!(down.args.last().map(String::as_str), Some("down"));
    assert_eq!(down.current_dir, "/staging");

    let spec = spec(DeploymentAction::Deploy, all_scripts());
    let env = unit_environment(&spec);
    assert_eq!(
        script_relative_path(ScriptSlot::SwitchTraffic),
        ".easy-deploy/scripts/switch-traffic.sh"
    );
    let local = run_script(
        ScriptSlot::Deploy,
        "/staging",
        &None,
        &ssh,
        "/srv/app",
        &env,
        true,
        true,
    )
    .expect("script");
    assert_eq!(local.program, "env");
    assert!(local.args.contains(&"APP_SECRET=secret".to_owned()));
    assert!(local.args.contains(&"EASY_DEPLOY_VERSION=1.0.0".to_owned()));
    assert_eq!(
        local.args.last().map(String::as_str),
        Some(".easy-deploy/scripts/deploy.sh")
    );
    assert!(run_script(
        ScriptSlot::Deploy,
        "/staging",
        &None,
        &ssh,
        "/srv/app",
        &env,
        true,
        false,
    )
    .is_err());
    let remote = run_script(
        ScriptSlot::Deploy,
        "/staging",
        &target,
        &ssh,
        "/srv/app",
        &env,
        false,
        false,
    )
    .expect("script");
    assert_eq!(remote.program, "ssh");
}

fn command_of(check: NodeHealthCheck) -> CommandSpec {
    match check {
        NodeHealthCheck::Command(command) => command,
        _ => panic!("a command is run"),
    }
}

#[test]
fn ssh_http_health_check_runs_on_target_node() {
    let ssh = SshExecutor::new();
    let target = Some(SshTarget::new("deploy", "10.0.0.8", 22).expect("create SSH target"));
    let config = normalize_health_config("http", "http://127.0.0.1:8080/healthz", 5, 200)
        .expect("normalize health check");

    let check = begin_node_health_check(&config, "/staging", &target, &ssh, "/srv/app")
        .map(command_of)
        .expect("run remote health check");
    let result = finish_node_health_check(&config, &output(true, "200"));

    assert!(result.healthy);
    assert_eq!(check.program, "ssh");
    assert!(check.args.iter().any(|arg| arg == "curl"));
    assert!(!finish_node_health_check(&config, &output(true, "500")).healthy);
    assert_eq!(
        finish_node_health_check(&config, &output(false, "")).message,
        "HTTP GET 健康检查失败"
    );
}

#[test]
fn health_is_checked_by_its_kind() {
    let ssh = SshExecutor::new();
    let none = normalized_unit_health_check(&health_check()).expect("no check");
    match begin_node_health_check(&none, "/staging", &None, &ssh, "/srv/app") {
        Ok(NodeHealthCheck::Known(result)) => {
            assert!(result.healthy);
            assert_eq!(result.message, "未配置健康检查");
        }
        _ => panic!("nothing is checked"),
    }
    let running = normalized_unit_health_check(&UnitHealthCheck {
        kind: Some("compose_running".to_owned()),
        ..health_check()
    })
    .expect("running");
    let command = begin_node_health_check(&running, "/staging", &None, &ssh, "/srv/app")
        .map(command_of)
        .expect("command");
    assert_eq!(command.args, vec!["compose", "ps", "--status", "running"]);
    assert!(finish_node_health_check(&running, &output(true, "NAME\napi")).healthy);
    assert!(!finish_node_health_check(&running, &output(true, "NAME")).healthy);
    let systemd = normalized_unit_health_check(&UnitHealthCheck {
        kind: Some("systemd_active".to_owned()),
        endpoint: Some("api.service".to_owned()),
        ..health_check()
    })
    .expect("systemd");
    assert!(begin_node_health_check(&systemd, "/staging", &None, &ssh, "/srv/app").is_err());
    let tcp = normalized_unit_health_check(&UnitHealthCheck {
        kind: Some("tcp".to_owned()),
        endpoint: Some("127.0.0.1:80".to_owned()),
        ..health_check()
    })
    .expect("tcp");
    assert!(matches!(
        begin_node_health_check(&tcp, "/staging", &None, &ssh, "/srv/app"),
        Ok(NodeHealthCheck::Endpoint)
    ));
    assert!(normalized_unit_health_check(&UnitHealthCheck {
        kind: Some("ping".to_owned()),
        ..health_check()
    })
    .is_err());
    let seen = endpoint_health_result(Ok(HealthCheckOutcome {
        healthy: true,
        message: "ok".to_owned(),
    }))
    .expect("result");
    assert!(seen.healthy);
    assert!(endpoint_health_result(Err(HealthError::CheckFailed("x".to_owned()))).is_err());
}

#[test]
fn output_is_queued_in_chunks_and_never_waits() {
    let bytes: Vec<u8> = (0..DEPLOYMENT_LOG_WRITER_CHUNK_BYTES * 2 + 5)
        .map(|index| (index % 251) as u8)
        .collect();
    let chunks = log_chunks(&bytes);
    assert_eq!(chunks.len(), 3);
    assert_eq!(chunks[2].len(), 5);
    assert_eq!(chunks.concat(), bytes);
    assert!(log_chunks(b"").is_empty());
    assert_eq!(account_queued(QueueOutcome::Queued, 7).expect("queued"), 0);
    assert_eq!(account_queued(QueueOutcome::Full, 7).expect("full"), 7);
    assert!(account_queued(QueueOutcome::Closed, 7).is_err());
    assert!(barrier_result(BarrierOutcome::Answered(Ok(()))).is_ok());
    assert!(barrier_result(BarrierOutcome::Stopped).is_err());
    assert!(barrier_result(BarrierOutcome::Unanswered).is_err());
    match barrier_result(BarrierOutcome::Answered(Err("x".to_owned()))) {
        Err(error) => assert_eq!(error.message(), "写入部署步骤日志失败: x"),
        Ok(()) => panic!("the answer is an error"),
    }
}

#[test]
fn logs_are_handed_on_and_stored_from_time_to_time() {
    let mut writer = DeploymentLogWriter::new();
    assert!(!writer.add_chunk(b"abc"));
    assert!(writer.add_chunk(&vec![b'x'; DEPLOYMENT_LOG_FLUSH_BYTES]));
    assert_eq!(
        writer.to_append().map(|bytes| bytes.len()),
        Some(DEPLOYMENT_LOG_FLUSH_BYTES + 3)
    );
    let failed = writer.appended(Some(Err("busy".to_owned())));
    assert!(matches!(failed, FlushOutcome::Failed(_)));
    assert!(writer.to_append().is_some());
    let appended = writer.appended(Some(Ok(())));
    assert!(writer.to_append().is_none());
    let (outcome, restored) = flush_outcome(appended, 0, Ok(()));
    assert_eq!(restored, 0);
    assert!(!writer.checkpoint_due(10_000));
    writer.flushed(&outcome);
    assert!(!writer.checkpoint_due(4_999));
    assert!(writer.checkpoint_due(5_000));
    assert!(!writer.checkpointed(CheckpointOutcome::Failed));
    assert!(writer.checkpoint_due(5_000));
    assert!(writer.checkpointed(CheckpointOutcome::Stored { truncated: true }));
    writer.flushed(&FlushOutcome::Changed);
    assert!(!writer.checkpoint_due(59_999));
    assert!(writer.checkpoint_due(60_000));
    let (outcome, restored) = flush_outcome(FlushOutcome::Nothing, 9, Err("busy".to_owned()));
    assert!(matches!(outcome, FlushOutcome::Failed(_)));
    assert_eq!(restored, 9);
    let (outcome, _) = flush_outcome(FlushOutcome::Nothing, 9, Ok(()));
    assert!(matches!(outcome, FlushOutcome::Changed));
}

#[test]
fn environment_files_read_back() {
    let variables = vec![
        entry("A", "1=2"),
        entry("B_2", ""),
        entry("C", " 值 = x=\t"),
    ];
    assert!(validate_environment_variables(&variables).is_ok());
    let text = String::from_utf8(render_environment_file(&variables)).expect("text");
    assert!(text.ends_with('\n'));
    let read: Vec<(String, String)> = text
        .lines()
        .map(|line| line.split_once('=').expect("variable"))
        .map(|(name, value)| entry(name, value))
        .collect();
    assert_eq!(read, variables);
}
