use easy_deploy::deploy::capture::{
    BoundedCommandCapture, COMMAND_CAPTURE_HEAD_BYTES, COMMAND_CAPTURE_TAIL_BYTES,
    COMMAND_CAPTURE_TRUNCATION_MARKER,
};
use easy_deploy::deploy::commands::{
    command_output, command_prompt, path_below, render_command, require_path,
    COMPOSE_DIRECTORY_COMPLAINT,
};
use easy_deploy::deploy::inputs::{
    normalize_compose_service_name, normalize_env_name, normalize_local_absolute_path,
    normalize_log_tail_lines, normalize_remote_absolute_path, normalize_remote_health_endpoint,
    normalize_remote_tcp_endpoint, normalize_script_relative_path, normalize_ssh_address,
    normalize_ssh_user, normalize_systemd_unit_name, shell_quote,
};
use easy_deploy::deploy::process::{
    CommandEvent, CommandOutputEvent, CommandProcessStop, CommandStep,
};
use easy_deploy::deploy::ssh::{
    known_host, known_host_entries, known_host_lookup, known_host_outcome, known_host_scan,
};
use easy_deploy::deploy::{
    append_ssh_known_hosts_args, ssh_known_host_lookup_key, ssh_known_hosts_file,
    CommandOutputStream, CommandResult, CommandSpec, ComposeExecutor, DeployError, SshExecutor,
    SshTarget, SystemdExecutor, TokioCommandRunner,
};

const WORK_DIR: &str = "/work";

fn rendered(spec: &CommandSpec) -> String {
    render_command(&spec.program, &spec.args)
}

fn target() -> SshTarget {
    SshTarget::new("deploy", "10.0.2.11", 22).expect("valid ssh target")
}

fn env() -> Vec<(String, String)> {
    vec![
        ("ED_APP_KEY".to_owned(), "orders".to_owned()),
        ("ED_RELEASE_VERSION".to_owned(), "v1.2.3".to_owned()),
    ]
}

fn result(status_code: i32, stdout: &str, stderr: &str) -> CommandResult {
    CommandResult {
        status_code: Some(status_code),
        stdout: stdout.to_owned(),
        stderr: stderr.to_owned(),
    }
}

#[test]
fn compose_config_uses_docker_compose_in_work_dir() {
    let spec = ComposeExecutor::config(WORK_DIR);

    assert_eq!(rendered(&spec), "docker compose config");
    assert_eq!(spec.program, "docker");
    assert_eq!(spec.args, ["compose", "config"]);
    assert_eq!(spec.current_dir, WORK_DIR);
}

#[test]
fn compose_run_shell_redacted_hides_sensitive_command_label() {
    let spec = ComposeExecutor::run_shell_redacted(
        WORK_DIR,
        "curl 'https://bucket.oss/test?Signature=secret'",
    );
    let output = command_output("download oss://bucket/test", &result(0, "ok\n", ""));

    assert!(output.success);
    assert_eq!(output.command, "download oss://bucket/test");
    assert!(!output.command.contains("Signature=secret"));
    assert_eq!(spec.program, "sh");
    assert!(spec.args[1].contains("Signature=secret"));
    let streamed = command_prompt("download oss://bucket/test");
    assert!(streamed.contains("download oss://bucket/test"));
    assert!(!streamed.contains("Signature=secret"));
}

#[test]
fn docker_info_uses_docker_info_in_work_dir() {
    let spec = ComposeExecutor::docker_info(WORK_DIR);

    assert_eq!(rendered(&spec), "docker info");
    assert_eq!(spec.program, "docker");
    assert_eq!(spec.args, ["info"]);
    assert_eq!(spec.current_dir, WORK_DIR);
}

#[test]
fn compose_run_script_uses_env_and_relative_script_path() {
    let spec = ComposeExecutor::run_script(
        WORK_DIR,
        true,
        ".easy-deploy/scripts/deploy.sh",
        true,
        &env(),
    )
    .expect("run script");

    assert_eq!(
        rendered(&spec),
        "env ED_APP_KEY=orders ED_RELEASE_VERSION=v1.2.3 sh .easy-deploy/scripts/deploy.sh"
    );
    assert_eq!(spec.program, "env");
    assert_eq!(
        spec.args,
        [
            "ED_APP_KEY=orders",
            "ED_RELEASE_VERSION=v1.2.3",
            "sh",
            ".easy-deploy/scripts/deploy.sh"
        ]
    );
    assert_eq!(spec.current_dir, WORK_DIR);
}

#[test]
fn service_logs_targets_single_compose_service() {
    let spec = ComposeExecutor::service_logs(WORK_DIR, "web").expect("run service logs");

    assert_eq!(
        rendered(&spec),
        "docker compose logs --tail 200 --no-color web"
    );
    assert_eq!(
        spec.args,
        ["compose", "logs", "--tail", "200", "--no-color", "web"]
    );
}

#[test]
fn service_logs_supports_custom_tail_lines() {
    let spec =
        ComposeExecutor::service_logs_with_tail(WORK_DIR, "web", 500).expect("run service logs");

    assert_eq!(
        rendered(&spec),
        "docker compose logs --tail 500 --no-color web"
    );
    assert_eq!(
        spec.args,
        ["compose", "logs", "--tail", "500", "--no-color", "web"]
    );
}

#[test]
fn service_logs_rejects_invalid_service_name() {
    let err = ComposeExecutor::service_logs(WORK_DIR, "../web")
        .expect_err("invalid service should fail");

    assert!(err.message().contains("服务名称仅支持"));
}

#[test]
fn compose_rejects_missing_work_dir() {
    let err = require_path(
        false,
        COMPOSE_DIRECTORY_COMPLAINT,
        "definitely-missing-compose-dir",
    )
    .expect_err("missing work dir should fail");

    assert!(err.message().contains("Compose 工作目录不存在"));
}

#[test]
fn systemd_restart_uses_systemctl_in_work_dir() {
    let spec =
        SystemdExecutor::restart(WORK_DIR, "orders-api.service").expect("run systemctl restart");

    assert_eq!(rendered(&spec), "systemctl restart orders-api.service");
    assert_eq!(spec.program, "systemctl");
    assert_eq!(spec.args, ["restart", "orders-api.service"]);
    assert_eq!(spec.current_dir, WORK_DIR);
}

#[test]
fn systemd_daemon_reload_uses_systemctl_in_work_dir() {
    let spec = SystemdExecutor::daemon_reload(WORK_DIR);

    assert_eq!(rendered(&spec), "systemctl daemon-reload");
    assert_eq!(spec.program, "systemctl");
    assert_eq!(spec.args, ["daemon-reload"]);
    assert_eq!(spec.current_dir, WORK_DIR);
}

#[test]
fn systemd_link_unit_uses_systemctl_link() {
    let unit_path = "/work/easy-deploy-worker-bin.service";
    let spec = SystemdExecutor::link_unit(WORK_DIR, unit_path, true).expect("run systemctl link");

    assert_eq!(rendered(&spec), format!("systemctl link {unit_path}"));
    assert_eq!(spec.program, "systemctl");
    assert_eq!(spec.args, ["link", unit_path]);
    assert_eq!(spec.current_dir, WORK_DIR);
    assert!(SystemdExecutor::link_unit(WORK_DIR, unit_path, false).is_err());
}

#[test]
fn systemd_make_executable_uses_chmod_in_work_dir() {
    let spec = SystemdExecutor::make_executable(
        WORK_DIR,
        "/opt/easy-deploy/apps/orders-api/releases/v1/orders-api",
    )
    .expect("run chmod");

    assert_eq!(
        rendered(&spec),
        "chmod +x /opt/easy-deploy/apps/orders-api/releases/v1/orders-api"
    );
    assert_eq!(spec.program, "chmod");
    assert_eq!(
        spec.args,
        [
            "+x",
            "/opt/easy-deploy/apps/orders-api/releases/v1/orders-api"
        ]
    );
    assert_eq!(spec.current_dir, WORK_DIR);
}

#[test]
fn systemd_rejects_invalid_unit_name() {
    let err =
        SystemdExecutor::restart(WORK_DIR, "../orders").expect_err("invalid unit should fail");

    assert!(err.message().contains("systemd unit 必须以 .service 结尾"));
}

#[test]
fn systemd_logs_use_journalctl_in_work_dir() {
    let spec = SystemdExecutor::logs(WORK_DIR, "orders-api.service").expect("run journalctl logs");

    assert_eq!(
        rendered(&spec),
        "journalctl -u orders-api.service -n 200 --no-pager"
    );
    assert_eq!(spec.program, "journalctl");
    assert_eq!(
        spec.args,
        ["-u", "orders-api.service", "-n", "200", "--no-pager"]
    );
    assert_eq!(spec.current_dir, WORK_DIR);
}

#[test]
fn ssh_executor_runs_remote_systemctl() {
    let spec = SshExecutor::new()
        .restart(&target(), WORK_DIR, "orders-api.service")
        .expect("run remote restart");

    assert_eq!(
        rendered(&spec),
        "ssh -p 22 deploy@10.0.2.11 systemctl restart orders-api.service"
    );
    assert_eq!(spec.program, "ssh");
    assert_eq!(
        spec.args,
        [
            "-p",
            "22",
            "deploy@10.0.2.11",
            "systemctl",
            "restart",
            "orders-api.service"
        ]
    );
    assert_eq!(spec.current_dir, WORK_DIR);
}

#[test]
fn ssh_executor_uses_managed_known_hosts_when_configured() {
    let known_hosts_file = ssh_known_hosts_file(WORK_DIR);
    let executor = SshExecutor::new().with_known_hosts_file(known_hosts_file.clone());
    let spec = executor
        .restart(&target(), WORK_DIR, "orders-api.service")
        .expect("run remote restart");

    let host = known_host("10.0.2.11", 22).expect("known host");
    assert_eq!(
        known_host_lookup(&host.lookup_key, &known_hosts_file).program,
        "ssh-keygen"
    );
    assert_eq!(
        known_host_scan(&host.address, host.port).program,
        "ssh-keyscan"
    );
    let entries = known_host_entries(
        &result(0, "# comment\n10.0.2.11 ssh-ed25519 AAAA\n", ""),
        &host.address,
        host.port,
    )
    .expect("entries");
    assert_eq!(entries, ["10.0.2.11 ssh-ed25519 AAAA"]);
    assert_eq!(spec.program, "ssh");
    assert!(spec
        .args
        .iter()
        .any(|arg| arg == &format!("UserKnownHostsFile={known_hosts_file}")));
    assert!(spec.args.contains(&"StrictHostKeyChecking=yes".to_owned()));
}

#[test]
fn ensure_ssh_known_host_reports_keyscan_failure_output() {
    let host = known_host("10.0.2.11", 22).expect("known host");
    let scan = known_host_scan(&host.address, host.port);
    let err = known_host_entries(&result(1, "", "no route to host"), &host.address, host.port)
        .expect_err("keyscan failure should fail");

    assert!(err.message().contains("采集 SSH 主机指纹失败"));
    assert!(err.message().contains("no route to host"));
    assert_eq!(scan.program, "ssh-keyscan");
    assert_eq!(scan.args, ["-p", "22", "-T", "10", "-H", "10.0.2.11"]);
}

#[test]
fn ssh_executor_uses_managed_known_hosts_for_scp_and_remote_compose() {
    let known_hosts_file = "/work/ssh/known_hosts";
    let executor = SshExecutor::new().with_known_hosts_file(known_hosts_file.to_owned());
    let target = SshTarget::new("deploy", "10.0.2.11", 2222).expect("valid ssh target");

    let scp = executor
        .copy_file(
            &target,
            WORK_DIR,
            "/work/orders-api",
            true,
            "/opt/easy-deploy/apps/orders-api/current",
        )
        .expect("copy file");
    let ssh = executor
        .compose_up(&target, WORK_DIR, "/opt/easy-deploy/apps/orders-api")
        .expect("run remote compose up");

    assert_eq!(ssh_known_host_lookup_key("10.0.2.11", 2222), "[10.0.2.11]:2222");
    let known_hosts_arg = format!("UserKnownHostsFile={known_hosts_file}");
    for spec in [&scp, &ssh] {
        assert!(spec.args.contains(&known_hosts_arg));
        assert!(spec.args.contains(&"StrictHostKeyChecking=yes".to_owned()));
        assert!(spec.args.contains(&"-o".to_owned()));
    }
    assert_eq!(scp.args[0], "-P");
    assert_eq!(scp.args[1], "2222");
    assert_eq!(ssh.args[0], "-p");
    assert_eq!(ssh.args[1], "2222");
}

#[test]
fn ssh_executor_runs_remote_journalctl() {
    let spec = SshExecutor::new()
        .logs(&target(), WORK_DIR, "orders-api.service")
        .expect("run remote logs");

    assert_eq!(
        rendered(&spec),
        "ssh -p 22 deploy@10.0.2.11 journalctl -u orders-api.service -n 200 --no-pager"
    );
    assert_eq!(spec.program, "ssh");
    assert_eq!(
        spec.args,
        [
            "-p",
            "22",
            "deploy@10.0.2.11",
            "journalctl",
            "-u",
            "orders-api.service",
            "-n",
            "200",
            "--no-pager"
        ]
    );
    assert_eq!(spec.current_dir, WORK_DIR);
}

#[test]
fn ssh_executor_links_remote_systemd_unit() {
    let spec = SshExecutor::new()
        .link_unit(
            &target(),
            WORK_DIR,
            "/opt/easy-deploy/apps/edge-bin/.easy-deploy/systemd/easy-deploy-edge-bin.service",
        )
        .expect("run remote systemctl link");

    assert_eq!(
        rendered(&spec),
        "ssh -p 22 deploy@10.0.2.11 systemctl link /opt/easy-deploy/apps/edge-bin/.easy-deploy/systemd/easy-deploy-edge-bin.service"
    );
    assert_eq!(spec.program, "ssh");
    assert_eq!(
        spec.args,
        [
            "-p",
            "22",
            "deploy@10.0.2.11",
            "systemctl",
            "link",
            "/opt/easy-deploy/apps/edge-bin/.easy-deploy/systemd/easy-deploy-edge-bin.service"
        ]
    );
    assert_eq!(spec.current_dir, WORK_DIR);
}

#[test]
fn ssh_executor_makes_remote_binary_executable() {
    let spec = SshExecutor::new()
        .make_executable(
            &target(),
            WORK_DIR,
            "/opt/easy-deploy/apps/edge-bin/releases/v1/edge-bin",
        )
        .expect("run remote chmod");

    assert_eq!(
        rendered(&spec),
        "ssh -p 22 deploy@10.0.2.11 chmod +x /opt/easy-deploy/apps/edge-bin/releases/v1/edge-bin"
    );
    assert_eq!(spec.program, "ssh");
    assert_eq!(
        spec.args,
        [
            "-p",
            "22",
            "deploy@10.0.2.11",
            "chmod",
            "+x",
            "/opt/easy-deploy/apps/edge-bin/releases/v1/edge-bin"
        ]
    );
    assert_eq!(spec.current_dir, WORK_DIR);
}

#[test]
fn ssh_executor_runs_remote_http_health_check() {
    let spec = SshExecutor::new()
        .http_health_check(&target(), WORK_DIR, "http://127.0.0.1:8080/healthz", 5)
        .expect("run remote http health check");

    assert_eq!(
        rendered(&spec),
        "ssh -p 22 deploy@10.0.2.11 curl -sS -L -o /dev/null -w %{http_code} --max-time 5 --connect-timeout 5 http://127.0.0.1:8080/healthz"
    );
    assert_eq!(spec.program, "ssh");
    assert_eq!(
        spec.args,
        [
            "-p",
            "22",
            "deploy@10.0.2.11",
            "curl",
            "-sS",
            "-L",
            "-o",
            "/dev/null",
            "-w",
            "%{http_code}",
            "--max-time",
            "5",
            "--connect-timeout",
            "5",
            "http://127.0.0.1:8080/healthz"
        ]
    );
}

#[test]
fn ssh_executor_runs_remote_deploy_script_with_env() {
    let spec = SshExecutor::new()
        .run_script(
            &target(),
            WORK_DIR,
            "/opt/easy-deploy/apps/orders",
            ".easy-deploy/scripts/deploy.sh",
            &env(),
        )
        .expect("run remote deploy script");

    assert_eq!(spec.program, "ssh");
    assert_eq!(
        spec.args,
        [
            "-p",
            "22",
            "deploy@10.0.2.11",
            "sh",
            "-lc",
            "cd '/opt/easy-deploy/apps/orders' && env ED_APP_KEY='orders' ED_RELEASE_VERSION='v1.2.3' sh '/opt/easy-deploy/apps/orders/.easy-deploy/scripts/deploy.sh'"
        ]
    );
}

#[test]
fn ssh_executor_runs_remote_tcp_health_check() {
    let spec = SshExecutor::new()
        .tcp_health_check(&target(), WORK_DIR, "127.0.0.1:19091", 5)
        .expect("run remote tcp health check");

    assert_eq!(
        rendered(&spec),
        "ssh -p 22 deploy@10.0.2.11 nc -z -w 5 127.0.0.1 19091"
    );
    assert_eq!(spec.program, "ssh");
    assert_eq!(
        spec.args,
        [
            "-p",
            "22",
            "deploy@10.0.2.11",
            "nc",
            "-z",
            "-w",
            "5",
            "127.0.0.1",
            "19091"
        ]
    );
}

#[test]
fn ssh_executor_copies_file_with_scp() {
    let target = SshTarget::new("deploy", "prod-a", 22022).expect("valid ssh target");
    let spec = SshExecutor::new()
        .copy_file(
            &target,
            WORK_DIR,
            "/work/orders-api",
            true,
            "/opt/easy-deploy/apps/orders-api/current",
        )
        .expect("copy file");

    assert_eq!(
        rendered(&spec),
        "scp -P 22022 /work/orders-api deploy@prod-a:/opt/easy-deploy/apps/orders-api/current"
    );
    assert_eq!(spec.program, "scp");
    assert_eq!(spec.args[0], "-P");
    assert_eq!(spec.args[1], "22022");
    assert_eq!(
        spec.args[3],
        "deploy@prod-a:/opt/easy-deploy/apps/orders-api/current"
    );
    let missing = SshExecutor::new()
        .copy_file(&target, WORK_DIR, "/work/gone", false, "/opt/app")
        .expect_err("a missing file is not copied");
    assert_eq!(missing.message(), "本地待同步文件不存在: /work/gone");
}

#[test]
fn ssh_executor_uses_identity_file_for_ssh_and_scp() {
    let identity_arg = "/work/id_ed25519";
    let target = SshTarget::new("deploy", "prod-a", 22022)
        .expect("valid ssh target")
        .with_identity_file(Some(identity_arg.to_owned()));
    let executor = SshExecutor::new();

    let ssh = executor
        .tcp_health_check(&target, WORK_DIR, "127.0.0.1:19091", 5)
        .expect("run remote tcp health check");
    let scp = executor
        .copy_file(
            &target,
            WORK_DIR,
            "/work/orders-api",
            true,
            "/opt/easy-deploy/apps/orders-api/current",
        )
        .expect("copy file");

    assert_eq!(ssh.program, "ssh");
    assert_eq!(
        ssh.args,
        [
            "-p",
            "22022",
            "-i",
            identity_arg,
            "-o",
            "IdentitiesOnly=yes",
            "deploy@prod-a",
            "nc",
            "-z",
            "-w",
            "5",
            "127.0.0.1",
            "19091"
        ]
    );
    assert_eq!(scp.program, "scp");
    assert_eq!(scp.args[0], "-P");
    assert_eq!(scp.args[1], "22022");
    assert_eq!(scp.args[2], "-i");
    assert_eq!(scp.args[3], identity_arg);
    assert_eq!(scp.args[4], "-o");
    assert_eq!(scp.args[5], "IdentitiesOnly=yes");
}

#[test]
fn ssh_executor_rejects_relative_remote_path() {
    let err = SshExecutor::new()
        .mkdir_all(&target(), WORK_DIR, "relative/path")
        .expect_err("relative remote path should fail");

    assert_eq!(err.message(), "SSH 部署路径必须是绝对路径");
}

#[test]
fn ssh_executor_runs_remote_compose_up() {
    let spec = SshExecutor::new()
        .compose_up(&target(), WORK_DIR, "/opt/easy-deploy/apps/orders-api")
        .expect("run remote compose up");

    assert_eq!(
        rendered(&spec),
        "ssh -p 22 deploy@10.0.2.11 cd /opt/easy-deploy/apps/orders-api && docker compose up -d --remove-orphans"
    );
    assert_eq!(spec.program, "ssh");
    assert_eq!(
        spec.args,
        [
            "-p",
            "22",
            "deploy@10.0.2.11",
            "cd",
            "/opt/easy-deploy/apps/orders-api",
            "&&",
            "docker",
            "compose",
            "up",
            "-d",
            "--remove-orphans"
        ]
    );
    assert_eq!(spec.current_dir, WORK_DIR);
}

#[test]
fn ssh_executor_runs_remote_compose_service_logs() {
    let spec = SshExecutor::new()
        .compose_service_logs(&target(), WORK_DIR, "/opt/easy-deploy/apps/orders-api", "web")
        .expect("run remote compose service logs");

    assert_eq!(
        rendered(&spec),
        "ssh -p 22 deploy@10.0.2.11 cd /opt/easy-deploy/apps/orders-api && docker compose logs --tail 200 --no-color web"
    );
    assert_eq!(spec.program, "ssh");
    assert_eq!(
        spec.args,
        [
            "-p",
            "22",
            "deploy@10.0.2.11",
            "cd",
            "/opt/easy-deploy/apps/orders-api",
            "&&",
            "docker",
            "compose",
            "logs",
            "--tail",
            "200",
            "--no-color",
            "web"
        ]
    );
    assert_eq!(spec.current_dir, WORK_DIR);
}

fn command(program: &str) -> CommandSpec {
    CommandSpec {
        program: program.to_owned(),
        args: vec!["-c".to_owned(), "sleep 5".to_owned()],
        current_dir: WORK_DIR.to_owned(),
    }
}

#[test]
fn commands_are_stopped_and_reported() {
    let runner = TokioCommandRunner::new(0);
    assert_eq!(runner.timeout_secs(), 1);
    match runner.begin(&command("sh"), true) {
        Err(DeployError::Canceled(message)) => assert!(message.contains("在启动前已取消")),
        _ => panic!("a canceled command is not begun"),
    }
    let running = runner.begin(&command("sh"), false).expect("begin");
    assert_eq!(running.command(), "sh -c sleep 5");
    let timed_out = running.stop_error(CommandProcessStop::TimedOut);
    assert!(timed_out.message().contains("超时"));
    assert!(timed_out.message().contains("1 秒"));
    assert!(matches!(
        running.stop_error(CommandProcessStop::Canceled),
        DeployError::Canceled(_)
    ));
    assert!(!running.stop_plan(&CommandProcessStop::Canceled).kill_at_once);
    let plan = running.stop_plan(&CommandProcessStop::TimedOut);
    assert!(plan.kill_at_once);
    assert_eq!(plan.grace_seconds, 1);
    assert!(running.failure("x").message().contains("sh -c sleep 5"));
}

#[test]
fn large_output_is_kept_with_its_beginning_and_its_end() {
    let output_bytes = 4 * 1024 * 1024;
    let mut running = TokioCommandRunner::new(30)
        .begin(&command("sh"), false)
        .expect("begin");
    for _ in 0..output_bytes / 8192 {
        running
            .handle_command_output_event(&CommandOutputEvent::Chunk {
                stream: CommandOutputStream::Stdout,
                bytes: vec![b'x'; 8192],
            })
            .expect("chunk");
    }
    running
        .handle_command_output_event(&CommandOutputEvent::Chunk {
            stream: CommandOutputStream::Stderr,
            bytes: vec![0xff, b'e'],
        })
        .expect("chunk");
    let error = running
        .handle_command_output_event(&CommandOutputEvent::ReadError {
            stream: CommandOutputStream::Stderr,
            message: "gone".to_owned(),
        })
        .expect_err("read error");
    assert!(error.message().contains("stderr"));
    let result = running.finish(Some(0));
    assert!(result.success());
    assert!(
        result.stdout.len()
            <= COMMAND_CAPTURE_HEAD_BYTES
                + COMMAND_CAPTURE_TAIL_BYTES
                + COMMAND_CAPTURE_TRUNCATION_MARKER.len()
    );
    assert!(result.stdout.contains("命令输出已截断，仅保留开头与结尾"));
    assert_eq!(result.stderr, "\u{fffd}e");

    let mut small = BoundedCommandCapture::new();
    small.append(b"ab");
    small.append(b"c");
    assert_eq!(small.into_bytes(), b"abc");
}

#[test]
fn output_of_both_streams_is_combined() {
    assert_eq!(result(0, " out \n", "").combined_output(), "out");
    assert_eq!(result(0, "", " err\n").combined_output(), "err");
    assert_eq!(result(1, "out", "err").combined_output(), "out\nerr");
    assert!(!result(1, "out", "err").success());
    assert_eq!(path_below("/a/", "b"), "/a/b");
    assert_eq!(path_below("/a", "/b"), "/b");
}

#[test]
fn hosts_become_known_once() {
    let host = known_host(" 10.0.2.11 ", 2222).expect("host");
    assert_eq!(host.lookup_key, "[10.0.2.11]:2222");
    assert!(known_host("10.0.2.11", 0).is_err());
    assert!(known_host("bad host", 22).is_err());
    let found = known_host_outcome(&host, "/k", false, true)
        .expect("found")
        .expect("known");
    assert!(!found.added);
    assert!(known_host_outcome(&host, "/k", false, false)
        .expect("unknown")
        .is_none());
    assert!(known_host_outcome(&host, "/k", true, true)
        .expect("added")
        .expect("known")
        .added);
    assert!(known_host_outcome(&host, "/k", true, false).is_err());
    assert!(known_host_entries(&result(0, "# only\n", ""), "10.0.2.11", 22).is_err());
    let mut args = vec!["-p".to_owned()];
    append_ssh_known_hosts_args(&mut args, None);
    assert_eq!(args.len(), 1);
    append_ssh_known_hosts_args(&mut args, Some("/k"));
    assert_eq!(args[2], "UserKnownHostsFile=/k");
}

#[test]
fn quoted_values_are_one_word() {
    assert_eq!(shell_quote("it's"), "'it'\\''s'");
    assert_eq!(shell_quote(""), "''");
    let spec = SshExecutor::new()
        .run_script(
            &target(),
            WORK_DIR,
            "/srv/app",
            "run.sh",
            &[("A".to_owned(), "x; rm -rf /".to_owned())],
        )
        .expect("script");
    assert!(spec.args[5].contains("A='x; rm -rf /'"));
}

#[test]
fn inputs_are_checked_before_they_reach_a_command() {
    assert_eq!(normalize_script_relative_path("a/b.sh").expect("path"), "a/b.sh");
    assert!(normalize_script_relative_path("/a").is_err());
    assert!(normalize_script_relative_path("../a").is_err());
    assert_eq!(normalize_remote_absolute_path(" /srv/app ").expect("path"), "/srv/app");
    assert!(normalize_remote_absolute_path("/srv/a b").is_err());
    assert!(normalize_local_absolute_path("relative").is_err());
    assert_eq!(normalize_ssh_user(" deploy ").expect("user"), "deploy");
    assert!(normalize_ssh_user("a b").is_err());
    assert_eq!(normalize_ssh_address("host-1").expect("address"), "host-1");
    assert!(normalize_ssh_address("").is_err());
    assert_eq!(normalize_compose_service_name("web_1").expect("service"), "web_1");
    assert!(normalize_systemd_unit_name("orders").is_err());
    assert_eq!(normalize_env_name("ED_KEY").expect("name"), "ED_KEY");
    assert!(normalize_env_name("ed key").is_err());
    assert!(normalize_remote_health_endpoint("http://h/$(x)", "HTTP").is_err());
    assert_eq!(
        normalize_remote_tcp_endpoint("127.0.0.1:80").expect("endpoint"),
        ("127.0.0.1".to_owned(), "80".to_owned())
    );
    assert!(normalize_remote_tcp_endpoint("127.0.0.1").is_err());
    assert_eq!(normalize_log_tail_lines(0), 50);
    assert_eq!(normalize_log_tail_lines(500), 500);
    assert_eq!(normalize_log_tail_lines(u16::MAX), 1000);
    assert!(SshTarget::new("deploy", "host", 70_000).is_err());
}

#[test]
fn servers_are_validated_and_services_managed() {
    let caddy = SystemdExecutor::caddy_validate(WORK_DIR, "/etc/caddy/Caddyfile").expect("caddy");
    assert_eq!(
        rendered(&caddy),
        "caddy validate --adapter caddyfile --config /etc/caddy/Caddyfile"
    );
    let nginx = SystemdExecutor::nginx_validate(WORK_DIR, "/etc/nginx/nginx.conf").expect("nginx");
    assert_eq!(rendered(&nginx), "nginx -t -c /etc/nginx/nginx.conf");
    let ssh = SshExecutor::new();
    let remote = ssh
        .nginx_validate(&target(), WORK_DIR, "/etc/nginx/nginx.conf")
        .expect("nginx");
    assert!(rendered(&remote).ends_with("nginx -t -c /etc/nginx/nginx.conf"));
    let remote = ssh
        .caddy_validate(&target(), WORK_DIR, "/etc/caddy/Caddyfile")
        .expect("caddy");
    assert!(rendered(&remote).ends_with("--config /etc/caddy/Caddyfile"));
    for (spec, verb) in [
        (SystemdExecutor::stop(WORK_DIR, "a.service"), "stop"),
        (SystemdExecutor::is_active(WORK_DIR, "a.service"), "is-active"),
        (SystemdExecutor::reload_service(WORK_DIR, "a.service"), "reload"),
    ] {
        assert_eq!(
            rendered(&spec.expect("command")),
            format!("systemctl {verb} a.service")
        );
    }
    for (spec, verb) in [
        (ssh.stop(&target(), WORK_DIR, "a.service"), "stop"),
        (ssh.is_active(&target(), WORK_DIR, "a.service"), "is-active"),
        (ssh.reload_service(&target(), WORK_DIR, "a.service"), "reload"),
    ] {
        assert!(rendered(&spec.expect("command")).ends_with(&format!("systemctl {verb} a.service")));
    }
    assert!(rendered(&ssh.daemon_reload(&target(), WORK_DIR)).ends_with("systemctl daemon-reload"));
    for (spec, tail) in [
        (ssh.compose_config(&target(), WORK_DIR, "/srv/app"), "config"),
        (ssh.compose_down(&target(), WORK_DIR, "/srv/app"), "down"),
        (ssh.compose_restart(&target(), WORK_DIR, "/srv/app"), "restart"),
        (
            ssh.compose_ps_running(&target(), WORK_DIR, "/srv/app"),
            "ps --status running",
        ),
    ] {
        assert!(rendered(&spec.expect("command"))
            .ends_with(&format!("cd /srv/app && docker compose {tail}")));
    }
    assert_eq!(rendered(&ComposeExecutor::up(WORK_DIR)), "docker compose up -d --remove-orphans");
    assert_eq!(rendered(&ComposeExecutor::down(WORK_DIR)), "docker compose down");
    assert_eq!(rendered(&ComposeExecutor::restart(WORK_DIR)), "docker compose restart");
    let shell = ssh.run_shell_redacted(&target(), WORK_DIR, "echo hi");
    assert!(shell.args.iter().any(|arg| arg.contains("echo hi")));
}

#[test]
fn events_end_or_stop_a_command() {
    let mut running = TokioCommandRunner::new(30)
        .begin(&command("sh"), false)
        .expect("begin");
    assert!(running.listening());
    assert!(matches!(
        running.on_event(CommandEvent::Output(CommandOutputEvent::Chunk {
            stream: CommandOutputStream::Stdout,
            bytes: b"out".to_vec(),
        })),
        CommandStep::Wait
    ));
    assert!(matches!(
        running.on_event(CommandEvent::OutputClosed),
        CommandStep::Wait
    ));
    assert!(!running.listening());
    match running.on_event(CommandEvent::Canceled) {
        CommandStep::Stop(plan, reason) => {
            assert!(!plan.kill_at_once);
            assert_eq!(plan.grace_seconds, 5);
            assert!(matches!(running.stop_error(reason), DeployError::Canceled(_)));
        }
        _ => panic!("a canceled command is stopped"),
    }
    match running.on_event(CommandEvent::WaitFailed("gone".to_owned())) {
        CommandStep::Stop(plan, reason) => {
            assert!(plan.kill_at_once);
            assert_eq!(
                running.stop_error(reason).message(),
                "执行命令 sh -c sleep 5 失败: gone"
            );
        }
        _ => panic!("a command that cannot be waited for is stopped"),
    }
    assert!(matches!(
        running.on_event(CommandEvent::SinkFailed(DeployError::Command("full".to_owned()))),
        CommandStep::Stop(_, CommandProcessStop::OutputError(_))
    ));
    assert!(matches!(
        running.on_event(CommandEvent::TimedOut),
        CommandStep::Stop(_, CommandProcessStop::TimedOut)
    ));
    assert!(matches!(
        running.on_event(CommandEvent::Exited(Some(3))),
        CommandStep::Finish(Some(3))
    ));
    let ended = running.conclude(Some(3), Ok(()), Ok(())).expect("result");
    assert_eq!(ended.status_code, Some(3));
    assert_eq!(ended.stdout, "out");
    let other = TokioCommandRunner::new(30)
        .begin(&command("sh"), false)
        .expect("begin");
    let failed = other
        .conclude(
            Some(0),
            Err(DeployError::Command("drain".to_owned())),
            Err(DeployError::Command("flush".to_owned())),
        )
        .expect_err("the first failure is reported");
    assert_eq!(failed.message(), "drain");
}
