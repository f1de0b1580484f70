use easy_deploy::deploy::{ComposeCommandOutput, DeployError};
use easy_deploy::health::{
    compose_outcome, http_outcome, normalize_health_config, output_summary, parse_tcp_endpoint,
    systemd_outcome, tcp_outcome, unchecked_outcome, HealthCheckConfig, HealthCheckKind,
    HealthError, TcpAttempt,
};

#[test]
fn normalize_tcp_config_accepts_host_port() {
    let config =
        normalize_health_config("tcp", "127.0.0.1:8080", 5, 200).expect("valid tcp config");

    assert_eq!(config.kind, HealthCheckKind::Tcp);
    assert_eq!(config.endpoint, "127.0.0.1:8080");
}

#[test]
fn normalize_http_config_rejects_non_http_url() {
    let err = normalize_health_config("http", "file:///tmp/health", 5, 200)
        .expect_err("file URL should fail");

    assert_eq!(err.message(), "HTTP 健康检查只支持 http 或 https");
}

#[test]
fn configurations_are_bounded_and_checked() {
    let config = normalize_health_config("http", " http://127.0.0.1:80/ ", 600, 42).expect("http");
    assert_eq!(config.endpoint, "http://127.0.0.1:80/");
    assert_eq!(config.timeout_secs, 60);
    assert_eq!(config.expected_status, 100);
    let none = normalize_health_config("none", "ignored", 5, 200).expect("none");
    assert_eq!(none.endpoint, "");
    assert_eq!(none.kind.as_str(), "none");
    assert!(matches!(
        normalize_health_config("ping", "", 5, 200),
        Err(HealthError::InvalidInput(_))
    ));
    assert!(normalize_health_config("http", "not a url", 5, 200).is_err());
    assert!(normalize_health_config("systemd_active", " ", 5, 200).is_err());
    assert_eq!(HealthCheckConfig::default().timeout_secs, 5);
    assert!(matches!(
        HealthError::from_deploy(&DeployError::Command("x".to_owned())),
        HealthError::CheckFailed(_)
    ));
}

#[test]
fn endpoints_need_a_host_and_a_port() {
    assert_eq!(parse_tcp_endpoint(" db : 5432 ").ok(), None);
    assert_eq!(parse_tcp_endpoint("db:5432").expect("endpoint"), "db:5432");
    assert!(parse_tcp_endpoint("db").is_err());
    assert!(parse_tcp_endpoint(":5432").is_err());
    assert!(parse_tcp_endpoint("db:65536").is_err());
}

fn output(success: bool, text: &str) -> ComposeCommandOutput {
    ComposeCommandOutput {
        command: "docker compose ps".to_owned(),
        success,
        status_code: Some(if success { 0 } else { 1 }),
        output: text.to_owned(),
    }
}

#[test]
fn outcomes_say_what_was_found() {
    assert!(unchecked_outcome().healthy);
    let config = normalize_health_config("http", "http://127.0.0.1/", 5, 204).expect("http");
    assert!(http_outcome(&config, 204).healthy);
    assert!(!http_outcome(&config, 200).healthy);
    assert!(tcp_outcome("db:5432", TcpAttempt::Connected).healthy);
    assert!(!tcp_outcome("db:5432", TcpAttempt::TimedOut).healthy);
    assert!(!tcp_outcome("db:5432", TcpAttempt::Failed("refused".to_owned())).healthy);
    assert!(compose_outcome(&output(true, "NAME IMAGE\napi example/api")).healthy);
    assert!(!compose_outcome(&output(true, "NAME IMAGE")).healthy);
    assert!(!compose_outcome(&output(false, "api")).healthy);
    let unit = normalize_health_config("systemd_active", "api.service", 5, 200).expect("unit");
    assert!(systemd_outcome(&unit, &output(true, "active")).healthy);
    assert!(!systemd_outcome(&unit, &output(false, "inactive")).healthy);
    assert_eq!(output_summary("\n a \n\nb\nc\nd", "none"), "a；b；c");
    assert_eq!(output_summary(" ", "none"), "none");
}

#[test]
fn kinds_are_found_by_their_names() {
    for kind in [
        HealthCheckKind::NoCheck,
        HealthCheckKind::Http,
        HealthCheckKind::Tcp,
        HealthCheckKind::ComposeRunning,
        HealthCheckKind::SystemdActive,
    ] {
        assert_eq!(
            HealthCheckKind::from_name(kind.as_str()).expect("kind"),
            kind
        );
    }
    assert_eq!(HealthCheckKind::Tcp.label(), "TCP 连接");
    assert!(HealthCheckKind::from_name("").is_err());
}
