use easy_deploy::catalog::{
    compose_templates, render_compose_template, service_name, template_by_key, CatalogError,
    RenderTemplateInput,
};

#[test]
fn renders_postgres_template_with_env_and_port() {
    let rendered = render_compose_template(RenderTemplateInput {
        template_key: "postgres-single",
        app_key: "pg-main",
        port: 15432,
    })
    .expect("render template");

    assert!(rendered.compose_content.contains("postgres:16-alpine"));
    assert!(
        rendered
            .compose_content
            .contains("${POSTGRES_PORT:-15432}:5432")
    );
    assert!(rendered.env_content.contains("POSTGRES_PASSWORD=change-me"));
}

#[test]
fn lists_templates_and_finds_by_key() {
    let templates = compose_templates();

    assert_eq!(templates.len(), 7);
    assert_eq!(
        template_by_key("redis-single")
            .expect("redis template")
            .image,
        "redis:7-alpine"
    );
    assert_eq!(
        template_by_key("loki-single")
            .expect("loki template")
            .default_port,
        3100
    );
    assert_eq!(
        template_by_key("alloy-docker-logs")
            .expect("alloy template")
            .image,
        "grafana/alloy:v1.6.1"
    );
    assert_eq!(
        template_by_key("nats-jetstream")
            .expect("nats template")
            .default_port,
        4222
    );
    assert!(template_by_key("missing").is_none());
}

#[test]
fn renders_compose_templates_with_sanitized_service_names() {
    let cases = [
        (
            "nginx-static",
            "Web App",
            "web-app",
            "nginx:1.27-alpine",
            "PUBLIC_PORT=8081\n",
        ),
        (
            "redis-single",
            "Cache@Prod",
            "cache-prod",
            "redis:7-alpine",
            "REDIS_PORT=6380",
        ),
        (
            "caddy-gateway",
            "Edge.Gateway",
            "edge-gateway",
            "caddy:2-alpine",
            "PUBLIC_PORT=8088\n",
        ),
    ];

    for (template_key, app_key, service, image, env) in cases {
        let rendered = render_compose_template(RenderTemplateInput {
            template_key,
            app_key,
            port: env
                .trim()
                .rsplit_once('=')
                .expect("env port")
                .1
                .parse()
                .expect("port"),
        })
        .expect("render template");

        assert!(rendered.compose_content.contains(&format!("  {service}:")));
        assert!(rendered.compose_content.contains(image));
        assert!(rendered.env_content.contains(env));
    }
}

#[test]
fn renders_runtime_infrastructure_templates() {
    let redis = render_compose_template(RenderTemplateInput {
        template_key: "redis-single",
        app_key: "redis-prod",
        port: 16379,
    })
    .expect("render redis");
    assert!(redis.compose_content.contains("--requirepass"));
    assert!(redis.compose_content.contains("--maxclients"));
    assert!(redis.env_content.contains("REDIS_MAXCLIENTS=10000"));
    assert!(
        redis
            .compose_content
            .contains("${REDIS_BIND_IP:-127.0.0.1}:${REDIS_PORT:-16379}:6379")
    );
    assert!(
        redis
            .compose_content
            .contains("max-size: \"${DOCKER_LOG_MAX_SIZE:-200m}\"")
    );
    assert!(redis.deploy_scripts.pre_deploy.contains("mkdir -p data"));

    let loki = render_compose_template(RenderTemplateInput {
        template_key: "loki-single",
        app_key: "qfy-sc-loki",
        port: 3100,
    })
    .expect("render loki");
    assert!(loki.compose_content.contains("grafana/loki:3.4.2"));
    assert!(
        loki.compose_content
            .contains("retention_period: ${LOKI_RETENTION_PERIOD:-168h}")
    );
    assert!(loki.compose_content.contains("/ready"));
    assert!(loki.env_content.contains("LOKI_BIND_IP=127.0.0.1"));
    assert!(loki.deploy_scripts.pre_deploy.contains("data/loki"));

    let alloy = render_compose_template(RenderTemplateInput {
        template_key: "alloy-docker-logs",
        app_key: "qfy-sc-alloy",
        port: 12345,
    })
    .expect("render alloy");
    assert!(alloy.compose_content.contains("qfy_logs_enabled"));
    assert!(
        alloy
            .compose_content
            .contains("/var/run/docker.sock:/var/run/docker.sock:ro")
    );
    assert!(
        alloy
            .compose_content
            .contains("host.docker.internal:host-gateway")
    );
    assert!(
        alloy
            .env_content
            .contains("LOKI_PUSH_URL=http://host.docker.internal:3100/loki/api/v1/push")
    );

    let nats = render_compose_template(RenderTemplateInput {
        template_key: "nats-jetstream",
        app_key: "qfy-sc-nats",
        port: 4222,
    })
    .expect("render nats");
    assert!(nats.compose_content.contains("--jetstream"));
    assert!(
        nats.compose_content
            .contains("${NATS_PASSWORD:?set NATS_PASSWORD}")
    );
    assert!(
        nats.compose_content
            .contains("${NATS_MONITOR_BIND_IP:-127.0.0.1}:${NATS_MONITOR_PORT:-8222}:8222")
    );
    assert!(nats.deploy_scripts.pre_deploy.contains("data/nats"));
}

#[test]
fn rejects_empty_app_key_and_zero_port() {
    let empty_key = render_compose_template(RenderTemplateInput {
        template_key: "nginx-static",
        app_key: " ",
        port: 8080,
    })
    .expect_err("empty app key should fail");
    assert!(matches!(empty_key, CatalogError::InvalidInput(_)));

    let zero_port = render_compose_template(RenderTemplateInput {
        template_key: "nginx-static",
        app_key: "demo",
        port: 0,
    })
    .expect_err("zero port should fail");
    assert!(matches!(zero_port, CatalogError::InvalidInput(_)));
}

#[test]
fn rejects_unknown_template_key() {
    let err = render_compose_template(RenderTemplateInput {
        template_key: "unknown",
        app_key: "demo",
        port: 8080,
    })
    .expect_err("unknown template should fail");

    assert_eq!(err.message(), "模板不存在");
}

#[test]
fn service_names_hold_lower_case_letters_digits_and_dashes() {
    assert_eq!(service_name(" Web App_1 "), "web-app_1");
    assert_eq!(service_name("订单API"), service_name("订单api"));
}

#[test]
fn templates_are_rendered_whole() {
    let rendered = render_compose_template(RenderTemplateInput {
        template_key: "postgres-single",
        app_key: "pg-main",
        port: 15432,
    })
    .expect("render template");
    assert!(rendered.deploy_scripts.deploy.is_empty());
    assert!(rendered.deploy_scripts.post_deploy.is_empty());
    assert!(rendered.deploy_scripts.switch_traffic.is_empty());
    assert!(rendered.deploy_scripts.cleanup.is_empty());
    assert!(matches!(
        render_compose_template(RenderTemplateInput {
            template_key: "unknown",
            app_key: "demo",
            port: 8080,
        }),
        Err(CatalogError::TemplateNotFound(_))
    ));
}

#[test]
fn every_template_shows_its_image_and_the_port() {
    for template in compose_templates() {
        let rendered = render_compose_template(RenderTemplateInput {
            template_key: template.key,
            app_key: "App 1",
            port: 40_001,
        })
        .expect("render template");
        assert!(rendered.compose_content.contains(template.image));
        assert!(rendered.compose_content.contains(":-40001}:"));
        assert!(rendered.compose_content.contains("app-1"));
        assert!(rendered.env_content.contains("PORT=40001\n"));
        assert!(!rendered.compose_content.contains("{port}"));
        assert!(!rendered.compose_content.contains("_name}"));
    }
}

#[test]
fn nginx_is_rendered_as_a_whole() {
    let rendered = render_compose_template(RenderTemplateInput {
        template_key: "nginx-static",
        app_key: "site",
        port: 8081,
    })
    .expect("render template");
    assert_eq!(
        rendered.compose_content,
        "services:\n  site:\n    image: nginx:1.27-alpine\n    restart: unless-stopped\n    ports:\n      - \"${PUBLIC_PORT:-8081}:80\"\n    volumes:\n      - ./html:/usr/share/nginx/html:ro\n"
    );
    assert_eq!(rendered.env_content, "PUBLIC_PORT=8081\n");
}
