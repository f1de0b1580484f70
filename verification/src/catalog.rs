//! The catalog of templates: services that can be set up from a ready-made Compose file.

use vstd::prelude::*;

use crate::decimal::{decimal, natural_text};
use crate::pieces::{holds, stands_at};
use crate::text::{
    blank, chars_of, is_blank, lower_char, lower_of, same_text, trim, trimmed, CharClass,
};

verus! {

#[derive(Clone, Copy, Debug)]
pub struct ComposeTemplate {
    pub key: &'static str,
    pub name: &'static str,
    pub description: &'static str,
    pub image: &'static str,
    pub default_port: u16,
    pub env_hint: &'static str,
}

/// The scripts that a deployment runs around its own steps.
#[derive(Clone, Debug)]
pub struct DeployScriptSet {
    pub pre_deploy: String,
    pub deploy: String,
    pub post_deploy: String,
    pub switch_traffic: String,
    pub cleanup: String,
}

#[derive(Clone, Debug)]
pub struct RenderedTemplate {
    pub compose_content: String,
    pub env_content: String,
    pub deploy_scripts: DeployScriptSet,
}

#[derive(Clone, Debug)]
pub struct RenderTemplateInput<'a> {
    pub template_key: &'a str,
    pub app_key: &'a str,
    pub port: u16,
}

#[derive(Debug)]
pub enum CatalogError {
    TemplateNotFound(String),
    InvalidInput(String),
}

/// An error as a mathematical value.
pub enum CatalogFault {
    TemplateNotFound(Seq<char>),
    InvalidInput(Seq<char>),
}

impl View for CatalogError {
    type V = CatalogFault;

    open spec fn view(&self) -> CatalogFault {
        match self {
            CatalogError::TemplateNotFound(message) => CatalogFault::TemplateNotFound(message@),
            CatalogError::InvalidInput(message) => CatalogFault::InvalidInput(message@),
        }
    }
}

impl CatalogFault {
    pub open spec fn text(self) -> Seq<char> {
        match self {
            CatalogFault::TemplateNotFound(message) => message,
            CatalogFault::InvalidInput(message) => message,
        }
    }
}

impl CatalogError {
    pub fn message(&self) -> (message: &str)
        ensures
            message@ == self@.text(),
    {
        match self {
            CatalogError::TemplateNotFound(message) => message.as_str(),
            CatalogError::InvalidInput(message) => message.as_str(),
        }
    }
}

// ---------------------------------------------------------------------------
// The templates
// ---------------------------------------------------------------------------

/// A template as a mathematical value.
pub struct Template {
    pub key: Seq<char>,
    pub name: Seq<char>,
    pub description: Seq<char>,
    pub image: Seq<char>,
    pub default_port: u16,
    pub env_hint: Seq<char>,
}

impl View for ComposeTemplate {
    type V = Template;

    open spec fn view(&self) -> Template {
        Template {
            key: self.key@,
            name: self.name@,
            description: self.description@,
            image: self.image@,
            default_port: self.default_port,
            env_hint: self.env_hint@,
        }
    }
}

pub open spec fn template_views(templates: Seq<ComposeTemplate>) -> Seq<Template> {
    templates.map_values(|template: ComposeTemplate| template@)
}

/// Every template of the catalog.
pub open spec fn catalog() -> Seq<Template> {
    seq![
        Template {
            key: "nginx-static"@,
            name: "Nginx 静态站点"@,
            description: "适合快速托管静态文件或验证反向代理入口。"@,
            image: "nginx:1.27-alpine"@,
            default_port: 8080,
            env_hint: "PUBLIC_PORT=8080"@,
        },
        Template {
            key: "redis-single"@,
            name: "Redis 单节点"@,
            description: "带密码、持久化、内存上限、健康检查和日志轮转的单节点 Redis。"@,
            image: "redis:7-alpine"@,
            default_port: 6379,
            env_hint: "REDIS_PASSWORD=change-me"@,
        },
        Template {
            key: "postgres-single"@,
            name: "PostgreSQL 单节点"@,
            description: "内置初始化账号和数据卷，仅建议开发、演示或临时验证使用；正式环境优先使用云 RDS。"@,
            image: "postgres:16-alpine"@,
            default_port: 5432,
            env_hint: "POSTGRES_PASSWORD=change-me"@,
        },
        Template {
            key: "caddy-gateway"@,
            name: "Caddy 网关"@,
            description: "轻量反向代理网关入口，后续可配合低停机切流。"@,
            image: "caddy:2-alpine"@,
            default_port: 8088,
            env_hint: "PUBLIC_PORT=8088"@,
        },
        Template {
            key: "loki-single"@,
            name: "Loki 单节点"@,
            description: "单机运行日志存储，适合配合 Alloy 采集 Docker stdout JSON 日志。"@,
            image: "grafana/loki:3.4.2"@,
            default_port: 3100,
            env_hint: "LOKI_PORT=3100"@,
        },
        Template {
            key: "alloy-docker-logs"@,
            name: "Alloy Docker 日志采集"@,
            description: "采集带 qfy_logs_enabled=true 标签的 Docker 容器日志并推送到 Loki。"@,
            image: "grafana/alloy:v1.6.1"@,
            default_port: 12345,
            env_hint: "LOKI_PUSH_URL=http://host.docker.internal:3100/loki/api/v1/push"@,
        },
        Template {
            key: "nats-jetstream"@,
            name: "NATS JetStream"@,
            description: "单节点 NATS JetStream，适合 Outbox 触发、异步任务和轻量消息消费。"@,
            image: "nats:2.10-alpine"@,
            default_port: 4222,
            env_hint: "NATS_PASSWORD=change-me"@,
        },
    ]
}

pub fn compose_templates() -> (templates: Vec<ComposeTemplate>)
    ensures
        template_views(templates@) == catalog(),
{
    let templates = vec![
        ComposeTemplate {
            key: "nginx-static",
            name: "Nginx 静态站点",
            description: "适合快速托管静态文件或验证反向代理入口。",
            image: "nginx:1.27-alpine",
            default_port: 8080,
            env_hint: "PUBLIC_PORT=8080",
        },
        ComposeTemplate {
            key: "redis-single",
            name: "Redis 单节点",
            description: "带密码、持久化、内存上限、健康检查和日志轮转的单节点 Redis。",
            image: "redis:7-alpine",
            default_port: 6379,
            env_hint: "REDIS_PASSWORD=change-me",
        },
        ComposeTemplate {
            key: "postgres-single",
            name: "PostgreSQL 单节点",
            description: "内置初始化账号和数据卷，仅建议开发、演示或临时验证使用；正式环境优先使用云 RDS。",
            image: "postgres:16-alpine",
            default_port: 5432,
            env_hint: "POSTGRES_PASSWORD=change-me",
        },
        ComposeTemplate {
            key: "caddy-gateway",
            name: "Caddy 网关",
            description: "轻量反向代理网关入口，后续可配合低停机切流。",
            image: "caddy:2-alpine",
            default_port: 8088,
            env_hint: "PUBLIC_PORT=8088",
        },
        ComposeTemplate {
            key: "loki-single",
            name: "Loki 单节点",
            description: "单机运行日志存储，适合配合 Alloy 采集 Docker stdout JSON 日志。",
            image: "grafana/loki:3.4.2",
            default_port: 3100,
            env_hint: "LOKI_PORT=3100",
        },
        ComposeTemplate {
            key: "alloy-docker-logs",
            name: "Alloy Docker 日志采集",
            description: "采集带 qfy_logs_enabled=true 标签的 Docker 容器日志并推送到 Loki。",
            image: "grafana/alloy:v1.6.1",
            default_port: 12345,
            env_hint: "LOKI_PUSH_URL=http://host.docker.internal:3100/loki/api/v1/push",
        },
        ComposeTemplate {
            key: "nats-jetstream",
            name: "NATS JetStream",
            description: "单节点 NATS JetStream，适合 Outbox 触发、异步任务和轻量消息消费。",
            image: "nats:2.10-alpine",
            default_port: 4222,
            env_hint: "NATS_PASSWORD=change-me",
        },
    ];
    assert(template_views(templates@) =~= catalog());
    templates
}

/// Some template has the key.
pub open spec fn has_template(key: Seq<char>) -> bool {
    exists|i: int| 0 <= i < catalog().len() && (#[trigger] catalog()[i]).key == key
}

/// The first template of the key, where there is one.
pub fn template_by_key(key: &str) -> (template: Option<ComposeTemplate>)
    ensures
        match template {
            Some(found) => exists|i: int|
                #![trigger catalog()[i]]
                0 <= i < catalog().len() && catalog()[i] == found@ && found@.key == key@ && forall|
                    k: int,
                |
                    0 <= k < i ==> (#[trigger] catalog()[k]).key != key@,
            None => !has_template(key@),
        },
{
    let templates = compose_templates();
    let mut i: usize = 0;
    while i < templates.len()
        invariant
            i <= templates@.len(),
            template_views(templates@) == catalog(),
            forall|k: int| 0 <= k < i ==> (#[trigger] catalog()[k]).key != key@,
        decreases templates@.len() - i,
    {
        assert(catalog()[i as int] == templates@[i as int]@);
        if same_text(templates[i].key, key) {
            return Some(templates[i]);
        }
        i = i + 1;
    }
    assert(catalog().len() == templates@.len());
    None
}

/// The Compose file of Nginx between the name and the image.
pub const NGINX_BEFORE_IMAGE: &'static str = ":\n    image: ";

/// The Compose file of Nginx between the image and the port that is mapped.
pub const NGINX_BEFORE_PORT: &'static str = r#"
    restart: unless-stopped
    ports:
      - "${PUBLIC_PORT"#;

/// The Compose file of Nginx after the port that is mapped.
pub const NGINX_AFTER_PORT: &'static str = r#"80"
    volumes:
      - ./html:/usr/share/nginx/html:ro
"#;

/// The Compose file of Redis between the name and the image.
pub const REDIS_BEFORE_IMAGE: &'static str = ":\n    image: ${REDIS_IMAGE:-";

/// The Compose file of Redis between the image and the port that is mapped.
pub const REDIS_BEFORE_PORT: &'static str = r#"}
    restart: unless-stopped
    command:
      - "redis-server"
      - "--appendonly"
      - "yes"
      - "--requirepass"
      - "${REDIS_PASSWORD:?set REDIS_PASSWORD}"
      - "--maxmemory"
      - "${REDIS_MAXMEMORY:-1024mb}"
      - "--maxmemory-policy"
      - "${REDIS_MAXMEMORY_POLICY:-allkeys-lru}"
      - "--maxclients"
      - "${REDIS_MAXCLIENTS:-10000}"
    environment:
      REDIS_PASSWORD: ${REDIS_PASSWORD:?set REDIS_PASSWORD}
      TZ: ${TZ:-Asia/Shanghai}
    ports:
      - "${REDIS_BIND_IP:-127.0.0.1}:${REDIS_PORT"#;

/// The Compose file of Redis after the port that is mapped.
pub const REDIS_AFTER_PORT: &'static str = r#"6379"
    volumes:
      - ./data:/data
    healthcheck:
      test: ["CMD-SHELL", "redis-cli -a \"$${REDIS_PASSWORD}\" ping | grep PONG"]
      interval: 10s
      timeout: 5s
      retries: 20
    logging:
      driver: json-file
      options:
        max-size: "${DOCKER_LOG_MAX_SIZE:-200m}"
        max-file: "${DOCKER_LOG_MAX_FILE:-5}"
"#;

/// The environment of Redis after the port.
pub const REDIS_ENV: &'static str = "REDIS_PASSWORD=change-me\nREDIS_MAXMEMORY=1024mb\nREDIS_MAXMEMORY_POLICY=allkeys-lru\nREDIS_MAXCLIENTS=10000\nDOCKER_LOG_MAX_SIZE=200m\nDOCKER_LOG_MAX_FILE=5\n";

pub const REDIS_PRE_DEPLOY: &'static str = "set -eu\nmkdir -p data\n";

/// The Compose file of PostgreSQL between the name and the image.
pub const POSTGRES_BEFORE_IMAGE: &'static str = ":\n    image: ";

/// The Compose file of PostgreSQL between the image and the port that is mapped.
pub const POSTGRES_BEFORE_PORT: &'static str = r#"
    restart: unless-stopped
    ports:
      - "${POSTGRES_PORT"#;

/// The Compose file of PostgreSQL after the port that is mapped.
pub const POSTGRES_AFTER_PORT: &'static str = r#"5432"
    environment:
      POSTGRES_DB: ${POSTGRES_DB:-app}
      POSTGRES_USER: ${POSTGRES_USER:-app}
      POSTGRES_PASSWORD: ${POSTGRES_PASSWORD:-change-me}
    volumes:
      - ./data:/var/lib/postgresql/data
"#;

/// The environment of PostgreSQL after the port.
pub const POSTGRES_ENV: &'static str = "POSTGRES_DB=app\nPOSTGRES_USER=app\nPOSTGRES_PASSWORD=change-me\n";

/// The Compose file of Caddy between the name and the image.
pub const CADDY_BEFORE_IMAGE: &'static str = ":\n    image: ";

/// The Compose file of Caddy between the image and the port that is mapped.
pub const CADDY_BEFORE_PORT: &'static str = r#"
    restart: unless-stopped
    ports:
      - "${PUBLIC_PORT"#;

/// The Compose file of Caddy after the port that is mapped.
pub const CADDY_AFTER_PORT: &'static str = r#"80"
    volumes:
      - ./Caddyfile:/etc/caddy/Caddyfile:ro
      - ./data:/data
      - ./config:/config
"#;

/// The Compose file of Loki between the name and the image.
pub const LOKI_BEFORE_IMAGE: &'static str = "\n\nservices:\n  loki:\n    image: ${LOKI_IMAGE:-";

/// The Compose file of Loki between the image and the port that is mapped.
pub const LOKI_BEFORE_PORT: &'static str = r#"}
    restart: unless-stopped
    user: "${LOKI_RUN_USER:-0:0}"
    entrypoint: ["/bin/sh", "-lc"]
    command: |
      cat > /tmp/loki-config.yml <<'EOF'
      auth_enabled: false
      server:
        http_listen_port: 3100
        grpc_listen_port: 9095
      common:
        instance_addr: 127.0.0.1
        path_prefix: /loki
        storage:
          filesystem:
            chunks_directory: /loki/chunks
            rules_directory: /loki/rules
        replication_factor: 1
        ring:
          kvstore:
            store: inmemory
      query_range:
        results_cache:
          cache:
            embedded_cache:
              enabled: true
              max_size_mb: 128
      schema_config:
        configs:
          - from: 2024-04-01
            store: tsdb
            object_store: filesystem
            schema: v13
            index:
              prefix: index_
              period: 24h
      limits_config:
        retention_period: ${LOKI_RETENTION_PERIOD:-168h}
        allow_structured_metadata: true
        volume_enabled: true
      compactor:
        working_directory: /loki/compactor
        retention_enabled: true
        delete_request_store: filesystem
      EOF
      exec /usr/bin/loki -config.file=/tmp/loki-config.yml -config.expand-env=true
    ports:
      - "${LOKI_BIND_IP:-127.0.0.1}:${LOKI_PORT"#;

/// The Compose file of Loki after the port that is mapped.
pub const LOKI_AFTER_PORT: &'static str = r#"3100"
    volumes:
      - ./data/loki:/loki
    healthcheck:
      test: ["CMD-SHELL", "wget -qO- http://127.0.0.1:3100/ready >/dev/null 2>&1 || exit 1"]
      interval: 10s
      timeout: 5s
      retries: 20
    logging:
      driver: json-file
      options:
        max-size: "${DOCKER_LOG_MAX_SIZE:-200m}"
        max-file: "${DOCKER_LOG_MAX_FILE:-5}"
"#;

/// The environment of Loki after the port.
pub const LOKI_ENV: &'static str = "LOKI_RETENTION_PERIOD=168h\nLOKI_RUN_USER=0:0\nDOCKER_LOG_MAX_SIZE=200m\nDOCKER_LOG_MAX_FILE=5\n";

pub const LOKI_PRE_DEPLOY: &'static str = "set -eu\nmkdir -p data/loki\n";

/// The Compose file of Alloy between the name and the image.
pub const ALLOY_BEFORE_IMAGE: &'static str = "\n\nservices:\n  alloy:\n    image: ${ALLOY_IMAGE:-";

/// The Compose file of Alloy between the image and the port that is mapped.
pub const ALLOY_BEFORE_PORT: &'static str = r#"}
    restart: unless-stopped
    entrypoint: ["/bin/sh", "-lc"]
    command: |
      cat > /tmp/config.alloy <<'EOF'
      discovery.docker "containers" {
        host = "unix:///var/run/docker.sock"
      }

      discovery.relabel "docker_logs" {
        targets = discovery.docker.containers.targets

        rule {
          source_labels = ["__meta_docker_container_label_qfy_logs_enabled"]
          regex         = "true"
          action        = "keep"
        }

        rule {
          source_labels = ["__meta_docker_container_label_qfy_project"]
          target_label  = "project"
        }

        rule {
          source_labels = ["__meta_docker_container_label_qfy_env"]
          target_label  = "env"
        }

        rule {
          source_labels = ["__meta_docker_container_label_qfy_service"]
          target_label  = "service"
        }

        rule {
          source_labels = ["__meta_docker_container_name"]
          regex         = "/(.*)"
          target_label  = "container"
        }
      }

      loki.source.docker "docker_logs" {
        host       = "unix:///var/run/docker.sock"
        targets    = discovery.relabel.docker_logs.output
        forward_to = [loki.process.docker_logs.receiver]
      }

      loki.process "docker_logs" {
        stage.json {
          expressions = {
            level = "level",
          }
        }

        stage.labels {
          values = {
            level = "",
          }
        }

        forward_to = [loki.write.default.receiver]
      }

      loki.write "default" {
        endpoint {
          url          = sys.env("LOKI_PUSH_URL")
          bearer_token = sys.env("LOKI_GATEWAY_TOKEN")
        }
      }
      EOF
      exec /bin/alloy run --server.http.listen-addr=0.0.0.0:12345 --storage.path=/var/lib/alloy/data /tmp/config.alloy
    environment:
      LOKI_PUSH_URL: ${LOKI_PUSH_URL:-http://host.docker.internal:3100/loki/api/v1/push}
      LOKI_GATEWAY_TOKEN: ${LOKI_GATEWAY_TOKEN:-}
    ports:
      - "${ALLOY_BIND_IP:-127.0.0.1}:${ALLOY_HTTP_PORT"#;

/// The Compose file of Alloy after the port that is mapped.
pub const ALLOY_AFTER_PORT: &'static str = r#"12345"
    extra_hosts:
      - "host.docker.internal:host-gateway"
    volumes:
      - ./data/alloy:/var/lib/alloy/data
      - /var/run/docker.sock:/var/run/docker.sock:ro
    logging:
      driver: json-file
      options:
        max-size: "${DOCKER_LOG_MAX_SIZE:-100m}"
        max-file: "${DOCKER_LOG_MAX_FILE:-3}"
"#;

/// The environment of Alloy after the port.
pub const ALLOY_ENV: &'static str = "LOKI_PUSH_URL=http://host.docker.internal:3100/loki/api/v1/push\nLOKI_GATEWAY_TOKEN=\nDOCKER_LOG_MAX_SIZE=100m\nDOCKER_LOG_MAX_FILE=3\n";

pub const ALLOY_PRE_DEPLOY: &'static str = "set -eu\nmkdir -p data/alloy\n";

/// The Compose file of NATS between the name and the image.
pub const NATS_BEFORE_IMAGE: &'static str = "\n\nservices:\n  nats:\n    image: ${NATS_IMAGE:-";

/// The Compose file of NATS between the image and the port that is mapped.
pub const NATS_BEFORE_PORT: &'static str = r#"}
    restart: unless-stopped
    command:
      - "nats-server"
      - "--jetstream"
      - "--store_dir"
      - "/data/nats/jetstream"
      - "--user"
      - "${NATS_USER:-app}"
      - "--pass"
      - "${NATS_PASSWORD:?set NATS_PASSWORD}"
      - "--http_port"
      - "8222"
    environment:
      TZ: ${TZ:-Asia/Shanghai}
      NATS_USER: ${NATS_USER:-app}
      NATS_PASSWORD: ${NATS_PASSWORD:?set NATS_PASSWORD}
    ports:
      - "${NATS_BIND_IP:-127.0.0.1}:${NATS_PORT"#;

/// The Compose file of NATS after the port that is mapped.
pub const NATS_AFTER_PORT: &'static str = r#"4222"
      - "${NATS_MONITOR_BIND_IP:-127.0.0.1}:${NATS_MONITOR_PORT:-8222}:8222"
    volumes:
      - ./data/nats:/data/nats
    healthcheck:
      test: ["CMD-SHELL", "wget -qO- http://127.0.0.1:8222/varz >/dev/null 2>&1 || exit 1"]
      interval: 10s
      timeout: 3s
      retries: 12
      start_period: 20s
    logging:
      driver: json-file
      options:
        max-size: "${DOCKER_LOG_MAX_SIZE:-100m}"
        max-file: "${DOCKER_LOG_MAX_FILE:-3}"
"#;

/// The environment of NATS after the port.
pub const NATS_ENV: &'static str = "NATS_MONITOR_BIND_IP=127.0.0.1\nNATS_MONITOR_PORT=8222\nNATS_USER=app\nNATS_PASSWORD=change-me\nDOCKER_LOG_MAX_SIZE=100m\nDOCKER_LOG_MAX_FILE=3\n";

pub const NATS_PRE_DEPLOY: &'static str = "set -eu\nmkdir -p data/nats\n";

// ---------------------------------------------------------------------------
// Rendering
// ---------------------------------------------------------------------------

/// A rendered template as a mathematical value.
pub struct Rendering {
    pub compose: Seq<char>,
    pub env: Seq<char>,
    pub pre_deploy: Seq<char>,
}

impl View for RenderedTemplate {
    type V = Rendering;

    open spec fn view(&self) -> Rendering {
        Rendering {
            compose: self.compose_content@,
            env: self.env_content@,
            pre_deploy: self.deploy_scripts.pre_deploy@,
        }
    }
}

/// No script but the first is set.
pub open spec fn other_scripts_are_empty(scripts: DeployScriptSet) -> bool {
    &&& scripts.deploy@.len() == 0
    &&& scripts.post_deploy@.len() == 0
    &&& scripts.switch_traffic@.len() == 0
    &&& scripts.cleanup@.len() == 0
}

/// A character of a service name: letters and digits in lower case, dashes and underscores, and a
/// dash for everything else.
pub open spec fn service_char(c: char) -> char {
    if CharClass::Slug.has(c) {
        lower_char(c)
    } else {
        '-'
    }
}

/// The name of the service of an application.
pub open spec fn service(app_key: Seq<char>) -> Seq<char> {
    trimmed(app_key).map_values(|c: char| service_char(c))
}

pub fn service_name(app_key: &str) -> (name: String)
    ensures
        name@ == service(app_key@),
{
    let chars = chars_of(trim(app_key).as_str());
    let mut name = String::new();
    let mut i: usize = 0;
    while i < chars.len()
        invariant
            i <= chars@.len(),
            name@ == chars@.take(i as int).map_values(|c: char| service_char(c)),
        decreases chars@.len() - i,
    {
        name.push(
            if CharClass::Slug.contains(chars[i]) {
                lower_of(chars[i])
            } else {
                '-'
            },
        );
        i = i + 1;
        assert(name@ =~= chars@.take(i as int).map_values(|c: char| service_char(c)));
    }
    assert(chars@.take(i as int) =~= chars@);
    name
}

/// The Compose file: the name stands behind `before_name`, the image behind `before_image`, and the
/// port, as the default of a variable that is mapped, behind `before_port`.
pub open spec fn compose_text(
    before_name: Seq<char>,
    name: Seq<char>,
    before_image: Seq<char>,
    image: Seq<char>,
    before_port: Seq<char>,
    port: u16,
    after_port: Seq<char>,
) -> Seq<char> {
    before_name + name + before_image + image + before_port + ":-"@ + decimal(port as nat) + "}:"@
        + after_port
}

/// The environment: the variable of the port, whose name begins with `prefix`, and the others.
pub open spec fn env_text(prefix: Seq<char>, port: u16, others: Seq<char>) -> Seq<char> {
    prefix + "PORT="@ + decimal(port as nat) + "\n"@ + others
}

pub open spec fn nginx_rendering(name: Seq<char>, port: u16) -> Rendering {
    Rendering {
        compose: compose_text(
            "services:\n  "@,
            name,
            NGINX_BEFORE_IMAGE@,
            "nginx:1.27-alpine"@,
            NGINX_BEFORE_PORT@,
            port,
            NGINX_AFTER_PORT@,
        ),
        env: env_text("PUBLIC_"@, port, Seq::empty()),
        pre_deploy: Seq::empty(),
    }
}

pub open spec fn redis_rendering(name: Seq<char>, port: u16) -> Rendering {
    Rendering {
        compose: compose_text(
            "services:\n  "@,
            name,
            REDIS_BEFORE_IMAGE@,
            "redis:7-alpine"@,
            REDIS_BEFORE_PORT@,
            port,
            REDIS_AFTER_PORT@,
        ),
        env: env_text("REDIS_IMAGE=redis:7-alpine\nREDIS_BIND_IP=127.0.0.1\nREDIS_"@, port, REDIS_ENV@),
        pre_deploy: REDIS_PRE_DEPLOY@,
    }
}

pub open spec fn postgres_rendering(name: Seq<char>, port: u16) -> Rendering {
    Rendering {
        compose: compose_text(
            "services:\n  "@,
            name,
            POSTGRES_BEFORE_IMAGE@,
            "postgres:16-alpine"@,
            POSTGRES_BEFORE_PORT@,
            port,
            POSTGRES_AFTER_PORT@,
        ),
        env: env_text("POSTGRES_"@, port, POSTGRES_ENV@),
        pre_deploy: Seq::empty(),
    }
}

pub open spec fn caddy_rendering(name: Seq<char>, port: u16) -> Rendering {
    Rendering {
        compose: compose_text(
            "services:\n  "@,
            name,
            CADDY_BEFORE_IMAGE@,
            "caddy:2-alpine"@,
            CADDY_BEFORE_PORT@,
            port,
            CADDY_AFTER_PORT@,
        ),
        env: env_text("PUBLIC_"@, port, Seq::empty()),
        pre_deploy: Seq::empty(),
    }
}

pub open spec fn loki_rendering(name: Seq<char>, port: u16) -> Rendering {
    Rendering {
        compose: compose_text(
            "name: "@,
            name,
            LOKI_BEFORE_IMAGE@,
            "grafana/loki:3.4.2"@,
            LOKI_BEFORE_PORT@,
            port,
            LOKI_AFTER_PORT@,
        ),
        env: env_text("LOKI_IMAGE=grafana/loki:3.4.2\nLOKI_BIND_IP=127.0.0.1\nLOKI_"@, port, LOKI_ENV@),
        pre_deploy: LOKI_PRE_DEPLOY@,
    }
}

pub open spec fn alloy_rendering(name: Seq<char>, port: u16) -> Rendering {
    Rendering {
        compose: compose_text(
            "name: "@,
            name,
            ALLOY_BEFORE_IMAGE@,
            "grafana/alloy:v1.6.1"@,
            ALLOY_BEFORE_PORT@,
            port,
            ALLOY_AFTER_PORT@,
        ),
        env: env_text("ALLOY_IMAGE=grafana/alloy:v1.6.1\nALLOY_BIND_IP=127.0.0.1\nALLOY_HTTP_"@, port, ALLOY_ENV@),
        pre_deploy: ALLOY_PRE_DEPLOY@,
    }
}

pub open spec fn nats_rendering(name: Seq<char>, port: u16) -> Rendering {
    Rendering {
        compose: compose_text(
            "name: "@,
            name,
            NATS_BEFORE_IMAGE@,
            "nats:2.10-alpine"@,
            NATS_BEFORE_PORT@,
            port,
            NATS_AFTER_PORT@,
        ),
        env: env_text("NATS_IMAGE=nats:2.10-alpine\nNATS_BIND_IP=127.0.0.1\nNATS_"@, port, NATS_ENV@),
        pre_deploy: NATS_PRE_DEPLOY@,
    }
}

/// The rendering of the template of the key.
pub open spec fn rendering(key: Seq<char>, name: Seq<char>, port: u16) -> Rendering {
    if key == "redis-single"@ {
        redis_rendering(name, port)
    } else if key == "postgres-single"@ {
        postgres_rendering(name, port)
    } else if key == "caddy-gateway"@ {
        caddy_rendering(name, port)
    } else if key == "loki-single"@ {
        loki_rendering(name, port)
    } else if key == "alloy-docker-logs"@ {
        alloy_rendering(name, port)
    } else if key == "nats-jetstream"@ {
        nats_rendering(name, port)
    } else {
        nginx_rendering(name, port)
    }
}

fn compose_content(
    before_name: &str,
    name: &str,
    before_image: &str,
    image: &str,
    before_port: &str,
    port: u16,
    after_port: &str,
) -> (text: String)
    ensures
        text@ == compose_text(
            before_name@,
            name@,
            before_image@,
            image@,
            before_port@,
            port,
            after_port@,
        ),
{
    before_name.to_owned().concat(name).concat(before_image).concat(image).concat(
        before_port,
    ).concat(":-").concat(natural_text(port as u64).as_str()).concat("}:").concat(after_port)
}

fn env_content(prefix: &str, port: u16, others: &str) -> (text: String)
    ensures
        text@ == env_text(prefix@, port, others@),
{
    prefix.to_owned().concat("PORT=").concat(natural_text(port as u64).as_str()).concat(
        "\n",
    ).concat(others)
}

fn nothing() -> (text: String)
    ensures
        text@ == Seq::<char>::empty(),
{
    String::new()
}

fn rendered(compose: String, env: String, pre_deploy: String) -> (template: RenderedTemplate)
    ensures
        template@ == (Rendering { compose: compose@, env: env@, pre_deploy: pre_deploy@ }),
        other_scripts_are_empty(template.deploy_scripts),
{
    RenderedTemplate {
        compose_content: compose,
        env_content: env,
        deploy_scripts: DeployScriptSet {
            pre_deploy,
            deploy: String::new(),
            post_deploy: String::new(),
            switch_traffic: String::new(),
            cleanup: String::new(),
        },
    }
}

fn render_nginx(service_name: &str, port: u16) -> (template: RenderedTemplate)
    ensures
        template@ == nginx_rendering(service_name@, port),
        other_scripts_are_empty(template.deploy_scripts),
{
    rendered(
        compose_content(
            "services:\n  ",
            service_name,
            NGINX_BEFORE_IMAGE,
            "nginx:1.27-alpine",
            NGINX_BEFORE_PORT,
            port,
            NGINX_AFTER_PORT,
        ),
        env_content("PUBLIC_", port, nothing().as_str()),
        nothing(),
    )
}

fn render_redis(service_name: &str, port: u16) -> (template: RenderedTemplate)
    ensures
        template@ == redis_rendering(service_name@, port),
        other_scripts_are_empty(template.deploy_scripts),
{
    rendered(
        compose_content(
            "services:\n  ",
            service_name,
            REDIS_BEFORE_IMAGE,
            "redis:7-alpine",
            REDIS_BEFORE_PORT,
            port,
            REDIS_AFTER_PORT,
        ),
        env_content("REDIS_IMAGE=redis:7-alpine\nREDIS_BIND_IP=127.0.0.1\nREDIS_", port, REDIS_ENV),
        REDIS_PRE_DEPLOY.to_owned(),
    )
}

fn render_postgres(service_name: &str, port: u16) -> (template: RenderedTemplate)
    ensures
        template@ == postgres_rendering(service_name@, port),
        other_scripts_are_empty(template.deploy_scripts),
{
    rendered(
        compose_content(
            "services:\n  ",
            service_name,
            POSTGRES_BEFORE_IMAGE,
            "postgres:16-alpine",
            POSTGRES_BEFORE_PORT,
            port,
            POSTGRES_AFTER_PORT,
        ),
        env_content("POSTGRES_", port, POSTGRES_ENV),
        nothing(),
    )
}

fn render_caddy(service_name: &str, port: u16) -> (template: RenderedTemplate)
    ensures
        template@ == caddy_rendering(service_name@, port),
        other_scripts_are_empty(template.deploy_scripts),
{
    rendered(
        compose_content(
            "services:\n  ",
            service_name,
            CADDY_BEFORE_IMAGE,
            "caddy:2-alpine",
            CADDY_BEFORE_PORT,
            port,
            CADDY_AFTER_PORT,
        ),
        env_content("PUBLIC_", port, nothing().as_str()),
        nothing(),
    )
}

fn render_loki(project_name: &str, port: u16) -> (template: RenderedTemplate)
    ensures
        template@ == loki_rendering(project_name@, port),
        other_scripts_are_empty(template.deploy_scripts),
{
    rendered(
        compose_content(
            "name: ",
            project_name,
            LOKI_BEFORE_IMAGE,
            "grafana/loki:3.4.2",
            LOKI_BEFORE_PORT,
            port,
            LOKI_AFTER_PORT,
        ),
        env_content("LOKI_IMAGE=grafana/loki:3.4.2\nLOKI_BIND_IP=127.0.0.1\nLOKI_", port, LOKI_ENV),
        LOKI_PRE_DEPLOY.to_owned(),
    )
}

fn render_alloy(project_name: &str, port: u16) -> (template: RenderedTemplate)
    ensures
        template@ == alloy_rendering(project_name@, port),
        other_scripts_are_empty(template.deploy_scripts),
{
    rendered(
        compose_content(
            "name: ",
            project_name,
            ALLOY_BEFORE_IMAGE,
            "grafana/alloy:v1.6.1",
            ALLOY_BEFORE_PORT,
            port,
            ALLOY_AFTER_PORT,
        ),
        env_content("ALLOY_IMAGE=grafana/alloy:v1.6.1\nALLOY_BIND_IP=127.0.0.1\nALLOY_HTTP_", port, ALLOY_ENV),
        ALLOY_PRE_DEPLOY.to_owned(),
    )
}

fn render_nats(project_name: &str, port: u16) -> (template: RenderedTemplate)
    ensures
        template@ == nats_rendering(project_name@, port),
        other_scripts_are_empty(template.deploy_scripts),
{
    rendered(
        compose_content(
            "name: ",
            project_name,
            NATS_BEFORE_IMAGE,
            "nats:2.10-alpine",
            NATS_BEFORE_PORT,
            port,
            NATS_AFTER_PORT,
        ),
        env_content("NATS_IMAGE=nats:2.10-alpine\nNATS_BIND_IP=127.0.0.1\nNATS_", port, NATS_ENV),
        NATS_PRE_DEPLOY.to_owned(),
    )
}

/// Why a template cannot be rendered.
pub open spec fn render_fault(app_key: Seq<char>, port: u16, key: Seq<char>) -> Option<
    CatalogFault,
> {
    if is_blank(app_key) {
        Some(CatalogFault::InvalidInput("请输入应用标识"@))
    } else if port == 0 {
        Some(CatalogFault::InvalidInput("端口必须在 1-65535 之间"@))
    } else if !has_template(key) {
        Some(CatalogFault::TemplateNotFound("模板不存在"@))
    } else {
        None
    }
}

/// Renders a template for an application.
pub fn render_compose_template(input: RenderTemplateInput<'_>) -> (result: Result<
    RenderedTemplate,
    CatalogError,
>)
    ensures
        match result {
            Ok(template) => {
                &&& render_fault(input.app_key@, input.port, input.template_key@) is None
                &&& template@ == rendering(
                    input.template_key@,
                    service(input.app_key@),
                    input.port,
                )
                &&& other_scripts_are_empty(template.deploy_scripts)
            },
            Err(error) => render_fault(input.app_key@, input.port, input.template_key@) == Some(
                error@,
            ),
        },
{
    if blank(input.app_key) {
        return Err(CatalogError::InvalidInput("请输入应用标识".to_owned()));
    }
    if input.port == 0 {
        return Err(CatalogError::InvalidInput("端口必须在 1-65535 之间".to_owned()));
    }
    let template = match template_by_key(input.template_key) {
        Some(template) => template,
        None => return Err(CatalogError::TemplateNotFound("模板不存在".to_owned())),
    };
    let name = service_name(input.app_key);
    let key = template.key;
    if same_text(key, "redis-single") {
        Ok(render_redis(name.as_str(), input.port))
    } else if same_text(key, "postgres-single") {
        Ok(render_postgres(name.as_str(), input.port))
    } else if same_text(key, "caddy-gateway") {
        Ok(render_caddy(name.as_str(), input.port))
    } else if same_text(key, "loki-single") {
        Ok(render_loki(name.as_str(), input.port))
    } else if same_text(key, "alloy-docker-logs") {
        Ok(render_alloy(name.as_str(), input.port))
    } else if same_text(key, "nats-jetstream") {
        Ok(render_nats(name.as_str(), input.port))
    } else {
        Ok(render_nginx(name.as_str(), input.port))
    }
}

// ---------------------------------------------------------------------------
// Laws
// ---------------------------------------------------------------------------

/// The name of a service holds nothing but lower case letters, digits, dashes and underscores.
pub proof fn service_names_are_plain(app_key: Seq<char>, i: int)
    requires
        0 <= i < service(app_key).len(),
    ensures
        ({
            let c = service(app_key)[i];
            'a' <= c <= 'z' || '0' <= c <= '9' || c == '-' || c == '_'
        }),
{
}

proof fn lemma_part_holds(before: Seq<char>, part: Seq<char>, after: Seq<char>)
    ensures
        holds(before + part + after, part),
{
    let whole = before + part + after;
    let at = before.len() as int;
    assert(whole.subrange(at, at + part.len()) =~= part);
    assert(stands_at(whole, part, at));
}

proof fn lemma_compose_shows(
    before_name: Seq<char>,
    name: Seq<char>,
    before_image: Seq<char>,
    image: Seq<char>,
    before_port: Seq<char>,
    port: u16,
    after_port: Seq<char>,
)
    ensures
        ({
            let text = compose_text(
                before_name,
                name,
                before_image,
                image,
                before_port,
                port,
                after_port,
            );
            holds(text, image) && holds(text, ":-"@ + decimal(port as nat) + "}:"@)
        }),
{
    let text = compose_text(
        before_name,
        name,
        before_image,
        image,
        before_port,
        port,
        after_port,
    );
    let before = before_name + name + before_image;
    let mapping = ":-"@ + decimal(port as nat) + "}:"@;
    lemma_part_holds(before, image, before_port + mapping + after_port);
    assert(text =~= before + image + (before_port + mapping + after_port));
    lemma_part_holds(before + image + before_port, mapping, after_port);
    assert(text =~= before + image + before_port + mapping + after_port);
}

proof fn lemma_env_shows(prefix: Seq<char>, port: u16, others: Seq<char>)
    ensures
        holds(env_text(prefix, port, others), "PORT="@ + decimal(port as nat) + "\n"@),
{
    let variable = "PORT="@ + decimal(port as nat) + "\n"@;
    lemma_part_holds(prefix, variable, others);
    assert(env_text(prefix, port, others) =~= prefix + variable + others);
}

/// Every template of the catalog can be rendered, and its rendering shows its image, the port as it
/// is mapped and the variable of the port.
pub proof fn renderings_show_image_and_port(i: int, name: Seq<char>, port: u16)
    requires
        0 <= i < catalog().len(),
    ensures
        has_template(catalog()[i].key),
        holds(rendering(catalog()[i].key, name, port).compose, catalog()[i].image),
        holds(
            rendering(catalog()[i].key, name, port).compose,
            ":-"@ + decimal(port as nat) + "}:"@,
        ),
        holds(
            rendering(catalog()[i].key, name, port).env,
            "PORT="@ + decimal(port as nat) + "\n"@,
        ),
{
    reveal_strlit("nginx-static");
    reveal_strlit("redis-single");
    reveal_strlit("postgres-single");
    reveal_strlit("caddy-gateway");
    reveal_strlit("loki-single");
    reveal_strlit("alloy-docker-logs");
    reveal_strlit("nats-jetstream");
    assert("nginx-static"@[0] == 'n' && "nginx-static"@[1] == 'g');
    assert("nats-jetstream"@[1] == 'a');
    assert("redis-single"@[0] == 'r');
    assert("postgres-single"@[0] == 'p');
    assert("caddy-gateway"@[0] == 'c');
    assert("loki-single"@[0] == 'l');
    assert("alloy-docker-logs"@[0] == 'a');
    if i == 0 {
        lemma_compose_shows(
            "services:\n  "@,
            name,
            NGINX_BEFORE_IMAGE@,
            "nginx:1.27-alpine"@,
            NGINX_BEFORE_PORT@,
            port,
            NGINX_AFTER_PORT@,
        );
        lemma_env_shows("PUBLIC_"@, port, Seq::empty());
    } else if i == 1 {
        lemma_compose_shows(
            "services:\n  "@,
            name,
            REDIS_BEFORE_IMAGE@,
            "redis:7-alpine"@,
            REDIS_BEFORE_PORT@,
            port,
            REDIS_AFTER_PORT@,
        );
        lemma_env_shows("REDIS_IMAGE=redis:7-alpine\nREDIS_BIND_IP=127.0.0.1\nREDIS_"@, port, REDIS_ENV@);
    } else if i == 2 {
        lemma_compose_shows(
            "services:\n  "@,
            name,
            POSTGRES_BEFORE_IMAGE@,
            "postgres:16-alpine"@,
            POSTGRES_BEFORE_PORT@,
            port,
            POSTGRES_AFTER_PORT@,
        );
        lemma_env_shows("POSTGRES_"@, port, POSTGRES_ENV@);
    } else if i == 3 {
        lemma_compose_shows(
            "services:\n  "@,
            name,
            CADDY_BEFORE_IMAGE@,
            "caddy:2-alpine"@,
            CADDY_BEFORE_PORT@,
            port,
            CADDY_AFTER_PORT@,
        );
        lemma_env_shows("PUBLIC_"@, port, Seq::empty());
    } else if i == 4 {
        lemma_compose_shows(
            "name: "@,
            name,
            LOKI_BEFORE_IMAGE@,
            "grafana/loki:3.4.2"@,
            LOKI_BEFORE_PORT@,
            port,
            LOKI_AFTER_PORT@,
        );
        lemma_env_shows("LOKI_IMAGE=grafana/loki:3.4.2\nLOKI_BIND_IP=127.0.0.1\nLOKI_"@, port, LOKI_ENV@);
    } else if i == 5 {
        lemma_compose_shows(
            "name: "@,
            name,
            ALLOY_BEFORE_IMAGE@,
            "grafana/alloy:v1.6.1"@,
            ALLOY_BEFORE_PORT@,
            port,
            ALLOY_AFTER_PORT@,
        );
        lemma_env_shows("ALLOY_IMAGE=grafana/alloy:v1.6.1\nALLOY_BIND_IP=127.0.0.1\nALLOY_HTTP_"@, port, ALLOY_ENV@);
    } else {
        lemma_compose_shows(
            "name: "@,
            name,
            NATS_BEFORE_IMAGE@,
            "nats:2.10-alpine"@,
            NATS_BEFORE_PORT@,
            port,
            NATS_AFTER_PORT@,
        );
        lemma_env_shows("NATS_IMAGE=nats:2.10-alpine\nNATS_BIND_IP=127.0.0.1\nNATS_"@, port, NATS_ENV@);
    }
}

/// A template is rendered exactly if there is one of that key, the application has a name and the
/// port is none but zero.
pub proof fn templates_are_rendered_for_applications(app_key: Seq<char>, port: u16, key: Seq<char>)
    ensures
        render_fault(app_key, port, key) is None <==> trimmed(app_key).len() > 0 && port > 0
            && has_template(key),
        trimmed(app_key).len() == 0 ==> render_fault(app_key, port, key)->0 is InvalidInput,
        trimmed(app_key).len() > 0 && port > 0 && !has_template(key) ==> render_fault(
            app_key,
            port,
            key,
        )->0 is TemplateNotFound,
{
}

/// There are seven templates, and no other.
pub proof fn templates_are_known_by_their_keys(key: Seq<char>)
    ensures
        has_template(key) <==> (key == "nginx-static"@
            || key == "redis-single"@
            || key == "postgres-single"@
            || key == "caddy-gateway"@
            || key == "loki-single"@
            || key == "alloy-docker-logs"@
            || key == "nats-jetstream"@),
{
    assert(catalog()[0].key == "nginx-static"@);
    assert(catalog()[1].key == "redis-single"@);
    assert(catalog()[2].key == "postgres-single"@);
    assert(catalog()[3].key == "caddy-gateway"@);
    assert(catalog()[4].key == "loki-single"@);
    assert(catalog()[5].key == "alloy-docker-logs"@);
    assert(catalog()[6].key == "nats-jetstream"@);
}

/// A service is named after its application: in small letters, with a dash for everything but
/// letters, digits, dashes and underscores.
pub proof fn services_are_named_after_applications(app_key: Seq<char>, i: int)
    requires
        0 <= i < trimmed(app_key).len(),
    ensures
        service(app_key).len() == trimmed(app_key).len(),
        ({
            let c = trimmed(app_key)[i];
            let named = service(app_key)[i];
            &&& 'a' <= c <= 'z' || '0' <= c <= '9' || c == '-' || c == '_' ==> named == c
            &&& 'A' <= c <= 'Z' ==> named as int == c as int + 0x20
            &&& !('a' <= c <= 'z' || '0' <= c <= '9' || c == '-' || c == '_' || 'A' <= c <= 'Z')
                ==> named == '-'
        }),
{
    lemma_service_char(trimmed(app_key)[i]);
}

proof fn lemma_service_char(c: char)
    ensures
        'a' <= c <= 'z' || '0' <= c <= '9' || c == '-' || c == '_' ==> service_char(c) == c,
        'A' <= c <= 'Z' ==> service_char(c) as int == c as int + 0x20,
        !('a' <= c <= 'z' || '0' <= c <= '9' || c == '-' || c == '_' || 'A' <= c <= 'Z')
            ==> service_char(c) == '-',
{
}

proof fn lemma_nginx_port()
    ensures
        NGINX_AFTER_PORT@.len() >= 3,
        NGINX_AFTER_PORT@.take(3) == seq!['8', '0', '"'],
{
    reveal_strlit("80\"\n    volumes:\n      - ./html:/usr/share/nginx/html:ro\n");
    assert(NGINX_AFTER_PORT@.take(3) =~= seq!['8', '0', '"']);
}

proof fn lemma_redis_port()
    ensures
        REDIS_AFTER_PORT@.len() >= 5,
        REDIS_AFTER_PORT@.take(5) == seq!['6', '3', '7', '9', '"'],
{
    reveal_strlit("6379\"\n    volumes:\n      - ./data:/data\n    healthcheck:\n      test: [\"CMD-SHELL\", \"redis-cli -a \\\"$${REDIS_PASSWORD}\\\" ping | grep PONG\"]\n      interval: 10s\n      timeout: 5s\n      retries: 20\n    logging:\n      driver: json-file\n      options:\n        max-size: \"${DOCKER_LOG_MAX_SIZE:-200m}\"\n        max-file: \"${DOCKER_LOG_MAX_FILE:-5}\"\n");
    assert(REDIS_AFTER_PORT@.take(5) =~= seq!['6', '3', '7', '9', '"']);
}

proof fn lemma_postgres_port()
    ensures
        POSTGRES_AFTER_PORT@.len() >= 5,
        POSTGRES_AFTER_PORT@.take(5) == seq!['5', '4', '3', '2', '"'],
{
    reveal_strlit("5432\"\n    environment:\n      POSTGRES_DB: ${POSTGRES_DB:-app}\n      POSTGRES_USER: ${POSTGRES_USER:-app}\n      POSTGRES_PASSWORD: ${POSTGRES_PASSWORD:-change-me}\n    volumes:\n      - ./data:/var/lib/postgresql/data\n");
    assert(POSTGRES_AFTER_PORT@.take(5) =~= seq!['5', '4', '3', '2', '"']);
}

proof fn lemma_caddy_port()
    ensures
        CADDY_AFTER_PORT@.len() >= 3,
        CADDY_AFTER_PORT@.take(3) == seq!['8', '0', '"'],
{
    reveal_strlit("80\"\n    volumes:\n      - ./Caddyfile:/etc/caddy/Caddyfile:ro\n      - ./data:/data\n      - ./config:/config\n");
    assert(CADDY_AFTER_PORT@.take(3) =~= seq!['8', '0', '"']);
}

proof fn lemma_loki_port()
    ensures
        LOKI_AFTER_PORT@.len() >= 5,
        LOKI_AFTER_PORT@.take(5) == seq!['3', '1', '0', '0', '"'],
{
    reveal_strlit("3100\"\n    volumes:\n      - ./data/loki:/loki\n    healthcheck:\n      test: [\"CMD-SHELL\", \"wget -qO- http://127.0.0.1:3100/ready >/dev/null 2>&1 || exit 1\"]\n      interval: 10s\n      timeout: 5s\n      retries: 20\n    logging:\n      driver: json-file\n      options:\n        max-size: \"${DOCKER_LOG_MAX_SIZE:-200m}\"\n        max-file: \"${DOCKER_LOG_MAX_FILE:-5}\"\n");
    assert(LOKI_AFTER_PORT@.take(5) =~= seq!['3', '1', '0', '0', '"']);
}

proof fn lemma_alloy_port()
    ensures
        ALLOY_AFTER_PORT@.len() >= 6,
        ALLOY_AFTER_PORT@.take(6) == seq!['1', '2', '3', '4', '5', '"'],
{
    reveal_strlit("12345\"\n    extra_hosts:\n      - \"host.docker.internal:host-gateway\"\n    volumes:\n      - ./data/alloy:/var/lib/alloy/data\n      - /var/run/docker.sock:/var/run/docker.sock:ro\n    logging:\n      driver: json-file\n      options:\n        max-size: \"${DOCKER_LOG_MAX_SIZE:-100m}\"\n        max-file: \"${DOCKER_LOG_MAX_FILE:-3}\"\n");
    assert(ALLOY_AFTER_PORT@.take(6) =~= seq!['1', '2', '3', '4', '5', '"']);
}

proof fn lemma_nats_port()
    ensures
        NATS_AFTER_PORT@.len() >= 5,
        NATS_AFTER_PORT@.take(5) == seq!['4', '2', '2', '2', '"'],
{
    reveal_strlit("4222\"\n      - \"${NATS_MONITOR_BIND_IP:-127.0.0.1}:${NATS_MONITOR_PORT:-8222}:8222\"\n    volumes:\n      - ./data/nats:/data/nats\n    healthcheck:\n      test: [\"CMD-SHELL\", \"wget -qO- http://127.0.0.1:8222/varz >/dev/null 2>&1 || exit 1\"]\n      interval: 10s\n      timeout: 3s\n      retries: 12\n      start_period: 20s\n    logging:\n      driver: json-file\n      options:\n        max-size: \"${DOCKER_LOG_MAX_SIZE:-100m}\"\n        max-file: \"${DOCKER_LOG_MAX_FILE:-3}\"\n");
    assert(NATS_AFTER_PORT@.take(5) =~= seq!['4', '2', '2', '2', '"']);
}

proof fn lemma_mapping(before: Seq<char>, port: u16, after_port: Seq<char>, inner: Seq<char>)
    requires
        after_port.len() >= inner.len(),
        after_port.take(inner.len() as int) == inner,
    ensures
        holds(
            before + ":-"@ + decimal(port as nat) + "}:"@ + after_port,
            ":-"@ + decimal(port as nat) + "}:"@ + inner,
        ),
{
    let mapping = ":-"@ + decimal(port as nat) + "}:"@;
    let rest = after_port.skip(inner.len() as int);
    assert(after_port =~= inner + rest);
    let whole = before + ":-"@ + decimal(port as nat) + "}:"@ + after_port;
    lemma_part_holds(before, mapping + inner, rest);
    assert(whole =~= before + (mapping + inner) + rest);
}

/// The port that is given leads to the port on which the service listens in its container.
pub proof fn ports_lead_into_the_containers(name: Seq<char>, port: u16)
    ensures
        holds(
            rendering("nginx-static"@, name, port).compose,
            ":-"@ + decimal(port as nat) + "}:"@ + seq!['8', '0', '"'],
        ),
        holds(
            rendering("redis-single"@, name, port).compose,
            ":-"@ + decimal(port as nat) + "}:"@ + seq!['6', '3', '7', '9', '"'],
        ),
        holds(
            rendering("postgres-single"@, name, port).compose,
            ":-"@ + decimal(port as nat) + "}:"@ + seq!['5', '4', '3', '2', '"'],
        ),
        holds(
            rendering("caddy-gateway"@, name, port).compose,
            ":-"@ + decimal(port as nat) + "}:"@ + seq!['8', '0', '"'],
        ),
        holds(
            rendering("loki-single"@, name, port).compose,
            ":-"@ + decimal(port as nat) + "}:"@ + seq!['3', '1', '0', '0', '"'],
        ),
        holds(
            rendering("alloy-docker-logs"@, name, port).compose,
            ":-"@ + decimal(port as nat) + "}:"@ + seq!['1', '2', '3', '4', '5', '"'],
        ),
        holds(
            rendering("nats-jetstream"@, name, port).compose,
            ":-"@ + decimal(port as nat) + "}:"@ + seq!['4', '2', '2', '2', '"'],
        ),
{
    reveal_strlit("nginx-static");
    reveal_strlit("redis-single");
    reveal_strlit("postgres-single");
    reveal_strlit("caddy-gateway");
    reveal_strlit("loki-single");
    reveal_strlit("alloy-docker-logs");
    reveal_strlit("nats-jetstream");
    assert("nginx-static"@.len() == 12);
    assert("redis-single"@.len() == 12);
    assert("postgres-single"@.len() == 15);
    assert("caddy-gateway"@.len() == 13);
    assert("loki-single"@.len() == 11);
    assert("alloy-docker-logs"@.len() == 17);
    assert("nats-jetstream"@.len() == 14);
    assert("nginx-static"@[0] == 'n');
    assert("redis-single"@[0] == 'r');
    lemma_nginx_port();
    lemma_mapping(
        "services:\n  "@ + name + NGINX_BEFORE_IMAGE@ + "nginx:1.27-alpine"@ + NGINX_BEFORE_PORT@,
        port,
        NGINX_AFTER_PORT@,
        seq!['8', '0', '"'],
    );
    lemma_redis_port();
    lemma_mapping(
        "services:\n  "@ + name + REDIS_BEFORE_IMAGE@ + "redis:7-alpine"@ + REDIS_BEFORE_PORT@,
        port,
        REDIS_AFTER_PORT@,
        seq!['6', '3', '7', '9', '"'],
    );
    lemma_postgres_port();
    lemma_mapping(
        "services:\n  "@ + name + POSTGRES_BEFORE_IMAGE@ + "postgres:16-alpine"@ + POSTGRES_BEFORE_PORT@,
        port,
        POSTGRES_AFTER_PORT@,
        seq!['5', '4', '3', '2', '"'],
    );
    lemma_caddy_port();
    lemma_mapping(
        "services:\n  "@ + name + CADDY_BEFORE_IMAGE@ + "caddy:2-alpine"@ + CADDY_BEFORE_PORT@,
        port,
        CADDY_AFTER_PORT@,
        seq!['8', '0', '"'],
    );
    lemma_loki_port();
    lemma_mapping(
        "name: "@ + name + LOKI_BEFORE_IMAGE@ + "grafana/loki:3.4.2"@ + LOKI_BEFORE_PORT@,
        port,
        LOKI_AFTER_PORT@,
        seq!['3', '1', '0', '0', '"'],
    );
    lemma_alloy_port();
    lemma_mapping(
        "name: "@ + name + ALLOY_BEFORE_IMAGE@ + "grafana/alloy:v1.6.1"@ + ALLOY_BEFORE_PORT@,
        port,
        ALLOY_AFTER_PORT@,
        seq!['1', '2', '3', '4', '5', '"'],
    );
    lemma_nats_port();
    lemma_mapping(
        "name: "@ + name + NATS_BEFORE_IMAGE@ + "nats:2.10-alpine"@ + NATS_BEFORE_PORT@,
        port,
        NATS_AFTER_PORT@,
        seq!['4', '2', '2', '2', '"'],
    );
}

} // verus!
