//! Health checks: how they are configured, and what their outcomes say.

use vstd::prelude::*;

use crate::decimal::{decimal, natural_text, parse_natural, parsed};
use crate::deploy::commands::ComposeCommandOutput;
use crate::deploy::inputs::DeployError;
use crate::pieces::{
    cut_last, holds, join, joined, lines, split_last, split_lines, stands_at, starts_with,
};
use crate::text::{
    blank, is_blank, lemma_texts_push, same_text, texts, trim, trimmed, CharClass,
};
use crate::urls::{parse_url, parts_view, url_parts, UrlParts};

verus! {

#[derive(Clone, Copy, Debug, PartialEq, Eq, Structural)]
pub enum HealthCheckKind {
    NoCheck,
    Http,
    Tcp,
    ComposeRunning,
    SystemdActive,
}

impl HealthCheckKind {
    pub open spec fn name(self) -> Seq<char> {
        match self {
            HealthCheckKind::NoCheck => "none"@,
            HealthCheckKind::Http => "http"@,
            HealthCheckKind::Tcp => "tcp"@,
            HealthCheckKind::ComposeRunning => "compose_running"@,
            HealthCheckKind::SystemdActive => "systemd_active"@,
        }
    }

    pub open spec fn title(self) -> Seq<char> {
        match self {
            HealthCheckKind::NoCheck => "不检查"@,
            HealthCheckKind::Http => "HTTP GET"@,
            HealthCheckKind::Tcp => "TCP 连接"@,
            HealthCheckKind::ComposeRunning => "容器运行状态"@,
            HealthCheckKind::SystemdActive => "systemd active"@,
        }
    }

    pub fn as_str(&self) -> (name: &'static str)
        ensures
            name@ == self.name(),
    {
        match self {
            HealthCheckKind::NoCheck => "none",
            HealthCheckKind::Http => "http",
            HealthCheckKind::Tcp => "tcp",
            HealthCheckKind::ComposeRunning => "compose_running",
            HealthCheckKind::SystemdActive => "systemd_active",
        }
    }

    pub fn label(&self) -> (title: &'static str)
        ensures
            title@ == self.title(),
    {
        match self {
            HealthCheckKind::NoCheck => "不检查",
            HealthCheckKind::Http => "HTTP GET",
            HealthCheckKind::Tcp => "TCP 连接",
            HealthCheckKind::ComposeRunning => "容器运行状态",
            HealthCheckKind::SystemdActive => "systemd active",
        }
    }

    /// The kind of the given name.
    pub fn from_name(value: &str) -> (result: Result<HealthCheckKind, HealthError>)
        ensures
            match result {
                Ok(kind) => kind.name() == value@,
                Err(error) => kind_of(value@) is None && error@ == HealthFault::InvalidInput(
                    "健康检查类型无效"@,
                ),
            },
            result is Ok ==> kind_of(value@) == Some(result->Ok_0),
    {
        if same_text(value, "none") {
            Ok(HealthCheckKind::NoCheck)
        } else if same_text(value, "http") {
            Ok(HealthCheckKind::Http)
        } else if same_text(value, "tcp") {
            Ok(HealthCheckKind::Tcp)
        } else if same_text(value, "compose_running") {
            Ok(HealthCheckKind::ComposeRunning)
        } else if same_text(value, "systemd_active") {
            Ok(HealthCheckKind::SystemdActive)
        } else {
            Err(invalid("健康检查类型无效"))
        }
    }
}

pub open spec fn kind_of(name: Seq<char>) -> Option<HealthCheckKind> {
    if name == "none"@ {
        Some(HealthCheckKind::NoCheck)
    } else if name == "http"@ {
        Some(HealthCheckKind::Http)
    } else if name == "tcp"@ {
        Some(HealthCheckKind::Tcp)
    } else if name == "compose_running"@ {
        Some(HealthCheckKind::ComposeRunning)
    } else if name == "systemd_active"@ {
        Some(HealthCheckKind::SystemdActive)
    } else {
        None
    }
}

#[derive(Clone, Debug)]
pub struct HealthCheckConfig {
    pub kind: HealthCheckKind,
    pub endpoint: String,
    pub timeout_secs: u64,
    pub expected_status: u16,
}

impl Default for HealthCheckConfig {
    fn default() -> (config: HealthCheckConfig)
        ensures
            config.kind == HealthCheckKind::NoCheck,
            config.endpoint@ == Seq::<char>::empty(),
            config.timeout_secs == 5,
            config.expected_status == 200,
    {
        HealthCheckConfig {
            kind: HealthCheckKind::NoCheck,
            endpoint: String::new(),
            timeout_secs: 5,
            expected_status: 200,
        }
    }
}

#[derive(Clone, Debug)]
pub struct HealthCheckOutcome {
    pub healthy: bool,
    pub message: String,
}

#[derive(Debug)]
pub enum HealthError {
    InvalidInput(String),
    CheckFailed(String),
}

/// An error as a mathematical value.
pub enum HealthFault {
    InvalidInput(Seq<char>),
    CheckFailed(Seq<char>),
}

impl View for HealthError {
    type V = HealthFault;

    open spec fn view(&self) -> HealthFault {
        match self {
            HealthError::InvalidInput(message) => HealthFault::InvalidInput(message@),
            HealthError::CheckFailed(message) => HealthFault::CheckFailed(message@),
        }
    }
}

impl HealthFault {
    pub open spec fn text(self) -> Seq<char> {
        match self {
            HealthFault::InvalidInput(message) => message,
            HealthFault::CheckFailed(message) => message,
        }
    }
}

impl HealthError {
    pub fn message(&self) -> (message: &str)
        ensures
            message@ == self@.text(),
    {
        match self {
            HealthError::InvalidInput(message) => message.as_str(),
            HealthError::CheckFailed(message) => message.as_str(),
        }
    }

    /// A command that failed is a check that failed.
    pub fn from_deploy(error: &DeployError) -> (failed: HealthError)
        ensures
            failed@ == HealthFault::CheckFailed(error@.text()),
    {
        HealthError::CheckFailed(error.message().to_owned())
    }
}

fn invalid(message: &str) -> (error: HealthError)
    ensures
        error@ == HealthFault::InvalidInput(message@),
{
    HealthError::InvalidInput(message.to_owned())
}

/// The number, or the nearer of the two limits.
pub open spec fn within(value: i64, low: i64, high: i64) -> i64 {
    if value < low {
        low
    } else if value > high {
        high
    } else {
        value
    }
}

fn clamp(value: i64, low: i64, high: i64) -> (bounded: i64)
    ensures
        bounded == within(value, low, high),
{
    if value < low {
        low
    } else if value > high {
        high
    } else {
        value
    }
}

pub open spec fn tcp_fault() -> HealthFault {
    HealthFault::InvalidInput("TCP 健康检查地址格式应为 host:port"@)
}

/// A host and a port, without white space around them.
pub open spec fn tcp_address(value: Seq<char>) -> Result<Seq<char>, HealthFault> {
    match cut_last(trimmed(value), CharClass::Colon) {
        Some(parts) => if is_blank(parts.0) || parsed(parts.1, u16::MAX as nat) is None {
            Err(tcp_fault())
        } else {
            Ok(trimmed(parts.0) + ":"@ + trimmed(parts.1))
        },
        None => Err(tcp_fault()),
    }
}

pub fn parse_tcp_endpoint(value: &str) -> (result: Result<String, HealthError>)
    ensures
        match result {
            Ok(address) => tcp_address(value@) == Ok::<Seq<char>, HealthFault>(address@),
            Err(error) => tcp_address(value@) == Err::<Seq<char>, HealthFault>(error@),
        },
{
    let text = trim(value);
    match split_last(text.as_str(), CharClass::Colon) {
        Some(parts) => {
            if blank(parts.0.as_str()) || parse_natural(
                parts.1.as_str(),
                u16::MAX as u64,
            ).is_none() {
                return Err(invalid("TCP 健康检查地址格式应为 host:port"));
            }
            Ok(trim(parts.0.as_str()).concat(":").concat(trim(parts.1.as_str()).as_str()))
        },
        None => Err(invalid("TCP 健康检查地址格式应为 host:port")),
    }
}

/// What is wrong with the address of a check, given what it parses to as a URL.
pub open spec fn endpoint_fault(
    kind: HealthCheckKind,
    endpoint: Seq<char>,
    url: Option<(Seq<char>, Option<Seq<char>>)>,
) -> Option<HealthFault> {
    match kind {
        HealthCheckKind::NoCheck => None,
        HealthCheckKind::ComposeRunning => None,
        HealthCheckKind::SystemdActive => if endpoint.len() == 0 {
            Some(HealthFault::InvalidInput("systemd active 检查需要填写 unit 名称"@))
        } else {
            None
        },
        HealthCheckKind::Http => match url {
            None => Some(HealthFault::InvalidInput("HTTP 健康检查地址无效"@)),
            Some(parts) => if parts.0 == "http"@ || parts.0 == "https"@ {
                None
            } else {
                Some(HealthFault::InvalidInput("HTTP 健康检查只支持 http 或 https"@))
            },
        },
        HealthCheckKind::Tcp => match tcp_address(endpoint) {
            Ok(_) => None,
            Err(fault) => Some(fault),
        },
    }
}

/// The address that a check keeps: none where it needs none.
pub open spec fn kept_endpoint(kind: HealthCheckKind, endpoint: Seq<char>) -> Seq<char> {
    match kind {
        HealthCheckKind::NoCheck => Seq::empty(),
        HealthCheckKind::ComposeRunning => Seq::empty(),
        _ => trimmed(endpoint),
    }
}

/// The configuration that the given values make.
pub open spec fn is_config(
    config: HealthCheckConfig,
    kind: HealthCheckKind,
    endpoint: Seq<char>,
    timeout_secs: i64,
    expected_status: i64,
) -> bool {
    &&& config.kind == kind
    &&& config.endpoint@ == kept_endpoint(kind, endpoint)
    &&& config.timeout_secs == within(timeout_secs, 1, 60)
    &&& config.expected_status == within(expected_status, 100, 599)
}

/// Accepts the address of a check by what it parses to as a URL.
pub fn accept_endpoint(
    kind: HealthCheckKind,
    endpoint: &str,
    timeout_secs: i64,
    expected_status: i64,
    url: Option<UrlParts>,
) -> (result: Result<HealthCheckConfig, HealthError>)
    ensures
        match result {
            Ok(config) => {
                &&& endpoint_fault(kind, trimmed(endpoint@), parts_view(url)) is None
                &&& is_config(config, kind, endpoint@, timeout_secs, expected_status)
            },
            Err(error) => endpoint_fault(kind, trimmed(endpoint@), parts_view(url)) == Some(error@),
        },
{
    let timeout: u64 = clamp(timeout_secs, 1, 60) as u64;
    let status: u16 = clamp(expected_status, 100, 599) as u16;
    let address = trim(endpoint);
    match kind {
        HealthCheckKind::NoCheck => {
            return Ok(
                HealthCheckConfig {
                    kind,
                    endpoint: String::new(),
                    timeout_secs: timeout,
                    expected_status: status,
                },
            );
        },
        HealthCheckKind::ComposeRunning => {
            return Ok(
                HealthCheckConfig {
                    kind,
                    endpoint: String::new(),
                    timeout_secs: timeout,
                    expected_status: status,
                },
            );
        },
        HealthCheckKind::SystemdActive => {
            if address.as_str().is_empty() {
                return Err(invalid("systemd active 检查需要填写 unit 名称"));
            }
        },
        HealthCheckKind::Http => {
            match url {
                None => return Err(invalid("HTTP 健康检查地址无效")),
                Some(parts) => {
                    if !same_text(parts.scheme.as_str(), "http") && !same_text(
                        parts.scheme.as_str(),
                        "https",
                    ) {
                        return Err(invalid("HTTP 健康检查只支持 http 或 https"));
                    }
                },
            }
        },
        HealthCheckKind::Tcp => {
            match parse_tcp_endpoint(address.as_str()) {
                Ok(_) => {},
                Err(error) => return Err(error),
            }
        },
    }
    Ok(
        HealthCheckConfig {
            kind,
            endpoint: address,
            timeout_secs: timeout,
            expected_status: status,
        },
    )
}

pub fn normalize_health_config(
    kind: &str,
    endpoint: &str,
    timeout_secs: i64,
    expected_status: i64,
) -> (result: Result<HealthCheckConfig, HealthError>)
    ensures
        match kind_of(kind@) {
            None => result is Err && result->Err_0@ == HealthFault::InvalidInput(
                "健康检查类型无效"@,
            ),
            Some(known) => {
                let fault = endpoint_fault(
                    known,
                    trimmed(endpoint@),
                    url_parts(trimmed(endpoint@)),
                );
                match result {
                    Ok(config) => fault is None && is_config(
                        config,
                        known,
                        endpoint@,
                        timeout_secs,
                        expected_status,
                    ),
                    Err(error) => fault == Some(error@),
                }
            },
        },
{
    let known = match HealthCheckKind::from_name(kind) {
        Ok(known) => known,
        Err(error) => return Err(error),
    };
    let address = trim(endpoint);
    let url = if known == HealthCheckKind::Http {
        parse_url(address.as_str())
    } else {
        None
    };
    accept_endpoint(known, endpoint, timeout_secs, expected_status, url)
}

// ---------------------------------------------------------------------------
// Outcomes
// ---------------------------------------------------------------------------

/// An outcome as a mathematical value.
pub open spec fn is_outcome(
    outcome: HealthCheckOutcome,
    healthy: bool,
    message: Seq<char>,
) -> bool {
    outcome.healthy == healthy && outcome.message@ == message
}

/// The outcome where nothing is checked.
pub fn unchecked_outcome() -> (outcome: HealthCheckOutcome)
    ensures
        is_outcome(outcome, true, "未配置健康检查"@),
{
    HealthCheckOutcome { healthy: true, message: "未配置健康检查".to_owned() }
}

/// What is found by the status of an answer over HTTP.
pub open spec fn http_finding(expected: u16, status: u16) -> (bool, Seq<char>) {
    if status == expected {
        (true, "HTTP 健康检查通过: "@ + decimal(status as nat))
    } else {
        (
            false,
            "HTTP 健康检查失败: 返回 "@ + decimal(status as nat) + "，期望 "@ + decimal(
                expected as nat,
            ),
        )
    }
}

/// The outcome of a request over HTTP, by the status of its answer.
pub fn http_outcome(config: &HealthCheckConfig, status: u16) -> (outcome: HealthCheckOutcome)
    ensures
        ({
            let finding = http_finding(config.expected_status, status);
            is_outcome(outcome, finding.0, finding.1)
        }),
{
    let number = natural_text(status as u64);
    if status == config.expected_status {
        HealthCheckOutcome {
            healthy: true,
            message: "HTTP 健康检查通过: ".to_owned().concat(number.as_str()),
        }
    } else {
        HealthCheckOutcome {
            healthy: false,
            message: "HTTP 健康检查失败: 返回 ".to_owned().concat(number.as_str()).concat(
                "，期望 ",
            ).concat(natural_text(config.expected_status as u64).as_str()),
        }
    }
}

/// What came of a connection over TCP.
#[derive(Clone, Debug)]
pub enum TcpAttempt {
    Connected,
    Failed(String),
    TimedOut,
}

/// What is found by a connection over TCP.
pub open spec fn tcp_finding(endpoint: Seq<char>, attempt: TcpAttempt) -> (bool, Seq<char>) {
    match attempt {
        TcpAttempt::Connected => (true, "TCP 健康检查通过: "@ + endpoint),
        TcpAttempt::Failed(reason) => (
            false,
            "TCP 健康检查失败: "@ + endpoint + ": "@ + reason@,
        ),
        TcpAttempt::TimedOut => (false, "TCP 健康检查超时: "@ + endpoint),
    }
}

/// The outcome of a connection over TCP.
pub fn tcp_outcome(endpoint: &str, attempt: TcpAttempt) -> (outcome: HealthCheckOutcome)
    ensures
        ({
            let finding = tcp_finding(endpoint@, attempt);
            is_outcome(outcome, finding.0, finding.1)
        }),
{
    match attempt {
        TcpAttempt::Connected => HealthCheckOutcome {
            healthy: true,
            message: "TCP 健康检查通过: ".to_owned().concat(endpoint),
        },
        TcpAttempt::Failed(reason) => HealthCheckOutcome {
            healthy: false,
            message: "TCP 健康检查失败: ".to_owned().concat(endpoint).concat(": ").concat(
                reason.as_str(),
            ),
        },
        TcpAttempt::TimedOut => HealthCheckOutcome {
            healthy: false,
            message: "TCP 健康检查超时: ".to_owned().concat(endpoint),
        },
    }
}

/// The line of a listing of containers that stands for a container.
pub open spec fn is_container_line(line: Seq<char>) -> bool {
    let text = trimmed(line);
    text.len() > 0 && !"NAME"@.is_prefix_of(text) && !"time=\""@.is_prefix_of(text)
        && !"---"@.is_prefix_of(text)
}

/// The number of containers in a listing.
pub open spec fn container_count(all: Seq<Seq<char>>) -> nat
    decreases all.len(),
{
    if all.len() == 0 {
        0
    } else if is_container_line(all.last()) {
        container_count(all.drop_last()) + 1
    } else {
        container_count(all.drop_last())
    }
}

fn count_containers(output: &str) -> (count: usize)
    ensures
        count == container_count(lines(output@)),
{
    let all = split_lines(output);
    let ghost model = lines(output@);
    let mut count: usize = 0;
    let mut i: usize = 0;
    assert(model.take(0) =~= Seq::empty());
    while i < all.len()
        invariant
            i <= all@.len(),
            texts(all@) == model,
            count <= i,
            count == container_count(model.take(i as int)),
        decreases all@.len() - i,
    {
        assert(model.take(i + 1).drop_last() =~= model.take(i as int));
        assert(model[i as int] == all@[i as int]@);
        let line = trim(all[i].as_str());
        let text = line.as_str();
        if !text.is_empty() && !starts_with(text, "NAME") && !starts_with(text, "time=\"")
            && !starts_with(text, "---") {
            count = count + 1;
        }
        i = i + 1;
    }
    assert(model.len() == all@.len());
    assert(model.take(i as int) =~= model);
    count
}

/// The lines that hold something, trimmed.
pub open spec fn filled_lines(all: Seq<Seq<char>>) -> Seq<Seq<char>>
    decreases all.len(),
{
    if all.len() == 0 {
        all
    } else if is_blank(all.last()) {
        filled_lines(all.drop_last())
    } else {
        filled_lines(all.drop_last()).push(trimmed(all.last()))
    }
}

/// At most the first three of the lines.
pub open spec fn first_three(all: Seq<Seq<char>>) -> Seq<Seq<char>> {
    if all.len() > 3 {
        all.take(3)
    } else {
        all
    }
}

/// The first three lines of an output that hold something, or another text where there are none.
pub open spec fn summary(output: Seq<char>, fallback: Seq<char>) -> Seq<char> {
    let filled = filled_lines(lines(output));
    if filled.len() == 0 {
        fallback
    } else {
        joined(first_three(filled), "；"@)
    }
}

pub fn output_summary(output: &str, fallback: &str) -> (text: String)
    ensures
        text@ == summary(output@, fallback@),
{
    let all = split_lines(output);
    let ghost model = lines(output@);
    let mut filled: Vec<String> = Vec::new();
    let mut i: usize = 0;
    assert(model.take(0) =~= Seq::empty());
    assert(texts(filled@) =~= Seq::empty());
    while i < all.len()
        invariant
            i <= all@.len(),
            texts(all@) == model,
            texts(filled@) == filled_lines(model.take(i as int)),
        decreases all@.len() - i,
    {
        assert(model.take(i + 1).drop_last() =~= model.take(i as int));
        assert(model[i as int] == all@[i as int]@);
        let line = trim(all[i].as_str());
        if !line.as_str().is_empty() {
            proof {
                lemma_texts_push(filled@, line);
            }
            filled.push(line);
        }
        i = i + 1;
    }
    assert(model.len() == all@.len());
    assert(model.take(i as int) =~= model);
    if filled.len() == 0 {
        return fallback.to_owned();
    }
    let ghost everything = texts(filled@);
    if filled.len() > 3 {
        filled.truncate(3);
        assert(texts(filled@) =~= everything.take(3));
    }
    join(&filled, "；")
}

/// What is found by a listing of the running containers.
pub open spec fn compose_finding(success: bool, output: Seq<char>) -> (bool, Seq<char>) {
    let count = container_count(lines(output));
    if !success {
        (false, summary(output, "docker compose ps 返回失败"@))
    } else if count > 0 {
        (true, "容器运行状态检查通过: "@ + decimal(count) + " 个运行中容器"@)
    } else {
        (false, "容器运行状态检查失败: 未发现运行中容器"@)
    }
}

/// The outcome of a listing of the running containers.
pub fn compose_outcome(output: &ComposeCommandOutput) -> (outcome: HealthCheckOutcome)
    ensures
        ({
            let finding = compose_finding(output.success, output.output@);
            is_outcome(outcome, finding.0, finding.1)
        }),
{
    if !output.success {
        return HealthCheckOutcome {
            healthy: false,
            message: output_summary(output.output.as_str(), "docker compose ps 返回失败"),
        };
    }
    let count = count_containers(output.output.as_str());
    if count > 0 {
        HealthCheckOutcome {
            healthy: true,
            message: "容器运行状态检查通过: ".to_owned().concat(
                natural_text(count as u64).as_str(),
            ).concat(" 个运行中容器"),
        }
    } else {
        HealthCheckOutcome {
            healthy: false,
            message: "容器运行状态检查失败: 未发现运行中容器".to_owned(),
        }
    }
}

/// What is found by a question about a unit of systemd.
pub open spec fn systemd_finding(unit: Seq<char>, success: bool, output: Seq<char>) -> (
    bool,
    Seq<char>,
) {
    if success && trimmed(output) == "active"@ {
        (true, "systemd active 检查通过: "@ + unit)
    } else {
        (false, summary(output, "systemd active 检查失败: "@ + unit))
    }
}

/// The outcome of a question about a unit of systemd.
pub fn systemd_outcome(config: &HealthCheckConfig, output: &ComposeCommandOutput) -> (outcome:
    HealthCheckOutcome)
    ensures
        ({
            let finding = systemd_finding(config.endpoint@, output.success, output.output@);
            is_outcome(outcome, finding.0, finding.1)
        }),
{
    if output.success && same_text(trim(output.output.as_str()).as_str(), "active") {
        HealthCheckOutcome {
            healthy: true,
            message: "systemd active 检查通过: ".to_owned().concat(config.endpoint.as_str()),
        }
    } else {
        let fallback = "systemd active 检查失败: ".to_owned().concat(config.endpoint.as_str());
        HealthCheckOutcome {
            healthy: false,
            message: output_summary(output.output.as_str(), fallback.as_str()),
        }
    }
}

// ---------------------------------------------------------------------------
// Laws
// ---------------------------------------------------------------------------

/// The name of a kind leads back to the kind.
pub proof fn kind_names_are_distinct(kind: HealthCheckKind)
    ensures
        kind_of(kind.name()) == Some(kind),
{
    reveal_strlit("none");
    reveal_strlit("http");
    reveal_strlit("tcp");
    reveal_strlit("compose_running");
    reveal_strlit("systemd_active");
    assert("none"@[0] != "http"@[0]);
    assert("none"@.len() == 4);
    assert("http"@.len() == 4);
    assert("tcp"@.len() == 3);
    assert("compose_running"@.len() == 15);
    assert("systemd_active"@.len() == 14);
}

/// The line is empty but for white space, or it begins, after white space, as a heading, a warning
/// or a rule of a listing does.
pub open spec fn shows_no_container(line: Seq<char>) -> bool {
    trimmed(line) == Seq::<char>::empty() || stands_at(trimmed(line), seq!['N', 'A', 'M', 'E'], 0)
        || stands_at(trimmed(line), seq!['t', 'i', 'm', 'e', '=', '"'], 0) || stands_at(
        trimmed(line),
        seq!['-', '-', '-'],
        0,
    )
}

proof fn lemma_begins(text: Seq<char>, start: Seq<char>)
    ensures
        stands_at(text, start, 0) <==> start.is_prefix_of(text),
{
}

/// Each further line of a listing counts as one container, unless it is blank or begins with `NAME`,
/// `time="` or `---`.
pub proof fn containers_are_counted_by_lines(all: Seq<Seq<char>>, line: Seq<char>)
    ensures
        container_count(Seq::empty()) == 0,
        container_count(all.push(line)) == container_count(all) + (if shows_no_container(line) {
            0nat
        } else {
            1
        }),
{
    reveal_strlit("NAME");
    reveal_strlit("time=\"");
    reveal_strlit("---");
    assert("NAME"@ =~= seq!['N', 'A', 'M', 'E']);
    assert("time=\""@ =~= seq!['t', 'i', 'm', 'e', '=', '"']);
    assert("---"@ =~= seq!['-', '-', '-']);
    lemma_begins(trimmed(line), "NAME"@);
    lemma_begins(trimmed(line), "time=\""@);
    lemma_begins(trimmed(line), "---"@);
    if trimmed(line).len() == 0 {
        assert(trimmed(line) =~= Seq::empty());
    }
    assert(all.push(line).drop_last() =~= all);
}

proof fn lemma_counted(all: Seq<Seq<char>>)
    ensures
        container_count(all) > 0 <==> exists|i: int|
            0 <= i < all.len() && !shows_no_container(#[trigger] all[i]),
        container_count(all) <= all.len(),
    decreases all.len(),
{
    if all.len() > 0 {
        let before = all.drop_last();
        lemma_counted(before);
        containers_are_counted_by_lines(before, all.last());
        assert(all =~= before.push(all.last()));
        if container_count(before) > 0 {
            let i = choose|i: int|
                0 <= i < before.len() && !shows_no_container(#[trigger] before[i]);
            assert(!shows_no_container(all[i]));
        }
        if exists|i: int| 0 <= i < all.len() && !shows_no_container(#[trigger] all[i]) {
            let i = choose|i: int| 0 <= i < all.len() && !shows_no_container(#[trigger] all[i]);
            if i < before.len() {
                assert(!shows_no_container(before[i]));
            }
        }
    }
}

/// Containers run where the listing succeeded and some line of it is neither blank nor a heading, a
/// warning or a rule.
pub proof fn containers_run_where_a_line_shows_one(success: bool, output: Seq<char>)
    ensures
        compose_finding(success, output).0 <==> success && exists|i: int|
            0 <= i < lines(output).len() && !shows_no_container(#[trigger] lines(output)[i]),
{
    lemma_counted(lines(output));
}

/// An answer over HTTP is healthy exactly if it has the status that is expected, and the message
/// names the status.
pub proof fn expected_answers_are_healthy(expected: u16, status: u16)
    ensures
        http_finding(expected, status).0 <==> status == expected,
        holds(http_finding(expected, status).1, decimal(status as nat)),
        holds(http_finding(expected, status).1, decimal(expected as nat)),
{
    let message = http_finding(expected, status).1;
    let s = decimal(status as nat);
    let e = decimal(expected as nat);
    if status == expected {
        let start = "HTTP 健康检查通过: "@;
        assert(message.subrange(start.len() as int, message.len() as int) =~= s);
        assert(stands_at(message, s, start.len() as int));
    } else {
        let start = "HTTP 健康检查失败: 返回 "@;
        let middle = "，期望 "@;
        assert(message.subrange(start.len() as int, (start + s).len() as int) =~= s);
        assert(stands_at(message, s, start.len() as int));
        let at = (start + s + middle).len() as int;
        assert(message.subrange(at, message.len() as int) =~= e);
        assert(stands_at(message, e, at));
    }
}

/// A service that listens is healthy, one that refuses or does not answer in time is not, and the
/// message names where it was looked for.
pub proof fn listening_services_are_healthy(endpoint: Seq<char>, attempt: TcpAttempt)
    ensures
        tcp_finding(endpoint, attempt).0 <==> attempt is Connected,
        holds(tcp_finding(endpoint, attempt).1, endpoint),
        attempt is Failed ==> attempt->Failed_0@.is_suffix_of(tcp_finding(endpoint, attempt).1),
{
    let message = tcp_finding(endpoint, attempt).1;
    let start = match attempt {
        TcpAttempt::Connected => "TCP 健康检查通过: "@,
        TcpAttempt::Failed(reason) => "TCP 健康检查失败: "@,
        TcpAttempt::TimedOut => "TCP 健康检查超时: "@,
    };
    let at = start.len() as int;
    assert(message.subrange(at, at + endpoint.len()) =~= endpoint);
    assert(stands_at(message, endpoint, at));
    if attempt is Failed {
        let reason = attempt->Failed_0@;
        assert(message.subrange(message.len() - reason.len(), message.len() as int) =~= reason);
    }
}

/// A unit of systemd is healthy exactly if the question succeeded and was answered, but for white
/// space, with `active`.
pub proof fn active_units_are_healthy(unit: Seq<char>, success: bool, output: Seq<char>)
    ensures
        systemd_finding(unit, success, output).0 <==> success && trimmed(output) == seq![
            'a',
            'c',
            't',
            'i',
            'v',
            'e',
        ],
{
    reveal_strlit("active");
    assert("active"@ =~= seq!['a', 'c', 't', 'i', 'v', 'e']);
}

/// A check waits from one second to a minute and expects a status from 100 to 599; what is given
/// within these limits is kept.
pub proof fn limits_of_checks_are_kept(
    config: HealthCheckConfig,
    kind: HealthCheckKind,
    endpoint: Seq<char>,
    timeout_secs: i64,
    expected_status: i64,
)
    requires
        is_config(config, kind, endpoint, timeout_secs, expected_status),
    ensures
        1 <= config.timeout_secs <= 60,
        1 <= timeout_secs <= 60 ==> config.timeout_secs == timeout_secs,
        timeout_secs < 1 ==> config.timeout_secs == 1,
        timeout_secs > 60 ==> config.timeout_secs == 60,
        100 <= config.expected_status <= 599,
        100 <= expected_status <= 599 ==> config.expected_status == expected_status,
        expected_status < 100 ==> config.expected_status == 100,
        expected_status > 599 ==> config.expected_status == 599,
        kind is Http || kind is Tcp || kind is SystemdActive ==> config.endpoint@ == trimmed(
            endpoint,
        ),
        kind is NoCheck || kind is ComposeRunning ==> config.endpoint@.len() == 0,
{
}

/// Which addresses are refused: those of systemd that are empty, those of HTTP that are no URL or
/// one of another scheme, and those of TCP without a host or a port.
pub proof fn addresses_fit_their_checks(
    kind: HealthCheckKind,
    endpoint: Seq<char>,
    url: Option<(Seq<char>, Option<Seq<char>>)>,
)
    ensures
        kind is NoCheck || kind is ComposeRunning ==> endpoint_fault(kind, endpoint, url) is None,
        kind is SystemdActive ==> (endpoint_fault(kind, endpoint, url) is None <==> endpoint.len()
            > 0),
        kind is Http ==> (endpoint_fault(kind, endpoint, url) is None <==> match url {
            Some((scheme, host)) => scheme == seq!['h', 't', 't', 'p'] || scheme == seq![
                'h',
                't',
                't',
                'p',
                's',
            ],
            None => false,
        }),
        kind is Tcp ==> (endpoint_fault(kind, endpoint, url) is None <==> tcp_address(
            endpoint,
        ) is Ok),
{
    reveal_strlit("http");
    reveal_strlit("https");
    assert("http"@ =~= seq!['h', 't', 't', 'p']);
    assert("https"@ =~= seq!['h', 't', 't', 'p', 's']);
}

/// A host without a colon and a port make an address over TCP, however much white space surrounds
/// them; a text without a colon makes none.
pub proof fn hosts_and_ports_are_addresses(host: Seq<char>, port: u16, text: Seq<char>)
    requires
        !is_blank(host),
        !CharClass::White.has(host[0]),
        !CharClass::White.has(host.last()),
        forall|i: int| 0 <= i < text.len() ==> text[i] != ':',
    ensures
        tcp_address(host + seq![':'] + decimal(port as nat)) == Ok::<Seq<char>, HealthFault>(
            host + seq![':'] + decimal(port as nat),
        ),
        tcp_address(text) is Err,
{
    let digits = decimal(port as nat);
    let whole = host + seq![':'] + digits;
    crate::decimal::decimal_reads_back(port as nat, u16::MAX as nat);
    lemma_digits_are_visible(port as nat);
    assert(host.len() > 0) by {
        if host.len() == 0 {
            assert(trimmed(host) =~= host);
        }
    }
    crate::text::trimmed_keeps(whole, CharClass::White);
    crate::text::trimmed_keeps(host, CharClass::White);
    crate::text::trimmed_keeps(digits, CharClass::White);
    crate::pieces::lemma_last_of(whole, CharClass::Colon);
    let at = crate::pieces::last_of(whole, CharClass::Colon);
    assert(CharClass::Colon.has(whole[host.len() as int]));
    if at > host.len() {
        assert(whole[at] == digits[at - host.len() - 1]);
        assert('0' <= digits[at - host.len() - 1] <= '9');
    }
    assert(whole.take(at) =~= host);
    assert(whole.skip(at + 1) =~= digits);
    reveal_strlit(":");
    assert(":"@ =~= seq![':']);
    let bare = trimmed(text);
    crate::pieces::lemma_last_of(bare, CharClass::Colon);
    let colon = crate::pieces::last_of(bare, CharClass::Colon);
    if colon >= 0 {
        crate::text::trimmed_is_part(text, CharClass::White, colon);
    }
}

proof fn lemma_digits_are_visible(n: nat)
    ensures
        decimal(n).len() > 0,
        forall|i: int| 0 <= i < decimal(n).len() ==> '0' <= #[trigger] decimal(n)[i] <= '9',
    decreases n,
{
    if n >= 10 {
        lemma_digits_are_visible(n / 10);
    }
}

/// The summary of an output is made of at most three of its lines, the first that hold something,
/// without white space around them.
pub proof fn summaries_are_short(output: Seq<char>, fallback: Seq<char>)
    ensures
        first_three(filled_lines(lines(output))).len() <= 3,
        filled_lines(lines(output)).len() >= 3 ==> first_three(filled_lines(lines(output))).len()
            == 3,
        forall|i: int|
            0 <= i < filled_lines(lines(output)).len() ==> (
            #[trigger] filled_lines(lines(output))[i]).len() > 0,
        (forall|i: int| 0 <= i < lines(output).len() ==> is_blank(#[trigger] lines(output)[i]))
            ==> summary(output, fallback) == fallback,
        lines(output).len() == 1 && !is_blank(lines(output)[0]) ==> summary(output, fallback)
            == trimmed(lines(output)[0]),
{
    lemma_filled(lines(output));
    if lines(output).len() == 1 && !is_blank(lines(output)[0]) {
        let all = lines(output);
        assert(all.drop_last() =~= Seq::empty());
        reveal_with_fuel(filled_lines, 2);
        assert(filled_lines(all) =~= seq![trimmed(all[0])]);
    }
}

proof fn lemma_filled(all: Seq<Seq<char>>)
    ensures
        forall|i: int| 0 <= i < filled_lines(all).len() ==> (#[trigger] filled_lines(all)[i]).len()
            > 0,
        (forall|i: int| 0 <= i < all.len() ==> is_blank(#[trigger] all[i])) ==> filled_lines(
            all,
        ).len() == 0,
    decreases all.len(),
{
    if all.len() > 0 {
        let before = filled_lines(all.drop_last());
        lemma_filled(all.drop_last());
        assert forall|i: int| 0 <= i < filled_lines(all).len() implies (
        #[trigger] filled_lines(all)[i]).len() > 0 by {
            if i < before.len() {
                assert(before[i].len() > 0);
            }
        }
        if forall|i: int| 0 <= i < all.len() ==> is_blank(#[trigger] all[i]) {
            assert forall|i: int| 0 <= i < all.drop_last().len() implies is_blank(
                #[trigger] all.drop_last()[i],
            ) by {
                assert(is_blank(all[i]));
            }
            assert(is_blank(all[all.len() - 1]));
        }
    }
}

/// Checks are known by their names.
pub proof fn checks_are_known_by_their_names(name: Seq<char>)
    ensures
        kind_of(name) == Some(HealthCheckKind::NoCheck) <==> name == "none"@,
        kind_of(name) == Some(HealthCheckKind::Http) <==> name == "http"@,
        kind_of(name) == Some(HealthCheckKind::Tcp) <==> name == "tcp"@,
        kind_of(name) == Some(HealthCheckKind::ComposeRunning) <==> name == "compose_running"@,
        kind_of(name) == Some(HealthCheckKind::SystemdActive) <==> name == "systemd_active"@,
{
    reveal_strlit("none");
    reveal_strlit("http");
    reveal_strlit("tcp");
    reveal_strlit("compose_running");
    reveal_strlit("systemd_active");
    assert("none"@.len() == 4);
    assert("http"@.len() == 4);
    assert("tcp"@.len() == 3);
    assert("compose_running"@.len() == 15);
    assert("systemd_active"@.len() == 14);
    assert("none"@[0] == 'n');
    assert("http"@[0] == 'h');
}

} // verus!
