//! The execution of a prepared unit on one node: its steps in order, the commands they run, and
//! what each of their outcomes leads to.

use vstd::prelude::*;

use super::environment::{execution_environment, platform_variables};
use super::error::{
    from_deploy_fault, runtime_fault, runtime_outcome, validation, DeploymentRuntimeError,
    RuntimeFault, UnitNodeExecutionResult,
};
use super::unit::{
    has_script, has_script_for, DeploymentTargetNode, ScriptSlot, UnitExecutionSpec,
    UnitHealthCheck,
};
use crate::decimal::{decimal, natural_text};
use crate::deploy::commands::{
    accepted_env, command_outcome, docker_line, env_views, script_command, CommandLine,
    CommandSpec, ComposeCommandOutput, ComposeExecutor,
};
use crate::deploy::inputs::{health_endpoint, remote_path, script_path, tcp_endpoint, DeployFault};
use crate::deploy::ssh::{
    bounded_seconds, remote_compose, remote_script, ssh_line, target_of, SshExecutor, SshTarget,
    TargetState,
};
use crate::deployment_orchestrator::DeploymentAction;
use crate::health::{
    endpoint_fault, is_config, kind_of, normalize_health_config, HealthCheckConfig,
    HealthCheckKind, HealthCheckOutcome, HealthError,
};
use crate::order::{is_sorted_from, sort_ranked, text_before, text_less, Ranking};
use crate::pieces::{
    cut_last, cut_to, first_chars, join, joined, lines, option_text, pieces, replace, replaced,
    split, split_last, split_lines, stands_at, starts_with,
};
use crate::text::{
    blank, chars_of, is_blank, lemma_texts_push, same_text, texts, trim, trim_end_of, trimmed,
    trimmed_end, CharClass,
};
use crate::urls::url_parts;

verus! {

// ---------------------------------------------------------------------------
// Summaries
// ---------------------------------------------------------------------------

/// The first line that is not blank, where there is one.
pub open spec fn first_filled(all: Seq<Seq<char>>) -> Option<Seq<char>>
    decreases all.len(),
{
    if all.len() == 0 {
        None
    } else if !is_blank(all[0]) {
        Some(all[0])
    } else {
        first_filled(all.drop_first())
    }
}

/// What a summary shows of the output of a command: the start of its first line that is not
/// blank, or else the fallback.
pub open spec fn summary_of(output: Seq<char>, fallback: Seq<char>) -> Seq<char> {
    match first_filled(lines(output)) {
        Some(line) => cut_to(line, 500),
        None => fallback,
    }
}

pub fn command_summary(output: &ComposeCommandOutput, fallback: &str) -> (summary: String)
    ensures
        summary@ == summary_of(output.output@, fallback@),
{
    let all = split_lines(output.output.as_str());
    let ghost model = texts(all@);
    let mut i: usize = 0;
    assert(model.skip(0) =~= model);
    while i < all.len()
        invariant
            i <= all@.len(),
            model == texts(all@),
            model == lines(output.output@),
            first_filled(model.skip(i as int)) == first_filled(model),
        decreases all@.len() - i,
    {
        assert(model.skip(i as int).drop_first() =~= model.skip(i + 1));
        assert(model.skip(i as int)[0] == all@[i as int]@);
        if !blank(all[i].as_str()) {
            return first_chars(all[i].as_str(), 500);
        }
        i = i + 1;
    }
    fallback.to_owned()
}

/// The result of a command that is the only step.
pub fn result_from_output(output: &ComposeCommandOutput, success_message: &str) -> (result:
    UnitNodeExecutionResult)
    ensures
        result.success == output.success,
        result.summary@ == (if output.success {
            success_message@
        } else {
            summary_of(output.output@, "Docker Compose 命令失败"@)
        }),
{
    let summary = if output.success {
        success_message.to_owned()
    } else {
        command_summary(output, "Docker Compose 命令失败")
    };
    UnitNodeExecutionResult { success: output.success, summary }
}

// ---------------------------------------------------------------------------
// The target
// ---------------------------------------------------------------------------

/// A path that means the root directory.
pub open spec fn is_root_path(path: Seq<char>) -> bool {
    forall|i: int|
        0 <= i < pieces(path, CharClass::Slash).len() ==> {
            let piece = #[trigger] pieces(path, CharClass::Slash)[i];
            piece.len() == 0 || piece == "."@
        }
}

/// The directory that a unit runs in: an absolute path below the root directory.
pub open spec fn target_directory(work_dir: Seq<char>) -> Result<Seq<char>, RuntimeFault> {
    let path = trimmed(work_dir);
    if path.len() == 0 || path[0] != '/' || is_root_path(path) {
        Err(
            RuntimeFault::Validation("deployment unit work_dir must be a non-root absolute path"@),
        )
    } else {
        Ok(trimmed_end(path, CharClass::PathSeparator))
    }
}

fn root_path(path: &str) -> (root: bool)
    ensures
        root == is_root_path(path@),
{
    let parts = split(path, CharClass::Slash);
    let ghost model = texts(parts@);
    let mut i: usize = 0;
    while i < parts.len()
        invariant
            i <= parts@.len(),
            model == texts(parts@),
            model == pieces(path@, CharClass::Slash),
            forall|k: int|
                0 <= k < i ==> {
                    let piece = #[trigger] model[k];
                    piece.len() == 0 || piece == "."@
                },
        decreases parts@.len() - i,
    {
        assert(model[i as int] == parts@[i as int]@);
        if !parts[i].as_str().is_empty() && !same_text(parts[i].as_str(), ".") {
            return false;
        }
        i = i + 1;
    }
    true
}

pub fn validated_target_work_dir(work_dir: &str) -> (result: Result<
    String,
    DeploymentRuntimeError,
>)
    ensures
        runtime_outcome(result) == target_directory(work_dir@),
{
    let path = trim(work_dir);
    let chars = chars_of(path.as_str());
    if chars.len() == 0 || chars[0] != '/' || root_path(path.as_str()) {
        return Err(validation("deployment unit work_dir must be a non-root absolute path"));
    }
    Ok(trim_end_of(path.as_str(), CharClass::PathSeparator))
}

/// The account that a node is reached by; none for this host itself.
pub open spec fn node_account(node: DeploymentTargetNode) -> Result<
    Option<TargetState>,
    RuntimeFault,
> {
    if node.node_type@ == "ssh"@ {
        match target_of(node.ssh_user@, node.address@, node.ssh_port) {
            Err(fault) => Err(RuntimeFault::Validation(fault.text())),
            Ok(target) => Ok(
                Some(
                    TargetState {
                        identity_file: match option_text(node.credential_private_key_path) {
                            Some(path) => if is_blank(path) {
                                None
                            } else {
                                Some(trimmed(path))
                            },
                            None => None,
                        },
                        ..target
                    },
                ),
            ),
        }
    } else if node.node_type@ == "local"@ {
        Ok(None)
    } else {
        Err(
            RuntimeFault::Validation(
                "unsupported deployment node type "@ + node.node_type@,
            ),
        )
    }
}

/// A target as a mathematical value, where there is one.
pub open spec fn target_view(target: Option<SshTarget>) -> Option<TargetState> {
    match target {
        Some(target) => Some(target@),
        None => None,
    }
}

pub fn node_target(node: &DeploymentTargetNode) -> (result: Result<
    Option<SshTarget>,
    DeploymentRuntimeError,
>)
    ensures
        match result {
            Ok(target) => node_account(*node) == Ok::<Option<TargetState>, RuntimeFault>(
                target_view(target),
            ),
            Err(error) => node_account(*node) == Err::<Option<TargetState>, RuntimeFault>(error@),
        },
{
    if same_text(node.node_type.as_str(), "ssh") {
        match SshTarget::new(node.ssh_user.as_str(), node.address.as_str(), node.ssh_port) {
            Err(error) => Err(validation(error.message())),
            Ok(target) => {
                let identity = match &node.credential_private_key_path {
                    Some(path) => Some(trim(path.as_str())),
                    None => None,
                };
                Ok(Some(target.with_identity_file(identity)))
            },
        }
    } else if same_text(node.node_type.as_str(), "local") {
        Ok(None)
    } else {
        Err(
            validation(
                "unsupported deployment node type ".to_owned().concat(
                    node.node_type.as_str(),
                ).as_str(),
            ),
        )
    }
}

// ---------------------------------------------------------------------------
// Bringing the files to a node
// ---------------------------------------------------------------------------

/// Files in the order of their paths below the directory that they are collected from.
pub struct ByRelativePath;

impl Ranking<(String, String)> for ByRelativePath {
    open spec fn ranks_before(left: (String, String), right: (String, String)) -> bool {
        text_before(left.1@, right.1@)
    }

    proof fn ranking_is_order(a: (String, String), b: (String, String), c: (String, String)) {
        crate::order::text_order_is_strict(a.1@, b.1@);
        crate::order::text_order_is_strict(a.1@, a.1@);
        if text_before(b.1@, a.1@) {
        }
        if text_before(a.1@, b.1@) && text_before(b.1@, c.1@) {
            crate::order::text_order_is_transitive(a.1@, b.1@, c.1@);
        }
        crate::order::text_order_is_strict(b.1@, c.1@);
        crate::order::text_order_is_strict(a.1@, c.1@);
        if text_before(c.1@, a.1@) && text_before(a.1@, b.1@) {
            crate::order::text_order_is_transitive(c.1@, a.1@, b.1@);
        }
        if text_before(b.1@, c.1@) && text_before(c.1@, a.1@) {
            crate::order::text_order_is_transitive(b.1@, c.1@, a.1@);
        }
    }

    fn comes_before(left: &(String, String), right: &(String, String)) -> (before: bool) {
        text_less(left.1.as_str(), right.1.as_str())
    }
}

/// The collected files, each with its relative path, in the order in which they are copied.
pub fn sort_runtime_files(files: Vec<(String, String)>) -> (sorted: Vec<(String, String)>)
    ensures
        is_sorted_from::<(String, String), ByRelativePath>(files@, sorted@),
        sorted@.to_multiset() == files@.to_multiset(),
{
    sort_ranked::<(String, String), ByRelativePath>(files)
}

/// The place of a file on another host.
pub open spec fn remote_file(remote_root: Seq<char>, relative_path: Seq<char>) -> Seq<char> {
    remote_root + "/"@ + replaced(relative_path, "\\"@, "/"@)
}

/// The directory that a file stands in, or the root where its path names none.
pub open spec fn directory_of(path: Seq<char>, root: Seq<char>) -> Seq<char> {
    match cut_last(path, CharClass::Slash) {
        Some(parts) => parts.0,
        None => root,
    }
}

/// The place of a file on another host, and its directory.
pub fn remote_file_paths(remote_root: &str, relative_path: &str) -> (paths: (String, String))
    ensures
        paths.0@ == remote_file(remote_root@, relative_path@),
        paths.1@ == directory_of(paths.0@, remote_root@),
{
    proof {
        reveal_strlit("\\");
    }
    let path = remote_root.to_owned().concat("/").concat(
        replace(relative_path, "\\", "/").as_str(),
    );
    let parent = match split_last(path.as_str(), CharClass::Slash) {
        Some(parts) => parts.0,
        None => remote_root.to_owned(),
    };
    (path, parent)
}

/// Goes on after a command that creates a directory or copies a file on another host.
pub fn accept_sync_output(output: &ComposeCommandOutput, copying: bool) -> (result: Result<
    (),
    DeploymentRuntimeError,
>)
    ensures
        runtime_fault(result) == (if output.success {
            None
        } else {
            Some(
                RuntimeFault::Validation(
                    summary_of(
                        output.output@,
                        if copying {
                            "SSH 同步部署文件失败"@
                        } else {
                            "SSH 创建部署目录失败"@
                        },
                    ),
                ),
            )
        }),
{
    if output.success {
        return Ok(());
    }
    let summary = if copying {
        command_summary(output, "SSH 同步部署文件失败")
    } else {
        command_summary(output, "SSH 创建部署目录失败")
    };
    Err(validation(summary.as_str()))
}

// ---------------------------------------------------------------------------
// Commands
// ---------------------------------------------------------------------------

/// A command or an error as a mathematical value.
pub open spec fn runtime_command(result: Result<CommandSpec, DeploymentRuntimeError>) -> Result<
    CommandLine,
    RuntimeFault,
> {
    match result {
        Ok(command) => Ok(command@),
        Err(error) => Err(error@),
    }
}

/// What the outcome of building a command means for an execution.
pub open spec fn from_command(result: Result<CommandLine, DeployFault>) -> Result<
    CommandLine,
    RuntimeFault,
> {
    match result {
        Ok(command) => Ok(command),
        Err(fault) => Err(from_deploy_fault(fault)),
    }
}

fn mapped(result: Result<CommandSpec, crate::deploy::inputs::DeployError>) -> (command: Result<
    CommandSpec,
    DeploymentRuntimeError,
>)
    ensures
        runtime_command(command) == from_command(command_outcome(result)),
{
    match result {
        Ok(command) => Ok(command),
        Err(error) => Err(DeploymentRuntimeError::from_deploy(error)),
    }
}

/// The command of Compose for an action: everything but a stop brings the services up.
pub open spec fn action_line(
    action: DeploymentAction,
    root: Seq<char>,
    target: Option<TargetState>,
    known_hosts: Option<Seq<char>>,
    work_dir: Seq<char>,
) -> Result<CommandLine, RuntimeFault> {
    match target {
        Some(account) => from_command(
            remote_compose(
                known_hosts,
                account,
                work_dir,
                if action == DeploymentAction::Stop {
                    seq!["down"@]
                } else {
                    seq!["up"@, "-d"@, "--remove-orphans"@]
                },
                root,
            ),
        ),
        None => Ok(
            docker_line(
                if action == DeploymentAction::Stop {
                    seq!["compose"@, "down"@]
                } else {
                    seq!["compose"@, "up"@, "-d"@, "--remove-orphans"@]
                },
                work_dir,
            ),
        ),
    }
}

pub fn run_compose_action(
    action: DeploymentAction,
    root: &str,
    target: &Option<SshTarget>,
    ssh: &SshExecutor,
    work_dir: &str,
) -> (result: Result<CommandSpec, DeploymentRuntimeError>)
    ensures
        runtime_command(result) == action_line(
            action,
            root@,
            target_view(*target),
            ssh.known_hosts(),
            work_dir@,
        ),
{
    match target {
        Some(target) => {
            if action == DeploymentAction::Stop {
                mapped(ssh.compose_down(target, root, work_dir))
            } else {
                mapped(ssh.compose_up(target, root, work_dir))
            }
        },
        None => {
            if action == DeploymentAction::Stop {
                Ok(ComposeExecutor::down(work_dir))
            } else {
                Ok(ComposeExecutor::up(work_dir))
            }
        },
    }
}

/// The path of the script of a slot below the directory of a unit.
pub open spec fn slot_path(slot: ScriptSlot) -> Seq<char> {
    ".easy-deploy/scripts/"@ + slot.file()
}

pub fn script_relative_path(slot: ScriptSlot) -> (path: String)
    ensures
        path@ == slot_path(slot),
{
    ".easy-deploy/scripts/".to_owned().concat(slot.file_name())
}

/// The command that runs the script of a slot, given whether the directory and the script are
/// there, where that is seen from this host.
pub open spec fn script_line(
    slot: ScriptSlot,
    root: Seq<char>,
    target: Option<TargetState>,
    known_hosts: Option<Seq<char>>,
    work_dir: Seq<char>,
    env: Seq<(Seq<char>, Seq<char>)>,
    directory_exists: bool,
    script_exists: bool,
) -> Result<CommandLine, RuntimeFault> {
    match target {
        Some(account) => from_command(
            match remote_path(work_dir) {
                Err(fault) => Err(fault),
                Ok(directory) => match script_path(slot_path(slot)) {
                    Err(fault) => Err(fault),
                    Ok(script) => match accepted_env(env) {
                        Err(fault) => Err(fault),
                        Ok(pairs) => Ok(
                            ssh_line(
                                known_hosts,
                                account,
                                seq!["sh"@, "-lc"@, remote_script(directory, script, pairs)],
                                root,
                            ),
                        ),
                    },
                },
            },
        ),
        None => from_command(
            script_command(work_dir, directory_exists, slot_path(slot), script_exists, env),
        ),
    }
}

pub fn run_script(
    slot: ScriptSlot,
    root: &str,
    target: &Option<SshTarget>,
    ssh: &SshExecutor,
    work_dir: &str,
    env: &Vec<(String, String)>,
    directory_exists: bool,
    script_exists: bool,
) -> (result: Result<CommandSpec, DeploymentRuntimeError>)
    ensures
        runtime_command(result) == script_line(
            slot,
            root@,
            target_view(*target),
            ssh.known_hosts(),
            work_dir@,
            env_views(env@),
            directory_exists,
            script_exists,
        ),
{
    let path = script_relative_path(slot);
    match target {
        Some(target) => mapped(
            ssh.run_script(target, root, work_dir, path.as_str(), env.as_slice()),
        ),
        None => mapped(
            ComposeExecutor::run_script(
                work_dir,
                directory_exists,
                path.as_str(),
                script_exists,
                env.as_slice(),
            ),
        ),
    }
}

/// The version of the release that is deployed, empty where there is none.
pub open spec fn deployed_version(spec: UnitExecutionSpec) -> Seq<char> {
    match spec.release {
        Some(release) => release.version@,
        None => Seq::empty(),
    }
}

/// The variables that the scripts of a unit get.
pub fn unit_environment(spec: &UnitExecutionSpec) -> (env: Vec<(String, String)>)
    ensures
        env_views(env@) == env_views(spec.environment_variables@) + platform_variables(
            spec.app_key@,
            spec.environment_key@,
            spec.unit_key@,
            deployed_version(*spec),
        ),
{
    let version = match &spec.release {
        Some(release) => release.version.clone(),
        None => String::new(),
    };
    execution_environment(
        &spec.environment_variables,
        spec.app_key.as_str(),
        spec.environment_key.as_str(),
        spec.unit_key.as_str(),
        version.as_str(),
    )
}

// ---------------------------------------------------------------------------
// Health
// ---------------------------------------------------------------------------

/// The text, or the fallback where there is none.
pub open spec fn text_or(text: Option<String>, fallback: Seq<char>) -> Seq<char> {
    match text {
        Some(text) => text@,
        None => fallback,
    }
}

pub open spec fn number_or(number: Option<i64>, fallback: i64) -> i64 {
    match number {
        Some(number) => number,
        None => fallback,
    }
}

/// The configuration of the health check of a unit: what it does not say has its usual value.
pub fn normalized_unit_health_check(check: &UnitHealthCheck) -> (result: Result<
    HealthCheckConfig,
    DeploymentRuntimeError,
>)
    ensures
        ({
            let endpoint = text_or(check.endpoint, Seq::empty());
            match kind_of(text_or(check.kind, "none"@)) {
                None => result is Err && result->Err_0@ == RuntimeFault::Validation(
                    "健康检查类型无效"@,
                ),
                Some(kind) => {
                    let fault = endpoint_fault(
                        kind,
                        trimmed(endpoint),
                        url_parts(trimmed(endpoint)),
                    );
                    match result {
                        Ok(config) => fault is None && is_config(
                            config,
                            kind,
                            endpoint,
                            number_or(check.timeout_secs, 5),
                            number_or(check.expected_status, 200),
                        ),
                        Err(error) => fault is Some && error@ == RuntimeFault::Validation(
                            fault->0.text(),
                        ),
                    }
                },
            }
        }),
{
    let kind = match &check.kind {
        Some(kind) => kind.clone(),
        None => "none".to_owned(),
    };
    let endpoint = match &check.endpoint {
        Some(endpoint) => endpoint.clone(),
        None => String::new(),
    };
    let timeout: i64 = match check.timeout_secs {
        Some(seconds) => seconds,
        None => 5,
    };
    let status: i64 = match check.expected_status {
        Some(status) => status,
        None => 200,
    };
    match normalize_health_config(kind.as_str(), endpoint.as_str(), timeout, status) {
        Ok(config) => Ok(config),
        Err(error) => Err(validation(error.message())),
    }
}

/// What a health check on a node found.
#[derive(Debug, Clone)]
pub struct NodeHealthResult {
    pub healthy: bool,
    pub message: String,
}

/// How the health of a unit on a node is found out.
pub enum NodeHealthCheck {
    /// Nothing is checked.
    Known(NodeHealthResult),
    /// A command says it.
    Command(CommandSpec),
    /// An endpoint is asked from this host.
    Endpoint,
}

/// What a health check does, as a mathematical value.
pub enum HealthCheckLine {
    Known(bool, Seq<char>),
    Command(CommandLine),
    Endpoint,
}

impl View for NodeHealthCheck {
    type V = HealthCheckLine;

    open spec fn view(&self) -> HealthCheckLine {
        match self {
            NodeHealthCheck::Known(result) => HealthCheckLine::Known(
                result.healthy,
                result.message@,
            ),
            NodeHealthCheck::Command(command) => HealthCheckLine::Command(command@),
            NodeHealthCheck::Endpoint => HealthCheckLine::Endpoint,
        }
    }
}

pub open spec fn as_health_line(result: Result<CommandLine, RuntimeFault>) -> Result<
    HealthCheckLine,
    RuntimeFault,
> {
    match result {
        Ok(command) => Ok(HealthCheckLine::Command(command)),
        Err(fault) => Err(fault),
    }
}

pub open spec fn health_outcome(result: Result<NodeHealthCheck, DeploymentRuntimeError>) -> Result<
    HealthCheckLine,
    RuntimeFault,
> {
    match result {
        Ok(check) => Ok(check@),
        Err(error) => Err(error@),
    }
}

/// The command that asks an HTTP endpoint from the node.
pub open spec fn http_line(
    config: HealthCheckConfig,
    root: Seq<char>,
    target: TargetState,
    known_hosts: Option<Seq<char>>,
) -> Result<CommandLine, DeployFault> {
    match health_endpoint(config.endpoint@, "HTTP"@) {
        Err(fault) => Err(fault),
        Ok(address) => Ok(
            ssh_line(
                known_hosts,
                target,
                seq![
                    "curl"@,
                    "-sS"@,
                    "-L"@,
                    "-o"@,
                    "/dev/null"@,
                    "-w"@,
                    "%{http_code}"@,
                    "--max-time"@,
                    decimal(bounded_seconds(config.timeout_secs) as nat),
                    "--connect-timeout"@,
                    decimal(bounded_seconds(config.timeout_secs) as nat),
                    address,
                ],
                root,
            ),
        ),
    }
}

/// The command that asks a TCP endpoint from the node.
pub open spec fn tcp_line(
    config: HealthCheckConfig,
    root: Seq<char>,
    target: TargetState,
    known_hosts: Option<Seq<char>>,
) -> Result<CommandLine, DeployFault> {
    match tcp_endpoint(config.endpoint@) {
        Err(fault) => Err(fault),
        Ok(place) => Ok(
            ssh_line(
                known_hosts,
                target,
                seq![
                    "nc"@,
                    "-z"@,
                    "-w"@,
                    decimal(bounded_seconds(config.timeout_secs) as nat),
                    place.0,
                    place.1,
                ],
                root,
            ),
        ),
    }
}

/// How the health of a unit on a node is found out: containers are listed where they run, and an
/// endpoint is asked from the node itself.
pub open spec fn health_line(
    config: HealthCheckConfig,
    root: Seq<char>,
    target: Option<TargetState>,
    known_hosts: Option<Seq<char>>,
    work_dir: Seq<char>,
) -> Result<HealthCheckLine, RuntimeFault> {
    match config.kind {
        HealthCheckKind::ComposeRunning => match target {
            Some(account) => as_health_line(
                from_command(
                    remote_compose(
                        known_hosts,
                        account,
                        work_dir,
                        seq!["ps"@, "--status"@, "running"@],
                        root,
                    ),
                ),
            ),
            None => Ok(
                HealthCheckLine::Command(
                    docker_line(seq!["compose"@, "ps"@, "--status"@, "running"@], work_dir),
                ),
            ),
        },
        HealthCheckKind::NoCheck => Ok(HealthCheckLine::Known(true, "未配置健康检查"@)),
        HealthCheckKind::SystemdActive => Err(
            RuntimeFault::Validation(
                "systemd health checks are not supported for Compose deployment units"@,
            ),
        ),
        HealthCheckKind::Http => match target {
            Some(account) => as_health_line(
                from_command(http_line(config, root, account, known_hosts)),
            ),
            None => Ok(HealthCheckLine::Endpoint),
        },
        HealthCheckKind::Tcp => match target {
            Some(account) => as_health_line(
                from_command(tcp_line(config, root, account, known_hosts)),
            ),
            None => Ok(HealthCheckLine::Endpoint),
        },
    }
}

fn as_check(result: Result<CommandSpec, DeploymentRuntimeError>) -> (check: Result<
    NodeHealthCheck,
    DeploymentRuntimeError,
>)
    ensures
        health_outcome(check) == as_health_line(runtime_command(result)),
{
    match result {
        Ok(command) => Ok(NodeHealthCheck::Command(command)),
        Err(error) => Err(error),
    }
}

/// Begins the health check of a unit on a node.
pub fn begin_node_health_check(
    config: &HealthCheckConfig,
    root: &str,
    target: &Option<SshTarget>,
    ssh: &SshExecutor,
    work_dir: &str,
) -> (result: Result<NodeHealthCheck, DeploymentRuntimeError>)
    ensures
        health_outcome(result) == health_line(
            *config,
            root@,
            target_view(*target),
            ssh.known_hosts(),
            work_dir@,
        ),
{
    match config.kind {
        HealthCheckKind::ComposeRunning => match target {
            Some(target) => as_check(mapped(ssh.compose_ps_running(target, root, work_dir))),
            None => Ok(NodeHealthCheck::Command(ComposeExecutor::ps_running(work_dir))),
        },
        HealthCheckKind::NoCheck => Ok(
            NodeHealthCheck::Known(
                NodeHealthResult { healthy: true, message: "未配置健康检查".to_owned() },
            ),
        ),
        HealthCheckKind::SystemdActive => Err(
            validation("systemd health checks are not supported for Compose deployment units"),
        ),
        HealthCheckKind::Http => match target {
            Some(target) => as_check(
                mapped(
                    ssh.http_health_check(
                        target,
                        root,
                        config.endpoint.as_str(),
                        config.timeout_secs,
                    ),
                ),
            ),
            None => Ok(NodeHealthCheck::Endpoint),
        },
        HealthCheckKind::Tcp => match target {
            Some(target) => as_check(
                mapped(
                    ssh.tcp_health_check(
                        target,
                        root,
                        config.endpoint.as_str(),
                        config.timeout_secs,
                    ),
                ),
            ),
            None => Ok(NodeHealthCheck::Endpoint),
        },
    }
}

/// A line of a listing that is neither blank nor its heading.
pub open spec fn is_entry(line: Seq<char>) -> bool {
    !is_blank(line) && !"NAME"@.is_prefix_of(trimmed(line))
}

/// Whether a listing shows a container that runs.
pub open spec fn shows_container(output: Seq<char>) -> bool {
    exists|i: int| 0 <= i < lines(output).len() && is_entry(#[trigger] lines(output)[i])
}

fn any_container(output: &str) -> (found: bool)
    ensures
        found == shows_container(output@),
{
    let all = split_lines(output);
    let ghost model = texts(all@);
    let mut i: usize = 0;
    while i < all.len()
        invariant
            i <= all@.len(),
            model == texts(all@),
            model == lines(output@),
            forall|k: int| 0 <= k < i ==> !is_entry(#[trigger] model[k]),
        decreases all@.len() - i,
    {
        assert(model[i as int] == all@[i as int]@);
        let line = trim(all[i].as_str());
        if !line.as_str().is_empty() && !starts_with(line.as_str(), "NAME") {
            assert(is_entry(model[i as int]));
            return true;
        }
        i = i + 1;
    }
    false
}

/// Whether the output of the command of a health check says that the unit is healthy.
pub open spec fn is_healthy(config: HealthCheckConfig, success: bool, output: Seq<char>) -> bool {
    success && match config.kind {
        HealthCheckKind::ComposeRunning => shows_container(output),
        HealthCheckKind::Http => trimmed(output) == decimal(config.expected_status as nat),
        HealthCheckKind::Tcp => true,
        _ => false,
    }
}

/// What is reported of the command of a health check.
pub open spec fn health_message(
    config: HealthCheckConfig,
    success: bool,
    output: Seq<char>,
) -> Seq<char> {
    if config.kind == HealthCheckKind::ComposeRunning {
        if is_healthy(config, success, output) {
            "容器运行状态检查通过"@
        } else {
            summary_of(output, "容器运行状态检查失败"@)
        }
    } else if is_healthy(config, success, output) {
        config.kind.title() + " 健康检查通过"@
    } else {
        summary_of(output, config.kind.title() + " 健康检查失败"@)
    }
}

/// The outcome of the command of a health check.
pub fn finish_node_health_check(config: &HealthCheckConfig, output: &ComposeCommandOutput) -> (
    result: NodeHealthResult)
    ensures
        result.healthy == is_healthy(*config, output.success, output.output@),
        result.message@ == health_message(*config, output.success, output.output@),
{
    if config.kind == HealthCheckKind::ComposeRunning {
        let healthy = output.success && any_container(output.output.as_str());
        let message = if healthy {
            "容器运行状态检查通过".to_owned()
        } else {
            command_summary(output, "容器运行状态检查失败")
        };
        return NodeHealthResult { healthy, message };
    }
    let healthy = match config.kind {
        HealthCheckKind::Http => {
            let status = natural_text(config.expected_status as u64);
            let shown = trim(output.output.as_str());
            output.success && same_text(shown.as_str(), status.as_str())
        },
        HealthCheckKind::Tcp => output.success,
        _ => false,
    };
    let message = if healthy {
        config.kind.label().to_owned().concat(" 健康检查通过")
    } else {
        let fallback = config.kind.label().to_owned().concat(" 健康检查失败");
        command_summary(output, fallback.as_str())
    };
    NodeHealthResult { healthy, message }
}

/// The outcome of a health check that this host made itself.
pub fn endpoint_health_result(outcome: Result<HealthCheckOutcome, HealthError>) -> (result: Result<
    NodeHealthResult,
    DeploymentRuntimeError,
>)
    ensures
        match (outcome, result) {
            (Ok(seen), Ok(told)) => told.healthy == seen.healthy && told.message@ == seen.message@,
            (Err(error), Err(told)) => told@ == RuntimeFault::Validation(error@.text()),
            _ => false,
        },
{
    match outcome {
        Ok(seen) => Ok(NodeHealthResult { healthy: seen.healthy, message: seen.message }),
        Err(error) => Err(validation(error.message())),
    }
}

// ---------------------------------------------------------------------------
// The steps on a node
// ---------------------------------------------------------------------------

/// A step of the execution of a unit on a node.
#[derive(Debug, Clone, Copy, PartialEq, Eq, Structural)]
pub enum NodeStep {
    /// The files of the unit are brought to the node.
    Sync,
    /// Compose carries out the action.
    Compose,
    /// A script of the unit runs.
    Script(ScriptSlot),
    /// The health of the unit is checked.
    Health,
}

/// The step of a slot, where the unit has a script for it.
pub open spec fn slot_steps(scripts: Seq<(Seq<char>, Seq<char>)>, slot: ScriptSlot) -> Seq<
    NodeStep,
> {
    if has_script(scripts, slot.name()) {
        seq![NodeStep::Script(slot)]
    } else {
        Seq::empty()
    }
}

/// The steps of an action. A stop is a matter of Compose alone. Everything else brings the files,
/// deploys between the scripts that surround it, by a script of the unit or by Compose, checks the
/// health, and runs the scripts for what comes after that.
pub open spec fn steps_of(
    action: DeploymentAction,
    scripts: Seq<(Seq<char>, Seq<char>)>,
) -> Seq<NodeStep> {
    if action == DeploymentAction::Stop {
        seq![NodeStep::Compose]
    } else {
        seq![NodeStep::Sync] + slot_steps(scripts, ScriptSlot::PreDeploy) + (if has_script(
            scripts,
            ScriptSlot::Deploy.name(),
        ) {
            seq![NodeStep::Script(ScriptSlot::Deploy)]
        } else {
            seq![NodeStep::Compose]
        }) + slot_steps(scripts, ScriptSlot::PostDeploy) + seq![NodeStep::Health] + slot_steps(
            scripts,
            ScriptSlot::SwitchTraffic,
        ) + slot_steps(scripts, ScriptSlot::Cleanup)
    }
}

fn push_slot(steps: &mut Vec<NodeStep>, scripts: &Vec<(String, String)>, slot: ScriptSlot)
    ensures
        final(steps)@ == old(steps)@ + slot_steps(env_views(scripts@), slot),
{
    let ghost before = steps@;
    if has_script_for(scripts, slot.as_str()) {
        steps.push(NodeStep::Script(slot));
    }
    assert(steps@ =~= before + slot_steps(env_views(scripts@), slot));
}

fn plan_steps(action: DeploymentAction, scripts: &Vec<(String, String)>) -> (steps: Vec<NodeStep>)
    ensures
        steps@ == steps_of(action, env_views(scripts@)),
{
    let mut steps: Vec<NodeStep> = Vec::new();
    if action == DeploymentAction::Stop {
        steps.push(NodeStep::Compose);
        assert(steps@ =~= seq![NodeStep::Compose]);
        return steps;
    }
    let ghost all = env_views(scripts@);
    steps.push(NodeStep::Sync);
    assert(steps@ =~= seq![NodeStep::Sync]);
    push_slot(&mut steps, scripts, ScriptSlot::PreDeploy);
    let ghost before = steps@;
    if has_script_for(scripts, ScriptSlot::Deploy.as_str()) {
        steps.push(NodeStep::Script(ScriptSlot::Deploy));
        assert(steps@ =~= before + seq![NodeStep::Script(ScriptSlot::Deploy)]);
    } else {
        steps.push(NodeStep::Compose);
        assert(steps@ =~= before + seq![NodeStep::Compose]);
    }
    push_slot(&mut steps, scripts, ScriptSlot::PostDeploy);
    let ghost deployed = steps@;
    steps.push(NodeStep::Health);
    assert(steps@ =~= deployed + seq![NodeStep::Health]);
    push_slot(&mut steps, scripts, ScriptSlot::SwitchTraffic);
    push_slot(&mut steps, scripts, ScriptSlot::Cleanup);
    steps
}

/// What is known when a step is over.
pub enum StepOutcome {
    /// The files were brought to the node.
    Synced,
    /// A command or a script ran.
    Output(ComposeCommandOutput),
    /// The health was checked.
    Checked(NodeHealthResult),
}

/// The execution of a unit on one node.
#[derive(Debug, Clone)]
pub struct NodeExecution {
    node_key: String,
    stopping: bool,
    steps: Vec<NodeStep>,
    done: usize,
    health: String,
}

/// What an outcome leads to: the end of the execution, or the next step.
pub enum NodeVerdict {
    Finished(bool, Seq<char>),
    GoesOn(Seq<char>),
}

pub open spec fn slot_failure(slot: ScriptSlot) -> Seq<char> {
    "脚本 "@ + slot.name() + " 执行失败"@
}

/// Whether an outcome is one of the step.
pub open spec fn belongs_to(outcome: StepOutcome, step: NodeStep) -> bool {
    match step {
        NodeStep::Sync => outcome is Synced,
        NodeStep::Compose => outcome is Output,
        NodeStep::Script(_) => outcome is Output,
        NodeStep::Health => outcome is Checked,
    }
}

/// What the outcome of a step leads to. The last message about the health is kept.
pub open spec fn verdict(
    stopping: bool,
    step: NodeStep,
    outcome: StepOutcome,
    health: Seq<char>,
) -> NodeVerdict {
    match outcome {
        StepOutcome::Synced => NodeVerdict::GoesOn(health),
        StepOutcome::Checked(result) => if result.healthy {
            NodeVerdict::GoesOn(result.message@)
        } else {
            NodeVerdict::Finished(false, result.message@)
        },
        StepOutcome::Output(output) => if stopping {
            NodeVerdict::Finished(
                output.success,
                if output.success {
                    "Compose 服务已停止"@
                } else {
                    summary_of(output.output@, "Docker Compose 命令失败"@)
                },
            )
        } else if output.success {
            NodeVerdict::GoesOn(health)
        } else {
            NodeVerdict::Finished(
                false,
                summary_of(
                    output.output@,
                    match step {
                        NodeStep::Script(slot) => slot_failure(slot),
                        _ => "Docker Compose 部署失败"@,
                    },
                ),
            )
        },
    }
}

impl NodeExecution {
    pub closed spec fn key(self) -> Seq<char> {
        self.node_key@
    }

    /// Whether the unit is stopped.
    pub closed spec fn is_stop(self) -> bool {
        self.stopping
    }

    pub closed spec fn plan(self) -> Seq<NodeStep> {
        self.steps@
    }

    /// How many steps are over.
    pub closed spec fn position(self) -> int {
        self.done as int
    }

    /// What was last said about the health.
    pub closed spec fn health_text(self) -> Seq<char> {
        self.health@
    }

    pub open spec fn wf(self) -> bool {
        0 <= self.position() <= self.plan().len()
    }

    /// Begins the execution of a unit on a node.
    pub fn begin(spec: &UnitExecutionSpec, node: &DeploymentTargetNode) -> (execution:
        NodeExecution)
        ensures
            execution.wf(),
            execution.key() == node.node_key@,
            execution.is_stop() == (spec.action == DeploymentAction::Stop),
            execution.plan() == steps_of(spec.action, env_views(spec.unit.scripts@)),
            execution.position() == 0,
            execution.health_text() == Seq::<char>::empty(),
    {
        NodeExecution {
            node_key: node.node_key.clone(),
            stopping: spec.action == DeploymentAction::Stop,
            steps: plan_steps(spec.action, &spec.unit.scripts),
            done: 0,
            health: String::new(),
        }
    }

    /// The step that comes next, while there is one.
    pub fn next_step(&self) -> (step: Option<NodeStep>)
        requires
            self.wf(),
        ensures
            step == (if self.position() < self.plan().len() {
                Some(self.plan()[self.position()])
            } else {
                None
            }),
    {
        if self.done < self.steps.len() {
            Some(self.steps[self.done])
        } else {
            None
        }
    }

    /// Takes the outcome of the step that came next: the result on the node, where the execution
    /// is over.
    pub fn step_done(&mut self, outcome: StepOutcome) -> (result: Option<UnitNodeExecutionResult>)
        requires
            old(self).wf(),
            old(self).position() < old(self).plan().len(),
            belongs_to(outcome, old(self).plan()[old(self).position()]),
        ensures
            final(self).wf(),
            final(self).key() == old(self).key(),
            final(self).is_stop() == old(self).is_stop(),
            final(self).plan() == old(self).plan(),
            match verdict(
                old(self).is_stop(),
                old(self).plan()[old(self).position()],
                outcome,
                old(self).health_text(),
            ) {
                NodeVerdict::Finished(success, summary) => {
                    &&& final(self).position() == old(self).position()
                    &&& result is Some
                    &&& result->0.success == success
                    &&& result->0.summary@ == summary
                },
                NodeVerdict::GoesOn(health) => {
                    &&& final(self).position() == old(self).position() + 1
                    &&& final(self).health_text() == health
                    &&& if final(self).position() < final(self).plan().len() {
                        result is None
                    } else {
                        &&& result is Some
                        &&& result->0.success
                        &&& result->0.summary@ == "节点 "@ + old(self).key() + " 部署成功："@
                            + health
                    }
                },
            },
    {
        let count: usize = self.steps.len();
        let step = self.steps[self.done];
        match outcome {
            StepOutcome::Synced => {},
            StepOutcome::Checked(checked) => {
                if !checked.healthy {
                    return Some(
                        UnitNodeExecutionResult { success: false, summary: checked.message },
                    );
                }
                self.health = checked.message;
            },
            StepOutcome::Output(output) => {
                if self.stopping {
                    return Some(result_from_output(&output, "Compose 服务已停止"));
                }
                if !output.success {
                    let summary = match step {
                        NodeStep::Script(slot) => {
                            let fallback = "脚本 ".to_owned().concat(slot.as_str()).concat(
                                " 执行失败",
                            );
                            command_summary(&output, fallback.as_str())
                        },
                        _ => command_summary(&output, "Docker Compose 部署失败"),
                    };
                    return Some(UnitNodeExecutionResult { success: false, summary });
                }
            },
        }
        self.done = self.done + 1;
        if self.done < count {
            None
        } else {
            Some(
                UnitNodeExecutionResult {
                    success: true,
                    summary: "节点 ".to_owned().concat(self.node_key.as_str()).concat(
                        " 部署成功：",
                    ).concat(self.health.as_str()),
                },
            )
        }
    }
}

/// The execution of a unit on a node that is about to take its first step.
pub struct StartedNode {
    pub work_dir: String,
    pub target: Option<SshTarget>,
    pub execution: NodeExecution,
}

/// What keeps a unit from being executed on a node.
pub open spec fn start_fault(spec: UnitExecutionSpec, node: DeploymentTargetNode) -> Option<
    RuntimeFault,
> {
    match target_directory(spec.unit.work_dir@) {
        Err(fault) => Some(fault),
        Ok(_) => match node_account(node) {
            Err(fault) => Some(fault),
            Ok(_) => None,
        },
    }
}

/// Begins the execution of a unit on a node: in its directory, over the account of the node.
pub fn execute_prepared_unit_on_node(spec: &UnitExecutionSpec, node: &DeploymentTargetNode) -> (
    result: Result<StartedNode, DeploymentRuntimeError>)
    ensures
        match result {
            Ok(started) => {
                &&& target_directory(spec.unit.work_dir@) == Ok::<Seq<char>, RuntimeFault>(
                    started.work_dir@,
                )
                &&& node_account(*node) == Ok::<Option<TargetState>, RuntimeFault>(
                    target_view(started.target),
                )
                &&& started.execution.wf()
                &&& started.execution.key() == node.node_key@
                &&& started.execution.is_stop() == (spec.action == DeploymentAction::Stop)
                &&& started.execution.plan() == steps_of(
                    spec.action,
                    env_views(spec.unit.scripts@),
                )
                &&& started.execution.position() == 0
                &&& started.execution.health_text() == Seq::<char>::empty()
            },
            Err(error) => start_fault(*spec, *node) == Some(error@),
        },
{
    let work_dir = match validated_target_work_dir(spec.unit.work_dir.as_str()) {
        Ok(work_dir) => work_dir,
        Err(error) => return Err(error),
    };
    let target = match node_target(node) {
        Ok(target) => target,
        Err(error) => return Err(error),
    };
    Ok(StartedNode { work_dir, target, execution: NodeExecution::begin(spec, node) })
}

// ---------------------------------------------------------------------------
// All nodes
// ---------------------------------------------------------------------------

/// The results of the nodes so far.
#[derive(Debug, Clone)]
pub struct NodeSummaries {
    summaries: Vec<String>,
}

impl NodeSummaries {
    pub closed spec fn all(self) -> Seq<Seq<char>> {
        texts(self.summaries@)
    }

    pub fn new() -> (summaries: NodeSummaries)
        ensures
            summaries.all() == Seq::<Seq<char>>::empty(),
    {
        let summaries = NodeSummaries { summaries: Vec::new() };
        assert(texts(summaries.summaries@) =~= Seq::empty());
        summaries
    }

    /// Takes the result of a node; one that failed ends the execution.
    pub fn add(&mut self, node_key: &str, result: UnitNodeExecutionResult) -> (accepted: Result<
        (),
        DeploymentRuntimeError,
    >)
        ensures
            final(self).all() == old(self).all().push(result.summary@),
            runtime_fault(accepted) == (if result.success {
                None
            } else {
                Some(
                    RuntimeFault::Validation(
                        "节点 "@ + node_key@ + " 执行失败："@ + result.summary@,
                    ),
                )
            }),
    {
        let message = "节点 ".to_owned().concat(node_key).concat(" 执行失败：").concat(
            result.summary.as_str(),
        );
        proof {
            lemma_texts_push(self.summaries@, result.summary);
        }
        self.summaries.push(result.summary);
        if result.success {
            Ok(())
        } else {
            Err(validation(message.as_str()))
        }
    }

    /// The summary of the execution on all nodes.
    pub fn finish(&self) -> (summary: String)
        ensures
            summary@ == joined(self.all(), "；"@),
    {
        join(&self.summaries, "；")
    }
}

// ---------------------------------------------------------------------------
// Laws
// ---------------------------------------------------------------------------

/// A stop neither brings files to a node nor runs a script there.
pub proof fn stops_only_stop(scripts: Seq<(Seq<char>, Seq<char>)>, i: int)
    requires
        0 <= i < steps_of(DeploymentAction::Stop, scripts).len(),
    ensures
        steps_of(DeploymentAction::Stop, scripts)[i] == NodeStep::Compose,
        steps_of(DeploymentAction::Stop, scripts).len() == 1,
{
}

/// The place of a step among the others.
pub open spec fn step_rank(step: NodeStep) -> int {
    match step {
        NodeStep::Sync => 0,
        NodeStep::Script(ScriptSlot::PreDeploy) => 1,
        NodeStep::Script(ScriptSlot::Deploy) => 2,
        NodeStep::Compose => 2,
        NodeStep::Script(ScriptSlot::PostDeploy) => 3,
        NodeStep::Health => 4,
        NodeStep::Script(ScriptSlot::SwitchTraffic) => 5,
        NodeStep::Script(ScriptSlot::Cleanup) => 6,
    }
}

/// Files, the script before the deployment, the deployment, the script after it, the health check,
/// the switch of traffic and the cleanup follow each other in this order, each at most once.
pub proof fn steps_follow_their_order(
    action: DeploymentAction,
    scripts: Seq<(Seq<char>, Seq<char>)>,
    i: int,
    j: int,
)
    requires
        0 <= i < j < steps_of(action, scripts).len(),
    ensures
        step_rank(steps_of(action, scripts)[i]) < step_rank(steps_of(action, scripts)[j]),
{
}

/// Some script of the unit is for the slot.
pub open spec fn is_given(scripts: Seq<(Seq<char>, Seq<char>)>, slot: ScriptSlot) -> bool {
    exists|i: int|
        0 <= i < scripts.len() && (#[trigger] scripts[i]).0 == (match slot {
            ScriptSlot::PreDeploy => "pre_deploy"@,
            ScriptSlot::Deploy => "deploy"@,
            ScriptSlot::PostDeploy => "post_deploy"@,
            ScriptSlot::SwitchTraffic => "switch_traffic"@,
            ScriptSlot::Cleanup => "cleanup"@,
        })
}

/// Whatever the action, unless it is a stop, the script of a slot runs exactly if the unit has one,
/// and what the unit has no script for is not run.
pub proof fn given_scripts_run(
    action: DeploymentAction,
    scripts: Seq<(Seq<char>, Seq<char>)>,
    slot: ScriptSlot,
)
    requires
        action != DeploymentAction::Stop,
    ensures
        steps_of(action, scripts).contains(NodeStep::Script(slot)) <==> is_given(scripts, slot),
        steps_of(action, scripts).contains(NodeStep::Sync),
        steps_of(action, scripts).contains(NodeStep::Health),
        steps_of(action, scripts).contains(NodeStep::Compose) <==> !is_given(
            scripts,
            ScriptSlot::Deploy,
        ),
{
    let steps = steps_of(action, scripts);
    let a = seq![NodeStep::Sync] + slot_steps(scripts, ScriptSlot::PreDeploy);
    let deploy = if has_script(scripts, ScriptSlot::Deploy.name()) {
        seq![NodeStep::Script(ScriptSlot::Deploy)]
    } else {
        seq![NodeStep::Compose]
    };
    let b = a + deploy;
    let c = b + slot_steps(scripts, ScriptSlot::PostDeploy);
    let d = c + seq![NodeStep::Health];
    let e = d + slot_steps(scripts, ScriptSlot::SwitchTraffic);
    let at = match slot {
        ScriptSlot::PreDeploy => 1int,
        ScriptSlot::Deploy => a.len() as int,
        ScriptSlot::PostDeploy => b.len() as int,
        ScriptSlot::SwitchTraffic => d.len() as int,
        ScriptSlot::Cleanup => e.len() as int,
    };
    assert(has_script(scripts, slot.name()) == is_given(scripts, slot));
    assert(has_script(scripts, ScriptSlot::Deploy.name()) == is_given(scripts, ScriptSlot::Deploy));
    if is_given(scripts, slot) {
        assert(steps[at] == NodeStep::Script(slot));
    } else {
        assert forall|i: int| 0 <= i < steps.len() implies steps[i] != NodeStep::Script(slot) by {}
    }
    assert(steps[0] == NodeStep::Sync);
    assert(steps[c.len() as int] == NodeStep::Health);
    assert(steps[a.len() as int] == deploy[0]);
    if is_given(scripts, ScriptSlot::Deploy) {
        assert forall|i: int| 0 <= i < steps.len() implies steps[i] != NodeStep::Compose by {}
    }
}

/// What went well goes on: the files that were brought, the commands and scripts that succeeded and
/// a health check that found the unit healthy. Only the health check changes what is said of it. A
/// stop is over with its command, whatever came of it.
pub proof fn successes_go_on(stopping: bool, step: NodeStep, outcome: StepOutcome, health: Seq<char>)
    ensures
        outcome is Synced ==> verdict(stopping, step, outcome, health) == NodeVerdict::GoesOn(
            health,
        ),
        outcome is Checked && outcome->Checked_0.healthy ==> verdict(
            stopping,
            step,
            outcome,
            health,
        ) == NodeVerdict::GoesOn(outcome->Checked_0.message@),
        outcome is Checked && !outcome->Checked_0.healthy ==> verdict(
            stopping,
            step,
            outcome,
            health,
        ) == NodeVerdict::Finished(false, outcome->Checked_0.message@),
        outcome is Output && !stopping && outcome->Output_0.success ==> verdict(
            stopping,
            step,
            outcome,
            health,
        ) == NodeVerdict::GoesOn(health),
        outcome is Output && stopping ==> verdict(stopping, step, outcome, health) is Finished
            && verdict(stopping, step, outcome, health)->Finished_0 == outcome->Output_0.success,
{
}

/// On this host a stop takes the services of a unit down and everything else brings them up, in the
/// directory of the unit.
pub proof fn actions_start_and_stop_services(
    action: DeploymentAction,
    root: Seq<char>,
    known_hosts: Option<Seq<char>>,
    work_dir: Seq<char>,
)
    ensures
        ({
            let line = action_line(action, root, None, known_hosts, work_dir)->Ok_0;
            &&& action_line(action, root, None, known_hosts, work_dir) is Ok
            &&& line.program == "docker"@
            &&& line.dir == work_dir
            &&& action == DeploymentAction::Stop ==> line.args == seq!["compose"@, "down"@]
            &&& action != DeploymentAction::Stop ==> line.args == seq![
                "compose"@,
                "up"@,
                "-d"@,
                "--remove-orphans"@,
            ]
        }),
{
}

/// On another host the same commands run there, in the directory of the unit: what is sent over SSH
/// ends with them.
pub proof fn actions_start_and_stop_remote_services(
    action: DeploymentAction,
    root: Seq<char>,
    account: TargetState,
    known_hosts: Option<Seq<char>>,
    work_dir: Seq<char>,
)
    requires
        remote_path(work_dir) is Ok,
    ensures
        ({
            let result = action_line(action, root, Some(account), known_hosts, work_dir);
            let sent = seq!["cd"@, remote_path(work_dir)->Ok_0, "&&"@, "docker"@, "compose"@] + (
            if action == DeploymentAction::Stop {
                seq!["down"@]
            } else {
                seq!["up"@, "-d"@, "--remove-orphans"@]
            });
            &&& result is Ok
            &&& result->Ok_0.program == "ssh"@
            &&& result->Ok_0.dir == root
            &&& sent.is_suffix_of(result->Ok_0.args)
        }),
{
    let result = action_line(action, root, Some(account), known_hosts, work_dir);
    let sent = seq!["cd"@, remote_path(work_dir)->Ok_0, "&&"@, "docker"@, "compose"@] + (
    if action == DeploymentAction::Stop {
        seq!["down"@]
    } else {
        seq!["up"@, "-d"@, "--remove-orphans"@]
    });
    let args = result->Ok_0.args;
    assert(args.subrange(args.len() - sent.len(), args.len() as int) =~= sent);
}

/// A command of a health check finds a unit healthy only if it succeeded, and then: a listing if
/// some line of it is neither blank nor begins with `NAME`; a request over HTTP if it shows the
/// expected status; a connection over TCP always; and nothing else.
pub proof fn healthy_units_answer(config: HealthCheckConfig, success: bool, output: Seq<char>)
    ensures
        is_healthy(config, success, output) ==> success,
        config.kind is ComposeRunning && success ==> (is_healthy(config, success, output)
            <==> exists|i: int|
            0 <= i < lines(output).len() && trimmed(#[trigger] lines(output)[i]).len() > 0
                && !stands_at(trimmed(lines(output)[i]), "NAME"@, 0)),
        config.kind is Http && success ==> (is_healthy(config, success, output) <==> trimmed(output)
            == decimal(config.expected_status as nat)),
        config.kind is Tcp && success ==> is_healthy(config, success, output),
        config.kind is NoCheck || config.kind is SystemdActive ==> !is_healthy(
            config,
            success,
            output,
        ),
{
    assert forall|i: int| 0 <= i < lines(output).len() implies is_entry(#[trigger] lines(output)[i])
        == (trimmed(lines(output)[i]).len() > 0 && !stands_at(
        trimmed(lines(output)[i]),
        "NAME"@,
        0,
    )) by {}
    if shows_container(output) {
        let i = choose|i: int| 0 <= i < lines(output).len() && is_entry(#[trigger] lines(output)[i]);
        assert(trimmed(lines(output)[i]).len() > 0 && !stands_at(
            trimmed(lines(output)[i]),
            "NAME"@,
            0,
        ));
    }
}

/// How the health of a unit is found out: on this host its containers are listed or its endpoint is
/// asked; on another host a command runs there; without a check the unit counts as healthy; and
/// systemd is not asked about a unit of Compose.
pub proof fn health_is_found_out_where_the_unit_runs(
    config: HealthCheckConfig,
    root: Seq<char>,
    target: Option<TargetState>,
    known_hosts: Option<Seq<char>>,
    work_dir: Seq<char>,
)
    ensures
        ({
            let found = health_line(config, root, target, known_hosts, work_dir);
            &&& config.kind is NoCheck ==> found is Ok && found->Ok_0 is Known
                && found->Ok_0->Known_0
            &&& config.kind is SystemdActive ==> found is Err
            &&& (config.kind is Http || config.kind is Tcp) && target is None ==> found == Ok::<
                HealthCheckLine,
                RuntimeFault,
            >(HealthCheckLine::Endpoint)
            &&& config.kind is ComposeRunning && target is None ==> found is Ok
                && found->Ok_0 is Command && found->Ok_0->Command_0.program == "docker"@
                && found->Ok_0->Command_0.dir == work_dir && found->Ok_0->Command_0.args == seq![
                "compose"@,
                "ps"@,
                "--status"@,
                "running"@,
            ]
            &&& target is Some && found is Ok && !(config.kind is NoCheck)
                ==> found->Ok_0 is Command && found->Ok_0->Command_0.program == "ssh"@
        }),
{
}

/// A unit runs in an absolute directory below the root: the text without white space around it and
/// without separators at its end. Everything else is refused.
pub proof fn units_run_below_the_root(work_dir: Seq<char>)
    ensures
        target_directory(work_dir) is Ok <==> trimmed(work_dir).len() > 0 && trimmed(work_dir)[0]
            == '/' && exists|i: int|
            0 <= i < pieces(trimmed(work_dir), CharClass::Slash).len() && #[trigger] pieces(
                trimmed(work_dir),
                CharClass::Slash,
            )[i] != Seq::<char>::empty() && pieces(trimmed(work_dir), CharClass::Slash)[i]
                != seq!['.'],
        target_directory(work_dir) is Ok ==> target_directory(work_dir)->Ok_0 == trimmed_end(
            trimmed(work_dir),
            CharClass::PathSeparator,
        ),
{
    let path = trimmed(work_dir);
    reveal_strlit(".");
    assert("."@ =~= seq!['.']);
    let all = pieces(path, CharClass::Slash);
    if !is_root_path(path) {
        let i = choose|i: int|
            0 <= i < all.len() && !({
                let piece = #[trigger] all[i];
                piece.len() == 0 || piece == "."@
            });
        assert(all[i] != Seq::<char>::empty());
    } else {
        assert forall|i: int| 0 <= i < all.len() implies #[trigger] all[i] == Seq::<char>::empty()
            || all[i] == seq!['.'] by {
            let piece = all[i];
            if piece.len() == 0 {
                assert(piece =~= Seq::empty());
            }
        }
    }
}

/// A node of the kind `local` is this host, one of the kind `ssh` is reached over an account that is
/// valid, with the key of the node where it has one, and there are no other kinds.
pub proof fn nodes_are_local_or_reached_over_ssh(node: DeploymentTargetNode)
    ensures
        node.node_type@ == "local"@ ==> node_account(node) == Ok::<
            Option<TargetState>,
            RuntimeFault,
        >(None),
        node.node_type@ == "ssh"@ && node_account(node) is Ok ==> {
            let account = node_account(node)->Ok_0->0;
            &&& node_account(node)->Ok_0 is Some
            &&& account.user == trimmed(node.ssh_user@)
            &&& account.address == trimmed(node.address@)
            &&& account.port == node.ssh_port
            &&& node.credential_private_key_path is None ==> account.identity_file is None
            &&& node.credential_private_key_path is Some && trimmed(
                node.credential_private_key_path->0@,
            ).len() > 0 ==> account.identity_file == Some(
                trimmed(node.credential_private_key_path->0@),
            )
        },
        node.node_type@ == "ssh"@ && !(1 <= node.ssh_port <= 65535) ==> node_account(node) is Err,
        node.node_type@ != "ssh"@ && node.node_type@ != "local"@ ==> node_account(node) is Err,
{
    reveal_strlit("ssh");
    reveal_strlit("local");
    assert("ssh"@.len() == 3);
    assert("local"@.len() == 5);
}

/// A summary is the first line of the output that holds something, up to five hundred characters;
/// an output without such a line has the fallback for its summary.
pub proof fn summaries_show_the_first_line(output: Seq<char>, fallback: Seq<char>, at: int)
    requires
        0 <= at <= lines(output).len(),
        forall|i: int| 0 <= i < at ==> trimmed(#[trigger] lines(output)[i]).len() == 0,
        at < lines(output).len() ==> trimmed(lines(output)[at]).len() > 0,
    ensures
        at == lines(output).len() ==> summary_of(output, fallback) == fallback,
        at < lines(output).len() ==> {
            let line = lines(output)[at];
            let shown = summary_of(output, fallback);
            &&& shown.is_prefix_of(line)
            &&& line.len() <= 500 ==> shown == line
            &&& line.len() > 500 ==> shown.len() == 500
        },
{
    lemma_first_filled(lines(output), at);
    if at < lines(output).len() {
        let line = lines(output)[at];
        let shown = summary_of(output, fallback);
        assert(shown =~= line.subrange(0, shown.len() as int));
    }
}

proof fn lemma_first_filled(all: Seq<Seq<char>>, at: int)
    requires
        0 <= at <= all.len(),
        forall|i: int| 0 <= i < at ==> trimmed(#[trigger] all[i]).len() == 0,
        at < all.len() ==> trimmed(all[at]).len() > 0,
    ensures
        first_filled(all) == (if at < all.len() {
            Some(all[at])
        } else {
            None
        }),
    decreases all.len(),
{
    if all.len() > 0 && at > 0 {
        let rest = all.drop_first();
        assert(trimmed(all[0]).len() == 0);
        assert forall|i: int| 0 <= i < at - 1 implies trimmed(#[trigger] rest[i]).len() == 0 by {
            assert(trimmed(all[i + 1]).len() == 0);
        }
        lemma_first_filled(rest, at - 1);
    }
}

/// Apart from a stop, the files are on the node before anything runs there.
pub proof fn files_come_first(
    action: DeploymentAction,
    scripts: Seq<(Seq<char>, Seq<char>)>,
    i: int,
)
    requires
        action != DeploymentAction::Stop,
        0 <= i < steps_of(action, scripts).len(),
    ensures
        steps_of(action, scripts)[0] == NodeStep::Sync,
        steps_of(action, scripts)[i] == NodeStep::Sync <==> i == 0,
{
}

/// Traffic is switched, and old versions are cleaned up, only after the health check; everything
/// that deploys comes before it.
pub proof fn traffic_follows_health(
    action: DeploymentAction,
    scripts: Seq<(Seq<char>, Seq<char>)>,
    i: int,
    j: int,
)
    requires
        action != DeploymentAction::Stop,
        0 <= i < steps_of(action, scripts).len(),
        0 <= j < steps_of(action, scripts).len(),
        steps_of(action, scripts)[j] == NodeStep::Health,
    ensures
        steps_of(action, scripts)[i] == NodeStep::Script(ScriptSlot::SwitchTraffic) ==> j < i,
        steps_of(action, scripts)[i] == NodeStep::Script(ScriptSlot::Cleanup) ==> j < i,
        steps_of(action, scripts)[i] == NodeStep::Script(ScriptSlot::PreDeploy) ==> i < j,
        steps_of(action, scripts)[i] == NodeStep::Script(ScriptSlot::Deploy) ==> i < j,
        steps_of(action, scripts)[i] == NodeStep::Script(ScriptSlot::PostDeploy) ==> i < j,
        steps_of(action, scripts)[i] == NodeStep::Compose ==> i < j,
{
}

/// Apart from a stop, the health of a unit is always checked, and its services are brought up
/// either by its own script or by Compose, never by both.
pub proof fn every_deployment_is_checked(
    action: DeploymentAction,
    scripts: Seq<(Seq<char>, Seq<char>)>,
)
    requires
        action != DeploymentAction::Stop,
    ensures
        steps_of(action, scripts).contains(NodeStep::Health),
        steps_of(action, scripts).contains(NodeStep::Compose) <==> !steps_of(
            action,
            scripts,
        ).contains(NodeStep::Script(ScriptSlot::Deploy)),
{
    let steps = steps_of(action, scripts);
    let start = seq![NodeStep::Sync] + slot_steps(scripts, ScriptSlot::PreDeploy);
    let deploy = if has_script(scripts, ScriptSlot::Deploy.name()) {
        seq![NodeStep::Script(ScriptSlot::Deploy)]
    } else {
        seq![NodeStep::Compose]
    };
    assert(steps[start.len() as int] == deploy[0]);
    let health = (start + deploy + slot_steps(scripts, ScriptSlot::PostDeploy)).len() as int;
    assert(steps[health] == NodeStep::Health);
    assert forall|i: int| 0 <= i < steps.len() && i != start.len() implies steps[i]
        != NodeStep::Compose && steps[i] != NodeStep::Script(ScriptSlot::Deploy) by {}
}

/// What failed is never reported as a success, and a unit whose health check failed goes no
/// further.
pub proof fn failures_end_the_execution(
    stopping: bool,
    step: NodeStep,
    outcome: StepOutcome,
    health: Seq<char>,
)
    requires
        match outcome {
            StepOutcome::Synced => false,
            StepOutcome::Output(output) => !output.success,
            StepOutcome::Checked(result) => !result.healthy,
        },
    ensures
        verdict(stopping, step, outcome, health) is Finished,
        !verdict(stopping, step, outcome, health)->Finished_0,
{
}

/// A check on another host waits as long as it was told to, but no longer than a minute and no
/// shorter than a second. It asks for the address that is accepted, or tries host and port.
pub proof fn remote_checks_wait_within_limits(
    config: HealthCheckConfig,
    root: Seq<char>,
    target: TargetState,
    known_hosts: Option<Seq<char>>,
)
    ensures
        ({
            let seconds = decimal(
                if config.timeout_secs < 1 {
                    1
                } else if config.timeout_secs > 60 {
                    60
                } else {
                    config.timeout_secs as nat
                },
            );
            &&& http_line(config, root, target, known_hosts) matches Ok(line) ==> {
                let n = line.args.len() as int;
                &&& line.args[n - 12] == "curl"@
                &&& line.args[n - 6] == "%{http_code}"@
                &&& line.args[n - 5] == "--max-time"@
                &&& line.args[n - 4] == seconds
                &&& line.args[n - 3] == "--connect-timeout"@
                &&& line.args[n - 2] == seconds
                &&& line.args[n - 1] == health_endpoint(config.endpoint@, "HTTP"@)->Ok_0
            }
            &&& tcp_line(config, root, target, known_hosts) matches Ok(line) ==> {
                let n = line.args.len() as int;
                &&& line.args[n - 6] == "nc"@
                &&& line.args[n - 5] == "-z"@
                &&& line.args[n - 4] == "-w"@
                &&& line.args[n - 3] == seconds
                &&& line.args[n - 2] == tcp_endpoint(config.endpoint@)->Ok_0.0
                &&& line.args[n - 1] == tcp_endpoint(config.endpoint@)->Ok_0.1
            }
        }),
{
}

/// Files on another host stand below the root, with slashes for backslashes.
pub proof fn remote_files_stand_below_the_root(root: Seq<char>, path: Seq<char>)
    ensures
        remote_file(root, path) == root + seq!['/'] + replaced(path, seq!['\\'], seq!['/']),
        !path.contains('\\') ==> remote_file(root, path) == root + seq!['/'] + path,
{
    reveal_strlit("/");
    reveal_strlit("\\");
    assert("/"@ =~= seq!['/']);
    assert("\\"@ =~= seq!['\\']);
    if !path.contains('\\') {
        assert(!crate::pieces::holds(path, seq!['\\'])) by {
            if crate::pieces::holds(path, seq!['\\']) {
                let at = choose|at: int| crate::pieces::stands_at(path, seq!['\\'], at);
                assert(path.subrange(at, at + 1)[0] == '\\');
                assert(path[at] == '\\');
            }
        }
        crate::pieces::occurrences_are_replaced(seq!['\\'], seq!['/'], path, path);
    }
}

/// A script runs from the directory in which scripts are kept: on this host as the file of its slot,
/// and on another host as the same file there.
pub proof fn scripts_run_from_their_files(
    slot: ScriptSlot,
    root: Seq<char>,
    target: Option<TargetState>,
    known_hosts: Option<Seq<char>>,
    work_dir: Seq<char>,
    env: Seq<(Seq<char>, Seq<char>)>,
    directory_exists: bool,
    script_exists: bool,
)
    ensures
        slot_path(slot) == ".easy-deploy/scripts/"@ + slot.file(),
        ({
            let result = script_line(
                slot,
                root,
                target,
                known_hosts,
                work_dir,
                env,
                directory_exists,
                script_exists,
            );
            &&& target is None && result is Ok ==> result->Ok_0.program == "env"@
                && result->Ok_0.dir == work_dir && directory_exists && script_exists
            &&& target is Some && result is Ok ==> result->Ok_0.program == "ssh"@
                && result->Ok_0.dir == root && result->Ok_0.args.last() == remote_script(
                remote_path(work_dir)->Ok_0,
                script_path(slot_path(slot))->Ok_0,
                accepted_env(env)->Ok_0,
            )
        }),
{
}

/// What is told of a check: that it passed, or the first line of what it printed.
pub proof fn checks_tell_what_they_found(
    config: HealthCheckConfig,
    success: bool,
    output: Seq<char>,
)
    ensures
        is_healthy(config, success, output) && config.kind is ComposeRunning ==> health_message(
            config,
            success,
            output,
        ) == "容器运行状态检查通过"@,
        is_healthy(config, success, output) && !(config.kind is ComposeRunning) ==> health_message(
            config,
            success,
            output,
        ) == config.kind.title() + " 健康检查通过"@,
        !is_healthy(config, success, output) && first_filled(lines(output)) is Some
            ==> health_message(config, success, output) == cut_to(
            first_filled(lines(output))->0,
            500,
        ),
{
}

/// The directory of a file is what stands before its last slash.
pub proof fn directories_stand_before_the_last_slash(
    root: Seq<char>,
    directory: Seq<char>,
    name: Seq<char>,
)
    requires
        !name.contains('/'),
    ensures
        directory_of(directory + seq!['/'] + name, root) == directory,
        directory_of(name, root) == root,
{
    let class = CharClass::Slash;
    let path = directory + seq!['/'] + name;
    crate::pieces::lemma_last_of(path, class);
    crate::pieces::lemma_last_of(name, class);
    let at = crate::pieces::last_of(path, class);
    assert(class.has(path[directory.len() as int]));
    if at > directory.len() {
        assert(path[at] == name[at - directory.len() - 1]);
        assert(name.contains('/'));
    }
    assert(at == directory.len());
    assert(path.take(at) =~= directory);
    let alone = crate::pieces::last_of(name, class);
    if alone >= 0 {
        assert(name[alone] == '/');
    }
}

} // verus!
