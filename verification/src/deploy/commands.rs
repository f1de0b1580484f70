//! Commands that run on this host, and their results.

use vstd::prelude::*;

use super::inputs::{
    compose_service, env_name, invalid, local_path, normalize_compose_service_name,
    normalize_env_name, normalize_local_absolute_path, normalize_log_tail_lines,
    normalize_script_relative_path, normalize_systemd_unit_name, script_path, systemd_unit,
    tail_lines, DeployError, DeployFault,
};
use crate::decimal::{decimal, natural_text};
use crate::deployment_retention::deletion::below;
use crate::pieces::{join, joined};
use crate::text::{chars_of, lemma_texts_push, texts, trim, trimmed};

verus! {

/// A command: a program, its arguments and the directory it runs in.
#[derive(Clone, Debug)]
pub struct CommandSpec {
    pub program: String,
    pub args: Vec<String>,
    pub current_dir: String,
}

/// A command as a mathematical value.
pub struct CommandLine {
    pub program: Seq<char>,
    pub args: Seq<Seq<char>>,
    pub dir: Seq<char>,
}

impl View for CommandSpec {
    type V = CommandLine;

    open spec fn view(&self) -> CommandLine {
        CommandLine {
            program: self.program@,
            args: texts(self.args@),
            dir: self.current_dir@,
        }
    }
}

/// A command that can be run, or an error, as a mathematical value.
pub open spec fn command_outcome(result: Result<CommandSpec, DeployError>) -> Result<
    CommandLine,
    DeployFault,
> {
    match result {
        Ok(command) => Ok(command@),
        Err(error) => Err(error@),
    }
}

#[derive(Clone, Debug)]
pub struct CommandResult {
    pub status_code: Option<i32>,
    pub stdout: String,
    pub stderr: String,
}

#[derive(Clone, Debug)]
pub struct ComposeCommandOutput {
    pub command: String,
    pub success: bool,
    pub status_code: Option<i32>,
    pub output: String,
}

/// The output of a command in one text: what it wrote to its two streams, trimmed, and on lines
/// of their own where both hold something.
pub open spec fn combined(stdout: Seq<char>, stderr: Seq<char>) -> Seq<char> {
    let out = trimmed(stdout);
    let err = trimmed(stderr);
    if out.len() == 0 {
        err
    } else if err.len() == 0 {
        out
    } else {
        out + "\n"@ + err
    }
}

impl CommandResult {
    pub fn success(&self) -> (success: bool)
        ensures
            success == (self.status_code == Some(0i32)),
    {
        match self.status_code {
            Some(code) => code == 0,
            None => false,
        }
    }

    pub fn combined_output(&self) -> (output: String)
        ensures
            output@ == combined(self.stdout@, self.stderr@),
    {
        let stdout = trim(self.stdout.as_str());
        let stderr = trim(self.stderr.as_str());
        if stdout.as_str().is_empty() {
            stderr
        } else if stderr.as_str().is_empty() {
            stdout
        } else {
            stdout.concat("\n").concat(stderr.as_str())
        }
    }
}

/// A command as it is shown: the program and its arguments, with spaces between them.
pub open spec fn rendered(program: Seq<char>, args: Seq<Seq<char>>) -> Seq<char> {
    if args.len() == 0 {
        program
    } else {
        program + " "@ + joined(args, " "@)
    }
}

pub fn render_command(program: &str, args: &Vec<String>) -> (text: String)
    ensures
        text@ == rendered(program@, texts(args@)),
{
    if args.len() == 0 {
        program.to_owned()
    } else {
        program.to_owned().concat(" ").concat(join(args, " ").as_str())
    }
}

/// The line that a log shows before the output of a command.
pub fn command_prompt(display_command: &str) -> (line: String)
    ensures
        line@ == "$ "@ + display_command@ + "\n"@,
{
    "$ ".to_owned().concat(display_command).concat("\n")
}

/// What is reported of a command that has run.
pub fn command_output(command: &str, result: &CommandResult) -> (output: ComposeCommandOutput)
    ensures
        output.command@ == command@,
        output.success == (result.status_code == Some(0i32)),
        output.status_code == result.status_code,
        output.output@ == combined(result.stdout@, result.stderr@),
{
    ComposeCommandOutput {
        command: command.to_owned(),
        success: result.success(),
        status_code: result.status_code,
        output: result.combined_output(),
    }
}

/// Refuses a directory or a file that does not exist.
pub fn require_path(exists: bool, complaint: &str, path: &str) -> (result: Result<(), DeployError>)
    ensures
        match result {
            Ok(_) => exists,
            Err(error) => !exists && error@ == DeployFault::InvalidInput(complaint@ + path@),
        },
{
    if exists {
        Ok(())
    } else {
        Err(invalid(complaint.to_owned().concat(path).as_str()))
    }
}

pub const COMPOSE_DIRECTORY_COMPLAINT: &'static str = "Compose 工作目录不存在: ";

pub const SYSTEMD_DIRECTORY_COMPLAINT: &'static str = "二进制工作目录不存在: ";

pub const SSH_DIRECTORY_COMPLAINT: &'static str = "本地工作目录不存在: ";

fn command(program: &str, args: Vec<String>, work_dir: &str) -> (spec: CommandSpec)
    ensures
        spec@ == (CommandLine { program: program@, args: texts(args@), dir: work_dir@ }),
{
    CommandSpec { program: program.to_owned(), args, current_dir: work_dir.to_owned() }
}

// ---------------------------------------------------------------------------
// Scripts
// ---------------------------------------------------------------------------

/// The views of environment variables.
pub open spec fn env_views(env: Seq<(String, String)>) -> Seq<(Seq<char>, Seq<char>)> {
    env.map_values(|pair: (String, String)| (pair.0@, pair.1@))
}

/// The variables with their names in accepted form; the first that has none decides the error.
pub open spec fn accepted_env(env: Seq<(Seq<char>, Seq<char>)>) -> Result<
    Seq<(Seq<char>, Seq<char>)>,
    DeployFault,
>
    decreases env.len(),
{
    if env.len() == 0 {
        Ok(env)
    } else {
        match accepted_env(env.drop_last()) {
            Err(fault) => Err(fault),
            Ok(before) => match env_name(env.last().0) {
                Ok(name) => Ok(before.push((name, env.last().1))),
                Err(fault) => Err(fault),
            },
        }
    }
}

proof fn lemma_env_fails(env: Seq<(Seq<char>, Seq<char>)>, count: int)
    requires
        0 <= count <= env.len(),
        accepted_env(env.take(count)) is Err,
    ensures
        accepted_env(env) == accepted_env(env.take(count)),
    decreases env.len() - count,
{
    if count < env.len() {
        assert(env.take(count + 1).drop_last() =~= env.take(count));
        lemma_env_fails(env, count + 1);
    } else {
        assert(env.take(count) =~= env);
    }
}

pub fn normalized_env_pairs(env: &[(String, String)]) -> (result: Result<
    Vec<(String, String)>,
    DeployError,
>)
    ensures
        match result {
            Ok(pairs) => accepted_env(env_views(env@)) == Ok::<
                Seq<(Seq<char>, Seq<char>)>,
                DeployFault,
            >(env_views(pairs@)),
            Err(error) => accepted_env(env_views(env@)) == Err::<
                Seq<(Seq<char>, Seq<char>)>,
                DeployFault,
            >(error@),
        },
{
    let ghost all = env_views(env@);
    let mut pairs: Vec<(String, String)> = Vec::new();
    let mut i: usize = 0;
    assert(env_views(pairs@) =~= all.take(0));
    while i < env.len()
        invariant
            i <= env@.len(),
            all == env_views(env@),
            accepted_env(all.take(i as int)) == Ok::<Seq<(Seq<char>, Seq<char>)>, DeployFault>(
                env_views(pairs@),
            ),
        decreases env@.len() - i,
    {
        assert(all.take(i + 1).drop_last() =~= all.take(i as int));
        assert(all[i as int] == (env@[i as int].0@, env@[i as int].1@));
        let ghost before = env_views(pairs@);
        match normalize_env_name(env[i].0.as_str()) {
            Ok(name) => {
                pairs.push((name, env[i].1.clone()));
                assert(env_views(pairs@) =~= before.push((name@, env@[i as int].1@)));
            },
            Err(error) => {
                proof {
                    lemma_env_fails(all, i + 1);
                }
                return Err(error);
            },
        }
        i = i + 1;
    }
    assert(all.take(i as int) =~= all);
    Ok(pairs)
}

/// The variables as arguments of `env`.
pub open spec fn env_args(pairs: Seq<(Seq<char>, Seq<char>)>) -> Seq<Seq<char>> {
    pairs.map_values(|pair: (Seq<char>, Seq<char>)| pair.0 + "="@ + pair.1)
}

pub fn normalized_env_args(env: &[(String, String)]) -> (result: Result<
    Vec<String>,
    DeployError,
>)
    ensures
        match result {
            Ok(args) => {
                &&& accepted_env(env_views(env@)) is Ok
                &&& texts(args@) == env_args(accepted_env(env_views(env@))->Ok_0)
            },
            Err(error) => accepted_env(env_views(env@)) == Err::<
                Seq<(Seq<char>, Seq<char>)>,
                DeployFault,
            >(error@),
        },
{
    let pairs = match normalized_env_pairs(env) {
        Ok(pairs) => pairs,
        Err(error) => return Err(error),
    };
    let ghost model = env_args(env_views(pairs@));
    let mut args: Vec<String> = Vec::new();
    let mut i: usize = 0;
    assert(texts(args@) =~= model.take(0));
    while i < pairs.len()
        invariant
            i <= pairs@.len(),
            model == env_args(env_views(pairs@)),
            texts(args@) == model.take(i as int),
        decreases pairs@.len() - i,
    {
        let arg = pairs[i].0.clone().concat("=").concat(pairs[i].1.as_str());
        assert(arg@ == model[i as int]);
        proof {
            lemma_texts_push(args@, arg);
        }
        args.push(arg);
        i = i + 1;
        assert(texts(args@) =~= model.take(i as int));
    }
    assert(model.take(i as int) =~= model);
    Ok(args)
}

/// What is run for a script, given whether the directory and the script are there.
pub open spec fn script_command(
    work_dir: Seq<char>,
    directory_exists: bool,
    script: Seq<char>,
    script_exists: bool,
    env: Seq<(Seq<char>, Seq<char>)>,
) -> Result<CommandLine, DeployFault> {
    if !directory_exists {
        Err(DeployFault::InvalidInput(COMPOSE_DIRECTORY_COMPLAINT@ + work_dir))
    } else {
        match script_path(script) {
            Err(fault) => Err(fault),
            Ok(path) => if !script_exists {
                Err(DeployFault::InvalidInput("部署脚本不存在: "@ + below(work_dir, path)))
            } else {
                match accepted_env(env) {
                    Err(fault) => Err(fault),
                    Ok(pairs) => Ok(
                        CommandLine {
                            program: "env"@,
                            args: env_args(pairs).push("sh"@).push(path),
                            dir: work_dir,
                        },
                    ),
                }
            },
        }
    }
}

/// A path below a directory.
pub fn path_below(directory: &str, path: &str) -> (joined_path: String)
    ensures
        joined_path@ == below(directory@, path@),
{
    let chars = chars_of(path);
    if chars.len() > 0 && chars[0] == '/' {
        return path.to_owned();
    }
    let outer = chars_of(directory);
    if outer.len() == 0 || outer[outer.len() - 1] == '/' {
        directory.to_owned().concat(path)
    } else {
        directory.to_owned().concat("/").concat(path)
    }
}

// ---------------------------------------------------------------------------
// Docker and Compose
// ---------------------------------------------------------------------------

/// Builds the commands of Docker and Compose.
pub struct ComposeExecutor;

/// A command of Docker.
pub open spec fn docker_line(args: Seq<Seq<char>>, work_dir: Seq<char>) -> CommandLine {
    CommandLine { program: "docker"@, args, dir: work_dir }
}

pub open spec fn log_args(lines: u16) -> Seq<Seq<char>> {
    seq!["compose"@, "logs"@, "--tail"@, decimal(tail_lines(lines) as nat), "--no-color"@]
}

impl ComposeExecutor {
    pub fn docker_info(work_dir: &str) -> (spec: CommandSpec)
        ensures
            spec@ == docker_line(seq!["info"@], work_dir@),
    {
        let args = vec!["info".to_owned()];
        assert(texts(args@) =~= seq!["info"@]);
        command("docker", args, work_dir)
    }

    pub fn config(work_dir: &str) -> (spec: CommandSpec)
        ensures
            spec@ == docker_line(seq!["compose"@, "config"@], work_dir@),
    {
        let args = vec!["compose".to_owned(), "config".to_owned()];
        assert(texts(args@) =~= seq!["compose"@, "config"@]);
        command("docker", args, work_dir)
    }

    pub fn up(work_dir: &str) -> (spec: CommandSpec)
        ensures
            spec@ == docker_line(
                seq!["compose"@, "up"@, "-d"@, "--remove-orphans"@],
                work_dir@,
            ),
    {
        let args = vec![
            "compose".to_owned(),
            "up".to_owned(),
            "-d".to_owned(),
            "--remove-orphans".to_owned(),
        ];
        assert(texts(args@) =~= seq!["compose"@, "up"@, "-d"@, "--remove-orphans"@]);
        command("docker", args, work_dir)
    }

    pub fn down(work_dir: &str) -> (spec: CommandSpec)
        ensures
            spec@ == docker_line(seq!["compose"@, "down"@], work_dir@),
    {
        let args = vec!["compose".to_owned(), "down".to_owned()];
        assert(texts(args@) =~= seq!["compose"@, "down"@]);
        command("docker", args, work_dir)
    }

    pub fn restart(work_dir: &str) -> (spec: CommandSpec)
        ensures
            spec@ == docker_line(seq!["compose"@, "restart"@], work_dir@),
    {
        let args = vec!["compose".to_owned(), "restart".to_owned()];
        assert(texts(args@) =~= seq!["compose"@, "restart"@]);
        command("docker", args, work_dir)
    }

    pub fn ps_running(work_dir: &str) -> (spec: CommandSpec)
        ensures
            spec@ == docker_line(
                seq!["compose"@, "ps"@, "--status"@, "running"@],
                work_dir@,
            ),
    {
        let args = vec![
            "compose".to_owned(),
            "ps".to_owned(),
            "--status".to_owned(),
            "running".to_owned(),
        ];
        assert(texts(args@) =~= seq!["compose"@, "ps"@, "--status"@, "running"@]);
        command("docker", args, work_dir)
    }

    pub fn logs(work_dir: &str) -> (spec: CommandSpec)
        ensures
            spec@ == docker_line(log_args(200), work_dir@),
    {
        Self::logs_with_tail(work_dir, 200)
    }

    pub fn logs_with_tail(work_dir: &str, lines: u16) -> (spec: CommandSpec)
        ensures
            spec@ == docker_line(log_args(lines), work_dir@),
    {
        let count = natural_text(normalize_log_tail_lines(lines) as u64);
        let args = vec![
            "compose".to_owned(),
            "logs".to_owned(),
            "--tail".to_owned(),
            count,
            "--no-color".to_owned(),
        ];
        assert(texts(args@) =~= log_args(lines));
        command("docker", args, work_dir)
    }

    pub fn service_logs(work_dir: &str, service_name: &str) -> (result: Result<
        CommandSpec,
        DeployError,
    >)
        ensures
            command_outcome(result) == (match compose_service(service_name@) {
                Ok(name) => Ok(docker_line(log_args(200).push(name), work_dir@)),
                Err(fault) => Err(fault),
            }),
    {
        Self::service_logs_with_tail(work_dir, service_name, 200)
    }

    pub fn service_logs_with_tail(work_dir: &str, service_name: &str, lines: u16) -> (result:
        Result<CommandSpec, DeployError>)
        ensures
            command_outcome(result) == (match compose_service(service_name@) {
                Ok(name) => Ok(docker_line(log_args(lines).push(name), work_dir@)),
                Err(fault) => Err(fault),
            }),
    {
        let service = match normalize_compose_service_name(service_name) {
            Ok(service) => service,
            Err(error) => return Err(error),
        };
        let count = natural_text(normalize_log_tail_lines(lines) as u64);
        let ghost name = service@;
        let args = vec![
            "compose".to_owned(),
            "logs".to_owned(),
            "--tail".to_owned(),
            count,
            "--no-color".to_owned(),
            service,
        ];
        assert(texts(args@) =~= log_args(lines).push(name));
        Ok(command("docker", args, work_dir))
    }

    /// The path of a script, where the directory is there and the path is accepted.
    pub fn locate_script(work_dir: &str, directory_exists: bool, script: &str) -> (result: Result<
        String,
        DeployError,
    >)
        ensures
            match result {
                Ok(path) => directory_exists && script_path(script@) == Ok::<
                    Seq<char>,
                    DeployFault,
                >(path@),
                Err(error) => if directory_exists {
                    script_path(script@) == Err::<Seq<char>, DeployFault>(error@)
                } else {
                    error@ == DeployFault::InvalidInput(COMPOSE_DIRECTORY_COMPLAINT@ + work_dir@)
                },
            },
    {
        match require_path(directory_exists, COMPOSE_DIRECTORY_COMPLAINT, work_dir) {
            Ok(_) => {},
            Err(error) => return Err(error),
        }
        normalize_script_relative_path(script)
    }

    pub fn run_script(
        work_dir: &str,
        directory_exists: bool,
        script_relative_path: &str,
        script_exists: bool,
        env: &[(String, String)],
    ) -> (result: Result<CommandSpec, DeployError>)
        ensures
            command_outcome(result) == script_command(
                work_dir@,
                directory_exists,
                script_relative_path@,
                script_exists,
                env_views(env@),
            ),
    {
        let path = match Self::locate_script(work_dir, directory_exists, script_relative_path) {
            Ok(path) => path,
            Err(error) => return Err(error),
        };
        if !script_exists {
            let full = path_below(work_dir, path.as_str());
            return Err(invalid("部署脚本不存在: ".to_owned().concat(full.as_str()).as_str()));
        }
        let mut args = match normalized_env_args(env) {
            Ok(args) => args,
            Err(error) => return Err(error),
        };
        let ghost start = texts(args@);
        let ghost script = path@;
        args.push("sh".to_owned());
        args.push(path);
        assert(texts(args@) =~= start.push("sh"@).push(script));
        Ok(command("env", args, work_dir))
    }

    pub fn run_shell_redacted(work_dir: &str, shell_command: &str) -> (spec: CommandSpec)
        ensures
            spec@ == (CommandLine {
                program: "sh"@,
                args: seq!["-lc"@, shell_command@],
                dir: work_dir@,
            }),
    {
        let args = vec!["-lc".to_owned(), shell_command.to_owned()];
        assert(texts(args@) =~= seq!["-lc"@, shell_command@]);
        command("sh", args, work_dir)
    }
}

// ---------------------------------------------------------------------------
// systemd
// ---------------------------------------------------------------------------

/// Builds the commands of systemd and of the servers that it runs.
pub struct SystemdExecutor;

pub open spec fn systemctl_line(args: Seq<Seq<char>>, work_dir: Seq<char>) -> CommandLine {
    CommandLine { program: "systemctl"@, args, dir: work_dir }
}

/// A command of systemctl about one unit.
pub open spec fn unit_command(verb: Seq<char>, unit: Seq<char>, work_dir: Seq<char>) -> Result<
    CommandLine,
    DeployFault,
> {
    match systemd_unit(unit) {
        Ok(name) => Ok(systemctl_line(seq![verb, name], work_dir)),
        Err(fault) => Err(fault),
    }
}

fn systemctl_unit(verb: &str, unit_name: &str, work_dir: &str) -> (result: Result<
    CommandSpec,
    DeployError,
>)
    ensures
        command_outcome(result) == unit_command(verb@, unit_name@, work_dir@),
{
    let unit = match normalize_systemd_unit_name(unit_name) {
        Ok(unit) => unit,
        Err(error) => return Err(error),
    };
    let ghost name = unit@;
    let args = vec![verb.to_owned(), unit];
    assert(texts(args@) =~= seq![verb@, name]);
    Ok(command("systemctl", args, work_dir))
}

pub open spec fn journal_args(unit: Seq<char>, lines: u16) -> Seq<Seq<char>> {
    seq!["-u"@, unit, "-n"@, decimal(tail_lines(lines) as nat), "--no-pager"@]
}

impl SystemdExecutor {
    pub fn daemon_reload(work_dir: &str) -> (spec: CommandSpec)
        ensures
            spec@ == systemctl_line(seq!["daemon-reload"@], work_dir@),
    {
        let args = vec!["daemon-reload".to_owned()];
        assert(texts(args@) =~= seq!["daemon-reload"@]);
        command("systemctl", args, work_dir)
    }

    pub fn link_unit(work_dir: &str, unit_path: &str, unit_exists: bool) -> (result: Result<
        CommandSpec,
        DeployError,
    >)
        ensures
            command_outcome(result) == (if unit_exists {
                Ok(systemctl_line(seq!["link"@, unit_path@], work_dir@))
            } else {
                Err(DeployFault::InvalidInput("systemd unit 文件不存在: "@ + unit_path@))
            }),
    {
        match require_path(unit_exists, "systemd unit 文件不存在: ", unit_path) {
            Ok(_) => {},
            Err(error) => return Err(error),
        }
        let args = vec!["link".to_owned(), unit_path.to_owned()];
        assert(texts(args@) =~= seq!["link"@, unit_path@]);
        Ok(command("systemctl", args, work_dir))
    }

    pub fn make_executable(work_dir: &str, artifact_path: &str) -> (result: Result<
        CommandSpec,
        DeployError,
    >)
        ensures
            command_outcome(result) == (match local_path(artifact_path@) {
                Ok(path) => Ok(
                    CommandLine { program: "chmod"@, args: seq!["+x"@, path], dir: work_dir@ },
                ),
                Err(fault) => Err(fault),
            }),
    {
        let path = match normalize_local_absolute_path(artifact_path) {
            Ok(path) => path,
            Err(error) => return Err(error),
        };
        let ghost name = path@;
        let args = vec!["+x".to_owned(), path];
        assert(texts(args@) =~= seq!["+x"@, name]);
        Ok(command("chmod", args, work_dir))
    }

    pub fn restart(work_dir: &str, unit_name: &str) -> (result: Result<CommandSpec, DeployError>)
        ensures
            command_outcome(result) == unit_command("restart"@, unit_name@, work_dir@),
    {
        systemctl_unit("restart", unit_name, work_dir)
    }

    pub fn stop(work_dir: &str, unit_name: &str) -> (result: Result<CommandSpec, DeployError>)
        ensures
            command_outcome(result) == unit_command("stop"@, unit_name@, work_dir@),
    {
        systemctl_unit("stop", unit_name, work_dir)
    }

    pub fn is_active(work_dir: &str, unit_name: &str) -> (result: Result<CommandSpec, DeployError>)
        ensures
            command_outcome(result) == unit_command("is-active"@, unit_name@, work_dir@),
    {
        systemctl_unit("is-active", unit_name, work_dir)
    }

    pub fn reload_service(work_dir: &str, service_name: &str) -> (result: Result<
        CommandSpec,
        DeployError,
    >)
        ensures
            command_outcome(result) == unit_command("reload"@, service_name@, work_dir@),
    {
        systemctl_unit("reload", service_name, work_dir)
    }

    pub fn logs(work_dir: &str, unit_name: &str) -> (result: Result<CommandSpec, DeployError>)
        ensures
            command_outcome(result) == (match systemd_unit(unit_name@) {
                Ok(name) => Ok(
                    CommandLine {
                        program: "journalctl"@,
                        args: journal_args(name, 200),
                        dir: work_dir@,
                    },
                ),
                Err(fault) => Err(fault),
            }),
    {
        Self::logs_with_tail(work_dir, unit_name, 200)
    }

    pub fn logs_with_tail(work_dir: &str, unit_name: &str, lines: u16) -> (result: Result<
        CommandSpec,
        DeployError,
    >)
        ensures
            command_outcome(result) == (match systemd_unit(unit_name@) {
                Ok(name) => Ok(
                    CommandLine {
                        program: "journalctl"@,
                        args: journal_args(name, lines),
                        dir: work_dir@,
                    },
                ),
                Err(fault) => Err(fault),
            }),
    {
        let unit = match normalize_systemd_unit_name(unit_name) {
            Ok(unit) => unit,
            Err(error) => return Err(error),
        };
        let count = natural_text(normalize_log_tail_lines(lines) as u64);
        let ghost name = unit@;
        let args = vec!["-u".to_owned(), unit, "-n".to_owned(), count, "--no-pager".to_owned()];
        assert(texts(args@) =~= journal_args(name, lines));
        Ok(command("journalctl", args, work_dir))
    }

    pub fn caddy_validate(work_dir: &str, config_path: &str) -> (result: Result<
        CommandSpec,
        DeployError,
    >)
        ensures
            command_outcome(result) == (match local_path(config_path@) {
                Ok(path) => Ok(
                    CommandLine {
                        program: "caddy"@,
                        args: seq!["validate"@, "--adapter"@, "caddyfile"@, "--config"@, path],
                        dir: work_dir@,
                    },
                ),
                Err(fault) => Err(fault),
            }),
    {
        let path = match normalize_local_absolute_path(config_path) {
            Ok(path) => path,
            Err(error) => return Err(error),
        };
        let ghost name = path@;
        let args = vec![
            "validate".to_owned(),
            "--adapter".to_owned(),
            "caddyfile".to_owned(),
            "--config".to_owned(),
            path,
        ];
        assert(texts(args@) =~= seq!["validate"@, "--adapter"@, "caddyfile"@, "--config"@, name]);
        Ok(command("caddy", args, work_dir))
    }

    pub fn nginx_validate(work_dir: &str, config_path: &str) -> (result: Result<
        CommandSpec,
        DeployError,
    >)
        ensures
            command_outcome(result) == (match local_path(config_path@) {
                Ok(path) => Ok(
                    CommandLine {
                        program: "nginx"@,
                        args: seq!["-t"@, "-c"@, path],
                        dir: work_dir@,
                    },
                ),
                Err(fault) => Err(fault),
            }),
    {
        let path = match normalize_local_absolute_path(config_path) {
            Ok(path) => path,
            Err(error) => return Err(error),
        };
        let ghost name = path@;
        let args = vec!["-t".to_owned(), "-c".to_owned(), path];
        assert(texts(args@) =~= seq!["-t"@, "-c"@, name]);
        Ok(command("nginx", args, work_dir))
    }
}

/// The output of a command is what both streams hold, without white space around either: the
/// standard output comes first, and there is a line feed only between two texts.
pub proof fn outputs_hold_both_streams(stdout: Seq<char>, stderr: Seq<char>)
    ensures
        trimmed(stdout).len() > 0 && trimmed(stderr).len() > 0 ==> combined(stdout, stderr)
            == trimmed(stdout) + seq!['\n'] + trimmed(stderr),
        trimmed(stdout).len() == 0 ==> combined(stdout, stderr) == trimmed(stderr),
        trimmed(stderr).len() == 0 ==> combined(stdout, stderr) == trimmed(stdout),
{
    reveal_strlit("\n");
    assert("\n"@ =~= seq!['\n']);
    if trimmed(stdout).len() == 0 {
        assert(trimmed(stdout) =~= Seq::empty());
    }
    if trimmed(stderr).len() == 0 {
        assert(trimmed(stderr) =~= Seq::empty());
    }
}

/// A command is shown with its arguments in their order, a space before each.
pub proof fn arguments_are_shown_in_order(
    program: Seq<char>,
    args: Seq<Seq<char>>,
    arg: Seq<char>,
)
    ensures
        rendered(program, Seq::empty()) == program,
        rendered(program, args.push(arg)) == rendered(program, args) + seq![' '] + arg,
{
    reveal_strlit(" ");
    assert(" "@ =~= seq![' ']);
    let all = args.push(arg);
    assert(all.drop_last() =~= args);
    if args.len() > 0 {
        assert(joined(all, " "@) == joined(args, " "@) + " "@ + arg);
        assert(rendered(program, all) =~= rendered(program, args) + seq![' '] + arg);
    }
}

/// Variables are handed over in their order, each under the name that is accepted and with the
/// value that was given; and none is handed over if one of the names is refused.
pub proof fn variables_are_handed_over(env: Seq<(Seq<char>, Seq<char>)>)
    ensures
        accepted_env(env) is Ok <==> forall|i: int|
            0 <= i < env.len() ==> env_name((#[trigger] env[i]).0) is Ok,
        accepted_env(env) is Ok ==> {
            &&& accepted_env(env)->Ok_0.len() == env.len()
            &&& forall|i: int|
                0 <= i < env.len() ==> (#[trigger] accepted_env(env)->Ok_0[i]) == (
                    env_name(env[i].0)->Ok_0,
                    env[i].1,
                )
        },
    decreases env.len(),
{
    if env.len() > 0 {
        let before = env.drop_last();
        variables_are_handed_over(before);
        if forall|i: int| 0 <= i < env.len() ==> env_name((#[trigger] env[i]).0) is Ok {
            assert forall|i: int| 0 <= i < before.len() implies env_name(
                (#[trigger] before[i]).0,
            ) is Ok by {
                assert(env[i] == before[i]);
            }
            assert(env_name(env[env.len() - 1].0) is Ok);
        }
        if accepted_env(env) is Ok {
            assert forall|i: int| 0 <= i < env.len() implies env_name(
                (#[trigger] env[i]).0,
            ) is Ok by {
                if i < before.len() {
                    assert(before[i] == env[i]);
                }
            }
            assert forall|i: int| 0 <= i < env.len() implies (
            #[trigger] accepted_env(env)->Ok_0[i]) == (env_name(env[i].0)->Ok_0, env[i].1) by {
                if i < before.len() {
                    assert(before[i] == env[i]);
                    assert(accepted_env(before)->Ok_0[i] == (
                        env_name(before[i].0)->Ok_0,
                        before[i].1,
                    ));
                }
            }
        }
    }
}

/// A script is run exactly if its directory and the script itself are there and its path and its
/// variables are accepted. It is run by the shell, in its directory, with its variables set.
pub proof fn scripts_run_with_their_variables(
    work_dir: Seq<char>,
    directory_exists: bool,
    script: Seq<char>,
    script_exists: bool,
    env: Seq<(Seq<char>, Seq<char>)>,
)
    ensures
        ({
            let result = script_command(work_dir, directory_exists, script, script_exists, env);
            &&& result is Ok <==> directory_exists && script_exists && script_path(script) is Ok
                && forall|i: int| 0 <= i < env.len() ==> env_name((#[trigger] env[i]).0) is Ok
            &&& result is Ok ==> {
                let line = result->Ok_0;
                let n = env.len() as int;
                &&& line.program == seq!['e', 'n', 'v']
                &&& line.dir == work_dir
                &&& line.args.len() == n + 2
                &&& line.args[n] == seq!['s', 'h']
                &&& line.args[n + 1] == script_path(script)->Ok_0
                &&& forall|i: int|
                    0 <= i < n ==> #[trigger] line.args[i] == env_name(env[i].0)->Ok_0 + seq!['=']
                        + env[i].1
            }
        }),
{
    reveal_strlit("env");
    reveal_strlit("sh");
    reveal_strlit("=");
    variables_are_handed_over(env);
    assert("="@ =~= seq!['=']);
    assert("env"@ =~= seq!['e', 'n', 'v']);
    assert("sh"@ =~= seq!['s', 'h']);
    let result = script_command(work_dir, directory_exists, script, script_exists, env);
    if result is Ok {
        let pairs = accepted_env(env)->Ok_0;
        assert forall|i: int| 0 <= i < env.len() implies #[trigger] result->Ok_0.args[i]
            == env_name(env[i].0)->Ok_0 + seq!['='] + env[i].1 by {
            assert(pairs[i] == (env_name(env[i].0)->Ok_0, env[i].1));
        }
    }
}

/// The latest lines of a log are shown without colours and without a pager, and as many as are
/// allowed of those that were asked for.
pub proof fn logs_show_their_latest_lines(unit: Seq<char>, lines: u16)
    ensures
        log_args(lines) == seq![
            "compose"@,
            "logs"@,
            "--tail"@,
            decimal(
                if lines < 50 {
                    50
                } else if lines > 1000 {
                    1000
                } else {
                    lines as nat
                },
            ),
            "--no-color"@,
        ],
        journal_args(unit, lines) == seq![
            "-u"@,
            unit,
            "-n"@,
            decimal(
                if lines < 50 {
                    50
                } else if lines > 1000 {
                    1000
                } else {
                    lines as nat
                },
            ),
            "--no-pager"@,
        ],
{
}

/// A command about a unit of systemd names the unit that is accepted, and is made for no other.
pub proof fn units_are_named_to_systemd(verb: Seq<char>, unit: Seq<char>, work_dir: Seq<char>)
    ensures
        unit_command(verb, unit, work_dir) is Ok <==> systemd_unit(unit) is Ok,
        unit_command(verb, unit, work_dir) matches Ok(line) ==> line.program == "systemctl"@
            && line.args == seq![verb, systemd_unit(unit)->Ok_0] && line.dir == work_dir,
        docker_line(seq![verb], work_dir).program == "docker"@,
        docker_line(seq![verb], work_dir).args == seq![verb],
        docker_line(seq![verb], work_dir).dir == work_dir,
{
}

} // verus!
