//! Commands that run on another host over SSH, and the keys of the hosts that are known.

use vstd::prelude::*;

use super::commands::{
    accepted_env, command_outcome, env_views, journal_args, normalized_env_pairs, CommandLine,
    CommandResult, CommandSpec,
};
use super::inputs::{
    compose_service, health_endpoint, invalid, normalize_compose_service_name,
    normalize_log_tail_lines, normalize_remote_absolute_path, normalize_remote_health_endpoint,
    normalize_remote_tcp_endpoint, normalize_script_relative_path, normalize_ssh_address,
    normalize_ssh_user, normalize_systemd_unit_name, quoted, remote_path, script_path, shell_quote,
    ssh_address, ssh_user, systemd_unit, tail_lines, tcp_endpoint, DeployError, DeployFault,
};
use crate::decimal::{decimal, natural_text};
use crate::deployment_retention::deletion::below;
use crate::pieces::{lines, option_text, split_lines};
use crate::text::{blank, is_blank, lemma_texts_push, texts, trim, trimmed};
use crate::urls::option_str;

verus! {

// ---------------------------------------------------------------------------
// Targets
// ---------------------------------------------------------------------------

/// The name of a file, where it has one.
pub open spec fn named_file(path: Option<Seq<char>>) -> Option<Seq<char>> {
    match path {
        Some(name) => if name.len() > 0 {
            Some(name)
        } else {
            None
        },
        None => None,
    }
}

/// The address and the port are those of a host.
pub open spec fn is_host(address: Seq<char>, port: i64) -> bool {
    ssh_address(address) is Ok && 1 <= port <= 65535
}

/// An account on another host.
#[derive(Clone, Debug)]
pub struct SshTarget {
    user: String,
    address: String,
    port: u16,
    identity_file: Option<String>,
}

/// A target as a mathematical value.
pub struct TargetState {
    pub user: Seq<char>,
    pub address: Seq<char>,
    pub port: u16,
    pub identity_file: Option<Seq<char>>,
}

impl View for SshTarget {
    type V = TargetState;

    closed spec fn view(&self) -> TargetState {
        TargetState {
            user: self.user@,
            address: self.address@,
            port: self.port,
            identity_file: option_text(self.identity_file),
        }
    }
}

pub open spec fn port_fault() -> DeployFault {
    DeployFault::InvalidInput("SSH 端口需要在 1 到 65535 之间"@)
}

fn accept_port(port: i64) -> (result: Result<u16, DeployError>)
    ensures
        match result {
            Ok(number) => 1 <= port <= 65535 && number == port,
            Err(error) => !(1 <= port <= 65535) && error@ == port_fault(),
        },
{
    if 1 <= port && port <= 65535 {
        Ok(port as u16)
    } else {
        Err(invalid("SSH 端口需要在 1 到 65535 之间"))
    }
}

/// The target that the given values make.
pub open spec fn target_of(user: Seq<char>, address: Seq<char>, port: i64) -> Result<
    TargetState,
    DeployFault,
> {
    match ssh_user(user) {
        Err(fault) => Err(fault),
        Ok(name) => match ssh_address(address) {
            Err(fault) => Err(fault),
            Ok(host) => if 1 <= port <= 65535 {
                Ok(
                    TargetState {
                        user: name,
                        address: host,
                        port: port as u16,
                        identity_file: None,
                    },
                )
            } else {
                Err(port_fault())
            },
        },
    }
}

impl TargetState {
    pub open spec fn destination(self) -> Seq<char> {
        self.user + "@"@ + self.address
    }
}

impl SshTarget {
    pub fn new(user: &str, address: &str, port: i64) -> (result: Result<SshTarget, DeployError>)
        ensures
            match result {
                Ok(target) => target_of(user@, address@, port) == Ok::<TargetState, DeployFault>(
                    target@,
                ),
                Err(error) => target_of(user@, address@, port) == Err::<TargetState, DeployFault>(
                    error@,
                ),
            },
    {
        let user = match normalize_ssh_user(user) {
            Ok(user) => user,
            Err(error) => return Err(error),
        };
        let address = match normalize_ssh_address(address) {
            Ok(address) => address,
            Err(error) => return Err(error),
        };
        match accept_port(port) {
            Ok(number) => Ok(SshTarget { user, address, port: number, identity_file: None }),
            Err(error) => Err(error),
        }
    }

    /// The target with a file that holds its private key; an empty path is none.
    pub fn with_identity_file(self, identity_file: Option<String>) -> (target: SshTarget)
        ensures
            target@ == (TargetState {
                identity_file: named_file(option_text(identity_file)),
                ..self@
            }),
    {
        let kept = match identity_file {
            Some(path) => {
                if path.as_str().is_empty() {
                    None
                } else {
                    Some(path)
                }
            },
            None => None,
        };
        SshTarget { user: self.user, address: self.address, port: self.port, identity_file: kept }
    }

    pub fn identity_file(&self) -> (path: Option<&str>)
        ensures
            option_str(path) == self@.identity_file,
    {
        match &self.identity_file {
            Some(path) => Some(path.as_str()),
            None => None,
        }
    }

    pub fn address(&self) -> (address: &str)
        ensures
            address@ == self@.address,
    {
        self.address.as_str()
    }

    pub fn port(&self) -> (port: u16)
        ensures
            port == self@.port,
    {
        self.port
    }

    pub fn destination(&self) -> (destination: String)
        ensures
            destination@ == self@.destination(),
    {
        self.user.clone().concat("@").concat(self.address.as_str())
    }
}

// ---------------------------------------------------------------------------
// Known hosts
// ---------------------------------------------------------------------------

/// The file of the keys of known hosts, below the data directory.
pub fn ssh_known_hosts_file(data_dir: &str) -> (path: String)
    ensures
        path@ == below(below(data_dir@, "ssh"@), "known_hosts"@),
{
    let directory = super::commands::path_below(data_dir, "ssh");
    super::commands::path_below(directory.as_str(), "known_hosts")
}

/// How a host is looked up: by its address, with the port where it is not the usual one.
pub open spec fn lookup_key(address: Seq<char>, port: u16) -> Seq<char> {
    if port == 22 {
        address
    } else {
        "["@ + address + "]:"@ + decimal(port as nat)
    }
}

pub fn ssh_known_host_lookup_key(address: &str, port: u16) -> (key: String)
    ensures
        key@ == lookup_key(address@, port),
{
    if port == 22 {
        address.to_owned()
    } else {
        "[".to_owned().concat(address).concat("]:").concat(natural_text(port as u64).as_str())
    }
}

/// The options that let SSH accept the hosts of a file and no others.
pub open spec fn known_hosts_args(file: Option<Seq<char>>) -> Seq<Seq<char>> {
    match file {
        Some(path) => seq![
            "-o"@,
            "UserKnownHostsFile="@ + path,
            "-o"@,
            "StrictHostKeyChecking=yes"@,
        ],
        None => Seq::empty(),
    }
}

fn append_args(args: &mut Vec<String>, more: Vec<String>)
    ensures
        texts(final(args)@) == texts(old(args)@) + texts(more@),
{
    let mut rest = more;
    let ghost added = texts(more@);
    let ghost before = texts(args@);
    args.append(&mut rest);
    assert(texts(args@) =~= before + added);
}

pub fn append_ssh_known_hosts_args(args: &mut Vec<String>, known_hosts_file: Option<&str>)
    ensures
        texts(final(args)@) == texts(old(args)@) + known_hosts_args(option_str(known_hosts_file)),
{
    match known_hosts_file {
        Some(path) => {
            let more = vec![
                "-o".to_owned(),
                "UserKnownHostsFile=".to_owned().concat(path),
                "-o".to_owned(),
                "StrictHostKeyChecking=yes".to_owned(),
            ];
            assert(texts(more@) =~= known_hosts_args(Some(path@)));
            append_args(args, more);
        },
        None => {
            assert(texts(args@) + known_hosts_args(None) =~= texts(args@));
        },
    }
}

/// A host whose key is looked up.
#[derive(Clone, Debug)]
pub struct KnownHost {
    pub address: String,
    pub port: u16,
    pub lookup_key: String,
}

#[derive(Clone, Debug)]
pub struct SshKnownHostResult {
    pub lookup_key: String,
    pub known_hosts_file: String,
    pub added: bool,
}

/// Begins to make sure that the key of a host is known.
pub fn known_host(address: &str, port: i64) -> (result: Result<KnownHost, DeployError>)
    ensures
        match ssh_address(address@) {
            Err(fault) => result is Err && result->Err_0@ == fault,
            Ok(host) => if 1 <= port <= 65535 {
                &&& result is Ok
                &&& result->Ok_0.address@ == host
                &&& result->Ok_0.port == port
                &&& result->Ok_0.lookup_key@ == lookup_key(host, port as u16)
            } else {
                result is Err && result->Err_0@ == port_fault()
            },
        },
        result is Ok <==> is_host(address@, port),
{
    let host = match normalize_ssh_address(address) {
        Ok(host) => host,
        Err(error) => return Err(error),
    };
    match accept_port(port) {
        Ok(number) => {
            let lookup_key = ssh_known_host_lookup_key(host.as_str(), number);
            Ok(KnownHost { address: host, port: number, lookup_key })
        },
        Err(error) => Err(error),
    }
}

/// The command that looks up a host.
pub fn known_host_lookup(lookup_key: &str, known_hosts_file: &str) -> (spec: CommandSpec)
    ensures
        spec@ == (CommandLine {
            program: "ssh-keygen"@,
            args: seq!["-F"@, lookup_key@, "-f"@, known_hosts_file@],
            dir: "."@,
        }),
{
    let args = vec![
        "-F".to_owned(),
        lookup_key.to_owned(),
        "-f".to_owned(),
        known_hosts_file.to_owned(),
    ];
    assert(texts(args@) =~= seq!["-F"@, lookup_key@, "-f"@, known_hosts_file@]);
    CommandSpec { program: "ssh-keygen".to_owned(), args, current_dir: ".".to_owned() }
}

/// The command that asks a host for its keys.
pub fn known_host_scan(address: &str, port: u16) -> (spec: CommandSpec)
    ensures
        spec@ == (CommandLine {
            program: "ssh-keyscan"@,
            args: seq!["-p"@, decimal(port as nat), "-T"@, "10"@, "-H"@, address@],
            dir: "."@,
        }),
{
    let number = natural_text(port as u64);
    let args = vec![
        "-p".to_owned(),
        number,
        "-T".to_owned(),
        "10".to_owned(),
        "-H".to_owned(),
        address.to_owned(),
    ];
    assert(texts(args@) =~= seq![
        "-p"@,
        decimal(port as nat),
        "-T"@,
        "10"@,
        "-H"@,
        address@,
    ]);
    CommandSpec { program: "ssh-keyscan".to_owned(), args, current_dir: ".".to_owned() }
}

/// The keys among the lines of a scan: the lines that are neither blank nor a comment.
pub open spec fn scanned_keys(all: Seq<Seq<char>>) -> Seq<Seq<char>>
    decreases all.len(),
{
    if all.len() == 0 {
        all
    } else {
        let before = scanned_keys(all.drop_last());
        let line = trimmed(all.last());
        if line.len() == 0 || line[0] == '#' {
            before
        } else {
            before.push(line)
        }
    }
}

pub open spec fn host_and_port(address: Seq<char>, port: u16) -> Seq<char> {
    address + ":"@ + decimal(port as nat)
}

/// What a scan yields: the keys to be written down, each on a line of its own.
pub open spec fn scan_outcome(
    status: Option<i32>,
    stdout: Seq<char>,
    stderr: Seq<char>,
    address: Seq<char>,
    port: u16,
) -> Result<Seq<Seq<char>>, DeployFault> {
    if status != Some(0i32) {
        let output = super::commands::combined(stdout, stderr);
        Err(
            DeployFault::Command(
                "采集 SSH 主机指纹失败: "@ + (if is_blank(output) {
                    host_and_port(address, port)
                } else {
                    output
                }),
            ),
        )
    } else {
        let keys = scanned_keys(lines(stdout));
        if keys.len() == 0 {
            Err(
                DeployFault::Command(
                    "采集 SSH 主机指纹失败: "@ + host_and_port(address, port)
                        + " 没有返回有效指纹"@,
                ),
            )
        } else {
            Ok(keys)
        }
    }
}

fn host_text(address: &str, port: u16) -> (text: String)
    ensures
        text@ == host_and_port(address@, port),
{
    address.to_owned().concat(":").concat(natural_text(port as u64).as_str())
}

/// The keys that a scan found.
pub fn known_host_entries(result: &CommandResult, address: &str, port: u16) -> (entries: Result<
    Vec<String>,
    DeployError,
>)
    ensures
        match entries {
            Ok(keys) => scan_outcome(
                result.status_code,
                result.stdout@,
                result.stderr@,
                address@,
                port,
            ) == Ok::<Seq<Seq<char>>, DeployFault>(texts(keys@)),
            Err(error) => scan_outcome(
                result.status_code,
                result.stdout@,
                result.stderr@,
                address@,
                port,
            ) == Err::<Seq<Seq<char>>, DeployFault>(error@),
        },
{
    if !result.success() {
        let output = result.combined_output();
        let detail = if blank(output.as_str()) {
            host_text(address, port)
        } else {
            output
        };
        return Err(
            DeployError::Command("采集 SSH 主机指纹失败: ".to_owned().concat(detail.as_str())),
        );
    }
    let all = split_lines(result.stdout.as_str());
    let ghost model = texts(all@);
    let mut keys: Vec<String> = Vec::new();
    let mut i: usize = 0;
    assert(texts(keys@) =~= scanned_keys(model.take(0)));
    while i < all.len()
        invariant
            i <= all@.len(),
            model == texts(all@),
            texts(keys@) == scanned_keys(model.take(i as int)),
        decreases all@.len() - i,
    {
        assert(model.take(i + 1).drop_last() =~= model.take(i as int));
        assert(model[i as int] == all@[i as int]@);
        let line = trim(all[i].as_str());
        let chars = crate::text::chars_of(line.as_str());
        if chars.len() > 0 && chars[0] != '#' {
            proof {
                lemma_texts_push(keys@, line);
            }
            keys.push(line);
        }
        i = i + 1;
    }
    assert(model.take(i as int) =~= model);
    if keys.len() == 0 {
        return Err(
            DeployError::Command(
                "采集 SSH 主机指纹失败: ".to_owned().concat(
                    host_text(address, port).as_str(),
                ).concat(" 没有返回有效指纹"),
            ),
        );
    }
    Ok(keys)
}

/// The outcome once the host was looked up: at first, or again after its keys were written down.
pub fn known_host_outcome(
    host: &KnownHost,
    known_hosts_file: &str,
    keys_were_added: bool,
    found: bool,
) -> (result: Result<Option<SshKnownHostResult>, DeployError>)
    ensures
        match result {
            Ok(Some(done)) => {
                &&& found
                &&& done.lookup_key@ == host.lookup_key@
                &&& done.known_hosts_file@ == known_hosts_file@
                &&& done.added == keys_were_added
            },
            Ok(None) => !found && !keys_were_added,
            Err(error) => !found && keys_were_added && error@ == DeployFault::Command(
                "已采集 SSH 主机指纹，但未能写入 known_hosts: "@ + host.lookup_key@,
            ),
        },
{
    if found {
        return Ok(
            Some(
                SshKnownHostResult {
                    lookup_key: host.lookup_key.clone(),
                    known_hosts_file: known_hosts_file.to_owned(),
                    added: keys_were_added,
                },
            ),
        );
    }
    if keys_were_added {
        return Err(
            DeployError::Command(
                "已采集 SSH 主机指纹，但未能写入 known_hosts: ".to_owned().concat(
                    host.lookup_key.as_str(),
                ),
            ),
        );
    }
    Ok(None)
}

// ---------------------------------------------------------------------------
// Commands
// ---------------------------------------------------------------------------

/// Builds the commands that run on another host.
#[derive(Clone, Debug)]
pub struct SshExecutor {
    known_hosts_file: Option<String>,
}

/// The options that name a private key.
pub open spec fn identity_args(path: Option<Seq<char>>) -> Seq<Seq<char>> {
    match path {
        Some(file) => seq!["-i"@, file, "-o"@, "IdentitiesOnly=yes"@],
        None => Seq::empty(),
    }
}

/// A command that SSH runs on the target.
pub open spec fn ssh_line(
    known_hosts: Option<Seq<char>>,
    target: TargetState,
    remote: Seq<Seq<char>>,
    dir: Seq<char>,
) -> CommandLine {
    CommandLine {
        program: "ssh"@,
        args: seq!["-p"@, decimal(target.port as nat)] + known_hosts_args(known_hosts)
            + identity_args(target.identity_file) + seq![target.destination()] + remote,
        dir,
    }
}

/// A command of Compose on the target.
pub open spec fn remote_compose(
    known_hosts: Option<Seq<char>>,
    target: TargetState,
    work_dir: Seq<char>,
    args: Seq<Seq<char>>,
    dir: Seq<char>,
) -> Result<CommandLine, DeployFault> {
    match remote_path(work_dir) {
        Err(fault) => Err(fault),
        Ok(path) => Ok(
            ssh_line(
                known_hosts,
                target,
                seq!["cd"@, path, "&&"@, "docker"@, "compose"@] + args,
                dir,
            ),
        ),
    }
}

/// The assignments of a command line, each preceded by a space.
pub open spec fn env_assignments(pairs: Seq<(Seq<char>, Seq<char>)>) -> Seq<char>
    decreases pairs.len(),
{
    if pairs.len() == 0 {
        Seq::empty()
    } else {
        env_assignments(pairs.drop_last()) + " "@ + pairs.last().0 + "="@ + quoted(pairs.last().1)
    }
}

/// The shell command that runs a script on the target.
pub open spec fn remote_script(
    work_dir: Seq<char>,
    script: Seq<char>,
    pairs: Seq<(Seq<char>, Seq<char>)>,
) -> Seq<char> {
    "cd "@ + quoted(work_dir) + " && env"@ + env_assignments(pairs) + " sh "@ + quoted(
        work_dir + "/"@ + script,
    )
}

/// A number of seconds between one and sixty.
pub open spec fn bounded_seconds(seconds: u64) -> u64 {
    if seconds < 1 {
        1
    } else if seconds > 60 {
        60
    } else {
        seconds
    }
}

fn seconds_text(seconds: u64) -> (text: String)
    ensures
        text@ == decimal(bounded_seconds(seconds) as nat),
{
    let bounded: u64 = if seconds < 1 {
        1
    } else if seconds > 60 {
        60
    } else {
        seconds
    };
    natural_text(bounded)
}

impl SshExecutor {
    pub closed spec fn known_hosts(self) -> Option<Seq<char>> {
        option_text(self.known_hosts_file)
    }

    pub fn new() -> (executor: SshExecutor)
        ensures
            executor.known_hosts() is None,
    {
        SshExecutor { known_hosts_file: None }
    }

    pub fn with_known_hosts_file(self, known_hosts_file: String) -> (executor: SshExecutor)
        ensures
            executor.known_hosts() == Some(known_hosts_file@),
    {
        SshExecutor { known_hosts_file: Some(known_hosts_file) }
    }

    pub fn known_hosts_file(&self) -> (path: Option<&str>)
        ensures
            option_str(path) == self.known_hosts(),
    {
        match &self.known_hosts_file {
            Some(path) => Some(path.as_str()),
            None => None,
        }
    }

    fn options(&self, target: &SshTarget, port_option: &str) -> (args: Vec<String>)
        ensures
            texts(args@) == seq![port_option@, decimal(target@.port as nat)] + known_hosts_args(
                self.known_hosts(),
            ) + identity_args(target@.identity_file),
    {
        let number = natural_text(target.port as u64);
        let mut args = vec![port_option.to_owned(), number];
        assert(texts(args@) =~= seq![port_option@, decimal(target@.port as nat)]);
        append_ssh_known_hosts_args(&mut args, self.known_hosts_file());
        match target.identity_file() {
            Some(path) => {
                let more = vec![
                    "-i".to_owned(),
                    path.to_owned(),
                    "-o".to_owned(),
                    "IdentitiesOnly=yes".to_owned(),
                ];
                assert(texts(more@) =~= identity_args(Some(path@)));
                append_args(&mut args, more);
            },
            None => {
                assert(texts(args@) + identity_args(None) =~= texts(args@));
            },
        }
        args
    }

    fn run_ssh(&self, target: &SshTarget, local_work_dir: &str, remote: Vec<String>) -> (spec:
        CommandSpec)
        ensures
            spec@ == ssh_line(self.known_hosts(), target@, texts(remote@), local_work_dir@),
    {
        let mut args = self.options(target, "-p");
        let ghost start = texts(args@);
        let destination = target.destination();
        proof {
            lemma_texts_push(args@, destination);
        }
        args.push(destination);
        assert(texts(args@) =~= start + seq![target@.destination()]);
        append_args(&mut args, remote);
        CommandSpec { program: "ssh".to_owned(), args, current_dir: local_work_dir.to_owned() }
    }

    pub fn mkdir_all(&self, target: &SshTarget, local_work_dir: &str, path: &str) -> (result:
        Result<CommandSpec, DeployError>)
        ensures
            command_outcome(result) == (match remote_path(path@) {
                Ok(directory) => Ok(
                    ssh_line(
                        self.known_hosts(),
                        target@,
                        seq!["mkdir"@, "-p"@, directory],
                        local_work_dir@,
                    ),
                ),
                Err(fault) => Err(fault),
            }),
    {
        let directory = match normalize_remote_absolute_path(path) {
            Ok(directory) => directory,
            Err(error) => return Err(error),
        };
        let ghost name = directory@;
        let args = vec!["mkdir".to_owned(), "-p".to_owned(), directory];
        assert(texts(args@) =~= seq!["mkdir"@, "-p"@, name]);
        Ok(self.run_ssh(target, local_work_dir, args))
    }

    /// Copies a file of this host, given whether it is there.
    pub fn copy_file(
        &self,
        target: &SshTarget,
        local_work_dir: &str,
        local_path: &str,
        local_exists: bool,
        path: &str,
    ) -> (result: Result<CommandSpec, DeployError>)
        ensures
            command_outcome(result) == (if !local_exists {
                Err(DeployFault::InvalidInput("本地待同步文件不存在: "@ + local_path@))
            } else {
                match remote_path(path@) {
                    Ok(destination) => Ok(
                        CommandLine {
                            program: "scp"@,
                            args: seq!["-P"@, decimal(target@.port as nat)] + known_hosts_args(
                                self.known_hosts(),
                            ) + identity_args(target@.identity_file) + seq![
                                local_path@,
                                target@.destination() + ":"@ + destination,
                            ],
                            dir: local_work_dir@,
                        },
                    ),
                    Err(fault) => Err(fault),
                }
            }),
    {
        match super::commands::require_path(
            local_exists,
            "本地待同步文件不存在: ",
            local_path,
        ) {
            Ok(_) => {},
            Err(error) => return Err(error),
        }
        let destination = match normalize_remote_absolute_path(path) {
            Ok(destination) => destination,
            Err(error) => return Err(error),
        };
        let mut args = self.options(target, "-P");
        let place = target.destination().concat(":").concat(destination.as_str());
        let ghost name = place@;
        let more = vec![local_path.to_owned(), place];
        assert(texts(more@) =~= seq![local_path@, name]);
        append_args(&mut args, more);
        Ok(
            CommandSpec {
                program: "scp".to_owned(),
                args,
                current_dir: local_work_dir.to_owned(),
            },
        )
    }

    fn run_remote_compose(
        &self,
        target: &SshTarget,
        local_work_dir: &str,
        remote_work_dir: &str,
        args: Vec<String>,
    ) -> (result: Result<CommandSpec, DeployError>)
        ensures
            command_outcome(result) == remote_compose(
                self.known_hosts(),
                target@,
                remote_work_dir@,
                texts(args@),
                local_work_dir@,
            ),
    {
        let path = match normalize_remote_absolute_path(remote_work_dir) {
            Ok(path) => path,
            Err(error) => return Err(error),
        };
        let ghost name = path@;
        let mut all = vec![
            "cd".to_owned(),
            path,
            "&&".to_owned(),
            "docker".to_owned(),
            "compose".to_owned(),
        ];
        assert(texts(all@) =~= seq!["cd"@, name, "&&"@, "docker"@, "compose"@]);
        append_args(&mut all, args);
        Ok(self.run_ssh(target, local_work_dir, all))
    }

    pub fn compose_config(
        &self,
        target: &SshTarget,
        local_work_dir: &str,
        remote_work_dir: &str,
    ) -> (result: Result<CommandSpec, DeployError>)
        ensures
            command_outcome(result) == remote_compose(
                self.known_hosts(),
                target@,
                remote_work_dir@,
                seq!["config"@],
                local_work_dir@,
            ),
    {
        let args = vec!["config".to_owned()];
        assert(texts(args@) =~= seq!["config"@]);
        self.run_remote_compose(target, local_work_dir, remote_work_dir, args)
    }

    pub fn compose_up(
        &self,
        target: &SshTarget,
        local_work_dir: &str,
        remote_work_dir: &str,
    ) -> (result: Result<CommandSpec, DeployError>)
        ensures
            command_outcome(result) == remote_compose(
                self.known_hosts(),
                target@,
                remote_work_dir@,
                seq!["up"@, "-d"@, "--remove-orphans"@],
                local_work_dir@,
            ),
    {
        let args = vec!["up".to_owned(), "-d".to_owned(), "--remove-orphans".to_owned()];
        assert(texts(args@) =~= seq!["up"@, "-d"@, "--remove-orphans"@]);
        self.run_remote_compose(target, local_work_dir, remote_work_dir, args)
    }

    pub fn compose_down(
        &self,
        target: &SshTarget,
        local_work_dir: &str,
        remote_work_dir: &str,
    ) -> (result: Result<CommandSpec, DeployError>)
        ensures
            command_outcome(result) == remote_compose(
                self.known_hosts(),
                target@,
                remote_work_dir@,
                seq!["down"@],
                local_work_dir@,
            ),
    {
        let args = vec!["down".to_owned()];
        assert(texts(args@) =~= seq!["down"@]);
        self.run_remote_compose(target, local_work_dir, remote_work_dir, args)
    }

    pub fn compose_restart(
        &self,
        target: &SshTarget,
        local_work_dir: &str,
        remote_work_dir: &str,
    ) -> (result: Result<CommandSpec, DeployError>)
        ensures
            command_outcome(result) == remote_compose(
                self.known_hosts(),
                target@,
                remote_work_dir@,
                seq!["restart"@],
                local_work_dir@,
            ),
    {
        let args = vec!["restart".to_owned()];
        assert(texts(args@) =~= seq!["restart"@]);
        self.run_remote_compose(target, local_work_dir, remote_work_dir, args)
    }

    pub fn compose_ps_running(
        &self,
        target: &SshTarget,
        local_work_dir: &str,
        remote_work_dir: &str,
    ) -> (result: Result<CommandSpec, DeployError>)
        ensures
            command_outcome(result) == remote_compose(
                self.known_hosts(),
                target@,
                remote_work_dir@,
                seq!["ps"@, "--status"@, "running"@],
                local_work_dir@,
            ),
    {
        let args = vec!["ps".to_owned(), "--status".to_owned(), "running".to_owned()];
        assert(texts(args@) =~= seq!["ps"@, "--status"@, "running"@]);
        self.run_remote_compose(target, local_work_dir, remote_work_dir, args)
    }

    pub fn compose_service_logs(
        &self,
        target: &SshTarget,
        local_work_dir: &str,
        remote_work_dir: &str,
        service_name: &str,
    ) -> (result: Result<CommandSpec, DeployError>)
        ensures
            command_outcome(result) == (match compose_service(service_name@) {
                Ok(name) => remote_compose(
                    self.known_hosts(),
                    target@,
                    remote_work_dir@,
                    seq!["logs"@, "--tail"@, decimal(200), "--no-color"@, name],
                    local_work_dir@,
                ),
                Err(fault) => Err(fault),
            }),
    {
        self.compose_service_logs_with_tail(
            target,
            local_work_dir,
            remote_work_dir,
            service_name,
            200,
        )
    }

    pub fn compose_service_logs_with_tail(
        &self,
        target: &SshTarget,
        local_work_dir: &str,
        remote_work_dir: &str,
        service_name: &str,
        count: u16,
    ) -> (result: Result<CommandSpec, DeployError>)
        ensures
            command_outcome(result) == (match compose_service(service_name@) {
                Ok(name) => remote_compose(
                    self.known_hosts(),
                    target@,
                    remote_work_dir@,
                    seq![
                        "logs"@,
                        "--tail"@,
                        decimal(tail_lines(count) as nat),
                        "--no-color"@,
                        name,
                    ],
                    local_work_dir@,
                ),
                Err(fault) => Err(fault),
            }),
    {
        let service = match normalize_compose_service_name(service_name) {
            Ok(service) => service,
            Err(error) => return Err(error),
        };
        let number = natural_text(normalize_log_tail_lines(count) as u64);
        let ghost name = service@;
        let args = vec![
            "logs".to_owned(),
            "--tail".to_owned(),
            number,
            "--no-color".to_owned(),
            service,
        ];
        assert(texts(args@) =~= seq![
            "logs"@,
            "--tail"@,
            decimal(tail_lines(count) as nat),
            "--no-color"@,
            name,
        ]);
        self.run_remote_compose(target, local_work_dir, remote_work_dir, args)
    }

    pub fn run_script(
        &self,
        target: &SshTarget,
        local_work_dir: &str,
        remote_work_dir: &str,
        script_relative_path: &str,
        env: &[(String, String)],
    ) -> (result: Result<CommandSpec, DeployError>)
        ensures
            command_outcome(result) == (match remote_path(remote_work_dir@) {
                Err(fault) => Err(fault),
                Ok(work_dir) => match script_path(script_relative_path@) {
                    Err(fault) => Err(fault),
                    Ok(script) => match accepted_env(env_views(env@)) {
                        Err(fault) => Err(fault),
                        Ok(pairs) => Ok(
                            ssh_line(
                                self.known_hosts(),
                                target@,
                                seq!["sh"@, "-lc"@, remote_script(work_dir, script, pairs)],
                                local_work_dir@,
                            ),
                        ),
                    },
                },
            }),
    {
        let work_dir = match normalize_remote_absolute_path(remote_work_dir) {
            Ok(path) => path,
            Err(error) => return Err(error),
        };
        let script = match normalize_script_relative_path(script_relative_path) {
            Ok(path) => path,
            Err(error) => return Err(error),
        };
        let pairs = match normalized_env_pairs(env) {
            Ok(pairs) => pairs,
            Err(error) => return Err(error),
        };
        let ghost model = env_views(pairs@);
        let mut assignments = String::new();
        let mut i: usize = 0;
        assert(model.take(0) =~= Seq::empty());
        while i < pairs.len()
            invariant
                i <= pairs@.len(),
                model == env_views(pairs@),
                assignments@ == env_assignments(model.take(i as int)),
            decreases pairs@.len() - i,
        {
            assert(model.take(i + 1).drop_last() =~= model.take(i as int));
            assignments.append(" ");
            assignments.append(pairs[i].0.as_str());
            assignments.append("=");
            assignments.append(shell_quote(pairs[i].1.as_str()).as_str());
            i = i + 1;
        }
        assert(model.take(i as int) =~= model);
        let place = work_dir.clone().concat("/").concat(script.as_str());
        let line = "cd ".to_owned().concat(shell_quote(work_dir.as_str()).as_str()).concat(
            " && env",
        ).concat(assignments.as_str()).concat(" sh ").concat(
            shell_quote(place.as_str()).as_str(),
        );
        let ghost text = line@;
        let args = vec!["sh".to_owned(), "-lc".to_owned(), line];
        assert(texts(args@) =~= seq!["sh"@, "-lc"@, text]);
        Ok(self.run_ssh(target, local_work_dir, args))
    }

    pub fn run_shell_redacted(
        &self,
        target: &SshTarget,
        local_work_dir: &str,
        shell_command: &str,
    ) -> (spec: CommandSpec)
        ensures
            spec@ == ssh_line(
                self.known_hosts(),
                target@,
                seq!["sh"@, "-lc"@, shell_command@],
                local_work_dir@,
            ),
    {
        let args = vec!["sh".to_owned(), "-lc".to_owned(), shell_command.to_owned()];
        assert(texts(args@) =~= seq!["sh"@, "-lc"@, shell_command@]);
        self.run_ssh(target, local_work_dir, args)
    }

    pub fn http_health_check(
        &self,
        target: &SshTarget,
        local_work_dir: &str,
        endpoint: &str,
        timeout_secs: u64,
    ) -> (result: Result<CommandSpec, DeployError>)
        ensures
            command_outcome(result) == (match health_endpoint(endpoint@, "HTTP"@) {
                Ok(address) => Ok(
                    ssh_line(
                        self.known_hosts(),
                        target@,
                        seq![
                            "curl"@,
                            "-sS"@,
                            "-L"@,
                            "-o"@,
                            "/dev/null"@,
                            "-w"@,
                            "%{http_code}"@,
                            "--max-time"@,
                            decimal(bounded_seconds(timeout_secs) as nat),
                            "--connect-timeout"@,
                            decimal(bounded_seconds(timeout_secs) as nat),
                            address,
                        ],
                        local_work_dir@,
                    ),
                ),
                Err(fault) => Err(fault),
            }),
    {
        let address = match normalize_remote_health_endpoint(endpoint, "HTTP") {
            Ok(address) => address,
            Err(error) => return Err(error),
        };
        let ghost name = address@;
        let args = vec![
            "curl".to_owned(),
            "-sS".to_owned(),
            "-L".to_owned(),
            "-o".to_owned(),
            "/dev/null".to_owned(),
            "-w".to_owned(),
            "%{http_code}".to_owned(),
            "--max-time".to_owned(),
            seconds_text(timeout_secs),
            "--connect-timeout".to_owned(),
            seconds_text(timeout_secs),
            address,
        ];
        assert(texts(args@) =~= seq![
            "curl"@,
            "-sS"@,
            "-L"@,
            "-o"@,
            "/dev/null"@,
            "-w"@,
            "%{http_code}"@,
            "--max-time"@,
            decimal(bounded_seconds(timeout_secs) as nat),
            "--connect-timeout"@,
            decimal(bounded_seconds(timeout_secs) as nat),
            name,
        ]);
        Ok(self.run_ssh(target, local_work_dir, args))
    }

    pub fn tcp_health_check(
        &self,
        target: &SshTarget,
        local_work_dir: &str,
        endpoint: &str,
        timeout_secs: u64,
    ) -> (result: Result<CommandSpec, DeployError>)
        ensures
            command_outcome(result) == (match tcp_endpoint(endpoint@) {
                Ok(place) => Ok(
                    ssh_line(
                        self.known_hosts(),
                        target@,
                        seq![
                            "nc"@,
                            "-z"@,
                            "-w"@,
                            decimal(bounded_seconds(timeout_secs) as nat),
                            place.0,
                            place.1,
                        ],
                        local_work_dir@,
                    ),
                ),
                Err(fault) => Err(fault),
            }),
    {
        let (host, port) = match normalize_remote_tcp_endpoint(endpoint) {
            Ok(place) => place,
            Err(error) => return Err(error),
        };
        let ghost place = (host@, port@);
        let args = vec![
            "nc".to_owned(),
            "-z".to_owned(),
            "-w".to_owned(),
            seconds_text(timeout_secs),
            host,
            port,
        ];
        assert(texts(args@) =~= seq![
            "nc"@,
            "-z"@,
            "-w"@,
            decimal(bounded_seconds(timeout_secs) as nat),
            place.0,
            place.1,
        ]);
        Ok(self.run_ssh(target, local_work_dir, args))
    }

    pub fn daemon_reload(&self, target: &SshTarget, local_work_dir: &str) -> (spec: CommandSpec)
        ensures
            spec@ == ssh_line(
                self.known_hosts(),
                target@,
                seq!["systemctl"@, "daemon-reload"@],
                local_work_dir@,
            ),
    {
        let args = vec!["systemctl".to_owned(), "daemon-reload".to_owned()];
        assert(texts(args@) =~= seq!["systemctl"@, "daemon-reload"@]);
        self.run_ssh(target, local_work_dir, args)
    }

    /// The outcome of a command that names a path on the target.
    pub open spec fn with_path(
        self,
        target: TargetState,
        start: Seq<Seq<char>>,
        path: Seq<char>,
        dir: Seq<char>,
    ) -> Result<CommandLine, DeployFault> {
        match remote_path(path) {
            Ok(place) => Ok(ssh_line(self.known_hosts(), target, start.push(place), dir)),
            Err(fault) => Err(fault),
        }
    }

    fn run_with_path(
        &self,
        target: &SshTarget,
        local_work_dir: &str,
        start: Vec<String>,
        path: &str,
    ) -> (result: Result<CommandSpec, DeployError>)
        ensures
            command_outcome(result) == self.with_path(
                target@,
                texts(start@),
                path@,
                local_work_dir@,
            ),
    {
        let place = match normalize_remote_absolute_path(path) {
            Ok(place) => place,
            Err(error) => return Err(error),
        };
        let mut args = start;
        proof {
            lemma_texts_push(args@, place);
        }
        args.push(place);
        Ok(self.run_ssh(target, local_work_dir, args))
    }

    pub fn link_unit(&self, target: &SshTarget, local_work_dir: &str, unit_path: &str) -> (result:
        Result<CommandSpec, DeployError>)
        ensures
            command_outcome(result) == self.with_path(
                target@,
                seq!["systemctl"@, "link"@],
                unit_path@,
                local_work_dir@,
            ),
    {
        let start = vec!["systemctl".to_owned(), "link".to_owned()];
        assert(texts(start@) =~= seq!["systemctl"@, "link"@]);
        self.run_with_path(target, local_work_dir, start, unit_path)
    }

    pub fn make_executable(
        &self,
        target: &SshTarget,
        local_work_dir: &str,
        artifact_path: &str,
    ) -> (result: Result<CommandSpec, DeployError>)
        ensures
            command_outcome(result) == self.with_path(
                target@,
                seq!["chmod"@, "+x"@],
                artifact_path@,
                local_work_dir@,
            ),
    {
        let start = vec!["chmod".to_owned(), "+x".to_owned()];
        assert(texts(start@) =~= seq!["chmod"@, "+x"@]);
        self.run_with_path(target, local_work_dir, start, artifact_path)
    }

    pub fn caddy_validate(
        &self,
        target: &SshTarget,
        local_work_dir: &str,
        config_path: &str,
    ) -> (result: Result<CommandSpec, DeployError>)
        ensures
            command_outcome(result) == self.with_path(
                target@,
                seq!["caddy"@, "validate"@, "--adapter"@, "caddyfile"@, "--config"@],
                config_path@,
                local_work_dir@,
            ),
    {
        let start = vec![
            "caddy".to_owned(),
            "validate".to_owned(),
            "--adapter".to_owned(),
            "caddyfile".to_owned(),
            "--config".to_owned(),
        ];
        assert(texts(start@) =~= seq![
            "caddy"@,
            "validate"@,
            "--adapter"@,
            "caddyfile"@,
            "--config"@,
        ]);
        self.run_with_path(target, local_work_dir, start, config_path)
    }

    pub fn nginx_validate(
        &self,
        target: &SshTarget,
        local_work_dir: &str,
        config_path: &str,
    ) -> (result: Result<CommandSpec, DeployError>)
        ensures
            command_outcome(result) == self.with_path(
                target@,
                seq!["nginx"@, "-t"@, "-c"@],
                config_path@,
                local_work_dir@,
            ),
    {
        let start = vec!["nginx".to_owned(), "-t".to_owned(), "-c".to_owned()];
        assert(texts(start@) =~= seq!["nginx"@, "-t"@, "-c"@]);
        self.run_with_path(target, local_work_dir, start, config_path)
    }

    /// The outcome of a command of systemctl about one unit of the target.
    pub open spec fn with_unit(
        self,
        target: TargetState,
        verb: Seq<char>,
        unit: Seq<char>,
        dir: Seq<char>,
    ) -> Result<CommandLine, DeployFault> {
        match systemd_unit(unit) {
            Ok(name) => Ok(
                ssh_line(self.known_hosts(), target, seq!["systemctl"@, verb, name], dir),
            ),
            Err(fault) => Err(fault),
        }
    }

    fn run_systemctl(
        &self,
        target: &SshTarget,
        local_work_dir: &str,
        verb: &str,
        unit_name: &str,
    ) -> (result: Result<CommandSpec, DeployError>)
        ensures
            command_outcome(result) == self.with_unit(
                target@,
                verb@,
                unit_name@,
                local_work_dir@,
            ),
    {
        let unit = match normalize_systemd_unit_name(unit_name) {
            Ok(unit) => unit,
            Err(error) => return Err(error),
        };
        let ghost name = unit@;
        let args = vec!["systemctl".to_owned(), verb.to_owned(), unit];
        assert(texts(args@) =~= seq!["systemctl"@, verb@, name]);
        Ok(self.run_ssh(target, local_work_dir, args))
    }

    pub fn restart(&self, target: &SshTarget, local_work_dir: &str, unit_name: &str) -> (result:
        Result<CommandSpec, DeployError>)
        ensures
            command_outcome(result) == self.with_unit(
                target@,
                "restart"@,
                unit_name@,
                local_work_dir@,
            ),
    {
        self.run_systemctl(target, local_work_dir, "restart", unit_name)
    }

    pub fn stop(&self, target: &SshTarget, local_work_dir: &str, unit_name: &str) -> (result:
        Result<CommandSpec, DeployError>)
        ensures
            command_outcome(result) == self.with_unit(
                target@,
                "stop"@,
                unit_name@,
                local_work_dir@,
            ),
    {
        self.run_systemctl(target, local_work_dir, "stop", unit_name)
    }

    pub fn is_active(&self, target: &SshTarget, local_work_dir: &str, unit_name: &str) -> (result:
        Result<CommandSpec, DeployError>)
        ensures
            command_outcome(result) == self.with_unit(
                target@,
                "is-active"@,
                unit_name@,
                local_work_dir@,
            ),
    {
        self.run_systemctl(target, local_work_dir, "is-active", unit_name)
    }

    pub fn reload_service(
        &self,
        target: &SshTarget,
        local_work_dir: &str,
        service_name: &str,
    ) -> (result: Result<CommandSpec, DeployError>)
        ensures
            command_outcome(result) == self.with_unit(
                target@,
                "reload"@,
                service_name@,
                local_work_dir@,
            ),
    {
        self.run_systemctl(target, local_work_dir, "reload", service_name)
    }

    pub fn logs(&self, target: &SshTarget, local_work_dir: &str, unit_name: &str) -> (result:
        Result<CommandSpec, DeployError>)
        ensures
            command_outcome(result) == (match systemd_unit(unit_name@) {
                Ok(name) => Ok(
                    ssh_line(
                        self.known_hosts(),
                        target@,
                        seq!["journalctl"@] + journal_args(name, 200),
                        local_work_dir@,
                    ),
                ),
                Err(fault) => Err(fault),
            }),
    {
        self.logs_with_tail(target, local_work_dir, unit_name, 200)
    }

    pub fn logs_with_tail(
        &self,
        target: &SshTarget,
        local_work_dir: &str,
        unit_name: &str,
        count: u16,
    ) -> (result: Result<CommandSpec, DeployError>)
        ensures
            command_outcome(result) == (match systemd_unit(unit_name@) {
                Ok(name) => Ok(
                    ssh_line(
                        self.known_hosts(),
                        target@,
                        seq!["journalctl"@] + journal_args(name, count),
                        local_work_dir@,
                    ),
                ),
                Err(fault) => Err(fault),
            }),
    {
        let unit = match normalize_systemd_unit_name(unit_name) {
            Ok(unit) => unit,
            Err(error) => return Err(error),
        };
        let number = natural_text(normalize_log_tail_lines(count) as u64);
        let ghost name = unit@;
        let args = vec![
            "journalctl".to_owned(),
            "-u".to_owned(),
            unit,
            "-n".to_owned(),
            number,
            "--no-pager".to_owned(),
        ];
        assert(texts(args@) =~= seq!["journalctl"@] + journal_args(name, count));
        Ok(self.run_ssh(target, local_work_dir, args))
    }
}

// ---------------------------------------------------------------------------
// Laws
// ---------------------------------------------------------------------------

/// Where a file of known hosts is given, every command over SSH insists on it.
pub proof fn known_hosts_are_enforced(
    path: Seq<char>,
    target: TargetState,
    remote: Seq<Seq<char>>,
    dir: Seq<char>,
)
    ensures
        ({
            let args = ssh_line(Some(path), target, remote, dir).args;
            &&& args[3] == "UserKnownHostsFile="@ + path
            &&& args[5] == "StrictHostKeyChecking=yes"@
        }),
{
}

/// Whatever the values of the environment hold, the target's shell reads them back unchanged.
pub proof fn remote_environment_is_faithful(name: Seq<char>, value: Seq<char>)
    ensures
        env_assignments(seq![(name, value)]) == " "@ + name + "="@ + quoted(value),
        super::inputs::shell_word(quoted(value), false) == Some(value),
{
    let one = seq![(name, value)];
    assert(one.drop_last() =~= Seq::empty());
    assert(env_assignments(one.drop_last()) =~= Seq::empty());
    assert(env_assignments(one) =~= " "@ + name + "="@ + quoted(value));
    super::inputs::quoting_is_faithful(value);
}

/// A target is accepted exactly if its user, its address and its port are, and keeps them.
pub proof fn targets_have_user_address_and_port(user: Seq<char>, address: Seq<char>, port: i64)
    ensures
        target_of(user, address, port) is Ok <==> ssh_user(user) is Ok && ssh_address(
            address,
        ) is Ok && 0 < port < 0x1_0000,
        target_of(user, address, port) matches Ok(target) ==> target.user == ssh_user(user)->Ok_0
            && target.address == ssh_address(address)->Ok_0 && target.port == port
            && target.identity_file is None,
{
}

/// A host is looked up by its address alone on port 22, and by its address in brackets and its port
/// on any other: no two ports share a name.
pub proof fn known_hosts_are_told_apart_by_port(
    address: Seq<char>,
    port: u16,
    other: u16,
)
    requires
        address.len() > 0,
        address[0] != '[',
    ensures
        lookup_key(address, 22) == address,
        port != 22 ==> lookup_key(address, port) == seq!['['] + address + seq![']', ':'] + decimal(
            port as nat,
        ),
        port != other ==> lookup_key(address, port) != lookup_key(address, other),
{
    reveal_strlit("[");
    reveal_strlit("]:");
    assert("["@ =~= seq!['[']);
    assert("]:"@ =~= seq![']', ':']);
    if port != other && lookup_key(address, port) == lookup_key(address, other) {
        if port == 22 {
            assert(lookup_key(address, other)[0] == '[');
        } else if other == 22 {
            assert(lookup_key(address, port)[0] == '[');
        } else {
            let start = "["@ + address + "]:"@;
            assert(lookup_key(address, port).skip(start.len() as int) =~= decimal(port as nat));
            assert(lookup_key(address, other).skip(start.len() as int) =~= decimal(other as nat));
            crate::decimal::decimal_is_injective(port as nat, other as nat);
        }
    }
}

/// A scan gives the lines that are neither blank nor remarks, without white space around them, in
/// their order.
pub proof fn scans_give_the_lines_with_keys(all: Seq<Seq<char>>, line: Seq<char>)
    ensures
        scanned_keys(Seq::empty()) == Seq::<Seq<char>>::empty(),
        scanned_keys(all.push(line)) == if trimmed(line).len() > 0 && trimmed(line)[0]
            != '#' {
            scanned_keys(all).push(trimmed(line))
        } else {
            scanned_keys(all)
        },
{
    assert(all.push(line).drop_last() =~= all);
    assert(all.push(line).last() == line);
}

/// A scan succeeds exactly if the command ended with 0 and printed a key.
pub proof fn scans_succeed_with_keys(
    status: Option<i32>,
    stdout: Seq<char>,
    stderr: Seq<char>,
    address: Seq<char>,
    port: u16,
)
    ensures
        scan_outcome(status, stdout, stderr, address, port) is Ok <==> status == Some(0i32)
            && exists|i: int|
            0 <= i < lines(stdout).len() && trimmed(#[trigger] lines(stdout)[i]).len() > 0
                && trimmed(lines(stdout)[i])[0] != '#',
{
    lemma_some_key(lines(stdout));
}

proof fn lemma_some_key(all: Seq<Seq<char>>)
    ensures
        scanned_keys(all).len() > 0 <==> exists|i: int|
            0 <= i < all.len() && trimmed(#[trigger] all[i]).len() > 0 && trimmed(all[i])[0] != '#',
    decreases all.len(),
{
    if all.len() > 0 {
        let before = all.drop_last();
        lemma_some_key(before);
        if scanned_keys(before).len() > 0 {
            let i = choose|i: int|
                0 <= i < before.len() && trimmed(#[trigger] before[i]).len() > 0 && trimmed(
                    before[i],
                )[0] != '#';
            assert(all[i] == before[i]);
        } else if scanned_keys(all).len() > 0 {
            assert(all[all.len() - 1] == all.last());
        }
        if exists|i: int|
            0 <= i < all.len() && trimmed(#[trigger] all[i]).len() > 0 && trimmed(all[i])[0]
                != '#' {
            let i = choose|i: int|
                0 <= i < all.len() && trimmed(#[trigger] all[i]).len() > 0 && trimmed(all[i])[0]
                    != '#';
            if i < before.len() {
                assert(before[i] == all[i]);
            }
        }
    }
}

/// What is run on another host comes last, right after the target. The port comes first, and a key
/// file is the only one tried where there is one.
pub proof fn remote_commands_come_last(
    known_hosts: Option<Seq<char>>,
    target: TargetState,
    remote: Seq<Seq<char>>,
    dir: Seq<char>,
)
    ensures
        ({
            let line = ssh_line(known_hosts, target, remote, dir);
            let at = line.args.len() - remote.len();
            &&& line.program == seq!['s', 's', 'h']
            &&& line.dir == dir
            &&& line.args[0] == seq!['-', 'p']
            &&& line.args[1] == decimal(target.port as nat)
            &&& at == 3 + (if known_hosts is Some {
                4int
            } else {
                0
            }) + (if target.identity_file is Some {
                4int
            } else {
                0
            })
            &&& line.args.skip(at) == remote
            &&& line.args[at - 1] == target.user + seq!['@'] + target.address
            &&& target.identity_file matches Some(file) ==> line.args.subrange(at - 5, at - 1)
                == seq!["-i"@, file, "-o"@, "IdentitiesOnly=yes"@]
        }),
{
    reveal_strlit("ssh");
    reveal_strlit("-p");
    reveal_strlit("@");
    assert("ssh"@ =~= seq!['s', 's', 'h']);
    assert("-p"@ =~= seq!['-', 'p']);
    assert("@"@ =~= seq!['@']);
    let line = ssh_line(known_hosts, target, remote, dir);
    let at = line.args.len() - remote.len();
    assert(line.args.skip(at) =~= remote);
    if target.identity_file is Some {
        assert(line.args.subrange(at - 5, at - 1) =~= identity_args(target.identity_file));
    }
}

/// Waiting takes a second at least and a minute at most; between, as long as asked for.
pub proof fn waiting_is_limited(seconds: u64)
    ensures
        1 <= bounded_seconds(seconds) <= 60,
        1 <= seconds <= 60 ==> bounded_seconds(seconds) == seconds,
        seconds < 1 ==> bounded_seconds(seconds) == 1,
        seconds > 60 ==> bounded_seconds(seconds) == 60,
{
}

/// A script on another host runs in its directory, with its variables set in their order, and each
/// part of the line is one word to the shell there.
pub proof fn remote_scripts_run_in_their_directory(
    work_dir: Seq<char>,
    script: Seq<char>,
    pairs: Seq<(Seq<char>, Seq<char>)>,
    name: Seq<char>,
    value: Seq<char>,
)
    ensures
        remote_script(work_dir, script, pairs) == "cd "@ + quoted(work_dir) + " && env"@
            + env_assignments(pairs) + " sh "@ + quoted(work_dir + "/"@ + script),
        env_assignments(Seq::empty()) == Seq::<char>::empty(),
        env_assignments(pairs.push((name, value))) == env_assignments(pairs) + seq![' '] + name
            + seq!['='] + quoted(value),
        super::inputs::shell_word(quoted(work_dir), false) == Some(work_dir),
        super::inputs::shell_word(quoted(work_dir + "/"@ + script), false) == Some(
            work_dir + "/"@ + script,
        ),
        super::inputs::shell_word(quoted(value), false) == Some(value),
{
    reveal_strlit(" ");
    reveal_strlit("=");
    assert(" "@ =~= seq![' ']);
    assert("="@ =~= seq!['=']);
    assert(pairs.push((name, value)).drop_last() =~= pairs);
    super::inputs::quoting_is_faithful(work_dir);
    super::inputs::quoting_is_faithful(work_dir + "/"@ + script);
    super::inputs::quoting_is_faithful(value);
}

/// Compose on another host runs in the directory that is accepted for it.
pub proof fn remote_compose_runs_in_its_directory(
    known_hosts: Option<Seq<char>>,
    target: TargetState,
    work_dir: Seq<char>,
    args: Seq<Seq<char>>,
    dir: Seq<char>,
)
    ensures
        remote_compose(known_hosts, target, work_dir, args, dir) is Ok <==> remote_path(
            work_dir,
        ) is Ok,
        remote_compose(known_hosts, target, work_dir, args, dir) matches Ok(line) ==> {
            let at = line.args.len() - args.len();
            &&& at >= 5
            &&& line.args.skip(at) == args
            &&& line.args[at - 5] == "cd"@
            &&& line.args[at - 4] == remote_path(work_dir)->Ok_0
            &&& line.args[at - 3] == "&&"@
            &&& line.args[at - 2] == "docker"@
            &&& line.args[at - 1] == "compose"@
        },
{
    if remote_path(work_dir) is Ok {
        let path = remote_path(work_dir)->Ok_0;
        let remote = seq!["cd"@, path, "&&"@, "docker"@, "compose"@] + args;
        remote_commands_come_last(known_hosts, target, remote, dir);
        let line = ssh_line(known_hosts, target, remote, dir);
        let start = line.args.len() - remote.len();
        let at = line.args.len() - args.len();
        assert(line.args.skip(start) == remote);
        assert forall|i: int| 0 <= i < remote.len() implies line.args[start + i]
            == #[trigger] remote[i] by {
            assert(line.args.skip(start)[i] == line.args[start + i]);
        }
        assert(remote[0] == "cd"@);
        assert(remote[1] == path);
        assert(remote[2] == "&&"@);
        assert(remote[3] == "docker"@);
        assert(remote[4] == "compose"@);
        assert(line.args.skip(at) =~= args);
    }
}

/// A key file without a name is none.
pub proof fn key_files_have_names(path: Seq<char>)
    ensures
        named_file(None) is None,
        path.len() == 0 ==> named_file(Some(path)) is None,
        path.len() > 0 ==> named_file(Some(path)) == Some(path),
{
}

/// A host is known by its address and a port from 1 to 65535.
pub proof fn known_hosts_have_address_and_port(address: Seq<char>, port: i64)
    ensures
        is_host(address, port) <==> ssh_address(address) is Ok && 0 < port < 0x1_0000,
{
}

} // verus!
