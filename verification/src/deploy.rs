//! Commands that deploy and inspect applications: how they are built, and what is made of their
//! output.

pub mod capture;
pub mod commands;
pub mod inputs;
pub mod process;
pub mod ssh;

pub use commands::{
    CommandResult, CommandSpec, ComposeCommandOutput, ComposeExecutor, SystemdExecutor,
};
pub use inputs::DeployError;
pub use process::{CommandOutputStream, TokioCommandRunner};
pub use ssh::{
    append_ssh_known_hosts_args, ssh_known_host_lookup_key, ssh_known_hosts_file, SshExecutor,
    SshKnownHostResult, SshTarget,
};
