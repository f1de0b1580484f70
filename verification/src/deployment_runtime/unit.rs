//! What is executed: a unit of a release, with its files and its target nodes.

use vstd::prelude::*;
use vstd::utf8::encode_utf8;

use super::environment::{
    environment_file, environment_variables, render_environment_file, validate_environment_variables,
    variables_fault,
};
use super::error::{not_found, validation, DeploymentRuntimeError, RuntimeFault};
use super::release::{package_source, source_fault, UnitReleaseSpec};
use crate::decimal::{integer_text, signed_decimal};
use crate::deploy::commands::{env_views, path_below};
use crate::deployment_orchestrator::DeploymentAction;
use crate::deployment_retention::deletion::below;
use crate::pieces::option_text;
use crate::text::{blank, is_blank, same_text};

verus! {

/// How the health of a unit is checked, as far as it says.
#[derive(Debug, Clone)]
pub struct UnitHealthCheck {
    pub kind: Option<String>,
    pub endpoint: Option<String>,
    pub timeout_secs: Option<i64>,
    pub expected_status: Option<i64>,
}

/// A unit as a configuration describes it. Its scripts are named by their slots.
#[derive(Debug, Clone)]
pub struct ConfigUnit {
    pub key: String,
    pub name: String,
    pub required: bool,
    pub status: String,
    pub work_dir: String,
    pub compose_content: String,
    pub scripts: Vec<(String, String)>,
    pub health_check: UnitHealthCheck,
}

#[derive(Debug, Clone)]
pub struct DeploymentTargetNode {
    pub id: i64,
    pub node_key: String,
    pub name: String,
    pub node_type: String,
    pub address: String,
    pub ssh_port: i64,
    pub ssh_user: String,
    pub credential_private_key_path: Option<String>,
    pub work_dir: String,
    pub status: String,
    pub docker_status: String,
}

/// What is executed for one unit of a deployment.
#[derive(Debug, Clone)]
pub struct UnitExecutionSpec {
    pub app_id: i64,
    pub app_key: String,
    pub environment_id: i64,
    pub environment_key: String,
    pub config_revision_id: i64,
    pub config_hash: String,
    pub unit_id: i64,
    pub unit_key: String,
    pub unit: ConfigUnit,
    pub action: DeploymentAction,
    pub release: Option<UnitReleaseSpec>,
    pub target_nodes: Vec<DeploymentTargetNode>,
    pub environment_variables: Vec<(String, String)>,
}

/// The run that an execution belongs to.
#[derive(Debug, Clone)]
pub struct ExecutionIdentity {
    pub app_id: i64,
    pub app_key: String,
    pub environment_key: String,
    pub config_revision_id: i64,
}

/// A revision of a configuration, with its secrets.
#[derive(Debug, Clone)]
pub struct ConfigRevision {
    pub revision_id: i64,
    pub config_hash: String,
    pub units: Vec<ConfigUnit>,
    pub secret_values: Vec<(String, String)>,
}

// ---------------------------------------------------------------------------
// Loading
// ---------------------------------------------------------------------------

/// Accepts the run that was looked up.
pub fn accept_identity(row: Option<ExecutionIdentity>) -> (result: Result<
    ExecutionIdentity,
    DeploymentRuntimeError,
>)
    ensures
        match result {
            Ok(identity) => row == Some(identity),
            Err(error) => row is None && error@ == RuntimeFault::NotFound(
                "deployment execution identity not found"@,
            ),
        },
{
    match row {
        Some(identity) => Ok(identity),
        None => Err(not_found("deployment execution identity not found")),
    }
}

/// The position of the first unit with the key.
pub open spec fn unit_at(units: Seq<ConfigUnit>, key: Seq<char>, at: int) -> bool {
    &&& 0 <= at < units.len()
    &&& units[at].key@ == key
    &&& forall|i: int| 0 <= i < at ==> (#[trigger] units[i]).key@ != key
}

/// The position of the unit that a configuration describes under the key.
pub fn find_unit(units: &Vec<ConfigUnit>, key: &str) -> (result: Result<
    usize,
    DeploymentRuntimeError,
>)
    ensures
        match result {
            Ok(at) => unit_at(units@, key@, at as int),
            Err(error) => {
                &&& forall|i: int| 0 <= i < units@.len() ==> (#[trigger] units@[i]).key@ != key@
                &&& error@ == RuntimeFault::Validation(
                    "deployment unit is missing from config revision"@,
                )
            },
        },
{
    let mut i: usize = 0;
    while i < units.len()
        invariant
            i <= units@.len(),
            forall|k: int| 0 <= k < i ==> (#[trigger] units@[k]).key@ != key@,
        decreases units@.len() - i,
    {
        if same_text(units[i].key.as_str(), key) {
            return Ok(i);
        }
        i = i + 1;
    }
    Err(validation("deployment unit is missing from config revision"))
}

/// Refuses a unit that does not belong to the application.
pub fn ensure_unit_belongs(found: bool) -> (result: Result<(), DeploymentRuntimeError>)
    ensures
        match result {
            Ok(_) => found,
            Err(error) => !found && error@ == RuntimeFault::Validation(
                "deployment unit identity does not belong to application"@,
            ),
        },
{
    if found {
        Ok(())
    } else {
        Err(validation("deployment unit identity does not belong to application"))
    }
}

/// Refuses an environment without target nodes.
pub fn ensure_target_nodes(target_node_ids: &Vec<i64>) -> (result: Result<
    (),
    DeploymentRuntimeError,
>)
    ensures
        match result {
            Ok(_) => target_node_ids@.len() > 0,
            Err(error) => target_node_ids@.len() == 0 && error@ == RuntimeFault::Validation(
                "deployment environment has no target nodes"@,
            ),
        },
{
    if target_node_ids.len() == 0 {
        Err(validation("deployment environment has no target nodes"))
    } else {
        Ok(())
    }
}

/// Whether an optional text says something.
pub open spec fn is_filled(text: Option<Seq<char>>) -> bool {
    text is Some && !is_blank(text->0)
}

fn filled(text: &Option<String>) -> (is: bool)
    ensures
        is == is_filled(option_text(*text)),
{
    match text {
        Some(text) => !blank(text.as_str()),
        None => false,
    }
}

/// What is wrong with a target node.
pub open spec fn node_fault(node: DeploymentTargetNode) -> Option<RuntimeFault> {
    if node.status@ != "online"@ || node.docker_status@ != "available"@ {
        Some(
            RuntimeFault::Validation(
                "target node "@ + node.node_key@ + " is not ready for Docker deployment"@,
            ),
        )
    } else if node.node_type@ == "ssh"@ && (is_blank(node.ssh_user@) || !is_filled(
        option_text(node.credential_private_key_path),
    )) {
        Some(
            RuntimeFault::Validation(
                "SSH target node "@ + node.node_key@ + " has no deploy credential"@,
            ),
        )
    } else {
        None
    }
}

/// Accepts a target node that was looked up.
pub fn accept_target_node(row: Option<DeploymentTargetNode>) -> (result: Result<
    DeploymentTargetNode,
    DeploymentRuntimeError,
>)
    ensures
        match result {
            Ok(node) => row == Some(node) && node_fault(node) is None,
            Err(error) => match row {
                None => error@ == RuntimeFault::Validation(
                    "target node is not bound to environment"@,
                ),
                Some(node) => node_fault(node) == Some(error@),
            },
        },
{
    match row {
        None => Err(validation("target node is not bound to environment")),
        Some(node) => {
            if !same_text(node.status.as_str(), "online") || !same_text(
                node.docker_status.as_str(),
                "available",
            ) {
                return Err(
                    validation(
                        "target node ".to_owned().concat(node.node_key.as_str()).concat(
                            " is not ready for Docker deployment",
                        ).as_str(),
                    ),
                );
            }
            if same_text(node.node_type.as_str(), "ssh") && (blank(node.ssh_user.as_str())
                || !filled(&node.credential_private_key_path)) {
                return Err(
                    validation(
                        "SSH target node ".to_owned().concat(node.node_key.as_str()).concat(
                            " has no deploy credential",
                        ).as_str(),
                    ),
                );
            }
            Ok(node)
        },
    }
}

/// What is executed for a unit, once everything was looked up.
pub fn load_unit_spec(
    identity: ExecutionIdentity,
    environment_id: i64,
    revision: ConfigRevision,
    unit_at: usize,
    unit_id: i64,
    unit_key: String,
    action: DeploymentAction,
    release: Option<UnitReleaseSpec>,
    target_nodes: Vec<DeploymentTargetNode>,
) -> (spec: UnitExecutionSpec)
    requires
        unit_at < revision.units@.len(),
    ensures
        spec.app_id == identity.app_id,
        spec.app_key == identity.app_key,
        spec.environment_id == environment_id,
        spec.environment_key == identity.environment_key,
        spec.config_revision_id == revision.revision_id,
        spec.config_hash == revision.config_hash,
        spec.unit_id == unit_id,
        spec.unit_key == unit_key,
        spec.unit == revision.units@[unit_at as int],
        spec.action == action,
        spec.release == release,
        spec.target_nodes == target_nodes,
        env_views(spec.environment_variables@) == super::environment::entries_below(
            env_views(revision.secret_values@),
            super::environment::unit_prefix(identity.environment_key@, unit_key@),
        ),
{
    let environment_variables = environment_variables(
        &revision.secret_values,
        identity.environment_key.as_str(),
        unit_key.as_str(),
    );
    let mut units = revision.units;
    let unit = units.swap_remove(unit_at);
    UnitExecutionSpec {
        app_id: identity.app_id,
        app_key: identity.app_key,
        environment_id,
        environment_key: identity.environment_key,
        config_revision_id: revision.revision_id,
        config_hash: revision.config_hash,
        unit_id,
        unit_key,
        unit,
        action,
        release,
        target_nodes,
        environment_variables,
    }
}

// ---------------------------------------------------------------------------
// Scripts
// ---------------------------------------------------------------------------

/// A moment of a deployment at which a unit may run a script of its own.
#[derive(Debug, Clone, Copy, PartialEq, Eq, Structural)]
pub enum ScriptSlot {
    PreDeploy,
    Deploy,
    PostDeploy,
    SwitchTraffic,
    Cleanup,
}

impl ScriptSlot {
    pub open spec fn name(self) -> Seq<char> {
        match self {
            ScriptSlot::PreDeploy => "pre_deploy"@,
            ScriptSlot::Deploy => "deploy"@,
            ScriptSlot::PostDeploy => "post_deploy"@,
            ScriptSlot::SwitchTraffic => "switch_traffic"@,
            ScriptSlot::Cleanup => "cleanup"@,
        }
    }

    pub open spec fn file(self) -> Seq<char> {
        match self {
            ScriptSlot::PreDeploy => "pre-deploy.sh"@,
            ScriptSlot::Deploy => "deploy.sh"@,
            ScriptSlot::PostDeploy => "post-deploy.sh"@,
            ScriptSlot::SwitchTraffic => "switch-traffic.sh"@,
            ScriptSlot::Cleanup => "cleanup.sh"@,
        }
    }

    pub fn as_str(&self) -> (name: &'static str)
        ensures
            name@ == self.name(),
    {
        match self {
            ScriptSlot::PreDeploy => "pre_deploy",
            ScriptSlot::Deploy => "deploy",
            ScriptSlot::PostDeploy => "post_deploy",
            ScriptSlot::SwitchTraffic => "switch_traffic",
            ScriptSlot::Cleanup => "cleanup",
        }
    }

    pub fn file_name(&self) -> (file: &'static str)
        ensures
            file@ == self.file(),
    {
        match self {
            ScriptSlot::PreDeploy => "pre-deploy.sh",
            ScriptSlot::Deploy => "deploy.sh",
            ScriptSlot::PostDeploy => "post-deploy.sh",
            ScriptSlot::SwitchTraffic => "switch-traffic.sh",
            ScriptSlot::Cleanup => "cleanup.sh",
        }
    }
}

/// The slot of the given name.
pub open spec fn slot_of(name: Seq<char>) -> Option<ScriptSlot> {
    if name == "pre_deploy"@ {
        Some(ScriptSlot::PreDeploy)
    } else if name == "deploy"@ {
        Some(ScriptSlot::Deploy)
    } else if name == "post_deploy"@ {
        Some(ScriptSlot::PostDeploy)
    } else if name == "switch_traffic"@ {
        Some(ScriptSlot::SwitchTraffic)
    } else if name == "cleanup"@ {
        Some(ScriptSlot::Cleanup)
    } else {
        None
    }
}

pub open spec fn script_file(slot: Seq<char>) -> Result<Seq<char>, RuntimeFault> {
    match slot_of(slot) {
        Some(known) => Ok(known.file()),
        None => Err(
            RuntimeFault::Validation("unsupported deployment script slot "@ + slot),
        ),
    }
}

/// The file of the script of a slot.
pub fn script_file_name(slot: &str) -> (result: Result<&'static str, DeploymentRuntimeError>)
    ensures
        match result {
            Ok(file) => script_file(slot@) == Ok::<Seq<char>, RuntimeFault>(file@),
            Err(error) => script_file(slot@) == Err::<Seq<char>, RuntimeFault>(error@),
        },
{
    if same_text(slot, "pre_deploy") {
        Ok("pre-deploy.sh")
    } else if same_text(slot, "deploy") {
        Ok("deploy.sh")
    } else if same_text(slot, "post_deploy") {
        Ok("post-deploy.sh")
    } else if same_text(slot, "switch_traffic") {
        Ok("switch-traffic.sh")
    } else if same_text(slot, "cleanup") {
        Ok("cleanup.sh")
    } else {
        Err(
            validation(
                "unsupported deployment script slot ".to_owned().concat(slot).as_str(),
            ),
        )
    }
}

/// Whether there is a script for the slot.
pub open spec fn has_script(scripts: Seq<(Seq<char>, Seq<char>)>, slot: Seq<char>) -> bool {
    exists|i: int| 0 <= i < scripts.len() && (#[trigger] scripts[i]).0 == slot
}

pub fn has_script_for(scripts: &Vec<(String, String)>, slot: &str) -> (found: bool)
    ensures
        found == has_script(env_views(scripts@), slot@),
{
    let ghost all = env_views(scripts@);
    let mut i: usize = 0;
    while i < scripts.len()
        invariant
            i <= scripts@.len(),
            all == env_views(scripts@),
            forall|k: int| 0 <= k < i ==> (#[trigger] all[k]).0 != slot@,
        decreases scripts@.len() - i,
    {
        assert(all[i as int].0 == scripts@[i as int].0@);
        if same_text(scripts[i].0.as_str(), slot) {
            return true;
        }
        i = i + 1;
    }
    false
}

// ---------------------------------------------------------------------------
// Files
// ---------------------------------------------------------------------------

/// Where the files of a unit are put together.
pub open spec fn unit_directory(
    staging_root: Seq<char>,
    app_id: i64,
    environment_id: i64,
    unit_id: i64,
) -> Seq<char> {
    below(
        below(
            below(staging_root, signed_decimal(app_id as int)),
            signed_decimal(environment_id as int),
        ),
        signed_decimal(unit_id as int),
    )
}

pub fn unit_root(staging_root: &str, app_id: i64, environment_id: i64, unit_id: i64) -> (path:
    String)
    ensures
        path@ == unit_directory(staging_root@, app_id, environment_id, unit_id),
{
    let app = path_below(staging_root, integer_text(app_id).as_str());
    let environment = path_below(app.as_str(), integer_text(environment_id).as_str());
    path_below(environment.as_str(), integer_text(unit_id).as_str())
}

/// The files of a unit, ready to be brought to its nodes.
#[derive(Debug, Clone)]
pub struct PreparedUnitRuntime {
    pub root: String,
    pub compose_path: String,
    pub env_path: String,
    pub package_path: Option<String>,
    pub script_paths: Vec<(String, String)>,
}

/// A file that is written.
#[derive(Debug, Clone)]
pub struct RuntimeFile {
    pub path: String,
    pub content: Vec<u8>,
}

/// A file as a mathematical value.
pub open spec fn file_views(files: Seq<RuntimeFile>) -> Seq<(Seq<char>, Seq<u8>)> {
    files.map_values(|file: RuntimeFile| (file.path@, file.content@))
}

pub open spec fn scripts_directory(root: Seq<char>) -> Seq<char> {
    below(below(root, ".easy-deploy"@), "scripts"@)
}

/// The scripts by their slots, with the paths of their files; the first that belongs to no slot
/// decides the error.
pub open spec fn script_places(root: Seq<char>, scripts: Seq<(Seq<char>, Seq<char>)>) -> Result<
    Seq<(Seq<char>, Seq<char>)>,
    RuntimeFault,
>
    decreases scripts.len(),
{
    if scripts.len() == 0 {
        Ok(scripts)
    } else {
        match script_places(root, scripts.drop_last()) {
            Err(fault) => Err(fault),
            Ok(before) => match script_file(scripts.last().0) {
                Err(fault) => Err(fault),
                Ok(file) => Ok(
                    before.push((scripts.last().0, below(scripts_directory(root), file))),
                ),
            },
        }
    }
}

/// The files of the scripts.
pub open spec fn script_files(
    places: Seq<(Seq<char>, Seq<char>)>,
    scripts: Seq<(Seq<char>, Seq<char>)>,
) -> Seq<(Seq<char>, Seq<u8>)>
    recommends
        places.len() == scripts.len(),
{
    Seq::new(scripts.len(), |i: int| (places[i].1, encode_utf8(scripts[i].1)))
}

proof fn lemma_places_fail(root: Seq<char>, scripts: Seq<(Seq<char>, Seq<char>)>, count: int)
    requires
        0 <= count <= scripts.len(),
        script_places(root, scripts.take(count)) is Err,
    ensures
        script_places(root, scripts) == script_places(root, scripts.take(count)),
    decreases scripts.len() - count,
{
    if count < scripts.len() {
        assert(scripts.take(count + 1).drop_last() =~= scripts.take(count));
        lemma_places_fail(root, scripts, count + 1);
    } else {
        assert(scripts.take(count) =~= scripts);
    }
}

/// What is wrong with a unit whose files are put together.
pub open spec fn runtime_files_fault(spec: UnitExecutionSpec, root: Seq<char>) -> Option<
    RuntimeFault,
> {
    match variables_fault(env_views(spec.environment_variables@)) {
        Some(fault) => Some(fault),
        None => match source_fault(spec.release) {
            Some(fault) => Some(fault),
            None => match script_places(root, env_views(spec.unit.scripts@)) {
                Err(fault) => Some(fault),
                Ok(_) => None,
            },
        },
    }
}

/// The files that are written for a unit, besides those of its package: what Compose runs, the
/// variables, and the scripts.
pub open spec fn written_files(spec: UnitExecutionSpec, root: Seq<char>) -> Seq<
    (Seq<char>, Seq<u8>),
> {
    let scripts = env_views(spec.unit.scripts@);
    seq![
        (below(root, "compose.yaml"@), encode_utf8(spec.unit.compose_content@)),
        (
            below(root, ".env"@),
            encode_utf8(environment_file(env_views(spec.environment_variables@))),
        ),
    ] + script_files(script_places(root, scripts)->Ok_0, scripts)
}

/// Puts the files of a unit together: their places, and what is written to them.
#[verifier::rlimit(40)]
pub fn prepare_unit_runtime(spec: &UnitExecutionSpec, staging_root: &str) -> (result: Result<
    (PreparedUnitRuntime, Vec<RuntimeFile>),
    DeploymentRuntimeError,
>)
    ensures
        ({
            let root = unit_directory(
                staging_root@,
                spec.app_id,
                spec.environment_id,
                spec.unit_id,
            );
            match result {
                Ok((prepared, files)) => {
                    &&& runtime_files_fault(*spec, root) is None
                    &&& prepared.root@ == root
                    &&& prepared.compose_path@ == below(root, "compose.yaml"@)
                    &&& prepared.env_path@ == below(root, ".env"@)
                    &&& option_text(prepared.package_path) == (match spec.release {
                        Some(release) => Some(release.package_path@),
                        None => None,
                    })
                    &&& script_places(root, env_views(spec.unit.scripts@)) == Ok::<
                        Seq<(Seq<char>, Seq<char>)>,
                        RuntimeFault,
                    >(env_views(prepared.script_paths@))
                    &&& file_views(files@) == written_files(*spec, root)
                },
                Err(error) => runtime_files_fault(*spec, root) == Some(error@),
            }
        }),
{
    match validate_environment_variables(&spec.environment_variables) {
        Ok(_) => {},
        Err(error) => return Err(error),
    }
    let package_path = match package_source(&spec.release) {
        Ok(Some(source)) => Some(source.path),
        Ok(None) => None,
        Err(error) => return Err(error),
    };
    let root = unit_root(staging_root, spec.app_id, spec.environment_id, spec.unit_id);
    let compose_path = path_below(root.as_str(), "compose.yaml");
    let env_path = path_below(root.as_str(), ".env");
    let mut files: Vec<RuntimeFile> = Vec::new();
    files.push(
        RuntimeFile {
            path: compose_path.clone(),
            content: spec.unit.compose_content.as_str().as_bytes_vec(),
        },
    );
    files.push(
        RuntimeFile {
            path: env_path.clone(),
            content: render_environment_file(&spec.environment_variables),
        },
    );
    let inner = path_below(root.as_str(), ".easy-deploy");
    let scripts_root = path_below(inner.as_str(), "scripts");
    let scripts = &spec.unit.scripts;
    let ghost all = env_views(scripts@);
    let ghost first = seq![
        (below(root@, "compose.yaml"@), encode_utf8(spec.unit.compose_content@)),
        (
            below(root@, ".env"@),
            encode_utf8(environment_file(env_views(spec.environment_variables@))),
        ),
    ];
    let mut script_paths: Vec<(String, String)> = Vec::new();
    let mut i: usize = 0;
    assert(env_views(script_paths@) =~= all.take(0));
    assert(file_views(files@) =~= first + script_files(all.take(0), all.take(0)));
    while i < scripts.len()
        invariant
            i <= scripts@.len(),
            scripts@ == spec.unit.scripts@,
            all == env_views(scripts@),
            scripts_root@ == scripts_directory(root@),
            variables_fault(env_views(spec.environment_variables@)) is None,
            source_fault(spec.release) is None,
            root@ == unit_directory(
                staging_root@,
                spec.app_id,
                spec.environment_id,
                spec.unit_id,
            ),
            script_places(root@, all.take(i as int)) == Ok::<
                Seq<(Seq<char>, Seq<char>)>,
                RuntimeFault,
            >(env_views(script_paths@)),
            script_paths@.len() == i,
            file_views(files@) == first + script_files(
                env_views(script_paths@),
                all.take(i as int),
            ),
        decreases scripts@.len() - i,
    {
        assert(all.take(i + 1).drop_last() =~= all.take(i as int));
        assert(all[i as int] == (scripts@[i as int].0@, scripts@[i as int].1@));
        match script_file_name(scripts[i].0.as_str()) {
            Ok(name) => {
                let path = path_below(scripts_root.as_str(), name);
                let file = RuntimeFile {
                    path: path.clone(),
                    content: scripts[i].1.as_str().as_bytes_vec(),
                };
                let ghost before = env_views(script_paths@);
                let ghost files_before = file_views(files@);
                let entry = (scripts[i].0.clone(), path);
                proof {
                    super::environment::lemma_entry_push(script_paths@, entry);
                }
                script_paths.push(entry);
                files.push(file);
                assert(file_views(files@) =~= files_before.push((file.path@, file.content@)));
                let ghost after = env_views(script_paths@);
                assert(file_views(files@) =~= first + script_files(after, all.take(i + 1)));
            },
            Err(error) => {
                proof {
                    lemma_places_fail(root@, all, i + 1);
                }
                return Err(error);
            },
        }
        i = i + 1;
    }
    assert(all.take(i as int) =~= all);
    Ok((PreparedUnitRuntime { root, compose_path, env_path, package_path, script_paths }, files))
}

// ---------------------------------------------------------------------------
// Laws
// ---------------------------------------------------------------------------

proof fn lemma_place_names(root: Seq<char>, scripts: Seq<(Seq<char>, Seq<char>)>)
    requires
        script_places(root, scripts) is Ok,
    ensures
        script_places(root, scripts)->Ok_0.len() == scripts.len(),
        forall|i: int|
            0 <= i < scripts.len() ==> {
                &&& slot_of((#[trigger] scripts[i]).0) is Some
                &&& script_places(root, scripts)->Ok_0[i] == (
                    scripts[i].0,
                    below(scripts_directory(root), slot_of(scripts[i].0)->0.file()),
                )
            },
    decreases scripts.len(),
{
    if scripts.len() > 0 {
        let rest = scripts.drop_last();
        lemma_place_names(root, rest);
        assert forall|i: int| 0 <= i < scripts.len() implies {
            &&& slot_of((#[trigger] scripts[i]).0) is Some
            &&& script_places(root, scripts)->Ok_0[i] == (
                scripts[i].0,
                below(scripts_directory(root), slot_of(scripts[i].0)->0.file()),
            )
        } by {
            if i < rest.len() {
                assert(rest[i] == scripts[i]);
            }
        }
    }
}

/// Every script has a slot, and its file lies below the directory of scripts under the name of
/// that slot.
pub proof fn scripts_have_their_files(
    root: Seq<char>,
    scripts: Seq<(Seq<char>, Seq<char>)>,
    i: int,
)
    requires
        script_places(root, scripts) is Ok,
        0 <= i < scripts.len(),
    ensures
        slot_of(scripts[i].0) is Some,
        script_places(root, scripts)->Ok_0[i] == (
            scripts[i].0,
            below(scripts_directory(root), slot_of(scripts[i].0)->0.file()),
        ),
{
    lemma_place_names(root, scripts);
}

/// The name of a slot leads back to it.
pub proof fn slot_names_are_distinct(slot: ScriptSlot)
    ensures
        slot_of(slot.name()) == Some(slot),
{
    reveal_strlit("pre_deploy");
    reveal_strlit("deploy");
    reveal_strlit("post_deploy");
    reveal_strlit("switch_traffic");
    reveal_strlit("cleanup");
    assert("pre_deploy"@[0] == 'p' && "deploy"@[0] == 'd' && "post_deploy"@[1] == 'o');
    assert("pre_deploy"@[1] == 'r' && "switch_traffic"@[0] == 's' && "cleanup"@[0] == 'c');
    assert("post_deploy"@[0] == 'p');
}

/// A node is deployed to exactly if it is online with Docker on it, and, where it is reached over
/// SSH, has a user and a key.
pub proof fn nodes_must_be_ready(node: DeploymentTargetNode)
    ensures
        node_fault(node) is None <==> {
            &&& node.status@ == "online"@
            &&& node.docker_status@ == "available"@
            &&& node.node_type@ == "ssh"@ ==> crate::text::trimmed(node.ssh_user@).len() > 0
                && node.credential_private_key_path is Some && crate::text::trimmed(
                node.credential_private_key_path->0@,
            ).len() > 0
        },
{
}

/// Scripts are stored under the names of their slots, with dashes for underscores.
pub proof fn script_files_are_named_after_their_slots(slot: ScriptSlot)
    ensures
        script_file(slot.name()) == Ok::<Seq<char>, RuntimeFault>(slot.file()),
        slot.file() == slot.name().map_values(
            |c: char|
                if c == '_' {
                    '-'
                } else {
                    c
                },
        ) + ".sh"@,
{
    slot_names_are_distinct(slot);
    reveal_strlit("pre_deploy");
    reveal_strlit("pre-deploy.sh");
    reveal_strlit("deploy");
    reveal_strlit("deploy.sh");
    reveal_strlit("post_deploy");
    reveal_strlit("post-deploy.sh");
    reveal_strlit("switch_traffic");
    reveal_strlit("switch-traffic.sh");
    reveal_strlit("cleanup");
    reveal_strlit("cleanup.sh");
    reveal_strlit(".sh");
    assert(slot.file() =~= slot.name().map_values(
        |c: char|
            if c == '_' {
                '-'
            } else {
                c
            },
    ) + ".sh"@);
}

/// A slot is one of five.
pub proof fn slots_are_those_of_a_deployment(name: Seq<char>)
    ensures
        slot_of(name) is Some <==> name == "pre_deploy"@ || name == "deploy"@ || name
            == "post_deploy"@ || name == "switch_traffic"@ || name == "cleanup"@,
        slot_of(name) matches Some(slot) ==> slot.name() == name,
{
}

/// A unit has a script for a slot exactly if one of its scripts is for it.
pub proof fn scripts_are_found_by_their_slots(
    scripts: Seq<(Seq<char>, Seq<char>)>,
    name: Seq<char>,
    content: Seq<char>,
    slot: Seq<char>,
)
    ensures
        !has_script(Seq::empty(), slot),
        has_script(scripts.push((name, content)), slot) <==> has_script(scripts, slot) || name
            == slot,
{
    let all = scripts.push((name, content));
    if has_script(scripts, slot) {
        let i = choose|i: int| 0 <= i < scripts.len() && (#[trigger] scripts[i]).0 == slot;
        assert(all[i].0 == slot);
    }
    if name == slot {
        assert(all[scripts.len() as int].0 == slot);
    }
    if has_script(all, slot) && name != slot {
        let i = choose|i: int| 0 <= i < all.len() && (#[trigger] all[i]).0 == slot;
        assert(scripts[i].0 == slot);
    }
}

/// Every unit of every environment has a directory of its own: its files lie below the application
/// and the environment.
pub proof fn units_have_their_own_directories(
    staging_root: Seq<char>,
    app_id: i64,
    environment_id: i64,
    unit_id: i64,
)
    requires
        staging_root.len() > 0,
        staging_root.last() != '/',
    ensures
        unit_directory(staging_root, app_id, environment_id, unit_id) == staging_root + "/"@
            + signed_decimal(app_id as int) + "/"@ + signed_decimal(environment_id as int) + "/"@
            + signed_decimal(unit_id as int),
        scripts_directory(staging_root) == staging_root + "/.easy-deploy/scripts"@,
{
    super::release::lemma_number_is_name(app_id as int);
    super::release::lemma_number_is_name(environment_id as int);
    super::release::lemma_number_is_name(unit_id as int);
    reveal_strlit("/");
    reveal_strlit(".easy-deploy");
    reveal_strlit("scripts");
    reveal_strlit("/.easy-deploy/scripts");
    let app = signed_decimal(app_id as int);
    let environment = signed_decimal(environment_id as int);
    let unit = signed_decimal(unit_id as int);
    let first = below(staging_root, app);
    assert(first == staging_root + "/"@ + app);
    assert(first.last() == app.last());
    let second = below(first, environment);
    assert(second == first + "/"@ + environment);
    assert(second.last() == environment.last());
    assert(below(second, unit) == second + "/"@ + unit);
    let hidden = below(staging_root, ".easy-deploy"@);
    assert(hidden =~= staging_root + "/"@ + ".easy-deploy"@);
    assert(hidden.last() == 'y');
    assert(scripts_directory(staging_root) =~= hidden + "/"@ + "scripts"@);
    assert(scripts_directory(staging_root) =~= staging_root + "/.easy-deploy/scripts"@);
}

/// What a unit is run with: its configuration, its variables and its scripts, each in its file.
pub proof fn units_are_written_with_all_their_files(spec: UnitExecutionSpec, root: Seq<char>, i: int)
    requires
        root.len() > 0,
        root.last() != '/',
        runtime_files_fault(spec, root) is None,
        0 <= i < spec.unit.scripts@.len(),
    ensures
        ({
            let files = written_files(spec, root);
            &&& files.len() == 2 + spec.unit.scripts@.len()
            &&& files[0] == (root + "/compose.yaml"@, encode_utf8(spec.unit.compose_content@))
            &&& files[1] == (
                root + "/.env"@,
                encode_utf8(environment_file(env_views(spec.environment_variables@))),
            )
            &&& slot_of(spec.unit.scripts@[i].0@) is Some
            &&& files[2 + i] == (
                below(scripts_directory(root), slot_of(spec.unit.scripts@[i].0@)->0.file()),
                encode_utf8(spec.unit.scripts@[i].1@),
            )
        }),
{
    reveal_strlit("/");
    reveal_strlit("compose.yaml");
    reveal_strlit("/compose.yaml");
    reveal_strlit(".env");
    reveal_strlit("/.env");
    let scripts = env_views(spec.unit.scripts@);
    scripts_have_their_files(root, scripts, i);
    assert(scripts[i] == (spec.unit.scripts@[i].0@, spec.unit.scripts@[i].1@));
    assert(root + "/"@ + "compose.yaml"@ =~= root + "/compose.yaml"@);
    assert(root + "/"@ + ".env"@ =~= root + "/.env"@);
}

/// A unit is found by its key, the first one where there are several.
pub proof fn units_are_found_by_key(units: Seq<ConfigUnit>, key: Seq<char>, at: int, other: int)
    requires
        unit_at(units, key, at),
        0 <= other < units.len(),
        units[other].key@ == key,
    ensures
        units[at].key@ == key,
        0 <= at <= other,
{
}

} // verus!
