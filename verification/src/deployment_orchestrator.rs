//! The deployment plan: which units of an application release are deployed, started,
//! stopped or left alone on the target nodes, and in which order.

use vstd::prelude::*;
use vstd::string::StringSliceAdditionalSpecFns;

use crate::decimal::{integer_text, signed_decimal};
use crate::digest::{sha256_hex, sha256_hex_text};
use crate::json::{
    array_text, json_array, json_optional, json_string, json_text, number_texts, numbers_text,
    optional_text,
};
use crate::order::{
    is_reordering, sorted_unique, strictly_ascending, strictly_ascending_is_unique,
};
use crate::pieces::{holds, option_text, stands_at};
use crate::text::{lemma_texts_push, same_text, texts};

verus! {

#[derive(Debug, Clone, Copy, PartialEq, Eq, Structural)]
pub enum DeploymentMode {
    Normal,
    Force,
}

#[derive(Debug, Clone, Copy, PartialEq, Eq, Structural)]
pub enum DeploymentAction {
    Deploy,
    Skip,
    Start,
    Stop,
    Upgrade,
    Downgrade,
    Restore,
    ApplicationCheck,
}

/// What an application release wants of one deployment unit.
#[derive(Debug, Clone, PartialEq, Eq)]
pub struct TargetUnitState {
    pub unit_id: i64,
    pub unit_key: String,
    pub unit_release_id: Option<i64>,
    pub release_version: Option<String>,
    pub release_version_code: Option<i64>,
    pub desired_status: String,
    pub stage_no: i64,
    pub unit_order: i64,
    pub removal_order: i64,
    pub target_fingerprint: String,
}

/// What runs of one deployment unit on one node.
#[derive(Debug, Clone, PartialEq, Eq)]
pub struct CurrentUnitNodeState {
    pub unit_id: i64,
    pub node_id: i64,
    pub runtime_status: String,
    pub active_unit_release_id: Option<i64>,
    pub active_version_code: Option<i64>,
    pub active_fingerprint: String,
    pub container_version_label: String,
}

#[derive(Debug, Clone)]
pub struct DeploymentPlanInput {
    pub app_id: i64,
    pub environment_id: i64,
    pub app_release_id: i64,
    pub config_revision_id: i64,
    pub mode: DeploymentMode,
    pub target_node_ids: Vec<i64>,
    pub target_units: Vec<TargetUnitState>,
    pub current_states: Vec<CurrentUnitNodeState>,
}

#[derive(Debug, Clone, PartialEq, Eq)]
pub struct DeploymentPlanItem {
    pub unit_id: i64,
    pub unit_key: String,
    pub unit_release_id: Option<i64>,
    pub stage_no: i64,
    pub unit_order: i64,
    pub removal_order: i64,
    pub action: DeploymentAction,
    pub reason: String,
    pub target_fingerprint: String,
    pub previous_fingerprint: String,
}

#[derive(Debug, Clone, PartialEq, Eq)]
pub struct DeploymentPlan {
    pub app_id: i64,
    pub environment_id: i64,
    pub app_release_id: i64,
    pub config_revision_id: i64,
    pub mode: DeploymentMode,
    pub target_node_ids: Vec<i64>,
    pub items: Vec<DeploymentPlanItem>,
    pub plan_hash: String,
}

/// Why no plan could be made.
#[derive(Debug, Clone, PartialEq, Eq)]
pub struct DeploymentPlanError(String);

impl DeploymentPlanError {
    pub closed spec fn text(self) -> Seq<char> {
        self.0@
    }

    pub fn message(&self) -> (message: &str)
        ensures
            message@ == self.text(),
    {
        self.0.as_str()
    }
}

fn plan_error(message: &str) -> (error: DeploymentPlanError)
    ensures
        error.text() == message@,
{
    DeploymentPlanError(message.to_owned())
}

/// A plan item as a mathematical value.
pub struct PlannedItem {
    pub unit_id: i64,
    pub unit_key: Seq<char>,
    pub unit_release_id: Option<i64>,
    pub stage_no: i64,
    pub unit_order: i64,
    pub removal_order: i64,
    pub action: DeploymentAction,
    pub reason: Seq<char>,
    pub target_fingerprint: Seq<char>,
    pub previous_fingerprint: Seq<char>,
}

impl View for DeploymentPlanItem {
    type V = PlannedItem;

    open spec fn view(&self) -> PlannedItem {
        PlannedItem {
            unit_id: self.unit_id,
            unit_key: self.unit_key@,
            unit_release_id: self.unit_release_id,
            stage_no: self.stage_no,
            unit_order: self.unit_order,
            removal_order: self.removal_order,
            action: self.action,
            reason: self.reason@,
            target_fingerprint: self.target_fingerprint@,
            previous_fingerprint: self.previous_fingerprint@,
        }
    }
}

/// The views of plan items.
pub open spec fn item_views(items: Seq<DeploymentPlanItem>) -> Seq<PlannedItem> {
    items.map_values(|item: DeploymentPlanItem| item@)
}

// ---------------------------------------------------------------------------
// What is known of a unit on the target nodes
// ---------------------------------------------------------------------------

/// The state of the unit on the node is at position `at`.
pub open spec fn state_at(
    states: Seq<CurrentUnitNodeState>,
    unit_id: i64,
    node_id: i64,
    at: int,
) -> bool {
    0 <= at < states.len() && states[at].unit_id == unit_id && states[at].node_id == node_id
}

/// The state of the unit on the node, where one is known.
pub open spec fn state_of(
    states: Seq<CurrentUnitNodeState>,
    unit_id: i64,
    node_id: i64,
) -> Option<CurrentUnitNodeState> {
    if exists|at: int| state_at(states, unit_id, node_id, at) {
        Some(states[choose|at: int| state_at(states, unit_id, node_id, at)])
    } else {
        None
    }
}

/// At most one state for each unit on each node.
pub open spec fn states_are_distinct(states: Seq<CurrentUnitNodeState>) -> bool {
    forall|i: int, j: int|
        0 <= i < j < states.len() ==> states[i].unit_id != states[j].unit_id || states[i].node_id
            != states[j].node_id
}

/// The known states of the unit on the given nodes, in the order of the nodes.
pub open spec fn unit_states(
    states: Seq<CurrentUnitNodeState>,
    unit_id: i64,
    nodes: Seq<i64>,
) -> Seq<CurrentUnitNodeState>
    decreases nodes.len(),
{
    if nodes.len() == 0 {
        Seq::empty()
    } else {
        let before = unit_states(states, unit_id, nodes.drop_last());
        match state_of(states, unit_id, nodes.last()) {
            Some(state) => before.push(state),
            None => before,
        }
    }
}

/// The sequence of values that a sequence of references refers to.
pub open spec fn referred(states: Seq<&CurrentUnitNodeState>) -> Seq<CurrentUnitNodeState> {
    states.map_values(|state: &CurrentUnitNodeState| *state)
}

fn find_state<'a>(states: &'a Vec<CurrentUnitNodeState>, unit_id: i64, node_id: i64) -> (found:
    Option<&'a CurrentUnitNodeState>)
    requires
        states_are_distinct(states@),
    ensures
        match found {
            Some(state) => state_of(states@, unit_id, node_id) == Some(*state),
            None => state_of(states@, unit_id, node_id) is None,
        },
{
    let mut i: usize = 0;
    while i < states.len()
        invariant
            i <= states@.len(),
            states_are_distinct(states@),
            forall|k: int| 0 <= k < i ==> !#[trigger] state_at(states@, unit_id, node_id, k),
        decreases states@.len() - i,
    {
        if states[i].unit_id == unit_id && states[i].node_id == node_id {
            proof {
                assert(state_at(states@, unit_id, node_id, i as int));
                let chosen = choose|at: int| state_at(states@, unit_id, node_id, at);
                assert(state_at(states@, unit_id, node_id, chosen));
                if chosen < i {
                } else if chosen > i {
                    assert(states@[i as int].unit_id != states@[chosen].unit_id
                        || states@[i as int].node_id != states@[chosen].node_id);
                }
            }
            return Some(&states[i]);
        }
        i = i + 1;
    }
    None
}

fn states_of_unit<'a>(
    states: &'a Vec<CurrentUnitNodeState>,
    unit_id: i64,
    nodes: &Vec<i64>,
) -> (found: Vec<&'a CurrentUnitNodeState>)
    requires
        states_are_distinct(states@),
    ensures
        referred(found@) == unit_states(states@, unit_id, nodes@),
{
    let mut found: Vec<&'a CurrentUnitNodeState> = Vec::new();
    let mut i: usize = 0;
    assert(referred(found@) =~= unit_states(states@, unit_id, nodes@.take(0)));
    while i < nodes.len()
        invariant
            i <= nodes@.len(),
            states_are_distinct(states@),
            referred(found@) == unit_states(states@, unit_id, nodes@.take(i as int)),
        decreases nodes@.len() - i,
    {
        assert(nodes@.take(i + 1).drop_last() =~= nodes@.take(i as int));
        let ghost before = found@;
        match find_state(states, unit_id, nodes[i]) {
            Some(state) => {
                found.push(state);
                assert(referred(found@) =~= referred(before).push(*state));
            },
            None => {},
        }
        i = i + 1;
    }
    assert(nodes@.take(i as int) =~= nodes@);
    found
}

fn distinct_states(states: &Vec<CurrentUnitNodeState>) -> (distinct: bool)
    ensures
        distinct == states_are_distinct(states@),
{
    let mut j: usize = 0;
    while j < states.len()
        invariant
            j <= states@.len(),
            forall|a: int, b: int|
                0 <= a < b < j ==> states@[a].unit_id != states@[b].unit_id || states@[a].node_id
                    != states@[b].node_id,
        decreases states@.len() - j,
    {
        let mut i: usize = 0;
        while i < j
            invariant
                i <= j < states@.len(),
                forall|a: int|
                    0 <= a < i ==> (#[trigger] states@[a]).unit_id != states@[j as int].unit_id
                        || states@[a].node_id != states@[j as int].node_id,
            decreases j - i,
        {
            if states[i].unit_id == states[j].unit_id && states[i].node_id == states[j].node_id {
                return false;
            }
            i = i + 1;
        }
        j = j + 1;
    }
    true
}

// ---------------------------------------------------------------------------
// The action for one unit
// ---------------------------------------------------------------------------

pub open spec fn has_status(state: CurrentUnitNodeState, status: Seq<char>) -> bool {
    state.runtime_status@ == status
}

/// Every state has the given status.
pub open spec fn all_have_status(states: Seq<CurrentUnitNodeState>, status: Seq<char>) -> bool {
    forall|i: int| 0 <= i < states.len() ==> has_status(#[trigger] states[i], status)
}

/// The node runs what the target wants: the release, the configuration and the label of the
/// container agree, and the unit is healthy.
pub open spec fn state_matches(state: CurrentUnitNodeState, target: TargetUnitState) -> bool {
    &&& has_status(state, "healthy"@)
    &&& state.active_unit_release_id == target.unit_release_id
    &&& state.active_fingerprint@ == target.target_fingerprint@
    &&& target.release_version is Some
    &&& state.container_version_label@ == target.release_version->0@
}

pub open spec fn all_match(states: Seq<CurrentUnitNodeState>, target: TargetUnitState) -> bool {
    forall|i: int| 0 <= i < states.len() ==> state_matches(#[trigger] states[i], target)
}

/// A status that tells reliably what the node runs.
pub open spec fn all_are_certain(states: Seq<CurrentUnitNodeState>) -> bool {
    forall|i: int|
        0 <= i < states.len() ==> has_status(#[trigger] states[i], "healthy"@) || has_status(
            states[i],
            "stopped"@,
        )
}

/// Every version code that is known on a node is below the given one.
pub open spec fn all_codes_below(states: Seq<CurrentUnitNodeState>, code: i64) -> bool {
    forall|i: int|
        0 <= i < states.len() ==> ((#[trigger] states[i]).active_version_code is Some
            ==> states[i].active_version_code->0 < code)
}

/// Every version code that is known on a node is above the given one.
pub open spec fn all_codes_above(states: Seq<CurrentUnitNodeState>, code: i64) -> bool {
    forall|i: int|
        0 <= i < states.len() ==> ((#[trigger] states[i]).active_version_code is Some
            ==> states[i].active_version_code->0 > code)
}

/// What happens to a unit, and why.
pub open spec fn planned_action(
    mode: DeploymentMode,
    target: TargetUnitState,
    node_count: nat,
    states: Seq<CurrentUnitNodeState>,
) -> (DeploymentAction, Seq<char>) {
    if target.desired_status@ == "disabled"@ {
        if states.len() == 0 || (states.len() == node_count && all_have_status(
            states,
            "stopped"@,
        )) {
            (DeploymentAction::Skip, "部署单元已经停止"@)
        } else {
            (DeploymentAction::Stop, "目标应用版本停用该单元"@)
        }
    } else if mode == DeploymentMode::Force {
        (DeploymentAction::Deploy, "强制全量部署重新执行启用单元"@)
    } else if states.len() != node_count {
        if states.len() == 0 {
            (DeploymentAction::Start, "目标节点尚未部署该单元"@)
        } else {
            (DeploymentAction::Deploy, "部分目标节点缺少可信运行状态"@)
        }
    } else if all_match(states, target) {
        (DeploymentAction::Skip, "版本、配置、容器 label 和健康状态均与目标一致"@)
    } else if !all_are_certain(states) {
        (DeploymentAction::Deploy, "运行状态或健康探测不可信，不能跳过"@)
    } else if all_have_status(states, "stopped"@) {
        (DeploymentAction::Restore, "部署单元已停止，需要恢复目标版本"@)
    } else if target.release_version_code is Some && all_codes_below(
        states,
        target.release_version_code->0,
    ) {
        (DeploymentAction::Upgrade, "目标发布包版本更高"@)
    } else if target.release_version_code is Some && all_codes_above(
        states,
        target.release_version_code->0,
    ) {
        (DeploymentAction::Downgrade, "目标发布包版本更低"@)
    } else {
        (DeploymentAction::Deploy, "目标指纹、容器 label 或节点版本不一致"@)
    }
}

fn every_status(states: &Vec<&CurrentUnitNodeState>, status: &str) -> (all: bool)
    ensures
        all == all_have_status(referred(states@), status@),
{
    let mut i: usize = 0;
    while i < states.len()
        invariant
            i <= states@.len(),
            forall|k: int|
                0 <= k < i ==> has_status(#[trigger] referred(states@)[k], status@),
        decreases states@.len() - i,
    {
        if !same_text(states[i].runtime_status.as_str(), status) {
            assert(!has_status(referred(states@)[i as int], status@));
            return false;
        }
        i = i + 1;
    }
    true
}

fn every_match(states: &Vec<&CurrentUnitNodeState>, target: &TargetUnitState) -> (all: bool)
    ensures
        all == all_match(referred(states@), *target),
{
    let mut i: usize = 0;
    while i < states.len()
        invariant
            i <= states@.len(),
            forall|k: int| 0 <= k < i ==> state_matches(#[trigger] referred(states@)[k], *target),
        decreases states@.len() - i,
    {
        let state = states[i];
        assert(referred(states@)[i as int] == *state);
        let label_matches = match &target.release_version {
            Some(version) => same_text(state.container_version_label.as_str(), version.as_str()),
            None => false,
        };
        let release_matches = match (state.active_unit_release_id, target.unit_release_id) {
            (Some(active), Some(wanted)) => active == wanted,
            (None, None) => true,
            _ => false,
        };
        if !(label_matches && release_matches && same_text(
            state.runtime_status.as_str(),
            "healthy",
        ) && same_text(state.active_fingerprint.as_str(), target.target_fingerprint.as_str())) {
            assert(!state_matches(referred(states@)[i as int], *target));
            return false;
        }
        i = i + 1;
    }
    true
}

fn every_certain(states: &Vec<&CurrentUnitNodeState>) -> (all: bool)
    ensures
        all == all_are_certain(referred(states@)),
{
    let mut i: usize = 0;
    while i < states.len()
        invariant
            i <= states@.len(),
            forall|k: int|
                0 <= k < i ==> has_status(#[trigger] referred(states@)[k], "healthy"@)
                    || has_status(referred(states@)[k], "stopped"@),
        decreases states@.len() - i,
    {
        let status = states[i].runtime_status.as_str();
        assert(referred(states@)[i as int].runtime_status@ == status@);
        if !same_text(status, "healthy") && !same_text(status, "stopped") {
            return false;
        }
        i = i + 1;
    }
    true
}

fn every_code_below(states: &Vec<&CurrentUnitNodeState>, code: i64) -> (all: bool)
    ensures
        all == all_codes_below(referred(states@), code),
{
    let mut i: usize = 0;
    while i < states.len()
        invariant
            i <= states@.len(),
            forall|k: int|
                0 <= k < i ==> ((#[trigger] referred(states@)[k]).active_version_code is Some
                    ==> referred(states@)[k].active_version_code->0 < code),
        decreases states@.len() - i,
    {
        assert(referred(states@)[i as int] == *states@[i as int]);
        match states[i].active_version_code {
            Some(active) => {
                if active >= code {
                    return false;
                }
            },
            None => {},
        }
        i = i + 1;
    }
    true
}

fn every_code_above(states: &Vec<&CurrentUnitNodeState>, code: i64) -> (all: bool)
    ensures
        all == all_codes_above(referred(states@), code),
{
    let mut i: usize = 0;
    while i < states.len()
        invariant
            i <= states@.len(),
            forall|k: int|
                0 <= k < i ==> ((#[trigger] referred(states@)[k]).active_version_code is Some
                    ==> referred(states@)[k].active_version_code->0 > code),
        decreases states@.len() - i,
    {
        assert(referred(states@)[i as int] == *states@[i as int]);
        match states[i].active_version_code {
            Some(active) => {
                if active <= code {
                    return false;
                }
            },
            None => {},
        }
        i = i + 1;
    }
    true
}

/// Decides what happens to a unit from its states on the target nodes.
pub fn classify_action(
    mode: DeploymentMode,
    target: &TargetUnitState,
    target_node_ids: &Vec<i64>,
    states: &Vec<&CurrentUnitNodeState>,
) -> (decision: (DeploymentAction, String))
    ensures
        (decision.0, decision.1@) == planned_action(
            mode,
            *target,
            target_node_ids@.len(),
            referred(states@),
        ),
{
    let complete = states.len() == target_node_ids.len();
    if same_text(target.desired_status.as_str(), "disabled") {
        if states.len() == 0 || (complete && every_status(states, "stopped")) {
            return (DeploymentAction::Skip, "部署单元已经停止".to_owned());
        }
        return (DeploymentAction::Stop, "目标应用版本停用该单元".to_owned());
    }
    if mode == DeploymentMode::Force {
        return (DeploymentAction::Deploy, "强制全量部署重新执行启用单元".to_owned());
    }
    if !complete {
        if states.len() == 0 {
            return (DeploymentAction::Start, "目标节点尚未部署该单元".to_owned());
        }
        return (DeploymentAction::Deploy, "部分目标节点缺少可信运行状态".to_owned());
    }
    if every_match(states, target) {
        return (
            DeploymentAction::Skip,
            "版本、配置、容器 label 和健康状态均与目标一致".to_owned(),
        );
    }
    if !every_certain(states) {
        return (DeploymentAction::Deploy, "运行状态或健康探测不可信，不能跳过".to_owned());
    }
    if every_status(states, "stopped") {
        return (DeploymentAction::Restore, "部署单元已停止，需要恢复目标版本".to_owned());
    }
    match target.release_version_code {
        Some(code) => {
            if every_code_below(states, code) {
                return (DeploymentAction::Upgrade, "目标发布包版本更高".to_owned());
            }
            if every_code_above(states, code) {
                return (DeploymentAction::Downgrade, "目标发布包版本更低".to_owned());
            }
        },
        None => {},
    }
    (DeploymentAction::Deploy, "目标指纹、容器 label 或节点版本不一致".to_owned())
}

/// The fingerprint that all states agree on, or the empty text.
pub open spec fn common_fingerprint(states: Seq<CurrentUnitNodeState>) -> Seq<char> {
    if states.len() > 0 && forall|i: int|
        0 <= i < states.len() ==> (#[trigger] states[i]).active_fingerprint@
            == states[0].active_fingerprint@ {
        states[0].active_fingerprint@
    } else {
        Seq::empty()
    }
}

pub fn common_previous_fingerprint(states: &Vec<&CurrentUnitNodeState>) -> (fingerprint: String)
    ensures
        fingerprint@ == common_fingerprint(referred(states@)),
{
    if states.len() == 0 {
        return String::new();
    }
    let first = states[0];
    assert(referred(states@)[0] == *first);
    let mut i: usize = 0;
    while i < states.len()
        invariant
            i <= states@.len(),
            0 < states@.len(),
            first == states@[0],
            forall|k: int|
                0 <= k < i ==> (#[trigger] referred(states@)[k]).active_fingerprint@
                    == first.active_fingerprint@,
        decreases states@.len() - i,
    {
        assert(referred(states@)[i as int] == *states@[i as int]);
        if !same_text(
            states[i].active_fingerprint.as_str(),
            first.active_fingerprint.as_str(),
        ) {
            assert(referred(states@)[0] == *first);
            return String::new();
        }
        i = i + 1;
    }
    first.active_fingerprint.clone()
}

// ---------------------------------------------------------------------------
// The plan
// ---------------------------------------------------------------------------

/// The item of the plan for one target unit.
pub open spec fn planned_item(
    mode: DeploymentMode,
    target: TargetUnitState,
    nodes: Seq<i64>,
    states: Seq<CurrentUnitNodeState>,
) -> PlannedItem {
    let known = unit_states(states, target.unit_id, nodes);
    let decision = planned_action(mode, target, nodes.len(), known);
    PlannedItem {
        unit_id: target.unit_id,
        unit_key: target.unit_key@,
        unit_release_id: target.unit_release_id,
        stage_no: target.stage_no,
        unit_order: target.unit_order,
        removal_order: target.removal_order,
        action: decision.0,
        reason: decision.1,
        target_fingerprint: target.target_fingerprint@,
        previous_fingerprint: common_fingerprint(known),
    }
}

/// One item for each target unit, in the order of the units.
pub open spec fn planned_items(
    mode: DeploymentMode,
    targets: Seq<TargetUnitState>,
    nodes: Seq<i64>,
    states: Seq<CurrentUnitNodeState>,
) -> Seq<PlannedItem> {
    Seq::new(targets.len(), |i: int| planned_item(mode, targets[i], nodes, states))
}

/// The order of execution: what is stopped comes first, from the last stage to the first;
/// then everything else, from the first stage to the last.
pub open spec fn runs_before(left: PlannedItem, right: PlannedItem) -> bool {
    let left_stops = left.action == DeploymentAction::Stop;
    let right_stops = right.action == DeploymentAction::Stop;
    if left_stops != right_stops {
        left_stops
    } else if left_stops {
        left.stage_no > right.stage_no || (left.stage_no == right.stage_no && (left.removal_order
            > right.removal_order || (left.removal_order == right.removal_order && left.unit_id
            < right.unit_id)))
    } else {
        left.stage_no < right.stage_no || (left.stage_no == right.stage_no && (left.unit_order
            < right.unit_order || (left.unit_order == right.unit_order && left.unit_id
            < right.unit_id)))
    }
}

pub open spec fn in_execution_order(items: Seq<PlannedItem>) -> bool {
    forall|i: int, j: int| 0 <= i < j < items.len() ==> runs_before(items[i], items[j])
}

/// What is wrong with the last target unit, given the ones before it.
pub open spec fn last_unit_error(targets: Seq<TargetUnitState>) -> Option<Seq<char>> {
    let last = targets.last();
    if exists|i: int|
        0 <= i < targets.len() - 1 && (#[trigger] targets[i]).unit_id == last.unit_id {
        Some("应用版本包含重复部署单元"@)
    } else if last.desired_status@ != "active"@ && last.desired_status@ != "disabled"@ {
        Some("部署单元目标状态必须是 active 或 disabled"@)
    } else if last.desired_status@ == "active"@ && last.unit_release_id is None {
        Some("启用的部署单元缺少发布包"@)
    } else {
        None
    }
}

/// What is wrong with the first target unit that cannot be planned.
pub open spec fn first_unit_error(targets: Seq<TargetUnitState>) -> Option<Seq<char>>
    decreases targets.len(),
{
    if targets.len() == 0 {
        None
    } else {
        match first_unit_error(targets.drop_last()) {
            Some(message) => Some(message),
            None => last_unit_error(targets),
        }
    }
}

/// Why no plan can be made of the input.
pub open spec fn input_error(input: DeploymentPlanInput) -> Option<Seq<char>> {
    if input.target_node_ids@.len() == 0 {
        Some("部署环境至少需要一个目标节点"@)
    } else if input.target_units@.len() == 0 {
        Some("应用版本不包含部署单元"@)
    } else if !states_are_distinct(input.current_states@) {
        Some("同一部署单元和节点存在重复运行状态"@)
    } else {
        first_unit_error(input.target_units@)
    }
}

proof fn lemma_unit_error_stays(targets: Seq<TargetUnitState>, count: int)
    requires
        0 <= count <= targets.len(),
        first_unit_error(targets.take(count)) is Some,
    ensures
        first_unit_error(targets) == first_unit_error(targets.take(count)),
    decreases targets.len() - count,
{
    if count < targets.len() {
        assert(targets.take(count + 1).drop_last() =~= targets.take(count));
        lemma_unit_error_stays(targets, count + 1);
    } else {
        assert(targets.take(count) =~= targets);
    }
}

/// No two target units of a valid input share an identifier.
pub proof fn lemma_units_are_distinct(targets: Seq<TargetUnitState>)
    requires
        first_unit_error(targets) is None,
    ensures
        forall|i: int, j: int|
            0 <= i < j < targets.len() ==> targets[i].unit_id != targets[j].unit_id,
    decreases targets.len(),
{
    if targets.len() > 0 {
        let before = targets.drop_last();
        lemma_units_are_distinct(before);
        assert forall|i: int, j: int| 0 <= i < j < targets.len() implies targets[i].unit_id
            != targets[j].unit_id by {
            if j < targets.len() - 1 {
                assert(before[i] == targets[i] && before[j] == targets[j]);
            }
        }
    }
}

/// Whether the first item runs before the second.
fn item_runs_before(left: &DeploymentPlanItem, right: &DeploymentPlanItem) -> (before: bool)
    ensures
        before == runs_before(left@, right@),
{
    let left_stops = left.action == DeploymentAction::Stop;
    let right_stops = right.action == DeploymentAction::Stop;
    if left_stops != right_stops {
        left_stops
    } else if left_stops {
        left.stage_no > right.stage_no || (left.stage_no == right.stage_no && (left.removal_order
            > right.removal_order || (left.removal_order == right.removal_order && left.unit_id
            < right.unit_id)))
    } else {
        left.stage_no < right.stage_no || (left.stage_no == right.stage_no && (left.unit_order
            < right.unit_order || (left.unit_order == right.unit_order && left.unit_id
            < right.unit_id)))
    }
}

proof fn lemma_same_members(left: Seq<PlannedItem>, right: Seq<PlannedItem>, item: PlannedItem)
    requires
        left.to_multiset() == right.to_multiset(),
        left.contains(item),
    ensures
        right.contains(item),
{
    vstd::seq_lib::to_multiset_contains(left, item);
    vstd::seq_lib::to_multiset_contains(right, item);
}

/// Puts an item where it belongs among items in execution order.
fn insert_in_order(items: &mut Vec<DeploymentPlanItem>, item: DeploymentPlanItem)
    requires
        in_execution_order(item_views(old(items)@)),
        forall|i: int| 0 <= i < old(items)@.len() ==> old(items)@[i].unit_id != item.unit_id,
    ensures
        in_execution_order(item_views(final(items)@)),
        item_views(final(items)@).to_multiset() == item_views(old(items)@).to_multiset().insert(
            item@,
        ),
        final(items)@.len() == old(items)@.len() + 1,
{
    let mut at: usize = 0;
    while at < items.len() && item_runs_before(&items[at], &item)
        invariant
            at <= items@.len(),
            forall|i: int| 0 <= i < at ==> runs_before(#[trigger] items@[i]@, item@),
        decreases items@.len() - at,
    {
        at = at + 1;
    }
    let ghost before = items@;
    let ghost value = item@;
    proof {
        assert(forall|i: int|
            0 <= i < before.len() ==> #[trigger] item_views(before)[i] == before[i]@);
        if at < before.len() {
            assert(before[at as int].unit_id != item.unit_id);
            assert(runs_before(item@, before[at as int]@));
        }
        assert forall|i: int| at <= i < before.len() implies runs_before(
            value,
            #[trigger] before[i]@,
        ) by {
            if i > at {
                assert(runs_before(item_views(before)[at as int], item_views(before)[i]));
            }
        }
    }
    items.insert(at, item);
    proof {
        assert(item_views(items@) =~= item_views(before).insert(at as int, value));
        vstd::seq_lib::to_multiset_insert(item_views(before), at as int, value);
        let after = item_views(items@);
        assert forall|i: int, j: int| 0 <= i < j < after.len() implies runs_before(
            after[i],
            after[j],
        ) by {
            if i < at && j < at {
                assert(after[i] == item_views(before)[i] && after[j] == item_views(before)[j]);
            } else if i < at && j == at {
                assert(after[i] == before[i]@);
            } else if i < at {
                assert(after[i] == item_views(before)[i] && after[j] == item_views(before)[j - 1]);
            } else if i == at {
                assert(after[j] == before[j - 1]@);
            } else {
                assert(after[i] == item_views(before)[i - 1] && after[j] == item_views(before)[j
                    - 1]);
            }
        }
    }
}

impl DeploymentMode {
    pub open spec fn name(self) -> Seq<char> {
        match self {
            DeploymentMode::Normal => "normal"@,
            DeploymentMode::Force => "force"@,
        }
    }

    pub fn as_str(&self) -> (name: &'static str)
        ensures
            name@ == self.name(),
    {
        match self {
            DeploymentMode::Normal => "normal",
            DeploymentMode::Force => "force",
        }
    }
}

impl DeploymentAction {
    pub open spec fn name(self) -> Seq<char> {
        match self {
            DeploymentAction::Deploy => "deploy"@,
            DeploymentAction::Skip => "skip"@,
            DeploymentAction::Start => "start"@,
            DeploymentAction::Stop => "stop"@,
            DeploymentAction::Upgrade => "upgrade"@,
            DeploymentAction::Downgrade => "downgrade"@,
            DeploymentAction::Restore => "restore"@,
            DeploymentAction::ApplicationCheck => "application_check"@,
        }
    }

    pub fn as_str(&self) -> (name: &'static str)
        ensures
            name@ == self.name(),
    {
        match self {
            DeploymentAction::Deploy => "deploy",
            DeploymentAction::Skip => "skip",
            DeploymentAction::Start => "start",
            DeploymentAction::Stop => "stop",
            DeploymentAction::Upgrade => "upgrade",
            DeploymentAction::Downgrade => "downgrade",
            DeploymentAction::Restore => "restore",
            DeploymentAction::ApplicationCheck => "application_check",
        }
    }
}

/// A plan item as a JSON object.
pub open spec fn item_document(item: PlannedItem) -> Seq<char> {
    "{\"unit_id\":"@ + signed_decimal(item.unit_id as int) + ",\"unit_key\":"@ + json_string(
        item.unit_key,
    ) + ",\"unit_release_id\":"@ + json_optional(item.unit_release_id) + ",\"stage_no\":"@
        + signed_decimal(item.stage_no as int) + ",\"unit_order\":"@ + signed_decimal(
        item.unit_order as int,
    ) + ",\"removal_order\":"@ + signed_decimal(item.removal_order as int) + ",\"action\":"@
        + json_string(item.action.name()) + ",\"reason\":"@ + json_string(item.reason)
        + ",\"target_fingerprint\":"@ + json_string(item.target_fingerprint)
        + ",\"previous_fingerprint\":"@ + json_string(item.previous_fingerprint) + "}"@
}

fn item_text(item: &DeploymentPlanItem) -> (text: String)
    ensures
        text@ == item_document(item@),
{
    let unit_id = integer_text(item.unit_id);
    let unit_key = json_text(item.unit_key.as_str());
    let unit_release_id = optional_text(item.unit_release_id);
    let stage_no = integer_text(item.stage_no);
    let unit_order = integer_text(item.unit_order);
    let removal_order = integer_text(item.removal_order);
    let action = json_text(item.action.as_str());
    let reason = json_text(item.reason.as_str());
    let target_fingerprint = json_text(item.target_fingerprint.as_str());
    let previous_fingerprint = json_text(item.previous_fingerprint.as_str());
    "{\"unit_id\":".to_owned().concat(unit_id.as_str()).concat(",\"unit_key\":").concat(
        unit_key.as_str(),
    ).concat(",\"unit_release_id\":").concat(unit_release_id.as_str()).concat(
        ",\"stage_no\":",
    ).concat(stage_no.as_str()).concat(",\"unit_order\":").concat(unit_order.as_str()).concat(
        ",\"removal_order\":",
    ).concat(removal_order.as_str()).concat(",\"action\":").concat(action.as_str()).concat(
        ",\"reason\":",
    ).concat(reason.as_str()).concat(",\"target_fingerprint\":").concat(
        target_fingerprint.as_str(),
    ).concat(",\"previous_fingerprint\":").concat(previous_fingerprint.as_str()).concat("}")
}

/// The JSON objects of plan items.
pub open spec fn item_documents(items: Seq<PlannedItem>) -> Seq<Seq<char>> {
    items.map_values(|item: PlannedItem| item_document(item))
}

fn items_text(items: &Vec<DeploymentPlanItem>) -> (text: String)
    ensures
        text@ == json_array(item_documents(item_views(items@))),
{
    let ghost documents = item_documents(item_views(items@));
    let mut written: Vec<String> = Vec::new();
    let mut i: usize = 0;
    assert(texts(written@) =~= documents.take(0));
    while i < items.len()
        invariant
            i <= items@.len(),
            documents == item_documents(item_views(items@)),
            texts(written@) == documents.take(i as int),
        decreases items@.len() - i,
    {
        let text = item_text(&items[i]);
        assert(text@ == documents[i as int]);
        proof {
            lemma_texts_push(written@, text);
        }
        written.push(text);
        i = i + 1;
        assert(texts(written@) =~= documents.take(i as int));
    }
    assert(documents.take(i as int) =~= documents);
    array_text(&written)
}

/// The JSON document of a plan, from which its hash is made.
pub open spec fn plan_document(
    app_id: i64,
    environment_id: i64,
    app_release_id: i64,
    config_revision_id: i64,
    mode: DeploymentMode,
    nodes: Seq<i64>,
    items: Seq<PlannedItem>,
) -> Seq<char> {
    "{\"app_id\":"@ + signed_decimal(app_id as int) + ",\"environment_id\":"@ + signed_decimal(
        environment_id as int,
    ) + ",\"app_release_id\":"@ + signed_decimal(app_release_id as int)
        + ",\"config_revision_id\":"@ + signed_decimal(config_revision_id as int)
        + ",\"mode\":"@ + json_string(mode.name()) + ",\"target_node_ids\":"@ + json_array(
        number_texts(nodes),
    ) + ",\"items\":"@ + json_array(item_documents(items)) + "}"@
}

/// The plan's hash is that of its JSON document.
pub open spec fn hash_is_current(plan: DeploymentPlan) -> bool {
    plan.plan_hash@ == sha256_hex(
        vstd::utf8::encode_utf8(
            plan_document(
                plan.app_id,
                plan.environment_id,
                plan.app_release_id,
                plan.config_revision_id,
                plan.mode,
                plan.target_node_ids@,
                item_views(plan.items@),
            ),
        ),
    )
}

/// The plan is the one that the input asks for.
pub open spec fn plans(input: DeploymentPlanInput, plan: DeploymentPlan) -> bool {
    &&& plan.app_id == input.app_id
    &&& plan.environment_id == input.environment_id
    &&& plan.app_release_id == input.app_release_id
    &&& plan.config_revision_id == input.config_revision_id
    &&& plan.mode == input.mode
    &&& strictly_ascending(plan.target_node_ids@)
    &&& forall|node: i64|
        plan.target_node_ids@.contains(node) <==> input.target_node_ids@.contains(node)
    &&& item_views(plan.items@).to_multiset() == planned_items(
        input.mode,
        input.target_units@,
        plan.target_node_ids@,
        input.current_states@,
    ).to_multiset()
    &&& in_execution_order(item_views(plan.items@))
    &&& hash_is_current(plan)
}

fn plan_hash(
    app_id: i64,
    environment_id: i64,
    app_release_id: i64,
    config_revision_id: i64,
    mode: DeploymentMode,
    nodes: &Vec<i64>,
    items: &Vec<DeploymentPlanItem>,
) -> (hash: String)
    ensures
        hash@ == sha256_hex(
            vstd::utf8::encode_utf8(
                plan_document(
                    app_id,
                    environment_id,
                    app_release_id,
                    config_revision_id,
                    mode,
                    nodes@,
                    item_views(items@),
                ),
            ),
        ),
{
    let app = integer_text(app_id);
    let environment = integer_text(environment_id);
    let app_release = integer_text(app_release_id);
    let config_revision = integer_text(config_revision_id);
    let mode_name = json_text(mode.as_str());
    let node_ids = numbers_text(nodes);
    let item_list = items_text(items);
    let document = "{\"app_id\":".to_owned().concat(app.as_str()).concat(
        ",\"environment_id\":",
    ).concat(environment.as_str()).concat(",\"app_release_id\":").concat(
        app_release.as_str(),
    ).concat(",\"config_revision_id\":").concat(config_revision.as_str()).concat(
        ",\"mode\":",
    ).concat(mode_name.as_str()).concat(",\"target_node_ids\":").concat(node_ids.as_str()).concat(
        ",\"items\":",
    ).concat(item_list.as_str()).concat("}");
    sha256_hex_text(document.as_str().as_bytes())
}

fn unit_is_repeated(targets: &Vec<TargetUnitState>, at: usize) -> (repeated: bool)
    requires
        at < targets@.len(),
    ensures
        repeated == exists|i: int|
            0 <= i < at && (#[trigger] targets@[i]).unit_id == targets@[at as int].unit_id,
{
    let mut i: usize = 0;
    while i < at
        invariant
            i <= at < targets@.len(),
            forall|k: int|
                0 <= k < i ==> (#[trigger] targets@[k]).unit_id != targets@[at as int].unit_id,
        decreases at - i,
    {
        if targets[i].unit_id == targets[at].unit_id {
            return true;
        }
        i = i + 1;
    }
    false
}

/// What is wrong with the target unit at the given position.
fn unit_error(targets: &Vec<TargetUnitState>, at: usize) -> (error: Option<DeploymentPlanError>)
    requires
        at < targets@.len(),
    ensures
        match error {
            Some(found) => last_unit_error(targets@.take(at + 1)) == Some(found.text()),
            None => last_unit_error(targets@.take(at + 1)) is None,
        },
{
    let ghost seen = targets@.take(at + 1);
    let target = &targets[at];
    assert(seen.last() == *target);
    if unit_is_repeated(targets, at) {
        proof {
            let k = choose|k: int|
                0 <= k < at && (#[trigger] targets@[k]).unit_id == targets@[at as int].unit_id;
            assert(seen[k].unit_id == seen.last().unit_id);
        }
        return Some(plan_error("应用版本包含重复部署单元"));
    }
    assert forall|k: int| 0 <= k < seen.len() - 1 implies (#[trigger] seen[k]).unit_id
        != target.unit_id by {
        assert(seen[k] == targets@[k]);
    }
    let active = same_text(target.desired_status.as_str(), "active");
    if !active && !same_text(target.desired_status.as_str(), "disabled") {
        return Some(plan_error("部署单元目标状态必须是 active 或 disabled"));
    }
    if active && target.unit_release_id.is_none() {
        return Some(plan_error("启用的部署单元缺少发布包"));
    }
    None
}

/// Makes the plan of a deployment.
pub fn build_deployment_plan(input: DeploymentPlanInput) -> (result: Result<
    DeploymentPlan,
    DeploymentPlanError,
>)
    ensures
        match result {
            Ok(plan) => input_error(input) is None && plans(input, plan),
            Err(error) => input_error(input) == Some(error.text()),
        },
{
    if input.target_node_ids.len() == 0 {
        return Err(plan_error("部署环境至少需要一个目标节点"));
    }
    let nodes = sorted_unique(&input.target_node_ids);
    if input.target_units.len() == 0 {
        return Err(plan_error("应用版本不包含部署单元"));
    }
    if !distinct_states(&input.current_states) {
        return Err(plan_error("同一部署单元和节点存在重复运行状态"));
    }
    let ghost targets = input.target_units@;
    let ghost wanted = planned_items(input.mode, targets, nodes@, input.current_states@);
    let mut items: Vec<DeploymentPlanItem> = Vec::new();
    let mut i: usize = 0;
    assert(item_views(items@) =~= wanted.take(0));
    while i < input.target_units.len()
        invariant
            i <= targets.len(),
            targets == input.target_units@,
            input.target_node_ids@.len() > 0,
            targets.len() > 0,
            states_are_distinct(input.current_states@),
            wanted == planned_items(input.mode, targets, nodes@, input.current_states@),
            first_unit_error(targets.take(i as int)) is None,
            in_execution_order(item_views(items@)),
            item_views(items@).to_multiset() == wanted.take(i as int).to_multiset(),
        decreases targets.len() - i,
    {
        assert(targets.take(i + 1).drop_last() =~= targets.take(i as int));
        match unit_error(&input.target_units, i) {
            Some(error) => {
                proof {
                    lemma_unit_error_stays(targets, i + 1);
                }
                return Err(error);
            },
            None => {},
        }
        let target = &input.target_units[i];
        let states = states_of_unit(&input.current_states, target.unit_id, &nodes);
        let previous_fingerprint = common_previous_fingerprint(&states);
        let (action, reason) = classify_action(input.mode, target, &nodes, &states);
        let item = DeploymentPlanItem {
            unit_id: target.unit_id,
            unit_key: target.unit_key.clone(),
            unit_release_id: target.unit_release_id,
            stage_no: target.stage_no,
            unit_order: target.unit_order,
            removal_order: target.removal_order,
            action,
            reason,
            target_fingerprint: target.target_fingerprint.clone(),
            previous_fingerprint,
        };
        assert(item@ == wanted[i as int]);
        proof {
            lemma_units_are_distinct(targets.take(i + 1));
            let have = item_views(items@);
            let upto = wanted.take(i as int);
            assert forall|k: int| 0 <= k < items@.len() implies items@[k].unit_id
                != item.unit_id by {
                have.to_multiset_ensures();
                upto.to_multiset_ensures();
                assert(have[k] == items@[k]@);
                assert(have.contains(have[k]));
                lemma_same_members(have, upto, have[k]);
                let m = choose|m: int| 0 <= m < upto.len() && upto[m] == have[k];
                assert(targets.take(i + 1)[m].unit_id != targets.take(i + 1)[i as int].unit_id);
            }
            assert(wanted.take(i + 1) =~= upto.push(item@));
            vstd::seq_lib::to_multiset_build(upto, item@);
        }
        insert_in_order(&mut items, item);
        i = i + 1;
    }
    assert(targets.take(i as int) =~= targets);
    assert(wanted.take(i as int) =~= wanted);
    let plan_hash = plan_hash(
        input.app_id,
        input.environment_id,
        input.app_release_id,
        input.config_revision_id,
        input.mode,
        &nodes,
        &items,
    );
    Ok(
        DeploymentPlan {
            app_id: input.app_id,
            environment_id: input.environment_id,
            app_release_id: input.app_release_id,
            config_revision_id: input.config_revision_id,
            mode: input.mode,
            target_node_ids: nodes,
            items,
            plan_hash,
        },
    )
}

// ---------------------------------------------------------------------------
// Laws
// ---------------------------------------------------------------------------

/// A plan holds one item for each target unit, and no other.
pub proof fn plan_covers_every_unit(input: DeploymentPlanInput, plan: DeploymentPlan)
    requires
        plans(input, plan),
    ensures
        plan.items@.len() == input.target_units@.len(),
        forall|i: int|
            0 <= i < input.target_units@.len() ==> item_views(plan.items@).contains(
                planned_item(
                    input.mode,
                    #[trigger] input.target_units@[i],
                    plan.target_node_ids@,
                    input.current_states@,
                ),
            ),
        forall|k: int|
            0 <= k < plan.items@.len() ==> exists|i: int|
                0 <= i < input.target_units@.len() && (#[trigger] plan.items@[k])@ == planned_item(
                    input.mode,
                    #[trigger] input.target_units@[i],
                    plan.target_node_ids@,
                    input.current_states@,
                ),
{
    let have = item_views(plan.items@);
    let wanted = planned_items(
        input.mode,
        input.target_units@,
        plan.target_node_ids@,
        input.current_states@,
    );
    have.to_multiset_ensures();
    wanted.to_multiset_ensures();
    assert forall|i: int| 0 <= i < input.target_units@.len() implies have.contains(
        planned_item(
            input.mode,
            #[trigger] input.target_units@[i],
            plan.target_node_ids@,
            input.current_states@,
        ),
    ) by {
        assert(wanted.contains(wanted[i]));
        lemma_same_members(wanted, have, wanted[i]);
    }
    assert forall|k: int| 0 <= k < plan.items@.len() implies exists|i: int|
        0 <= i < input.target_units@.len() && (#[trigger] plan.items@[k])@ == planned_item(
            input.mode,
            #[trigger] input.target_units@[i],
            plan.target_node_ids@,
            input.current_states@,
        ) by {
        assert(have.contains(have[k]));
        lemma_same_members(have, wanted, have[k]);
        let i = choose|i: int| 0 <= i < wanted.len() && wanted[i] == have[k];
        assert(plan.items@[k]@ == planned_item(
            input.mode,
            input.target_units@[i],
            plan.target_node_ids@,
            input.current_states@,
        ));
    }
}

/// A disabled unit is stopped or left alone, never deployed.
pub proof fn disabled_units_are_never_deployed(
    mode: DeploymentMode,
    target: TargetUnitState,
    nodes: Seq<i64>,
    states: Seq<CurrentUnitNodeState>,
)
    requires
        target.desired_status@ == "disabled"@,
    ensures
        ({
            let action = planned_item(mode, target, nodes, states).action;
            action == DeploymentAction::Stop || action == DeploymentAction::Skip
        }),
{
}

/// A forced deployment deploys every unit that is not disabled, whatever runs.
pub proof fn force_deploys_every_active_unit(
    target: TargetUnitState,
    nodes: Seq<i64>,
    states: Seq<CurrentUnitNodeState>,
)
    requires
        target.desired_status@ != "disabled"@,
    ensures
        planned_item(DeploymentMode::Force, target, nodes, states).action
            == DeploymentAction::Deploy,
{
}

proof fn lemma_unit_states(states: Seq<CurrentUnitNodeState>, unit_id: i64, nodes: Seq<i64>)
    ensures
        unit_states(states, unit_id, nodes).len() <= nodes.len(),
        unit_states(states, unit_id, nodes).len() == nodes.len() <==> forall|i: int|
            0 <= i < nodes.len() ==> state_of(states, unit_id, #[trigger] nodes[i]) is Some,
        unit_states(states, unit_id, nodes).len() == nodes.len() ==> forall|i: int|
            0 <= i < nodes.len() ==> state_of(states, unit_id, #[trigger] nodes[i]) == Some(
                unit_states(states, unit_id, nodes)[i],
            ),
    decreases nodes.len(),
{
    if nodes.len() > 0 {
        let before = nodes.drop_last();
        lemma_unit_states(states, unit_id, before);
        assert(forall|i: int| 0 <= i < before.len() ==> before[i] == #[trigger] nodes[i]);
        assert(nodes[nodes.len() - 1] == nodes.last());
        if unit_states(states, unit_id, nodes).len() == nodes.len() {
            assert(unit_states(states, unit_id, before).len() == before.len());
            assert forall|i: int| 0 <= i < nodes.len() implies state_of(
                states,
                unit_id,
                #[trigger] nodes[i],
            ) == Some(unit_states(states, unit_id, nodes)[i]) by {
                if i < before.len() {
                    assert(state_of(states, unit_id, before[i]) is Some);
                }
            }
        } else if state_of(states, unit_id, nodes.last()) is Some {
            assert(unit_states(states, unit_id, before).len() != before.len());
            let k = choose|k: int|
                0 <= k < before.len() && !(state_of(states, unit_id, #[trigger] before[k]) is Some);
            assert(state_of(states, unit_id, nodes[k]) is None);
        }
    }
}

/// A unit that is not disabled is skipped by a normal deployment exactly when each target
/// node is known to run it healthily in the wanted release, configuration and version.
pub proof fn skip_needs_every_node_to_match(
    target: TargetUnitState,
    nodes: Seq<i64>,
    states: Seq<CurrentUnitNodeState>,
)
    requires
        target.desired_status@ != "disabled"@,
    ensures
        planned_item(DeploymentMode::Normal, target, nodes, states).action
            == DeploymentAction::Skip <==> forall|i: int|
            0 <= i < nodes.len() ==> {
                let state = state_of(states, target.unit_id, #[trigger] nodes[i]);
                state is Some && state_matches(state->0, target)
            },
{
    let known = unit_states(states, target.unit_id, nodes);
    lemma_unit_states(states, target.unit_id, nodes);
    if planned_item(DeploymentMode::Normal, target, nodes, states).action
        == DeploymentAction::Skip {
        assert(known.len() == nodes.len());
        assert forall|i: int| 0 <= i < nodes.len() implies {
            let state = state_of(states, target.unit_id, #[trigger] nodes[i]);
            state is Some && state_matches(state->0, target)
        } by {
            assert(state_matches(known[i], target));
        }
    }
    if forall|i: int|
        0 <= i < nodes.len() ==> {
            let state = state_of(states, target.unit_id, #[trigger] nodes[i]);
            state is Some && state_matches(state->0, target)
        } {
        assert forall|i: int| 0 <= i < nodes.len() implies state_of(
            states,
            target.unit_id,
            #[trigger] nodes[i],
        ) is Some by {}
        assert forall|i: int| 0 <= i < known.len() implies state_matches(
            #[trigger] known[i],
            target,
        ) by {
            assert(state_of(states, target.unit_id, nodes[i]) == Some(known[i]));
        }
    }
}

/// In a plan everything that is stopped stands before everything else; what is stopped goes
/// from later stages to earlier ones, and the rest from earlier stages to later ones.
pub proof fn stops_come_first(input: DeploymentPlanInput, plan: DeploymentPlan, i: int, j: int)
    requires
        plans(input, plan),
        0 <= i < j < plan.items@.len(),
    ensures
        plan.items@[j].action == DeploymentAction::Stop ==> plan.items@[i].action
            == DeploymentAction::Stop && plan.items@[i].stage_no >= plan.items@[j].stage_no,
        plan.items@[i].action != DeploymentAction::Stop ==> plan.items@[j].action
            != DeploymentAction::Stop && plan.items@[i].stage_no <= plan.items@[j].stage_no,
{
    let have = item_views(plan.items@);
    assert(runs_before(have[i], have[j]));
}

proof fn lemma_execution_order_is_unique(left: Seq<PlannedItem>, right: Seq<PlannedItem>)
    requires
        in_execution_order(left),
        in_execution_order(right),
        forall|item: PlannedItem| #[trigger] left.contains(item) <==> right.contains(item),
    ensures
        left == right,
    decreases left.len(),
{
    if left.len() > 0 && right.len() > 0 {
        let n = left.len() - 1;
        let m = right.len() - 1;
        assert(left.contains(left[n]));
        let a = choose|a: int| 0 <= a < right.len() && right[a] == left[n];
        assert(right.contains(right[m]));
        assert(left.contains(right[m]));
        let b = choose|b: int| 0 <= b < left.len() && left[b] == right[m];
        assert(a == m) by {
            if a < m {
                assert(runs_before(right[a], right[m]));
                if b < n {
                    assert(runs_before(left[b], left[n]));
                }
            }
        }
        let l = left.drop_last();
        let r = right.drop_last();
        assert forall|item: PlannedItem| #[trigger] l.contains(item) <==> r.contains(item) by {
            if l.contains(item) {
                let k = choose|k: int| 0 <= k < l.len() && l[k] == item;
                assert(left[k] == item);
                assert(left.contains(item));
                assert(runs_before(left[k], left[n]));
                let j = choose|j: int| 0 <= j < right.len() && right[j] == item;
                assert(r[j] == item);
            }
            if r.contains(item) {
                let k = choose|k: int| 0 <= k < r.len() && r[k] == item;
                assert(right[k] == item);
                assert(right.contains(item));
                assert(left.contains(item));
                assert(runs_before(right[k], right[m]));
                let j = choose|j: int| 0 <= j < left.len() && left[j] == item;
                assert(l[j] == item);
            }
        }
        lemma_execution_order_is_unique(l, r);
        assert(left =~= l.push(left[n]));
        assert(right =~= r.push(left[n]));
    } else {
        if left.len() > 0 {
            assert(left.contains(left[0]));
        }
        if right.len() > 0 {
            assert(right.contains(right[0]));
            assert(left.contains(right[0]));
        }
        assert(left =~= right);
    }
}

/// The two say the same of a target unit.
pub open spec fn same_target(left: TargetUnitState, right: TargetUnitState) -> bool {
    &&& left.unit_id == right.unit_id
    &&& left.unit_key@ == right.unit_key@
    &&& left.unit_release_id == right.unit_release_id
    &&& option_text(left.release_version) == option_text(right.release_version)
    &&& left.release_version_code == right.release_version_code
    &&& left.desired_status@ == right.desired_status@
    &&& left.stage_no == right.stage_no
    &&& left.unit_order == right.unit_order
    &&& left.removal_order == right.removal_order
    &&& left.target_fingerprint@ == right.target_fingerprint@
}

/// The two say the same of a unit on a node.
pub open spec fn same_state(left: CurrentUnitNodeState, right: CurrentUnitNodeState) -> bool {
    &&& left.unit_id == right.unit_id
    &&& left.node_id == right.node_id
    &&& left.runtime_status@ == right.runtime_status@
    &&& left.active_unit_release_id == right.active_unit_release_id
    &&& left.active_version_code == right.active_version_code
    &&& left.active_fingerprint@ == right.active_fingerprint@
    &&& left.container_version_label@ == right.container_version_label@
}

/// The target units on the right are those on the left, in another order.
pub open spec fn targets_reordered(
    left: Seq<TargetUnitState>,
    right: Seq<TargetUnitState>,
    places: Seq<int>,
) -> bool {
    &&& left.len() == right.len()
    &&& is_reordering(places, left.len())
    &&& forall|i: int| 0 <= i < right.len() ==> same_target(left[places[i]], #[trigger] right[i])
}

/// The states on the right are those on the left, in another order.
pub open spec fn states_reordered(
    left: Seq<CurrentUnitNodeState>,
    right: Seq<CurrentUnitNodeState>,
    places: Seq<int>,
) -> bool {
    &&& left.len() == right.len()
    &&& is_reordering(places, left.len())
    &&& forall|i: int| 0 <= i < right.len() ==> same_state(left[places[i]], #[trigger] right[i])
}

/// What a target unit says of itself can be planned.
pub open spec fn is_plannable(target: TargetUnitState) -> bool {
    (target.desired_status@ == "active"@ || target.desired_status@ == "disabled"@) && !(
    target.desired_status@ == "active"@ && target.unit_release_id is None)
}

proof fn lemma_units_are_plannable(targets: Seq<TargetUnitState>)
    ensures
        first_unit_error(targets) is None ==> forall|i: int|
            0 <= i < targets.len() ==> is_plannable(#[trigger] targets[i]),
    decreases targets.len(),
{
    if targets.len() > 0 {
        let before = targets.drop_last();
        lemma_units_are_plannable(before);
        if first_unit_error(targets) is None {
            assert forall|i: int| 0 <= i < targets.len() implies is_plannable(
                #[trigger] targets[i],
            ) by {
                if i < targets.len() - 1 {
                    assert(before[i] == targets[i]);
                }
            }
        }
    }
}

proof fn lemma_plannable_units(targets: Seq<TargetUnitState>)
    requires
        forall|i: int| 0 <= i < targets.len() ==> is_plannable(#[trigger] targets[i]),
        forall|i: int, j: int|
            0 <= i < j < targets.len() ==> targets[i].unit_id != targets[j].unit_id,
    ensures
        first_unit_error(targets) is None,
    decreases targets.len(),
{
    if targets.len() > 0 {
        lemma_plannable_units(targets.drop_last());
        assert(is_plannable(targets[targets.len() - 1]));
    }
}

proof fn lemma_same_state_of(
    left: Seq<CurrentUnitNodeState>,
    right: Seq<CurrentUnitNodeState>,
    places: Seq<int>,
    unit_id: i64,
    node_id: i64,
)
    requires
        states_are_distinct(left),
        states_reordered(left, right, places),
    ensures
        match (state_of(left, unit_id, node_id), state_of(right, unit_id, node_id)) {
            (Some(one), Some(other)) => same_state(one, other),
            (None, None) => true,
            _ => false,
        },
{
    if exists|at: int| state_at(right, unit_id, node_id, at) {
        let at = choose|at: int| state_at(right, unit_id, node_id, at);
        assert(same_state(left[places[at]], right[at]));
        assert(places.contains(places[at]));
        assert(state_at(left, unit_id, node_id, places[at]));
        let there = choose|at: int| state_at(left, unit_id, node_id, at);
        if there < places[at] {
            assert(left[there].unit_id != left[places[at]].unit_id || left[there].node_id
                != left[places[at]].node_id);
        } else if there > places[at] {
            assert(left[places[at]].unit_id != left[there].unit_id || left[places[at]].node_id
                != left[there].node_id);
        }
    } else if exists|at: int| state_at(left, unit_id, node_id, at) {
        let at = choose|at: int| state_at(left, unit_id, node_id, at);
        assert(places.contains(at));
        let i = choose|i: int| 0 <= i < places.len() && places[i] == at;
        assert(same_state(left[places[i]], right[i]));
        assert(state_at(right, unit_id, node_id, i));
    }
}

proof fn lemma_same_unit_states(
    left: Seq<CurrentUnitNodeState>,
    right: Seq<CurrentUnitNodeState>,
    places: Seq<int>,
    unit_id: i64,
    nodes: Seq<i64>,
)
    requires
        states_are_distinct(left),
        states_reordered(left, right, places),
    ensures
        unit_states(left, unit_id, nodes).len() == unit_states(right, unit_id, nodes).len(),
        forall|i: int|
            0 <= i < unit_states(left, unit_id, nodes).len() ==> same_state(
                #[trigger] unit_states(left, unit_id, nodes)[i],
                unit_states(right, unit_id, nodes)[i],
            ),
    decreases nodes.len(),
{
    if nodes.len() > 0 {
        lemma_same_unit_states(left, right, places, unit_id, nodes.drop_last());
        lemma_same_state_of(left, right, places, unit_id, nodes.last());
    }
}

proof fn lemma_same_decision(
    mode: DeploymentMode,
    left: TargetUnitState,
    right: TargetUnitState,
    node_count: nat,
    left_states: Seq<CurrentUnitNodeState>,
    right_states: Seq<CurrentUnitNodeState>,
)
    requires
        same_target(left, right),
        left_states.len() == right_states.len(),
        forall|i: int|
            0 <= i < left_states.len() ==> same_state(#[trigger] left_states[i], right_states[i]),
    ensures
        planned_action(mode, left, node_count, left_states) == planned_action(
            mode,
            right,
            node_count,
            right_states,
        ),
        common_fingerprint(left_states) == common_fingerprint(right_states),
{
    assert forall|i: int| 0 <= i < right_states.len() implies same_state(
        left_states[i],
        #[trigger] right_states[i],
    ) by {
        assert(same_state(left_states[i], right_states[i]));
    }
    assert forall|status: Seq<char>|
        #[trigger] all_have_status(left_states, status) == all_have_status(
            right_states,
            status,
        ) by {
        if all_have_status(left_states, status) {
            assert forall|i: int| 0 <= i < right_states.len() implies has_status(
                #[trigger] right_states[i],
                status,
            ) by {
                assert(has_status(left_states[i], status));
            }
        }
        if all_have_status(right_states, status) {
            assert forall|i: int| 0 <= i < left_states.len() implies has_status(
                #[trigger] left_states[i],
                status,
            ) by {
                assert(has_status(right_states[i], status));
            }
        }
    }
    assert(all_match(left_states, left) == all_match(right_states, right)) by {
        assert forall|i: int| 0 <= i < left_states.len() implies state_matches(
            #[trigger] left_states[i],
            left,
        ) == state_matches(right_states[i], right) by {}
        if all_match(left_states, left) {
            assert forall|i: int| 0 <= i < right_states.len() implies state_matches(
                #[trigger] right_states[i],
                right,
            ) by {
                assert(state_matches(left_states[i], left));
            }
        }
        if all_match(right_states, right) {
            assert forall|i: int| 0 <= i < left_states.len() implies state_matches(
                #[trigger] left_states[i],
                left,
            ) by {
                assert(state_matches(right_states[i], right));
            }
        }
    }
    assert(all_are_certain(left_states) == all_are_certain(right_states)) by {
        if all_are_certain(left_states) {
            assert forall|i: int| 0 <= i < right_states.len() implies has_status(
                #[trigger] right_states[i],
                "healthy"@,
            ) || has_status(right_states[i], "stopped"@) by {
                assert(has_status(left_states[i], "healthy"@) || has_status(
                    left_states[i],
                    "stopped"@,
                ));
            }
        }
        if all_are_certain(right_states) {
            assert forall|i: int| 0 <= i < left_states.len() implies has_status(
                #[trigger] left_states[i],
                "healthy"@,
            ) || has_status(left_states[i], "stopped"@) by {
                assert(has_status(right_states[i], "healthy"@) || has_status(
                    right_states[i],
                    "stopped"@,
                ));
            }
        }
    }
    assert forall|code: i64|
        #[trigger] all_codes_below(left_states, code) == all_codes_below(right_states, code) by {
        if all_codes_below(left_states, code) {
            assert forall|i: int|
                0 <= i < right_states.len() && (#[trigger] right_states[i]).active_version_code is Some implies right_states[i].active_version_code->0
                < code by {
                assert(left_states[i].active_version_code is Some);
            }
        }
        if all_codes_below(right_states, code) {
            assert forall|i: int|
                0 <= i < left_states.len() && (#[trigger] left_states[i]).active_version_code is Some implies left_states[i].active_version_code->0
                < code by {
                assert(right_states[i].active_version_code is Some);
            }
        }
    }
    assert forall|code: i64|
        #[trigger] all_codes_above(left_states, code) == all_codes_above(right_states, code) by {
        if all_codes_above(left_states, code) {
            assert forall|i: int|
                0 <= i < right_states.len() && (#[trigger] right_states[i]).active_version_code is Some implies right_states[i].active_version_code->0
                > code by {
                assert(left_states[i].active_version_code is Some);
            }
        }
        if all_codes_above(right_states, code) {
            assert forall|i: int|
                0 <= i < left_states.len() && (#[trigger] left_states[i]).active_version_code is Some implies left_states[i].active_version_code->0
                > code by {
                assert(right_states[i].active_version_code is Some);
            }
        }
    }
    if left_states.len() > 0 {
        assert(same_state(left_states[0], right_states[0]));
        let print = left_states[0].active_fingerprint@;
        if forall|i: int|
            0 <= i < left_states.len() ==> (#[trigger] left_states[i]).active_fingerprint@
                == left_states[0].active_fingerprint@ {
            assert forall|i: int| 0 <= i < right_states.len() implies (
            #[trigger] right_states[i]).active_fingerprint@
                == right_states[0].active_fingerprint@ by {
                assert(left_states[i].active_fingerprint@ == print);
            }
        }
        if forall|i: int|
            0 <= i < right_states.len() ==> (#[trigger] right_states[i]).active_fingerprint@
                == right_states[0].active_fingerprint@ {
            assert forall|i: int| 0 <= i < left_states.len() implies (
            #[trigger] left_states[i]).active_fingerprint@
                == left_states[0].active_fingerprint@ by {
                assert(right_states[i].active_fingerprint@ == print);
            }
        }
    }
}

proof fn lemma_same_item(
    mode: DeploymentMode,
    left: TargetUnitState,
    right: TargetUnitState,
    nodes: Seq<i64>,
    left_states: Seq<CurrentUnitNodeState>,
    right_states: Seq<CurrentUnitNodeState>,
    places: Seq<int>,
)
    requires
        same_target(left, right),
        states_are_distinct(left_states),
        states_reordered(left_states, right_states, places),
    ensures
        planned_item(mode, left, nodes, left_states) == planned_item(
            mode,
            right,
            nodes,
            right_states,
        ),
{
    lemma_same_unit_states(left_states, right_states, places, left.unit_id, nodes);
    lemma_same_decision(
        mode,
        left,
        right,
        nodes.len(),
        unit_states(left_states, left.unit_id, nodes),
        unit_states(right_states, right.unit_id, nodes),
    );
}

/// Whether a plan can be made depends neither on the order of the units and of the states nor on
/// the order and the repetition of the nodes.
pub proof fn order_does_not_refuse(
    left: DeploymentPlanInput,
    right: DeploymentPlanInput,
    unit_places: Seq<int>,
    state_places: Seq<int>,
)
    requires
        input_error(left) is None,
        targets_reordered(left.target_units@, right.target_units@, unit_places),
        states_reordered(left.current_states@, right.current_states@, state_places),
        forall|node: i64|
            #[trigger] left.target_node_ids@.contains(node)
                <==> right.target_node_ids@.contains(node),
    ensures
        input_error(right) is None,
{
    assert(left.target_node_ids@.contains(left.target_node_ids@[0]));
    let units = left.target_units@;
    let others = right.target_units@;
    lemma_units_are_distinct(units);
    lemma_units_are_plannable(units);
    assert forall|i: int| 0 <= i < others.len() implies is_plannable(#[trigger] others[i]) by {
        assert(same_target(units[unit_places[i]], others[i]));
        assert(unit_places.contains(unit_places[i]));
        assert(is_plannable(units[unit_places[i]]));
    }
    assert forall|i: int, j: int| 0 <= i < j < others.len() implies others[i].unit_id
        != others[j].unit_id by {
        let a = unit_places[i];
        let b = unit_places[j];
        assert(same_target(units[a], others[i]));
        assert(same_target(units[b], others[j]));
        assert(unit_places.contains(a) && unit_places.contains(b));
        assert(a != b);
        if a < b {
            assert(units[a].unit_id != units[b].unit_id);
        } else {
            assert(units[b].unit_id != units[a].unit_id);
        }
    }
    lemma_plannable_units(others);
    let states = left.current_states@;
    let shuffled = right.current_states@;
    assert forall|i: int, j: int| 0 <= i < j < shuffled.len() implies shuffled[i].unit_id
        != shuffled[j].unit_id || shuffled[i].node_id != shuffled[j].node_id by {
        let a = state_places[i];
        let b = state_places[j];
        assert(same_state(states[a], shuffled[i]));
        assert(same_state(states[b], shuffled[j]));
        assert(state_places.contains(a) && state_places.contains(b));
        assert(a != b);
        if a < b {
            assert(states[a].unit_id != states[b].unit_id || states[a].node_id
                != states[b].node_id);
        } else {
            assert(states[b].unit_id != states[a].unit_id || states[b].node_id
                != states[a].node_id);
        }
    }
}

proof fn lemma_plan_members(input: DeploymentPlanInput, plan: DeploymentPlan, item: PlannedItem)
    requires
        plans(input, plan),
    ensures
        item_views(plan.items@).contains(item) <==> planned_items(
            input.mode,
            input.target_units@,
            plan.target_node_ids@,
            input.current_states@,
        ).contains(item),
{
    let have = item_views(plan.items@);
    let wanted = planned_items(
        input.mode,
        input.target_units@,
        plan.target_node_ids@,
        input.current_states@,
    );
    if have.contains(item) {
        lemma_same_members(have, wanted, item);
    }
    if wanted.contains(item) {
        lemma_same_members(wanted, have, item);
    }
}

/// The input decides the plan: two plans of inputs that hold the same units, states and nodes, in
/// whatever order and each node however often, and agree in everything else, are the same, the
/// order of the items and the hash included.
pub proof fn plan_is_determined(
    left_input: DeploymentPlanInput,
    left: DeploymentPlan,
    right_input: DeploymentPlanInput,
    right: DeploymentPlan,
    unit_places: Seq<int>,
    state_places: Seq<int>,
)
    requires
        input_error(left_input) is None,
        plans(left_input, left),
        plans(right_input, right),
        left_input.app_id == right_input.app_id,
        left_input.environment_id == right_input.environment_id,
        left_input.app_release_id == right_input.app_release_id,
        left_input.config_revision_id == right_input.config_revision_id,
        left_input.mode == right_input.mode,
        targets_reordered(left_input.target_units@, right_input.target_units@, unit_places),
        states_reordered(left_input.current_states@, right_input.current_states@, state_places),
        forall|node: i64|
            #[trigger] left_input.target_node_ids@.contains(node)
                <==> right_input.target_node_ids@.contains(node),
    ensures
        left.app_id == right.app_id,
        left.environment_id == right.environment_id,
        left.app_release_id == right.app_release_id,
        left.config_revision_id == right.config_revision_id,
        left.mode == right.mode,
        left.target_node_ids@ == right.target_node_ids@,
        item_views(left.items@) == item_views(right.items@),
        left.plan_hash@ == right.plan_hash@,
{
    assert forall|node: i64|
        #[trigger] left.target_node_ids@.contains(node)
            <==> right.target_node_ids@.contains(node) by {
        assert(left_input.target_node_ids@.contains(node)
            <==> right_input.target_node_ids@.contains(node));
    }
    strictly_ascending_is_unique(left.target_node_ids@, right.target_node_ids@);
    let nodes = left.target_node_ids@;
    let units = left_input.target_units@;
    let others = right_input.target_units@;
    let states = left_input.current_states@;
    let shuffled = right_input.current_states@;
    let wanted = planned_items(left_input.mode, units, nodes, states);
    let asked = planned_items(left_input.mode, others, nodes, shuffled);
    assert forall|i: int| 0 <= i < others.len() implies #[trigger] asked[i]
        == wanted[unit_places[i]] by {
        assert(same_target(units[unit_places[i]], others[i]));
        assert(unit_places.contains(unit_places[i]));
        lemma_same_item(
            left_input.mode,
            units[unit_places[i]],
            others[i],
            nodes,
            states,
            shuffled,
            state_places,
        );
    }
    assert forall|item: PlannedItem| #[trigger] item_views(left.items@).contains(item)
        <==> item_views(right.items@).contains(item) by {
        lemma_plan_members(left_input, left, item);
        lemma_plan_members(right_input, right, item);
        if wanted.contains(item) {
            let k = choose|k: int| 0 <= k < wanted.len() && wanted[k] == item;
            assert(unit_places.contains(k));
            let i = choose|i: int| 0 <= i < unit_places.len() && unit_places[i] == k;
            assert(asked[i] == item);
        }
        if asked.contains(item) {
            let i = choose|i: int| 0 <= i < asked.len() && asked[i] == item;
            assert(unit_places.contains(unit_places[i]));
            assert(wanted[unit_places[i]] == item);
        }
    }
    lemma_execution_order_is_unique(item_views(left.items@), item_views(right.items@));
}

/// What a plan executes first. Units that are stopped come before all others, those of later stages
/// first, and within a stage those that are removed last. The others follow, those of earlier stages
/// first, and within a stage in the order of the units. Identifiers decide where nothing else does.
pub proof fn plans_are_executed_in_order(
    input: DeploymentPlanInput,
    plan: DeploymentPlan,
    i: int,
    j: int,
)
    requires
        plans(input, plan),
        0 <= i < j < plan.items@.len(),
    ensures
        ({
            let first = plan.items@[i];
            let second = plan.items@[j];
            let both_stop = first.action == DeploymentAction::Stop && second.action
                == DeploymentAction::Stop;
            let none_stops = first.action != DeploymentAction::Stop && second.action
                != DeploymentAction::Stop;
            &&& second.action == DeploymentAction::Stop ==> first.action == DeploymentAction::Stop
            &&& both_stop ==> first.stage_no >= second.stage_no
            &&& both_stop && first.stage_no == second.stage_no ==> first.removal_order
                >= second.removal_order
            &&& both_stop && first.stage_no == second.stage_no && first.removal_order
                == second.removal_order ==> first.unit_id < second.unit_id
            &&& none_stops ==> first.stage_no <= second.stage_no
            &&& none_stops && first.stage_no == second.stage_no ==> first.unit_order
                <= second.unit_order
            &&& none_stops && first.stage_no == second.stage_no && first.unit_order
                == second.unit_order ==> first.unit_id < second.unit_id
        }),
{
    let have = item_views(plan.items@);
    assert(runs_before(have[i], have[j]));
}

/// An item says of its unit what the target says.
pub proof fn items_describe_their_units(
    mode: DeploymentMode,
    target: TargetUnitState,
    nodes: Seq<i64>,
    states: Seq<CurrentUnitNodeState>,
)
    ensures
        ({
            let item = planned_item(mode, target, nodes, states);
            &&& item.unit_id == target.unit_id
            &&& item.unit_key == target.unit_key@
            &&& item.unit_release_id == target.unit_release_id
            &&& item.stage_no == target.stage_no
            &&& item.unit_order == target.unit_order
            &&& item.removal_order == target.removal_order
            &&& item.target_fingerprint == target.target_fingerprint@
        }),
{
}

/// A unit that is disabled is left alone where nothing is known of it, or where it is known to be
/// stopped on every node, and stopped otherwise.
pub proof fn disabled_units_are_stopped_where_they_may_run(
    mode: DeploymentMode,
    target: TargetUnitState,
    node_count: nat,
    states: Seq<CurrentUnitNodeState>,
)
    requires
        target.desired_status@ == "disabled"@,
    ensures
        ({
            let action = planned_action(mode, target, node_count, states).0;
            let stopped = forall|i: int|
                0 <= i < states.len() ==> (#[trigger] states[i]).runtime_status@ == "stopped"@;
            &&& action == DeploymentAction::Skip || action == DeploymentAction::Stop
            &&& action == DeploymentAction::Skip <==> states.len() == 0 || (states.len()
                == node_count && stopped)
        }),
{
    let stopped = forall|i: int|
        0 <= i < states.len() ==> (#[trigger] states[i]).runtime_status@ == "stopped"@;
    if stopped {
        assert(all_have_status(states, "stopped"@));
    }
    if all_have_status(states, "stopped"@) {
        assert forall|i: int| 0 <= i < states.len() implies (#[trigger] states[i]).runtime_status@
            == "stopped"@ by {
            assert(has_status(states[i], "stopped"@));
        }
    }
}

/// A unit that is active, in a plan that forces nothing. It is started where no node has it, and
/// deployed again where some node does not tell of it.
pub proof fn missing_units_are_started(
    target: TargetUnitState,
    node_count: nat,
    states: Seq<CurrentUnitNodeState>,
)
    requires
        target.desired_status@ == "active"@,
        states.len() != node_count,
    ensures
        ({
            let action = planned_action(DeploymentMode::Normal, target, node_count, states).0;
            &&& states.len() == 0 ==> action == DeploymentAction::Start
            &&& states.len() > 0 ==> action == DeploymentAction::Deploy
        }),
{
    reveal_strlit("active");
    reveal_strlit("disabled");
    assert("active"@.len() != "disabled"@.len());
}

/// The node runs what the target wants.
pub open spec fn runs_target(state: CurrentUnitNodeState, target: TargetUnitState) -> bool {
    &&& state.runtime_status@ == "healthy"@
    &&& state.active_unit_release_id == target.unit_release_id
    &&& state.active_fingerprint@ == target.target_fingerprint@
    &&& target.release_version is Some
    &&& state.container_version_label@ == target.release_version->0@
}

/// A unit that is active and known on every node, in a plan that forces nothing. It is left alone
/// where every node runs what is wanted; deployed where some node is neither healthy nor stopped;
/// restored where it is stopped everywhere; upgraded where every version that is known is lower, and
/// downgraded where every one is higher; and deployed otherwise.
pub proof fn known_units_follow_their_states(
    target: TargetUnitState,
    node_count: nat,
    states: Seq<CurrentUnitNodeState>,
)
    requires
        target.desired_status@ == "active"@,
        states.len() == node_count,
    ensures
        ({
            let action = planned_action(DeploymentMode::Normal, target, node_count, states).0;
            let matching = forall|i: int|
                0 <= i < states.len() ==> runs_target(#[trigger] states[i], target);
            let certain = forall|i: int|
                0 <= i < states.len() ==> (#[trigger] states[i]).runtime_status@ == "healthy"@
                    || states[i].runtime_status@ == "stopped"@;
            let stopped = forall|i: int|
                0 <= i < states.len() ==> (#[trigger] states[i]).runtime_status@ == "stopped"@;
            let lower = target.release_version_code is Some && forall|i: int|
                0 <= i < states.len() && (
                #[trigger] states[i]).active_version_code is Some ==> states[i].active_version_code->0
                    < target.release_version_code->0;
            let higher = target.release_version_code is Some && forall|i: int|
                0 <= i < states.len() && (
                #[trigger] states[i]).active_version_code is Some ==> states[i].active_version_code->0
                    > target.release_version_code->0;
            &&& action == DeploymentAction::Skip <==> matching
            &&& !matching && !certain ==> action == DeploymentAction::Deploy
            &&& action == DeploymentAction::Restore <==> !matching && certain && stopped
            &&& action == DeploymentAction::Upgrade <==> !matching && certain && !stopped && lower
            &&& action == DeploymentAction::Downgrade <==> !matching && certain && !stopped
                && !lower && higher
            &&& action != DeploymentAction::Start && action != DeploymentAction::Stop && action
                != DeploymentAction::ApplicationCheck
        }),
{
    reveal_strlit("active");
    reveal_strlit("disabled");
    assert("active"@.len() != "disabled"@.len());
    assert(all_match(states, target) == (forall|i: int|
        0 <= i < states.len() ==> runs_target(#[trigger] states[i], target))) by {
        if all_match(states, target) {
            assert forall|i: int| 0 <= i < states.len() implies runs_target(
                #[trigger] states[i],
                target,
            ) by {
                assert(state_matches(states[i], target));
            }
        }
        if forall|i: int| 0 <= i < states.len() ==> runs_target(#[trigger] states[i], target) {
            assert forall|i: int| 0 <= i < states.len() implies state_matches(
                #[trigger] states[i],
                target,
            ) by {
                assert(runs_target(states[i], target));
            }
        }
    }
}

/// A plan is made exactly if there are nodes and units, no unit occurs twice, at most one state is
/// given for a unit on a node, and every unit is either disabled or active with a release.
pub proof fn plans_are_made_of_sound_inputs(input: DeploymentPlanInput)
    ensures
        input_error(input) is None <==> {
            &&& input.target_node_ids@.len() > 0
            &&& input.target_units@.len() > 0
            &&& forall|i: int, j: int|
                #![trigger input.current_states@[i], input.current_states@[j]]
                0 <= i < j < input.current_states@.len() ==> !(input.current_states@[i].unit_id
                    == input.current_states@[j].unit_id && input.current_states@[i].node_id
                    == input.current_states@[j].node_id)
            &&& forall|i: int, j: int|
                #![trigger input.target_units@[i], input.target_units@[j]]
                0 <= i < j < input.target_units@.len() ==> input.target_units@[i].unit_id
                    != input.target_units@[j].unit_id
            &&& forall|i: int|
                0 <= i < input.target_units@.len() ==> {
                    let unit = #[trigger] input.target_units@[i];
                    unit.desired_status@ == "disabled"@ || (unit.desired_status@ == "active"@
                        && unit.unit_release_id is Some)
                }
        },
{
    reveal_strlit("active");
    reveal_strlit("disabled");
    assert("active"@.len() != "disabled"@.len());
    let units = input.target_units@;
    lemma_units_are_plannable(units);
    if first_unit_error(units) is None {
        lemma_units_are_distinct(units);
        assert forall|i: int| 0 <= i < units.len() implies {
            let unit = #[trigger] units[i];
            unit.desired_status@ == "disabled"@ || (unit.desired_status@ == "active"@
                && unit.unit_release_id is Some)
        } by {
            assert(is_plannable(units[i]));
        }
    }
    if (forall|i: int, j: int|
        #![trigger units[i], units[j]]
        0 <= i < j < units.len() ==> units[i].unit_id != units[j].unit_id) && (forall|i: int|
        0 <= i < units.len() ==> {
            let unit = #[trigger] units[i];
            unit.desired_status@ == "disabled"@ || (unit.desired_status@ == "active"@
                && unit.unit_release_id is Some)
        }) {
        assert forall|i: int| 0 <= i < units.len() implies is_plannable(#[trigger] units[i]) by {
            let unit = units[i];
        }
        lemma_plannable_units(units);
    }
}

/// What is known of a unit on the nodes: one state of the unit for each node that tells of it, and
/// no other.
pub proof fn known_states_are_of_the_unit_and_its_nodes(
    states: Seq<CurrentUnitNodeState>,
    unit_id: i64,
    nodes: Seq<i64>,
)
    ensures
        unit_states(states, unit_id, nodes).len() <= nodes.len(),
        forall|i: int|
            0 <= i < unit_states(states, unit_id, nodes).len() ==> {
                let state = #[trigger] unit_states(states, unit_id, nodes)[i];
                states.contains(state) && state.unit_id == unit_id && nodes.contains(state.node_id)
            },
        forall|k: int|
            0 <= k < nodes.len() && (exists|at: int|
                0 <= at < states.len() && states[at].unit_id == unit_id && (
                #[trigger] states[at]).node_id == nodes[k]) ==> exists|i: int|
                0 <= i < unit_states(states, unit_id, nodes).len() && (#[trigger] unit_states(
                    states,
                    unit_id,
                    nodes,
                )[i]).node_id == #[trigger] nodes[k],
    decreases nodes.len(),
{
    if nodes.len() > 0 {
        let before_nodes = nodes.drop_last();
        let before = unit_states(states, unit_id, before_nodes);
        let all = unit_states(states, unit_id, nodes);
        known_states_are_of_the_unit_and_its_nodes(states, unit_id, before_nodes);
        assert forall|i: int| 0 <= i < all.len() implies {
            let state = #[trigger] all[i];
            states.contains(state) && state.unit_id == unit_id && nodes.contains(state.node_id)
        } by {
            if i < before.len() {
                let state = before[i];
                let k = choose|k: int|
                    0 <= k < before_nodes.len() && before_nodes[k] == state.node_id;
                assert(nodes[k] == state.node_id);
            } else {
                let at = choose|at: int| state_at(states, unit_id, nodes.last(), at);
                assert(states[at] == all[i]);
                assert(nodes[nodes.len() - 1] == all[i].node_id);
            }
        }
        assert forall|k: int|
            0 <= k < nodes.len() && (exists|at: int|
                0 <= at < states.len() && states[at].unit_id == unit_id && (
                #[trigger] states[at]).node_id == nodes[k]) implies exists|i: int|
            0 <= i < all.len() && (#[trigger] all[i]).node_id == #[trigger] nodes[k] by {
            let at = choose|at: int|
                0 <= at < states.len() && states[at].unit_id == unit_id && (
                #[trigger] states[at]).node_id == nodes[k];
            if k < before_nodes.len() {
                assert(before_nodes[k] == nodes[k]);
                let i = choose|i: int|
                    0 <= i < before.len() && (#[trigger] before[i]).node_id == before_nodes[k];
                assert(all[i].node_id == nodes[k]);
            } else {
                assert(state_at(states, unit_id, nodes.last(), at));
                assert(all[before.len() as int].node_id == nodes[k]);
            }
        }
    }
}

/// A unit had a fingerprint before exactly if every node that tells of it had the same one.
pub proof fn previous_fingerprints_are_common(states: Seq<CurrentUnitNodeState>, print: Seq<char>)
    requires
        print.len() > 0,
    ensures
        common_fingerprint(states) == print <==> states.len() > 0 && forall|i: int|
            0 <= i < states.len() ==> (#[trigger] states[i]).active_fingerprint@ == print,
{
    if states.len() > 0 {
        if forall|i: int|
            0 <= i < states.len() ==> (#[trigger] states[i]).active_fingerprint@ == print {
            assert(states[0].active_fingerprint@ == print);
        }
    }
}

proof fn lemma_begins(whole: Seq<char>)
    ensures
        holds(whole, whole),
{
    assert(whole.subrange(0, whole.len() as int) =~= whole);
    assert(stands_at(whole, whole, 0));
}

/// What a text holds it still holds with more behind it.
proof fn lemma_grows(whole: Seq<char>, more: Seq<char>)
    ensures
        forall|part: Seq<char>| holds(whole, part) ==> #[trigger] holds(whole + more, part),
{
    assert forall|part: Seq<char>| holds(whole, part) implies #[trigger] holds(
        whole + more,
        part,
    ) by {
        let at = choose|at: int| stands_at(whole, part, at);
        assert((whole + more).subrange(at, at + part.len()) =~= whole.subrange(
            at,
            at + part.len(),
        ));
        assert(stands_at(whole + more, part, at));
    }
}

/// A name and a value that are added stand in the text, and so does what stood there before.
proof fn lemma_added(whole: Seq<char>, name: Seq<char>, value: Seq<char>)
    ensures
        holds(whole + name + value, name + value),
        forall|part: Seq<char>| holds(whole, part) ==> #[trigger] holds(whole + name + value, part),
{
    let all = whole + name + value;
    let part = name + value;
    let at = whole.len() as int;
    assert(all.subrange(at, at + part.len()) =~= part);
    assert(stands_at(all, part, at));
    lemma_grows(whole, name);
    lemma_grows(whole + name, value);
    assert forall|old_part: Seq<char>| holds(whole, old_part) implies #[trigger] holds(
        whole + name + value,
        old_part,
    ) by {
        assert(holds(whole + name, old_part));
    }
}

/// What is hashed tells everything of an item, each value under its own name.
pub proof fn hashes_tell_everything_of_an_item(item: PlannedItem)
    ensures
        holds(item_document(item), "{\"unit_id\":"@ + signed_decimal(item.unit_id as int)),
        holds(item_document(item), ",\"unit_key\":"@ + json_string(item.unit_key)),
        holds(item_document(item), ",\"unit_release_id\":"@ + json_optional(item.unit_release_id)),
        holds(item_document(item), ",\"stage_no\":"@ + signed_decimal(item.stage_no as int)),
        holds(item_document(item), ",\"unit_order\":"@ + signed_decimal(item.unit_order as int)),
        holds(item_document(item), ",\"removal_order\":"@ + signed_decimal(item.removal_order as int)),
        holds(item_document(item), ",\"action\":"@ + json_string(item.action.name())),
        holds(item_document(item), ",\"reason\":"@ + json_string(item.reason)),
        holds(
            item_document(item),
            ",\"target_fingerprint\":"@ + json_string(item.target_fingerprint),
        ),
        holds(
            item_document(item),
            ",\"previous_fingerprint\":"@ + json_string(item.previous_fingerprint),
        ),
{
    let w0 = "{\"unit_id\":"@ + signed_decimal(item.unit_id as int);
    lemma_begins(w0);
    let n1 = ",\"unit_key\":"@;
    let v1 = json_string(item.unit_key);
    let w1 = w0 + n1 + v1;
    lemma_added(w0, n1, v1);
    let n2 = ",\"unit_release_id\":"@;
    let v2 = json_optional(item.unit_release_id);
    let w2 = w1 + n2 + v2;
    lemma_added(w1, n2, v2);
    let n3 = ",\"stage_no\":"@;
    let v3 = signed_decimal(item.stage_no as int);
    let w3 = w2 + n3 + v3;
    lemma_added(w2, n3, v3);
    let n4 = ",\"unit_order\":"@;
    let v4 = signed_decimal(item.unit_order as int);
    let w4 = w3 + n4 + v4;
    lemma_added(w3, n4, v4);
    let n5 = ",\"removal_order\":"@;
    let v5 = signed_decimal(item.removal_order as int);
    let w5 = w4 + n5 + v5;
    lemma_added(w4, n5, v5);
    let n6 = ",\"action\":"@;
    let v6 = json_string(item.action.name());
    let w6 = w5 + n6 + v6;
    lemma_added(w5, n6, v6);
    let n7 = ",\"reason\":"@;
    let v7 = json_string(item.reason);
    let w7 = w6 + n7 + v7;
    lemma_added(w6, n7, v7);
    let n8 = ",\"target_fingerprint\":"@;
    let v8 = json_string(item.target_fingerprint);
    let w8 = w7 + n8 + v8;
    lemma_added(w7, n8, v8);
    let n9 = ",\"previous_fingerprint\":"@;
    let v9 = json_string(item.previous_fingerprint);
    let w9 = w8 + n9 + v9;
    lemma_added(w8, n9, v9);
    lemma_grows(w9, "}"@);
}

/// What is hashed tells everything of a plan, each value under its own name.
pub proof fn hashes_tell_everything_of_a_plan(
    app_id: i64,
    environment_id: i64,
    app_release_id: i64,
    config_revision_id: i64,
    mode: DeploymentMode,
    nodes: Seq<i64>,
    items: Seq<PlannedItem>,
)
    ensures
        ({
            let document = plan_document(
                app_id,
                environment_id,
                app_release_id,
                config_revision_id,
                mode,
                nodes,
                items,
            );
            &&& holds(document, "{\"app_id\":"@ + signed_decimal(app_id as int))
            &&& holds(document, ",\"environment_id\":"@ + signed_decimal(environment_id as int))
            &&& holds(document, ",\"app_release_id\":"@ + signed_decimal(app_release_id as int))
            &&& holds(document, ",\"config_revision_id\":"@ + signed_decimal(config_revision_id as int))
            &&& holds(document, ",\"mode\":"@ + json_string(mode.name()))
            &&& holds(document, ",\"target_node_ids\":"@ + json_array(number_texts(nodes)))
            &&& holds(document, ",\"items\":"@ + json_array(item_documents(items)))
        }),
{
    let w0 = "{\"app_id\":"@ + signed_decimal(app_id as int);
    lemma_begins(w0);
    let n1 = ",\"environment_id\":"@;
    let v1 = signed_decimal(environment_id as int);
    let w1 = w0 + n1 + v1;
    lemma_added(w0, n1, v1);
    let n2 = ",\"app_release_id\":"@;
    let v2 = signed_decimal(app_release_id as int);
    let w2 = w1 + n2 + v2;
    lemma_added(w1, n2, v2);
    let n3 = ",\"config_revision_id\":"@;
    let v3 = signed_decimal(config_revision_id as int);
    let w3 = w2 + n3 + v3;
    lemma_added(w2, n3, v3);
    let n4 = ",\"mode\":"@;
    let v4 = json_string(mode.name());
    let w4 = w3 + n4 + v4;
    lemma_added(w3, n4, v4);
    let n5 = ",\"target_node_ids\":"@;
    let v5 = json_array(number_texts(nodes));
    let w5 = w4 + n5 + v5;
    lemma_added(w4, n5, v5);
    let n6 = ",\"items\":"@;
    let v6 = json_array(item_documents(items));
    let w6 = w5 + n6 + v6;
    lemma_added(w5, n6, v6);
    lemma_grows(w6, "}"@);
}

/// A plan says why it does something: the reason fits the action.
pub proof fn plans_say_why(
    mode: DeploymentMode,
    target: TargetUnitState,
    node_count: nat,
    states: Seq<CurrentUnitNodeState>,
)
    ensures
        ({
            let (action, reason) = planned_action(mode, target, node_count, states);
            &&& action is Skip ==> reason == if target.desired_status@ == "disabled"@ {
                "部署单元已经停止"@
            } else {
                "版本、配置、容器 label 和健康状态均与目标一致"@
            }
            &&& action is Stop ==> reason == "目标应用版本停用该单元"@
            &&& action is Start ==> reason == "目标节点尚未部署该单元"@
            &&& action is Restore ==> reason == "部署单元已停止，需要恢复目标版本"@
            &&& action is Upgrade ==> reason == "目标发布包版本更高"@
            &&& action is Downgrade ==> reason == "目标发布包版本更低"@
            &&& action is Deploy && mode is Force ==> reason == "强制全量部署重新执行启用单元"@
            &&& action is Deploy && mode is Normal && states.len() != node_count ==> reason
                == "部分目标节点缺少可信运行状态"@
        }),
{
}

/// What is decided of a unit is decided by what is known of it on the nodes of the plan, and so is
/// the fingerprint that it had before.
pub proof fn items_follow_what_is_known(
    mode: DeploymentMode,
    target: TargetUnitState,
    nodes: Seq<i64>,
    states: Seq<CurrentUnitNodeState>,
)
    ensures
        ({
            let item = planned_item(mode, target, nodes, states);
            let known = unit_states(states, target.unit_id, nodes);
            &&& (item.action, item.reason) == planned_action(mode, target, nodes.len(), known)
            &&& item.previous_fingerprint == common_fingerprint(known)
        }),
{
}

/// A plan that cannot be made says what is missing first: nodes, then units, then what occurs twice
/// or is incomplete.
pub proof fn refusals_name_what_is_missing(input: DeploymentPlanInput)
    ensures
        input.target_node_ids@.len() == 0 ==> input_error(input) == Some(
            "部署环境至少需要一个目标节点"@,
        ),
        input.target_node_ids@.len() > 0 && input.target_units@.len() == 0 ==> input_error(input)
            == Some("应用版本不包含部署单元"@),
        input.target_node_ids@.len() > 0 && input.target_units@.len() > 0 && (exists|
            i: int,
            j: int,
        |
            #![trigger input.current_states@[i], input.current_states@[j]]
            0 <= i < j < input.current_states@.len() && input.current_states@[i].unit_id
                == input.current_states@[j].unit_id && input.current_states@[i].node_id
                == input.current_states@[j].node_id) ==> input_error(input) == Some(
            "同一部署单元和节点存在重复运行状态"@,
        ),
{
}

/// Modes and actions have their names.
pub proof fn modes_and_actions_have_their_names()
    ensures
        DeploymentMode::Normal.name() == "normal"@,
        DeploymentMode::Force.name() == "force"@,
        DeploymentAction::Deploy.name() == "deploy"@,
        DeploymentAction::Skip.name() == "skip"@,
        DeploymentAction::Start.name() == "start"@,
        DeploymentAction::Stop.name() == "stop"@,
        DeploymentAction::Upgrade.name() == "upgrade"@,
        DeploymentAction::Downgrade.name() == "downgrade"@,
        DeploymentAction::Restore.name() == "restore"@,
        DeploymentAction::ApplicationCheck.name() == "application_check"@,
{
}

} // verus!
