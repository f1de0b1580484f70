use easy_deploy::deployment_orchestrator::{
    build_deployment_plan, classify_action, common_previous_fingerprint, CurrentUnitNodeState,
    DeploymentAction, DeploymentMode, DeploymentPlanInput, TargetUnitState,
};
use sha2::Digest;

fn target(unit_id: i64, status: &str, release_id: Option<i64>) -> TargetUnitState {
    TargetUnitState {
        unit_id,
        unit_key: format!("unit-{unit_id}"),
        unit_release_id: release_id,
        release_version: release_id.map(|id| format!("1.0.{id}")),
        release_version_code: release_id,
        desired_status: status.to_owned(),
        stage_no: unit_id,
        unit_order: 1,
        removal_order: 1,
        target_fingerprint: format!("target-{unit_id}"),
    }
}

fn healthy(unit_id: i64, release_id: i64) -> CurrentUnitNodeState {
    CurrentUnitNodeState {
        unit_id,
        node_id: 10,
        runtime_status: "healthy".to_owned(),
        active_unit_release_id: Some(release_id),
        active_version_code: Some(release_id),
        active_fingerprint: format!("target-{unit_id}"),
        container_version_label: format!("1.0.{release_id}"),
    }
}

#[test]
fn normal_skips_only_fully_matching_healthy_units() {
    let targets = vec![
        target(1, "active", Some(100)),
        target(2, "active", Some(200)),
    ];
    let mut api = healthy(1, 100);
    api.runtime_status = "unhealthy".to_owned();
    let current = vec![api, healthy(2, 200)];

    let plan = build_deployment_plan(DeploymentPlanInput {
        app_id: 1,
        environment_id: 2,
        app_release_id: 3,
        config_revision_id: 4,
        mode: DeploymentMode::Normal,
        target_node_ids: vec![10],
        target_units: targets,
        current_states: current,
    })
    .expect("build plan");

    assert_eq!(plan.items[0].action, DeploymentAction::Deploy);
    assert_eq!(plan.items[1].action, DeploymentAction::Skip);
    assert!(!plan.plan_hash.is_empty());
}

#[test]
fn force_redeploys_active_units_but_stops_disabled_units() {
    let plan = build_deployment_plan(DeploymentPlanInput {
        app_id: 1,
        environment_id: 2,
        app_release_id: 3,
        config_revision_id: 4,
        mode: DeploymentMode::Force,
        target_node_ids: vec![10],
        target_units: vec![target(1, "active", Some(100)), target(2, "disabled", None)],
        current_states: vec![healthy(1, 100), healthy(2, 200)],
    })
    .expect("build force plan");

    assert_eq!(plan.items[0].unit_id, 2);
    assert_eq!(plan.items[0].action, DeploymentAction::Stop);
    assert_eq!(plan.items[1].action, DeploymentAction::Deploy);
}

#[test]
fn classifies_start_upgrade_downgrade_restore_and_unknown_probe() {
    let targets = vec![
        target(1, "active", Some(100)),
        target(2, "active", Some(200)),
        target(3, "active", Some(300)),
        target(4, "active", Some(400)),
    ];
    let mut stopped = healthy(2, 150);
    stopped.runtime_status = "stopped".to_owned();
    let mut newer = healthy(3, 350);
    newer.active_version_code = Some(350);
    let mut unknown = healthy(4, 400);
    unknown.runtime_status = "unknown".to_owned();
    let plan = build_deployment_plan(DeploymentPlanInput {
        app_id: 1,
        environment_id: 2,
        app_release_id: 3,
        config_revision_id: 4,
        mode: DeploymentMode::Normal,
        target_node_ids: vec![10],
        target_units: targets,
        current_states: vec![stopped, newer, unknown],
    })
    .expect("build plan");

    assert_eq!(plan.items[0].action, DeploymentAction::Start);
    assert_eq!(plan.items[1].action, DeploymentAction::Restore);
    assert_eq!(plan.items[2].action, DeploymentAction::Downgrade);
    assert_eq!(plan.items[3].action, DeploymentAction::Deploy);
}

#[test]
fn requires_every_target_node_to_be_healthy_before_skip() {
    let plan = build_deployment_plan(DeploymentPlanInput {
        app_id: 1,
        environment_id: 2,
        app_release_id: 3,
        config_revision_id: 4,
        mode: DeploymentMode::Normal,
        target_node_ids: vec![10, 11],
        target_units: vec![target(1, "active", Some(100))],
        current_states: vec![healthy(1, 100)],
    })
    .expect("build plan");

    assert_eq!(plan.items[0].action, DeploymentAction::Deploy);
    assert!(plan.items[0].reason.contains("目标节点"));
}

fn input(mode: DeploymentMode) -> DeploymentPlanInput {
    DeploymentPlanInput {
        app_id: 1,
        environment_id: 2,
        app_release_id: 3,
        config_revision_id: 4,
        mode,
        target_node_ids: vec![10],
        target_units: vec![target(1, "active", Some(100))],
        current_states: vec![healthy(1, 100)],
    }
}

fn refusal(input: DeploymentPlanInput) -> String {
    match build_deployment_plan(input) {
        Ok(_) => panic!("no plan is made"),
        Err(error) => error.message().to_owned(),
    }
}

#[test]
fn inputs_without_a_plan_are_refused() {
    let mut no_nodes = input(DeploymentMode::Normal);
    no_nodes.target_node_ids = Vec::new();
    assert_eq!(refusal(no_nodes), "部署环境至少需要一个目标节点");

    let mut no_units = input(DeploymentMode::Normal);
    no_units.target_units = Vec::new();
    assert_eq!(refusal(no_units), "应用版本不包含部署单元");

    let mut twice_running = input(DeploymentMode::Normal);
    twice_running.current_states = vec![healthy(1, 100), healthy(1, 100)];
    assert_eq!(refusal(twice_running), "同一部署单元和节点存在重复运行状态");

    let mut twice_wanted = input(DeploymentMode::Normal);
    twice_wanted.target_units = vec![
        target(1, "active", Some(100)),
        target(1, "active", Some(100)),
    ];
    assert_eq!(refusal(twice_wanted), "应用版本包含重复部署单元");

    let mut unknown_status = input(DeploymentMode::Normal);
    unknown_status.target_units = vec![target(1, "paused", Some(100))];
    assert_eq!(
        refusal(unknown_status),
        "部署单元目标状态必须是 active 或 disabled"
    );

    let mut no_release = input(DeploymentMode::Normal);
    no_release.target_units = vec![target(1, "active", None)];
    assert_eq!(refusal(no_release), "启用的部署单元缺少发布包");
}

#[test]
fn plan_hash_is_the_digest_of_the_plan() {
    let mut given = input(DeploymentMode::Force);
    given.target_node_ids = vec![11, 10, 11];
    let plan = build_deployment_plan(given).expect("build plan");
    assert_eq!(plan.target_node_ids, vec![10, 11]);
    let item = &plan.items[0];
    let document = format!(
        "{{\"app_id\":1,\"environment_id\":2,\"app_release_id\":3,\"config_revision_id\":4,\"mode\":\"force\",\"target_node_ids\":[10,11],\"items\":[{{\"unit_id\":1,\"unit_key\":\"unit-1\",\"unit_release_id\":100,\"stage_no\":1,\"unit_order\":1,\"removal_order\":1,\"action\":\"deploy\",\"reason\":\"{}\",\"target_fingerprint\":\"target-1\",\"previous_fingerprint\":\"{}\"}}]}}",
        item.reason, item.previous_fingerprint
    );
    let digest: Vec<u8> = sha2::Sha256::digest(document.as_bytes()).to_vec();
    let expected: String = digest.iter().map(|byte| format!("{byte:02x}")).collect();
    assert_eq!(plan.plan_hash, expected);
}

#[test]
fn equal_inputs_have_equal_plans_and_other_inputs_other_hashes() {
    let first = build_deployment_plan(input(DeploymentMode::Normal)).expect("first");
    let second = build_deployment_plan(input(DeploymentMode::Normal)).expect("second");
    assert_eq!(first, second);
    let forced = build_deployment_plan(input(DeploymentMode::Force)).expect("forced");
    assert_ne!(first.plan_hash, forced.plan_hash);
}

#[test]
fn stops_come_before_everything_else_in_removal_order() {
    let mut first = target(1, "disabled", None);
    first.removal_order = 2;
    let mut second = target(2, "disabled", None);
    second.stage_no = 1;
    second.removal_order = 1;
    let plan = build_deployment_plan(DeploymentPlanInput {
        target_units: vec![target(3, "active", Some(300)), second, first],
        current_states: vec![healthy(1, 100), healthy(2, 200)],
        ..input(DeploymentMode::Normal)
    })
    .expect("build plan");
    let order: Vec<i64> = plan.items.iter().map(|item| item.unit_id).collect();
    assert_eq!(order, vec![1, 2, 3]);
    assert!(plan.items[..2]
        .iter()
        .all(|item| item.action == DeploymentAction::Stop));
}

#[test]
fn actions_and_fingerprints_follow_the_states() {
    let state = healthy(1, 100);
    let states = vec![&state];
    let (action, _) = classify_action(
        DeploymentMode::Normal,
        &target(1, "active", Some(100)),
        &vec![10],
        &states,
    );
    assert_eq!(action, DeploymentAction::Skip);
    let (action, _) = classify_action(
        DeploymentMode::Normal,
        &target(1, "active", Some(200)),
        &vec![10],
        &states,
    );
    assert_eq!(action, DeploymentAction::Upgrade);
    assert_eq!(action.as_str(), "upgrade");
    assert_eq!(DeploymentMode::Force.as_str(), "force");
    assert_eq!(common_previous_fingerprint(&states), "target-1");
    let mut other = healthy(1, 100);
    other.active_fingerprint = "other".to_owned();
    assert_eq!(common_previous_fingerprint(&vec![&state, &other]), "");
}

#[test]
fn the_order_of_units_states_and_nodes_does_not_matter() {
    let mut later = target(2, "active", Some(200));
    later.stage_no = 5;
    let units = vec![
        target(1, "active", Some(100)),
        later,
        target(3, "disabled", None),
    ];
    let states = vec![healthy(1, 100), healthy(2, 150), healthy(3, 300)];
    let plan = build_deployment_plan(DeploymentPlanInput {
        target_node_ids: vec![10, 11],
        target_units: units.clone(),
        current_states: states.clone(),
        ..input(DeploymentMode::Normal)
    })
    .expect("plan");
    let shuffled = build_deployment_plan(DeploymentPlanInput {
        target_node_ids: vec![11, 10, 11],
        target_units: units.into_iter().rev().collect(),
        current_states: states.into_iter().rev().collect(),
        ..input(DeploymentMode::Normal)
    })
    .expect("plan");
    assert_eq!(plan, shuffled);
}

#[test]
fn names_are_escaped_in_the_hashed_document() {
    let mut given = input(DeploymentMode::Force);
    given.target_units[0].unit_key = "a\"b\\c\u{1}\u{1f}\n\t\u{8}\u{c}\r/\u{7f}单".to_owned();
    let plan = build_deployment_plan(given).expect("build plan");
    let item = &plan.items[0];
    let document = format!(
        "{{\"app_id\":1,\"environment_id\":2,\"app_release_id\":3,\"config_revision_id\":4,\"mode\":\"force\",\"target_node_ids\":[10],\"items\":[{{\"unit_id\":1,\"unit_key\":\"{}\",\"unit_release_id\":100,\"stage_no\":1,\"unit_order\":1,\"removal_order\":1,\"action\":\"deploy\",\"reason\":\"{}\",\"target_fingerprint\":\"target-1\",\"previous_fingerprint\":\"{}\"}}]}}",
        "a\\\"b\\\\c\\u0001\\u001f\\n\\t\\b\\f\\r/\u{7f}单", item.reason, item.previous_fingerprint
    );
    let digest: Vec<u8> = sha2::Sha256::digest(document.as_bytes()).to_vec();
    let expected: String = digest.iter().map(|byte| format!("{byte:02x}")).collect();
    assert_eq!(plan.plan_hash, expected);
}
