use easy_deploy::auth::accounts::{
    accept_role_status, account_create_audit, account_roles_audit, account_status_audit,
    begin_account, begin_account_with, begin_role, change_own_password,
    change_own_password_with, ensure_custom_role, ensure_other_password, ensure_other_roles, label_of_account, label_of_role,
    password_change_audit, password_reset_audit, record_system_audit, revoke_admin_session,
    role_create_audit, role_names_summary, role_permissions_audit, role_status_audit,
    role_permission_count, set_account_status, valid_active_role_ids,
};
use easy_deploy::auth::inputs::{
    account_status_name, format_account_label, format_role_label, normalize_api_token_source,
    normalize_audit_filter, normalize_role_code, normalize_username, push_audit_filter_clauses,
    role_summary_from_names, timestamp_after, token_prefix, unique_ids,
};
use easy_deploy::auth::login::{
    accept_api_token, accept_refresh, accept_session, api_token_of, begin_bootstrap, begin_login,
    bootstrap_audit, bootstrap_required, decide_login, finish_api_token, finish_token_revocation,
    issue_session, judge_login, login_audit, logout_audit, new_api_token, new_tokens, tokens_of,
    ApiTokenRecord, LoginDecision, LoginRecord, MAX_FAILED_LOGIN_ATTEMPTS,
};
use easy_deploy::auth::password::{
    hash_password, hash_password_with, validate_password, verify_password,
};
use easy_deploy::auth::permissions::{
    APPS_UPDATE, APPS_VIEW, DASHBOARD_VIEW, NODES_MANAGE, NODES_VIEW, SERVICES_DEPLOY,
};
use easy_deploy::auth::roles::{
    builtin_permission_ids, builtin_role_codes, builtin_role_permissions,
    normalized_permission_ids, permission_groups, stale_permission_ids, StoredPermission,
};
use easy_deploy::auth::token::{generate_token, hash_token, token_of};
use easy_deploy::auth::{
    all_permissions, nav_permission, permission_dependencies, AuditLogFilter, AuthAccount,
    AuthError, CurrentSession, LoginInput, MemorySessionStore, PermissionView, SessionSnapshot,
};
use easy_deploy::query::QueryPart;

fn account(id: i64, status: &str) -> AuthAccount {
    AuthAccount {
        id,
        username: format!("user-{id}"),
        display_name: "User".to_owned(),
        status: status.to_owned(),
        is_super_admin: false,
    }
}

fn session(id: i64, permissions: Vec<&str>) -> CurrentSession {
    CurrentSession {
        session_id: id * 10,
        account: account(id, "active"),
        role_codes: Vec::new(),
        permission_keys: permissions.into_iter().map(str::to_owned).collect(),
        is_super_admin: false,
        csrf_token: "csrf".to_owned(),
        access_token_hash: "hash".to_owned(),
    }
}

fn login(username: &str, password: &str) -> LoginInput {
    LoginInput {
        username: username.to_owned(),
        password: password.to_owned(),
        display_name: None,
        client_ip: "127.0.0.1".to_owned(),
        user_agent: "test".to_owned(),
    }
}

fn record(status: &str, failed: i64) -> LoginRecord {
    LoginRecord {
        account: account(7, status),
        password_hash: "unused".to_owned(),
        failed_login_attempts: failed,
    }
}

fn snapshot(session_id: i64, account_id: i64, access: &str, refresh: &str) -> SessionSnapshot {
    SessionSnapshot {
        session_id,
        account: account(account_id, "active"),
        role_codes: vec!["operator".to_owned()],
        permission_keys: vec![APPS_VIEW.to_owned()],
        is_super_admin: false,
        access_token_hash: access.to_owned(),
        refresh_token_hash: refresh.to_owned(),
        access_expires_at: "2026-01-01T00:00:00Z".to_owned(),
        refresh_expires_at: "2026-01-02T00:00:00Z".to_owned(),
        csrf_token: "csrf".to_owned(),
    }
}

#[test]
fn errors_have_their_status() {
    let cases = [
        (AuthError::InvalidInput("m".to_owned()), 400),
        (AuthError::Unauthorized("m".to_owned()), 401),
        (AuthError::Forbidden("m".to_owned()), 403),
        (AuthError::Conflict("m".to_owned()), 409),
        (AuthError::Internal("m".to_owned()), 500),
    ];
    for (error, status) in cases {
        assert_eq!(error.status_code(), status);
        assert_eq!(error.message(), "m");
    }
    assert_eq!(AuthError::database("gone").status_code(), 500);
}

#[test]
fn permissions_are_registered_with_their_dependencies() {
    let permissions = all_permissions();
    assert_eq!(permissions.len(), 34);
    for permission in &permissions {
        for dependency in permission_dependencies(permission.key) {
            assert!(permissions.iter().any(|other| other.key == dependency));
            assert!(permission_dependencies(dependency).is_empty());
        }
    }
    assert_eq!(permission_dependencies(NODES_MANAGE), vec![NODES_VIEW]);
    assert_eq!(nav_permission("/apps"), Some(APPS_VIEW));
    assert_eq!(nav_permission("/nodes"), Some(NODES_VIEW));
    assert!(nav_permission("/nowhere").is_none());
}

fn stored(pairs: &[(i64, &str)]) -> Vec<StoredPermission> {
    pairs
        .iter()
        .map(|(id, key)| StoredPermission {
            id: *id,
            key: (*key).to_owned(),
        })
        .collect()
}

#[test]
fn granted_permissions_bring_their_dependencies() {
    let rows = stored(&[(1, NODES_VIEW), (2, NODES_MANAGE), (3, DASHBOARD_VIEW)]);
    assert_eq!(
        normalized_permission_ids(&vec![2], &rows).expect("granted"),
        vec![1, 2]
    );
    assert_eq!(
        normalized_permission_ids(&vec![3, 3], &rows).expect("granted"),
        vec![3]
    );
    assert!(normalized_permission_ids(&vec![9], &rows).is_err());
}

#[test]
fn builtin_roles_have_their_permissions() {
    let rows = stored(&[
        (1, APPS_VIEW),
        (2, APPS_UPDATE),
        (3, SERVICES_DEPLOY),
        (4, "gone.view"),
    ]);
    for code in builtin_role_codes() {
        let scope = builtin_role_permissions(code).expect("builtin role");
        for id in builtin_permission_ids(&scope, &rows) {
            assert!(rows.iter().any(|row| row.id == id));
        }
    }
    assert!(builtin_role_permissions("custom").is_none());
    assert_eq!(stale_permission_ids(&rows), vec![4]);
}

#[test]
fn permissions_are_grouped_by_module() {
    let view = |id: i64, module: &str| PermissionView {
        id,
        permission_key: format!("key-{id}"),
        permission_name: String::new(),
        description: String::new(),
        resource_type: "page".to_owned(),
        module: module.to_owned(),
    };
    let groups = permission_groups(vec![view(1, "b"), view(2, "a"), view(3, "b")]);
    let total: usize = groups.iter().map(|group| group.permissions.len()).sum();
    assert_eq!(groups.len(), 2);
    assert_eq!(total, 3);
    assert!(groups
        .iter()
        .all(|group| group.permissions.iter().all(|p| p.module == group.module)));
}

#[test]
fn sessions_may_do_what_they_were_granted() {
    let mut limited = session(1, vec![APPS_VIEW]);
    assert!(limited.can(APPS_VIEW));
    assert!(!limited.can(APPS_UPDATE));
    limited.is_super_admin = true;
    assert!(limited.can(APPS_UPDATE));
    assert_eq!(limited.display_name(), "User");
}

#[test]
fn stored_sessions_are_found_until_they_are_deleted() {
    let mut store = MemorySessionStore::new();
    store.save(&snapshot(1, 7, "a1", "r1"));
    store.save(&snapshot(2, 7, "a2", "r2"));
    store.save(&snapshot(3, 8, "a3", "r3"));
    assert_eq!(
        store.get_by_access_hash("a1").map(|found| found.session_id),
        Some(1)
    );
    assert_eq!(
        store.get_by_refresh_hash("r3").map(|found| found.session_id),
        Some(3)
    );
    store.delete_session(&snapshot(1, 7, "a1", "r1"));
    assert!(store.get_by_access_hash("a1").is_none());
    store.delete_sessions_by_account(7);
    assert!(store.get_by_access_hash("a2").is_none());
    assert!(store.get_by_refresh_hash("r2").is_none());
    assert!(store.get_by_access_hash("a3").is_some());
    store.delete_session_by_id(3);
    assert!(store.get_by_access_hash("a3").is_none());
}

#[test]
fn passwords_are_hashed_and_verified() {
    let hash = hash_password("correct-horse-9").expect("hash");
    assert!(hash.starts_with("$argon2id$"));
    assert!(verify_password("correct-horse-9", &hash).expect("verify"));
    assert!(!verify_password("wrong-horse-9", &hash).expect("verify"));
    assert!(verify_password("x", "not a hash").is_err());
    assert_ne!(hash, hash_password("correct-horse-9").expect("other salt"));
    assert!(validate_password("short").is_err());
    assert!(validate_password("long-enough-1").is_ok());
}

#[test]
fn tokens_are_random_and_kept_as_digests() {
    let first = generate_token().expect("token");
    let second = generate_token().expect("token");
    assert_ne!(first, second);
    assert_eq!(first.len(), 43);
    assert_eq!(
        hash_token("abc"),
        "ba7816bf8f01cfea414140de5dae2223b00361a396177a9cb410ff61f20015ad"
    );
    assert_eq!(
        token_of(Some(vec![0xff; 32])).expect("token"),
        "__________________________________________8"
    );
    assert!(token_of(None).is_err());
    assert_eq!(token_of(Some(b"any".to_vec())).expect("token"), "YW55");
    assert_eq!(token_of(Some(b"ca".to_vec())).expect("token"), "Y2E");
    assert_eq!(token_of(Some(vec![0xfb])).expect("token"), "-w");
    let tokens = new_tokens().expect("tokens");
    assert_eq!(tokens.access_token.len(), 43);
    assert_eq!(tokens.csrf_token.len(), 43);
    assert_ne!(tokens.access_token, tokens.refresh_token);
    assert_ne!(tokens.access_token, tokens.csrf_token);
    assert_ne!(tokens.refresh_token, tokens.csrf_token);
    assert_eq!(tokens.access_hash, hash_token(&tokens.access_token));
    assert_eq!(tokens.refresh_hash, hash_token(&tokens.refresh_token));
}

#[test]
fn only_the_first_account_is_bootstrapped() {
    assert!(bootstrap_required(0));
    assert!(!bootstrap_required(1));
    assert!(begin_bootstrap(&login("admin", "long-enough-1"), 1).is_err());
    assert_eq!(
        begin_bootstrap(&login("other", "long-enough-1"), 0).expect("bootstrap"),
        "admin"
    );
    assert!(begin_bootstrap(&login("admin", "short"), 0).is_err());
    assert_eq!(bootstrap_audit(1, "ip", "agent").actor_account_id, Some(1));
}

#[test]
fn login_failures_lock_accounts() {
    assert_eq!(begin_login(&login(" Admin ", "x")).expect("name"), "admin");
    match judge_login(record("active", MAX_FAILED_LOGIN_ATTEMPTS - 1), false, "ip", "agent") {
        LoginDecision::Fail {
            account_id,
            failed_attempts,
            locked,
            lock_reason,
            error,
            ..
        } => {
            assert_eq!(account_id, 7);
            assert_eq!(failed_attempts, MAX_FAILED_LOGIN_ATTEMPTS);
            assert!(locked);
            assert_eq!(lock_reason, Some("连续登录失败自动锁定"));
            assert!(error.status_code() >= 400);
        }
        _ => panic!("a wrong password fails"),
    }
    match judge_login(record("active", 0), false, "ip", "agent") {
        LoginDecision::Fail {
            locked,
            lock_reason,
            failed_attempts,
            ..
        } => {
            assert!(!locked);
            assert_eq!(lock_reason, None);
            assert_eq!(failed_attempts, 1);
        }
        _ => panic!("a wrong password fails"),
    }
    assert!(matches!(
        judge_login(record("active", 3), true, "ip", "agent"),
        LoginDecision::Accept(_)
    ));
    assert!(matches!(
        judge_login(record("locked", 5), true, "ip", "agent"),
        LoginDecision::Refuse { .. }
    ));
    assert!(matches!(
        judge_login(record("disabled", 0), true, "ip", "agent"),
        LoginDecision::Refuse { .. }
    ));
}

#[test]
fn unknown_names_and_wrong_passwords_are_refused_alike() {
    let input = login("nobody", "long-enough-1");
    let unknown = match decide_login("nobody", &input, None).expect("decision") {
        LoginDecision::Refuse { error, .. } => error,
        _ => panic!("an unknown name is refused"),
    };
    let hash = hash_password("long-enough-1").expect("hash");
    let known = LoginRecord {
        password_hash: hash,
        ..record("active", 0)
    };
    match decide_login("user-7", &login("user-7", "long-enough-1"), Some(known)).expect("decision")
    {
        LoginDecision::Accept(found) => assert_eq!(found.id, 7),
        _ => panic!("the right password is accepted"),
    }
    match judge_login(record("active", 0), false, "ip", "agent") {
        LoginDecision::Fail { error, .. } => assert_eq!(error.message(), unknown.message()),
        _ => panic!("a wrong password fails"),
    }
}

#[test]
fn sessions_are_issued_and_accepted() {
    let tokens = new_tokens().expect("tokens");
    let (stored, issued) = issue_session(
        5,
        &account(7, "active"),
        &vec!["operator".to_owned()],
        &vec![APPS_VIEW.to_owned()],
        tokens,
    );
    assert_eq!(
        stored.access_token_hash,
        hash_token(&issued.tokens.access_token)
    );
    assert_eq!(issued.session.session_id, 5);
    let current = accept_session(Some(&stored), 1).expect("session");
    assert!(current.can(APPS_VIEW));
    assert!(accept_session(Some(&stored), 0).is_err());
    assert!(accept_session(None, 1).is_err());
    assert_eq!(
        accept_refresh(true, Some(account(7, "active"))).expect("account").id,
        7
    );
    assert!(accept_refresh(false, Some(account(7, "active"))).is_err());
    assert!(accept_refresh(true, None).is_err());
    assert_eq!(login_audit(&account(7, "active"), "ip", "agent").target_id, "7");
    assert_eq!(logout_audit(&session(7, vec![])).actor_account_id, Some(7));
}

#[test]
fn api_tokens_are_made_used_and_revoked() {
    let made = new_api_token(" ci ").expect("token");
    assert_eq!(made.source, "ci");
    assert_eq!(made.token_hash, hash_token(&made.token));
    assert_eq!(made.token_prefix, token_prefix(&made.token));
    assert!(new_api_token("").is_err());
    let (created, audit) = finish_api_token(&session(7, vec![]), 3, made);
    assert_eq!(created.id, 3);
    assert_eq!(audit.target_id, "3");
    assert!(finish_token_revocation(
        &session(7, vec![]),
        3,
        Some(("ci".to_owned(), "abc".to_owned()))
    )
    .is_ok());
    assert!(finish_token_revocation(&session(7, vec![]), 3, None).is_err());
    let accepted = accept_api_token(
        Some(ApiTokenRecord {
            token_id: 3,
            source: "ci".to_owned(),
            account: account(7, "active"),
        }),
        Vec::new(),
        vec![APPS_VIEW.to_owned()],
    )
    .expect("session");
    assert_eq!(accepted.token_id, 3);
    assert!(accepted.session.can(APPS_VIEW));
    assert!(accept_api_token(None, Vec::new(), Vec::new()).is_err());
}

#[test]
fn inputs_are_normalized() {
    assert_eq!(normalize_username(" Alice.B ").expect("name"), "alice.b");
    assert!(normalize_username("").is_err());
    assert_eq!(normalize_role_code("ops_1").expect("code"), "ops_1");
    assert!(normalize_role_code("Ops!").is_err());
    assert!(normalize_api_token_source(" ").is_err());
    assert_eq!(unique_ids(&vec![3, 1, 3]), vec![1, 3]);
    assert_eq!(account_status_name("active"), "启用");
    assert_eq!(account_status_name("locked"), "锁定");
    assert_eq!(format_account_label("alice", " Alice "), "Alice (alice)");
    assert_eq!(format_account_label("alice", "alice"), "alice");
    assert_eq!(format_role_label("Ops", "ops"), "Ops (ops)");
    assert_eq!(
        role_summary_from_names(&vec!["A".to_owned(), "B".to_owned()]),
        "A、B"
    );
    assert_eq!(timestamp_after(60), "+60s");
    assert_eq!(token_prefix("0123456789abc"), "0123456789");
}

#[test]
fn audit_filters_are_bound_and_not_written_into_the_query() {
    let filter = normalize_audit_filter(AuditLogFilter {
        action: Some(" login ".to_owned()),
        target_type: Some(" ".to_owned()),
        actor: None,
        query: Some("x' OR 1=1".to_owned()),
    });
    assert_eq!(filter.action.as_deref(), Some("login"));
    assert_eq!(filter.target_type, None);
    let parts = push_audit_filter_clauses(&filter);
    for part in &parts {
        if let QueryPart::Sql(sql) = part {
            assert!(!sql.contains("OR 1=1"));
        }
    }
    assert!(parts
        .iter()
        .any(|part| matches!(part, QueryPart::Bind(value) if value.contains("x' OR 1=1"))));
}

#[test]
fn accounts_and_roles_are_managed_by_others() {
    let admin = session(1, vec![]);
    assert!(set_account_status(&admin, 1, "disabled").is_err());
    let change = set_account_status(&admin, 2, "disabled").expect("change");
    assert_eq!(change.status, "disabled");
    assert!(change.revoke_reason.is_some());
    assert!(set_account_status(&admin, 2, "active")
        .expect("change")
        .revoke_reason
        .is_none());
    assert!(set_account_status(&admin, 2, "asleep").is_err());
    assert!(ensure_other_password(&admin, 1).is_err());
    assert!(ensure_other_password(&admin, 2).is_ok());
    assert!(ensure_other_roles(&admin, 1).is_err());
    assert!(ensure_other_roles(&admin, 2).is_ok());
    assert!(ensure_custom_role(Some(0)).is_ok());
    assert!(ensure_custom_role(Some(1)).is_err());
    assert!(ensure_custom_role(None).is_err());
    assert!(valid_active_role_ids(&vec![], &vec![1]).is_err());
    assert!(valid_active_role_ids(&vec![2], &vec![1]).is_err());
    assert_eq!(
        valid_active_role_ids(&vec![2, 1], &vec![1, 2]).expect("roles"),
        vec![1, 2]
    );
    assert!(label_of_account(None).is_err());
    assert!(label_of_role(Some(("Ops".to_owned(), "ops".to_owned()))).is_ok());
    assert!(role_names_summary(&vec![Some("A".to_owned()), None]).is_err());
    assert!(accept_role_status("active").is_ok());
    assert!(accept_role_status("odd").is_err());
    assert_eq!(role_permission_count(-1), 0);
    let audit = account_status_audit(&admin, 2, "bob", "disabled", 3);
    assert!(audit.message.contains('3'));
    assert!(revoke_admin_session(&admin, admin.session_id).is_err());
    assert!(revoke_admin_session(&admin, 99).is_ok());
    assert_eq!(
        record_system_audit(&admin, "a", "t", "i", "m").actor_account_id,
        Some(1)
    );
}

#[test]
fn new_accounts_and_roles_are_checked() {
    let made = begin_account("Bob", " Bob ", "long-enough-1").expect("account");
    assert_eq!(made.username, "bob");
    assert!(verify_password("long-enough-1", &made.password_hash).expect("verify"));
    assert!(begin_account("bob", "Bob", "short").is_err());
    let role = begin_role("ops", "Ops", " runs ").expect("role");
    assert_eq!(role.role_code, "ops");
    assert!(begin_role("ops", " ", "").is_err());
    let hash = hash_password("long-enough-1").expect("hash");
    assert!(change_own_password("long-enough-1", &hash, "even-longer-2").is_ok());
    assert!(change_own_password("wrong-one-12", &hash, "even-longer-2").is_err());
    assert_eq!(
        password_change_audit(&session(1, vec![])).actor_account_id,
        Some(1)
    );
}

fn registry() -> Vec<StoredPermission> {
    all_permissions()
        .iter()
        .enumerate()
        .map(|(index, permission)| StoredPermission {
            id: index as i64 + 1,
            key: permission.key.to_owned(),
        })
        .collect()
}

fn role_permission_keys(role_code: &str) -> Vec<String> {
    let rows = registry();
    let scope = builtin_role_permissions(role_code).expect("builtin role");
    let ids = builtin_permission_ids(&scope, &rows);
    rows.iter()
        .filter(|row| ids.contains(&row.id))
        .map(|row| row.key.clone())
        .collect()
}

#[test]
fn builtin_roles_use_granular_action_permissions() {
    let deployer_permission_keys = role_permission_keys("deployer");
    assert!(deployer_permission_keys.contains(&"tasks.retry".to_owned()));
    assert!(!deployer_permission_keys.contains(&"artifacts.upload".to_owned()));
    assert!(!deployer_permission_keys.contains(&"apps.status".to_owned()));

    let operator_permission_keys = role_permission_keys("operator");
    assert!(operator_permission_keys.contains(&"apps.status".to_owned()));
    assert!(operator_permission_keys.contains(&"artifacts.upload".to_owned()));
    assert!(operator_permission_keys.contains(&"nodes.install".to_owned()));
    assert!(!operator_permission_keys.contains(&"tasks.retry".to_owned()));
    assert!(!operator_permission_keys.contains(&"services.deploy".to_owned()));
    assert!(!operator_permission_keys.contains(&"settings.update".to_owned()));

    let viewer_permission_keys = role_permission_keys("viewer");
    assert!(!viewer_permission_keys.contains(&"apps.status".to_owned()));
    assert!(!viewer_permission_keys.contains(&"tasks.retry".to_owned()));
    assert!(!viewer_permission_keys.contains(&"artifacts.upload".to_owned()));
    assert!(!viewer_permission_keys.contains(&"nodes.install".to_owned()));
    assert!(!viewer_permission_keys.contains(&"settings.update".to_owned()));

    assert!(!all_permissions()
        .iter()
        .any(|permission| permission.key == "apps.delete"));
}

#[test]
fn sync_permission_registry_repairs_builtin_role_permissions() {
    assert_eq!(
        role_permission_keys("super_admin").len(),
        all_permissions().len()
    );
    assert!(!role_permission_keys("viewer").contains(&"services.deploy".to_owned()));
    let mut rows = registry();
    rows.push(StoredPermission {
        id: 99,
        key: "apps.delete".to_owned(),
    });
    assert_eq!(stale_permission_ids(&rows), vec![99]);
}

#[test]
fn role_permissions_include_required_page_dependencies() {
    let rows = registry();
    let deploy_permission_id = rows
        .iter()
        .find(|row| row.key == "services.deploy")
        .expect("deploy permission")
        .id;
    let ids = normalized_permission_ids(&vec![deploy_permission_id], &rows).expect("grants");
    let keys: Vec<String> = rows
        .iter()
        .filter(|row| ids.contains(&row.id))
        .map(|row| row.key.clone())
        .collect();
    assert!(keys.contains(&"services.deploy".to_owned()));
    assert!(keys.contains(&"apps.view".to_owned()));
    assert!(keys.contains(&"services.view".to_owned()));
    assert!(keys.contains(&"tasks.view".to_owned()));
}

#[test]
fn account_management_audit_messages_include_target_and_session_impact() {
    let admin = session(1, vec![]);
    let made = begin_account("operator", "Operator", "password123").expect("account");
    let create_message = account_create_audit(&admin, 2, &made, "只读用户").message;
    assert!(create_message.contains("Operator (operator)") && create_message.contains("只读用户"));

    let label = format_account_label("operator", "Operator");
    let password_message = password_reset_audit(&admin, 2, &label, 1).message;
    assert!(
        password_message.contains("Operator (operator)")
            && password_message.contains("撤销活跃会话 1 个")
    );

    let status_message = account_status_audit(&admin, 2, &label, "disabled", 0).message;
    assert!(
        status_message.contains("Operator (operator)")
            && status_message.contains("状态为禁用")
            && status_message.contains("撤销活跃会话 0 个")
    );

    let roles_message =
        account_roles_audit(&admin, 2, &label, "只读用户", "部署人员", 1).message;
    assert!(
        roles_message.contains("Operator (operator)")
            && roles_message.contains("只读用户")
            && roles_message.contains("部署人员")
            && roles_message.contains("撤销活跃会话 1 个")
    );
}

#[test]
fn role_audits_name_the_role_and_what_changed() {
    let admin = session(1, vec![]);
    let role = begin_role("ops", "Ops", "").expect("role");
    assert!(role_create_audit(&admin, 4, &role, 3)
        .message
        .contains("Ops (ops)"));
    assert!(role_status_audit(&admin, 4, "Ops (ops)", "active")
        .message
        .contains("启用"));
    assert!(role_permissions_audit(&admin, 4, "Ops (ops)", 3, 5)
        .message
        .contains("3 -> 5"));
}

#[test]
fn refresh_rotates_session_when_refresh_token_is_in_store() {
    let mut store = MemorySessionStore::new();
    let first = new_tokens().expect("tokens");
    let old_refresh = first.refresh_token.clone();
    let (stored, _) = issue_session(1, &account(7, "active"), &vec![], &vec![], first);
    store.save(&stored);
    let found = store.get_by_refresh_hash(&hash_token(&old_refresh));
    let account = accept_refresh(found.is_some(), found.map(|found| found.account)).expect("account");
    let second = new_tokens().expect("tokens");
    let new_refresh = second.refresh_token.clone();
    let (rotated, _) = issue_session(2, &account, &vec![], &vec![], second);
    store.save(&rotated);
    store.delete_session_by_id(1);
    assert_ne!(old_refresh, new_refresh);
    assert!(store.get_by_refresh_hash(&hash_token(&old_refresh)).is_none());
    assert!(store.get_by_refresh_hash(&hash_token(&new_refresh)).is_some());
}

#[test]
fn each_draw_becomes_its_own_token() {
    let tokens = tokens_of(
        Some(vec![0; 32]),
        Some(vec![0xff; 32]),
        Some(vec![0x10; 32]),
    )
    .expect("tokens");
    assert_eq!(tokens.access_token, "A".repeat(43));
    assert_eq!(
        tokens.refresh_token,
        "__________________________________________8"
    );
    assert_eq!(
        tokens.csrf_token,
        "EBAQEBAQEBAQEBAQEBAQEBAQEBAQEBAQEBAQEBAQEBA"
    );
    assert_eq!(tokens.access_hash, hash_token(&tokens.access_token));
    assert_eq!(tokens.refresh_hash, hash_token(&tokens.refresh_token));
    let refused = tokens_of(Some(vec![0; 32]), None, Some(vec![0; 32]));
    assert!(matches!(refused, Err(AuthError::Internal(message)) if message == "生成登录凭证失败"));
}

#[test]
fn api_tokens_are_made_of_their_draw() {
    let made = api_token_of(" ci ", Some(vec![0; 32])).expect("token");
    assert_eq!(made.token, "A".repeat(43));
    assert_eq!(made.token_prefix, "A".repeat(10));
    assert_eq!(made.token_hash, hash_token(&made.token));
    assert_eq!(made.source, "ci");
    assert!(api_token_of("ci", None).is_err());
    assert!(api_token_of("", Some(vec![0; 32])).is_err());
}

#[test]
fn salts_without_a_text_form_are_refused() {
    for length in 0..3 {
        let refused = hash_password_with("long-enough-1", Some(vec![1; length]));
        assert!(matches!(refused, Err(AuthError::Internal(message)) if message == "密码哈希失败"));
    }
    // The shortest salt that Argon2 takes has eight bytes.
    assert!(hash_password_with("long-enough-1", Some(vec![1; 3])).is_err());
    assert!(hash_password_with("long-enough-1", Some(vec![1; 7])).is_err());
    assert!(hash_password_with("long-enough-1", Some(vec![1; 8])).is_ok());
    assert!(hash_password_with("long-enough-1", Some(vec![1; 49])).is_err());
    assert!(hash_password_with("long-enough-1", None).is_err());
}

#[test]
fn hashes_with_too_many_lanes_belong_to_no_password() {
    let hash = hash_password_with("long-enough-1", Some(vec![1; 16])).expect("hash");
    assert!(hash.contains(",p=1$"));
    assert!(verify_password("long-enough-1", &hash).expect("verify"));
    for lanes in ["16777216", "99999999", "536870912", "4294967295", "99999999999"] {
        let wide = hash.replace(",p=1$", &format!(",p={lanes}$"));
        assert!(!verify_password("long-enough-1", &wide).expect("verify"));
    }
    // Where the number of lanes is set twice, the last one counts.
    let twice = hash.replace(",p=1$", ",p=536870912,p=1$");
    assert!(verify_password("long-enough-1", &twice).expect("verify"));
    let twice = hash.replace(",p=1$", ",p=1,p=536870912$");
    assert!(!verify_password("long-enough-1", &twice).expect("verify"));
    assert!(verify_password("long-enough-1", "$argon2id$v=19$p=536870912$?").is_err());
}

#[test]
fn passwords_are_hashed_with_the_drawn_salt() {
    let salt = vec![7; 16];
    let hash = hash_password_with("long-enough-1", Some(salt.clone())).expect("hash");
    let account =
        begin_account_with(" Alice ", " ", "long-enough-1", Some(salt.clone())).expect("account");
    assert_eq!(account.username, "alice");
    assert_eq!(account.display_name, "alice");
    assert_eq!(account.password_hash, hash);
    assert!(begin_account_with("alice", "", "long-enough-1", None).is_err());
    assert!(begin_account_with("alice", "", "short", Some(salt.clone())).is_err());
    let changed =
        change_own_password_with("long-enough-1", &hash, "long-enough-2", Some(salt.clone()))
            .expect("hash");
    assert_eq!(
        changed,
        hash_password_with("long-enough-2", Some(salt.clone())).expect("hash")
    );
    assert!(change_own_password_with("wrong", &hash, "long-enough-2", Some(salt)).is_err());
}
