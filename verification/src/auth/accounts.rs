//! The administration of accounts, roles and sessions: what is admitted, and what the audit log
//! is told.

use vstd::prelude::*;

use super::error::{
    auth_fault, auth_outcome, invalid_input, unauthorized, AuthError, AuthFault,
};
use super::inputs::{
    account_label, account_status_name, format_account_label, format_role_label,
    normalize_role_code, normalize_username, role_code, role_label, role_summary,
    role_summary_from_names, status_name, unique_ids, username,
};
use super::login::{audit, Audit, AuditRecord};
use super::password::{
    hash_password_with, hashed_with, is_salt_draw, option_bytes, short_password_fault,
    validate_password, verification, verify_password, SALT_BYTES,
};
use super::random::random_bytes;
use super::session::{Account, CurrentSession};
use crate::decimal::{decimal, integer_text, natural_text, signed_decimal};
use crate::order::{contains_number, strictly_ascending};
use crate::text::{lemma_texts_push, same_text, texts, trim, trimmed};

verus! {

// ---------------------------------------------------------------------------
// Lists
// ---------------------------------------------------------------------------

#[derive(Clone, Debug)]
pub struct AccountListItem {
    pub id: i64,
    pub username: String,
    pub display_name: String,
    pub status: String,
    pub is_super_admin: i64,
    pub failed_login_attempts: i64,
    pub locked_at: Option<String>,
    pub locked_reason: String,
    pub last_login_at: Option<String>,
    pub role_names: Option<String>,
    pub role_ids: Option<String>,
    pub active_session_count: i64,
}

#[derive(Clone, Debug)]
pub struct RoleListItem {
    pub id: i64,
    pub role_code: String,
    pub role_name: String,
    pub description: String,
    pub status: String,
    pub is_system: i64,
    pub permission_count: i64,
    pub permission_ids: Option<String>,
}

#[derive(Clone, Debug)]
pub struct RoleOption {
    pub id: i64,
    pub role_code: String,
    pub role_name: String,
}

#[derive(Clone, Debug)]
pub struct SessionListItem {
    pub id: i64,
    pub account_id: i64,
    pub username: String,
    pub display_name: String,
    pub session_status: String,
    pub access_expires_at: String,
    pub refresh_expires_at: String,
    pub last_ip: String,
    pub user_agent: String,
    pub created_at: String,
}

#[derive(Clone, Debug)]
pub struct ApiTokenListItem {
    pub id: i64,
    pub account_id: i64,
    pub username: String,
    pub display_name: String,
    pub token_prefix: String,
    pub source: String,
    pub status: String,
    pub last_used_at: Option<String>,
    pub last_used_ip: String,
    pub revoked_at: Option<String>,
    pub created_at: String,
    pub updated_at: String,
}

#[derive(Clone, Debug)]
pub struct AuditLogItem {
    pub id: i64,
    pub actor_username: String,
    pub action: String,
    pub target_type: String,
    pub target_id: String,
    pub message: String,
    pub ip: String,
    pub created_at: String,
}

#[derive(Clone, Debug)]
pub struct AuditFilterOption {
    pub value: String,
}

// ---------------------------------------------------------------------------
// The audit log
// ---------------------------------------------------------------------------

/// An entry about what someone did to something else.
pub open spec fn admin_audit(
    actor: Account,
    action: Seq<char>,
    target_type: Seq<char>,
    target_id: Seq<char>,
    message: Seq<char>,
) -> Audit {
    Audit {
        actor_id: Some(actor.id),
        actor: actor.username,
        action,
        target_type,
        target_id,
        message,
        ip: Seq::empty(),
        user_agent: Seq::empty(),
    }
}

/// An entry that any part of the platform makes.
pub fn record_system_audit(
    actor: &CurrentSession,
    action: &str,
    target_type: &str,
    target_id: &str,
    message: &str,
) -> (record: AuditRecord)
    ensures
        record@ == admin_audit(actor@.account, action@, target_type@, target_id@, message@),
{
    admin_record(actor, action, target_type, target_id.to_owned(), message.to_owned())
}

fn admin_record(
    actor: &CurrentSession,
    action: &str,
    target_type: &str,
    target_id: String,
    message: String,
) -> (record: AuditRecord)
    ensures
        record@ == admin_audit(actor@.account, action@, target_type@, target_id@, message@),
{
    let nothing = String::new();
    assert(nothing@ =~= Seq::<char>::empty());
    audit(
        Some(actor.account.id),
        actor.account.username.as_str(),
        action,
        target_type,
        target_id,
        message,
        nothing.as_str(),
        nothing.as_str(),
    )
}

// ---------------------------------------------------------------------------
// Labels and roles
// ---------------------------------------------------------------------------

/// How an account is named, where it exists.
pub fn label_of_account(found: Option<(String, String)>) -> (result: Result<String, AuthError>)
    ensures
        auth_outcome(result) == (match found {
            Some(names) => Ok(account_label(names.0@, names.1@)),
            None => Err(AuthFault::InvalidInput("账号不存在"@)),
        }),
{
    match found {
        Some(names) => Ok(format_account_label(names.0.as_str(), names.1.as_str())),
        None => Err(invalid_input("账号不存在")),
    }
}

/// How a role is named, where it exists.
pub fn label_of_role(found: Option<(String, String)>) -> (result: Result<String, AuthError>)
    ensures
        auth_outcome(result) == (match found {
            Some(names) => Ok(role_label(names.0@, names.1@)),
            None => Err(AuthFault::InvalidInput("角色不存在"@)),
        }),
{
    match found {
        Some(names) => Ok(format_role_label(names.0.as_str(), names.1.as_str())),
        None => Err(invalid_input("角色不存在")),
    }
}

/// Why a role cannot be changed: it does not exist, or it comes with the platform.
pub open spec fn custom_role_fault(is_system: Option<i64>) -> Option<AuthFault> {
    match is_system {
        None => Some(AuthFault::InvalidInput("角色不存在"@)),
        Some(flag) => if flag == 1 {
            Some(AuthFault::InvalidInput("系统内置角色由平台版本维护，不能在页面中修改"@))
        } else {
            None
        },
    }
}

/// Refuses to change a role that comes with the platform.
pub fn ensure_custom_role(is_system: Option<i64>) -> (result: Result<(), AuthError>)
    ensures
        auth_fault(result) == custom_role_fault(is_system),
{
    match is_system {
        None => Err(invalid_input("角色不存在")),
        Some(flag) => {
            if flag == 1 {
                Err(invalid_input("系统内置角色由平台版本维护，不能在页面中修改"))
            } else {
                Ok(())
            }
        },
    }
}

pub open spec fn inactive_role() -> AuthFault {
    AuthFault::InvalidInput("角色不存在或已禁用"@)
}

/// Every identifier is that of an active role.
pub open spec fn all_active(ids: Seq<i64>, active: Seq<i64>) -> bool {
    forall|i: int| 0 <= i < ids.len() ==> active.contains(#[trigger] ids[i])
}

/// Accepts the roles of an account: at least one, and all of them active.
pub fn valid_active_role_ids(role_ids: &Vec<i64>, active_ids: &Vec<i64>) -> (result: Result<
    Vec<i64>,
    AuthError,
>)
    ensures
        match result {
            Ok(ids) => {
                &&& role_ids@.len() > 0
                &&& all_active(role_ids@, active_ids@)
                &&& strictly_ascending(ids@)
                &&& forall|id: i64| ids@.contains(id) <==> role_ids@.contains(id)
            },
            Err(error) => if role_ids@.len() == 0 {
                error@ == AuthFault::InvalidInput("账号至少需要分配一个启用角色"@)
            } else {
                !all_active(role_ids@, active_ids@) && error@ == inactive_role()
            },
        },
{
    let ids = unique_ids(role_ids);
    if ids.len() == 0 {
        proof {
            if role_ids@.len() > 0 {
                assert(role_ids@.contains(role_ids@[0]));
                assert(ids@.contains(role_ids@[0]));
            }
        }
        return Err(invalid_input("账号至少需要分配一个启用角色"));
    }
    assert(ids@.contains(ids@[0]));
    assert(role_ids@.contains(ids@[0]));
    let mut i: usize = 0;
    while i < ids.len()
        invariant
            i <= ids@.len(),
            role_ids@.len() > 0,
            forall|id: i64|
                #![trigger ids@.contains(id)]
                #![trigger role_ids@.contains(id)]
                ids@.contains(id) <==> role_ids@.contains(id),
            forall|k: int| 0 <= k < i ==> active_ids@.contains(#[trigger] ids@[k]),
        decreases ids@.len() - i,
    {
        if !contains_number(active_ids, ids[i]) {
            proof {
                assert(ids@.contains(ids@[i as int]));
                let k = choose|k: int| 0 <= k < role_ids@.len() && role_ids@[k] == ids@[i as int];
                assert(!active_ids@.contains(role_ids@[k]));
            }
            return Err(invalid_input("角色不存在或已禁用"));
        }
        i = i + 1;
    }
    proof {
        assert forall|k: int| 0 <= k < role_ids@.len() implies active_ids@.contains(
            #[trigger] role_ids@[k],
        ) by {
            assert(role_ids@.contains(role_ids@[k]));
            let m = choose|m: int| 0 <= m < ids@.len() && ids@[m] == role_ids@[k];
            assert(active_ids@.contains(ids@[m]));
        }
    }
    Ok(ids)
}

/// The names of roles, where every role has one.
pub open spec fn known_names(names: Seq<Option<String>>) -> Option<Seq<Seq<char>>>
    decreases names.len(),
{
    if names.len() == 0 {
        Some(Seq::empty())
    } else {
        match (known_names(names.drop_last()), names.last()) {
            (Some(before), Some(name)) => Some(before.push(name@)),
            _ => None,
        }
    }
}

proof fn lemma_unknown_name(names: Seq<Option<String>>, at: int)
    requires
        0 <= at < names.len(),
        names[at] is None,
    ensures
        known_names(names) is None,
    decreases names.len(),
{
    if at < names.len() - 1 {
        assert(names.drop_last()[at] is None);
        lemma_unknown_name(names.drop_last(), at);
    }
}

/// The names of the roles of an account, as they were found.
pub fn role_names_summary(names: &Vec<Option<String>>) -> (result: Result<String, AuthError>)
    ensures
        auth_outcome(result) == (match known_names(names@) {
            Some(known) => Ok(role_summary(known)),
            None => Err(inactive_role()),
        }),
{
    let mut known: Vec<String> = Vec::new();
    let mut i: usize = 0;
    assert(texts(known@) =~= Seq::empty());
    assert(names@.take(0) =~= Seq::empty());
    while i < names.len()
        invariant
            i <= names@.len(),
            known_names(names@.take(i as int)) == Some(texts(known@)),
        decreases names@.len() - i,
    {
        assert(names@.take(i + 1).drop_last() =~= names@.take(i as int));
        match &names[i] {
            Some(name) => {
                proof {
                    lemma_texts_push(known@, *name);
                }
                known.push(name.clone());
            },
            None => {
                proof {
                    lemma_unknown_name(names@, i as int);
                }
                return Err(invalid_input("角色不存在或已禁用"));
            },
        }
        i = i + 1;
    }
    assert(names@.take(i as int) =~= names@);
    Ok(role_summary_from_names(&known))
}

// ---------------------------------------------------------------------------
// Accounts
// ---------------------------------------------------------------------------

/// What is stored of a new account.
#[derive(Debug)]
pub struct NewAccount {
    pub username: String,
    pub display_name: String,
    pub password_hash: String,
}

/// How a new account is shown: by the given name, or by the user name.
pub open spec fn shown_as(display_name: Seq<char>, name: Seq<char>) -> Seq<char> {
    if trimmed(display_name).len() == 0 {
        name
    } else {
        trimmed(display_name)
    }
}

/// A new account as a mathematical value.
pub struct Registration {
    pub username: Seq<char>,
    pub display_name: Seq<char>,
    pub password_hash: Seq<char>,
}

impl View for NewAccount {
    type V = Registration;

    open spec fn view(&self) -> Registration {
        Registration {
            username: self.username@,
            display_name: self.display_name@,
            password_hash: self.password_hash@,
        }
    }
}

/// What becomes of a new account, given the random bytes that were drawn for the salt.
pub open spec fn registered(
    name: Seq<char>,
    display_name: Seq<char>,
    password: Seq<char>,
    salt: Option<Seq<u8>>,
) -> Result<Registration, AuthFault> {
    match (username(name), hashed_with(password, salt)) {
        (Err(fault), _) => Err(fault),
        (_, Err(fault)) => Err(fault),
        (Ok(accepted), Ok(password_hash)) => Ok(
            Registration {
                username: accepted,
                display_name: shown_as(display_name, accepted),
                password_hash,
            },
        ),
    }
}

pub open spec fn registration_outcome(result: Result<NewAccount, AuthError>) -> Result<
    Registration,
    AuthFault,
> {
    match result {
        Ok(account) => Ok(account@),
        Err(error) => Err(error@),
    }
}

/// Accepts a new account, and hashes its password with the given random bytes.
pub fn begin_account_with(
    name: &str,
    display_name: &str,
    password: &str,
    salt: Option<Vec<u8>>,
) -> (result: Result<NewAccount, AuthError>)
    ensures
        registration_outcome(result) == registered(
            name@,
            display_name@,
            password@,
            option_bytes(salt),
        ),
        result is Ok ==> verification(password@, result->Ok_0.password_hash@) == Ok::<
            bool,
            AuthFault,
        >(true),
{
    let accepted = match normalize_username(name) {
        Ok(accepted) => accepted,
        Err(error) => return Err(error),
    };
    let password_hash = match hash_password_with(password, salt) {
        Ok(hash) => hash,
        Err(error) => return Err(error),
    };
    let shown = trim(display_name);
    let display = if shown.as_str().is_empty() {
        accepted.clone()
    } else {
        shown
    };
    Ok(NewAccount { username: accepted, display_name: display, password_hash })
}

/// Accepts a new account, and hashes its password with a salt of its own.
pub fn begin_account(name: &str, display_name: &str, password: &str) -> (result: Result<
    NewAccount,
    AuthError,
>)
    ensures
        exists|salt: Option<Seq<u8>>|
            is_salt_draw(salt) && registration_outcome(result) == #[trigger] registered(
                name@,
                display_name@,
                password@,
                salt,
            ),
        match username(name@) {
            Err(fault) => result is Err && result->Err_0@ == fault,
            Ok(accepted) => if password@.len() < 8 {
                result is Err && result->Err_0@ == short_password_fault()
            } else {
                match result {
                    Ok(account) => {
                        &&& account.username@ == accepted
                        &&& account.display_name@ == shown_as(display_name@, accepted)
                        &&& verification(password@, account.password_hash@) == Ok::<
                            bool,
                            AuthFault,
                        >(true)
                    },
                    Err(error) => error@ == AuthFault::Internal("密码哈希失败"@),
                }
            },
        },
{
    let salt = random_bytes(SALT_BYTES);
    let ghost drawn = option_bytes(salt);
    let result = begin_account_with(name, display_name, password, salt);
    assert(registration_outcome(result) == registered(name@, display_name@, password@, drawn));
    result
}

/// The entry that records a new account.
pub fn account_create_audit(
    actor: &CurrentSession,
    account_id: i64,
    account: &NewAccount,
    roles: &str,
) -> (record: AuditRecord)
    ensures
        record@ == admin_audit(
            actor@.account,
            "rbac.account_create"@,
            "account"@,
            signed_decimal(account_id as int),
            "创建账号 "@ + account.display_name@ + " ("@ + account.username@ + ")，初始角色："@
                + roles@,
        ),
{
    let message = "创建账号 ".to_owned().concat(account.display_name.as_str()).concat(" (").concat(
        account.username.as_str(),
    ).concat(")，初始角色：").concat(roles);
    admin_record(actor, "rbac.account_create", "account", integer_text(account_id), message)
}

/// A change of an account's status.
#[derive(Debug)]
pub struct AccountStatusChange {
    pub status: String,
    /// Why the sessions of the account end, where they do.
    pub revoke_reason: Option<&'static str>,
}

/// A status that an account may be given.
pub open spec fn is_account_status(status: Seq<char>) -> bool {
    status == "active"@ || status == "disabled"@ || status == "locked"@
}

/// Why the sessions of an account end with its status.
pub open spec fn revocation(status: Seq<char>) -> Option<Seq<char>> {
    if status == "active"@ {
        None
    } else if status == "locked"@ {
        Some("account_locked"@)
    } else {
        Some("account_disabled"@)
    }
}

/// What stands in the way of a change of an account's status.
pub open spec fn status_fault(actor: Account, account_id: i64, status: Seq<char>) -> Option<
    AuthFault,
> {
    if !is_account_status(status) {
        Some(AuthFault::InvalidInput("账号状态无效"@))
    } else if account_id == actor.id && status != "active"@ {
        Some(AuthFault::InvalidInput("不能禁用或锁定当前登录账号"@))
    } else {
        None
    }
}

/// Accepts a change of an account's status. Nobody disables or locks their own account.
pub fn set_account_status(actor: &CurrentSession, account_id: i64, status: &str) -> (result: Result<
    AccountStatusChange,
    AuthError,
>)
    ensures
        match result {
            Ok(change) => {
                &&& status_fault(actor@.account, account_id, status@) is None
                &&& change.status@ == status@
                &&& crate::urls::option_str(change.revoke_reason) == revocation(status@)
            },
            Err(error) => status_fault(actor@.account, account_id, status@) == Some(error@),
        },
{
    let active = same_text(status, "active");
    let locked = same_text(status, "locked");
    if !active && !locked && !same_text(status, "disabled") {
        return Err(invalid_input("账号状态无效"));
    }
    if account_id == actor.account.id && !active {
        return Err(invalid_input("不能禁用或锁定当前登录账号"));
    }
    let revoke_reason: Option<&'static str> = if active {
        None
    } else if locked {
        Some("account_locked")
    } else {
        Some("account_disabled")
    };
    Ok(AccountStatusChange { status: status.to_owned(), revoke_reason })
}

/// The entry that records a change of an account's status.
pub fn account_status_audit(
    actor: &CurrentSession,
    account_id: i64,
    label: &str,
    status: &str,
    revoked_sessions: u64,
) -> (record: AuditRecord)
    ensures
        record@ == admin_audit(
            actor@.account,
            "rbac.account_status"@,
            "account"@,
            signed_decimal(account_id as int),
            "更新账号 "@ + label@ + " 状态为"@ + status_name(status@) + "，撤销活跃会话 "@
                + decimal(revoked_sessions as nat) + " 个"@,
        ),
{
    let message = "更新账号 ".to_owned().concat(label).concat(" 状态为").concat(
        account_status_name(status),
    ).concat("，撤销活跃会话 ").concat(natural_text(revoked_sessions).as_str()).concat(" 个");
    admin_record(actor, "rbac.account_status", "account", integer_text(account_id), message)
}

/// Why a password cannot be reset: it is that of the account in use.
pub open spec fn password_reset_fault(actor: Account, account_id: i64) -> Option<AuthFault> {
    if account_id == actor.id {
        Some(
            AuthFault::InvalidInput("不能在账号管理中重置当前登录账号密码，请使用个人中心"@),
        )
    } else {
        None
    }
}

/// Refuses to reset the password of one's own account.
pub fn ensure_other_password(actor: &CurrentSession, account_id: i64) -> (result: Result<
    (),
    AuthError,
>)
    ensures
        auth_fault(result) == password_reset_fault(actor@.account, account_id),
{
    if account_id == actor.account.id {
        return Err(
            invalid_input("不能在账号管理中重置当前登录账号密码，请使用个人中心"),
        );
    }
    Ok(())
}

/// The entry that records that a password was reset.
pub fn password_reset_audit(
    actor: &CurrentSession,
    account_id: i64,
    label: &str,
    revoked_sessions: u64,
) -> (record: AuditRecord)
    ensures
        record@ == admin_audit(
            actor@.account,
            "rbac.account_reset_password"@,
            "account"@,
            signed_decimal(account_id as int),
            "重置账号 "@ + label@ + " 密码，撤销活跃会话 "@ + decimal(revoked_sessions as nat)
                + " 个"@,
        ),
{
    let message = "重置账号 ".to_owned().concat(label).concat(" 密码，撤销活跃会话 ").concat(
        natural_text(revoked_sessions).as_str(),
    ).concat(" 个");
    admin_record(
        actor,
        "rbac.account_reset_password",
        "account",
        integer_text(account_id),
        message,
    )
}

/// Why roles cannot be assigned: they are those of the account in use.
pub open spec fn role_change_fault(actor: Account, account_id: i64) -> Option<AuthFault> {
    if account_id == actor.id {
        Some(AuthFault::InvalidInput("不能修改当前登录账号的角色"@))
    } else {
        None
    }
}

/// Refuses to change the roles of one's own account.
pub fn ensure_other_roles(actor: &CurrentSession, account_id: i64) -> (result: Result<
    (),
    AuthError,
>)
    ensures
        auth_fault(result) == role_change_fault(actor@.account, account_id),
{
    if account_id == actor.account.id {
        return Err(invalid_input("不能修改当前登录账号的角色"));
    }
    Ok(())
}

/// The entry that records a change of an account's roles.
pub fn account_roles_audit(
    actor: &CurrentSession,
    account_id: i64,
    label: &str,
    previous_roles: &str,
    next_roles: &str,
    revoked_sessions: u64,
) -> (record: AuditRecord)
    ensures
        record@ == admin_audit(
            actor@.account,
            "rbac.account_roles"@,
            "account"@,
            signed_decimal(account_id as int),
            "更新账号 "@ + label@ + " 角色："@ + previous_roles@ + " -> "@ + next_roles@
                + "，撤销活跃会话 "@ + decimal(revoked_sessions as nat) + " 个"@,
        ),
{
    let message = "更新账号 ".to_owned().concat(label).concat(" 角色：").concat(
        previous_roles,
    ).concat(" -> ").concat(next_roles).concat("，撤销活跃会话 ").concat(
        natural_text(revoked_sessions).as_str(),
    ).concat(" 个");
    admin_record(actor, "rbac.account_roles", "account", integer_text(account_id), message)
}

/// What becomes of a change of one's own password, given the random bytes that were drawn for the
/// salt.
pub open spec fn password_changed(
    current_password: Seq<char>,
    password_hash: Seq<char>,
    new_password: Seq<char>,
    salt: Option<Seq<u8>>,
) -> Result<Seq<char>, AuthFault> {
    if new_password.len() < 8 {
        Err(short_password_fault())
    } else {
        match verification(current_password, password_hash) {
            Err(fault) => Err(fault),
            Ok(belongs) => if !belongs {
                Err(AuthFault::Unauthorized("当前密码不正确"@))
            } else {
                hashed_with(new_password, salt)
            },
        }
    }
}

/// Accepts a change of one's own password, and hashes the new one with the given random bytes.
pub fn change_own_password_with(
    current_password: &str,
    password_hash: &str,
    new_password: &str,
    salt: Option<Vec<u8>>,
) -> (result: Result<String, AuthError>)
    ensures
        auth_outcome(result) == password_changed(
            current_password@,
            password_hash@,
            new_password@,
            option_bytes(salt),
        ),
        result is Ok ==> verification(new_password@, result->Ok_0@) == Ok::<bool, AuthFault>(
            true,
        ),
{
    match validate_password(new_password) {
        Ok(_) => {},
        Err(error) => return Err(error),
    }
    match verify_password(current_password, password_hash) {
        Ok(belongs) => {
            if !belongs {
                return Err(unauthorized("当前密码不正确"));
            }
        },
        Err(error) => return Err(error),
    }
    hash_password_with(new_password, salt)
}

/// Accepts a change of one's own password, and hashes the new one with a salt of its own.
pub fn change_own_password(current_password: &str, password_hash: &str, new_password: &str) -> (
    result: Result<String, AuthError>)
    ensures
        exists|salt: Option<Seq<u8>>|
            is_salt_draw(salt) && auth_outcome(result) == #[trigger] password_changed(
                current_password@,
                password_hash@,
                new_password@,
                salt,
            ),
        result is Ok ==> verification(new_password@, result->Ok_0@) == Ok::<bool, AuthFault>(
            true,
        ),
{
    let salt = random_bytes(SALT_BYTES);
    let ghost drawn = option_bytes(salt);
    let result = change_own_password_with(current_password, password_hash, new_password, salt);
    assert(auth_outcome(result) == password_changed(
        current_password@,
        password_hash@,
        new_password@,
        drawn,
    ));
    result
}

/// The entry that records a change of one's own password.
pub fn password_change_audit(actor: &CurrentSession) -> (record: AuditRecord)
    ensures
        record@ == admin_audit(
            actor@.account,
            "profile.password_change"@,
            "account"@,
            signed_decimal(actor@.account.id as int),
            "修改个人密码"@,
        ),
{
    admin_record(
        actor,
        "profile.password_change",
        "account",
        integer_text(actor.account.id),
        "修改个人密码".to_owned(),
    )
}

// ---------------------------------------------------------------------------
// Roles
// ---------------------------------------------------------------------------

/// What is stored of a new role.
#[derive(Debug)]
pub struct NewRole {
    pub role_code: String,
    pub role_name: String,
    pub description: String,
}

/// The code and the name are those of a role.
pub open spec fn is_role(code: Seq<char>, name: Seq<char>) -> bool {
    role_code(code) is Ok && trimmed(name).len() > 0
}

/// Accepts a new role.
pub fn begin_role(code: &str, name: &str, description: &str) -> (result: Result<
    NewRole,
    AuthError,
>)
    ensures
        match role_code(code@) {
            Err(fault) => result is Err && result->Err_0@ == fault,
            Ok(accepted) => if trimmed(name@).len() == 0 {
                result is Err && result->Err_0@ == AuthFault::InvalidInput("请输入角色名称"@)
            } else {
                &&& result is Ok
                &&& result->Ok_0.role_code@ == accepted
                &&& result->Ok_0.role_name@ == trimmed(name@)
                &&& result->Ok_0.description@ == trimmed(description@)
            },
        },
        result is Ok <==> is_role(code@, name@),
{
    let accepted = match normalize_role_code(code) {
        Ok(accepted) => accepted,
        Err(error) => return Err(error),
    };
    let role_name = trim(name);
    if role_name.as_str().is_empty() {
        return Err(invalid_input("请输入角色名称"));
    }
    Ok(NewRole { role_code: accepted, role_name, description: trim(description) })
}

/// The entry that records a new role.
pub fn role_create_audit(
    actor: &CurrentSession,
    role_id: i64,
    role: &NewRole,
    permission_count: u64,
) -> (record: AuditRecord)
    ensures
        record@ == admin_audit(
            actor@.account,
            "rbac.role_create"@,
            "role"@,
            signed_decimal(role_id as int),
            "创建角色 "@ + role.role_name@ + " ("@ + role.role_code@ + ")，初始权限 "@ + decimal(
                permission_count as nat,
            ) + " 个"@,
        ),
{
    let message = "创建角色 ".to_owned().concat(role.role_name.as_str()).concat(" (").concat(
        role.role_code.as_str(),
    ).concat(")，初始权限 ").concat(natural_text(permission_count).as_str()).concat(" 个");
    admin_record(actor, "rbac.role_create", "role", integer_text(role_id), message)
}

/// Why a role cannot have a status.
pub open spec fn role_status_fault(status: Seq<char>) -> Option<AuthFault> {
    if status == "active"@ || status == "disabled"@ {
        None
    } else {
        Some(AuthFault::InvalidInput("角色状态无效"@))
    }
}

/// Accepts the status of a role.
pub fn accept_role_status(status: &str) -> (result: Result<(), AuthError>)
    ensures
        auth_fault(result) == role_status_fault(status@),
{
    if same_text(status, "active") || same_text(status, "disabled") {
        Ok(())
    } else {
        Err(invalid_input("角色状态无效"))
    }
}

/// The entry that records a change of a role's status.
pub fn role_status_audit(actor: &CurrentSession, role_id: i64, label: &str, status: &str) -> (
    record: AuditRecord)
    ensures
        record@ == admin_audit(
            actor@.account,
            "rbac.role_status"@,
            "role"@,
            signed_decimal(role_id as int),
            "更新角色 "@ + label@ + " 状态为 "@ + (if status@ == "active"@ {
                "启用"@
            } else {
                "禁用"@
            }),
        ),
{
    let shown = if same_text(status, "active") {
        "启用"
    } else {
        "禁用"
    };
    let message = "更新角色 ".to_owned().concat(label).concat(" 状态为 ").concat(shown);
    admin_record(actor, "rbac.role_status", "role", integer_text(role_id), message)
}

/// The number of permissions of a role, as a store counts them.
pub fn role_permission_count(count: i64) -> (permissions: u64)
    ensures
        permissions == (if count > 0 {
            count as int
        } else {
            0
        }),
{
    if count > 0 {
        count as u64
    } else {
        0
    }
}

/// The entry that records a change of a role's permissions.
pub fn role_permissions_audit(
    actor: &CurrentSession,
    role_id: i64,
    label: &str,
    previous_count: u64,
    next_count: u64,
) -> (record: AuditRecord)
    ensures
        record@ == admin_audit(
            actor@.account,
            "rbac.role_permissions"@,
            "role"@,
            signed_decimal(role_id as int),
            "更新角色 "@ + label@ + " 权限："@ + decimal(previous_count as nat) + " -> "@
                + decimal(next_count as nat),
        ),
{
    let message = "更新角色 ".to_owned().concat(label).concat(" 权限：").concat(
        natural_text(previous_count).as_str(),
    ).concat(" -> ").concat(natural_text(next_count).as_str());
    admin_record(actor, "rbac.role_permissions", "role", integer_text(role_id), message)
}

// ---------------------------------------------------------------------------
// Sessions
// ---------------------------------------------------------------------------

/// A session can be ended by another one.
pub open spec fn may_revoke(own: i64, session_id: i64) -> bool {
    own != session_id
}

/// Accepts the end of another session, with the entry that records it; one's own session ends by
/// signing out.
pub fn revoke_admin_session(actor: &CurrentSession, session_id: i64) -> (result: Result<
    AuditRecord,
    AuthError,
>)
    ensures
        match result {
            Ok(record) => session_id != actor@.session_id && record@ == admin_audit(
                actor@.account,
                "rbac.session_revoke"@,
                "session"@,
                signed_decimal(session_id as int),
                "强制下线会话"@,
            ),
            Err(error) => session_id == actor@.session_id && error@ == AuthFault::InvalidInput(
                "不能在这里强制下线当前会话，请使用退出登录"@,
            ),
        },
        result is Ok <==> may_revoke(actor@.session_id, session_id),
{
    if session_id == actor.session_id {
        return Err(invalid_input("不能在这里强制下线当前会话，请使用退出登录"));
    }
    Ok(
        admin_record(
            actor,
            "rbac.session_revoke",
            "session",
            integer_text(session_id),
            "强制下线会话".to_owned(),
        ),
    )
}

// ---------------------------------------------------------------------------
// Laws
// ---------------------------------------------------------------------------

/// Nobody locks themselves out: one's own account can be given no status but the active one.
pub proof fn own_account_stays_active(actor: Account, status: Seq<char>)
    requires
        status_fault(actor, actor.id, status) is None,
    ensures
        status == "active"@,
        revocation(status) is None,
{
}

/// An account that is no longer active loses its sessions.
pub proof fn inactive_accounts_lose_sessions(actor: Account, account_id: i64, status: Seq<char>)
    requires
        status_fault(actor, account_id, status) is None,
        status != "active"@,
    ensures
        revocation(status) is Some,
{
}

/// A status is set exactly if it is one of an account, and nobody disables or locks the account that
/// they use.
pub proof fn statuses_are_those_of_accounts(actor: Account, account_id: i64, status: Seq<char>)
    ensures
        status_fault(actor, account_id, status) is None <==> (status == "active"@ || (account_id
            != actor.id && (status == "disabled"@ || status == "locked"@))),
        revocation("active"@) is None,
        revocation("disabled"@) == Some("account_disabled"@),
        revocation("locked"@) == Some("account_locked"@),
{
    reveal_strlit("active");
    reveal_strlit("disabled");
    reveal_strlit("locked");
    assert("active"@.len() == 6);
    assert("disabled"@.len() == 8);
    assert("locked"@.len() == 6);
    assert("active"@[0] == 'a');
    assert("locked"@[0] == 'l');
}

/// An account is shown under its name where it has no other, and under the other without white
/// space around it.
pub proof fn accounts_are_shown_under_a_name(display_name: Seq<char>, name: Seq<char>)
    ensures
        trimmed(display_name).len() > 0 ==> shown_as(display_name, name) == trimmed(display_name),
        trimmed(display_name).len() == 0 ==> shown_as(display_name, name) == name,
{
}

/// A password is changed only by who knows the present one, and only to one of eight characters or
/// more.
pub proof fn passwords_are_changed_by_who_knows_them(
    current_password: Seq<char>,
    password_hash: Seq<char>,
    new_password: Seq<char>,
    salt: Option<Seq<u8>>,
)
    ensures
        password_changed(current_password, password_hash, new_password, salt) is Ok ==> {
            &&& new_password.len() >= 8
            &&& verification(current_password, password_hash) == Ok::<bool, AuthFault>(true)
            &&& hashed_with(new_password, salt) == password_changed(
                current_password,
                password_hash,
                new_password,
                salt,
            )
        },
        new_password.len() >= 8 && verification(current_password, password_hash) == Ok::<
            bool,
            AuthFault,
        >(true) ==> password_changed(current_password, password_hash, new_password, salt)
            == hashed_with(new_password, salt),
        new_password.len() >= 8 && verification(current_password, password_hash) == Ok::<
            bool,
            AuthFault,
        >(false) ==> password_changed(current_password, password_hash, new_password, salt) == Err::<
            Seq<char>,
            AuthFault,
        >(AuthFault::Unauthorized("当前密码不正确"@)),
{
}

/// A registration is accepted exactly if the name is and the password can be stored.
pub proof fn registrations_have_name_and_password(
    name: Seq<char>,
    display_name: Seq<char>,
    password: Seq<char>,
    salt: Option<Seq<u8>>,
)
    ensures
        registered(name, display_name, password, salt) is Ok <==> username(name) is Ok
            && hashed_with(password, salt) is Ok,
        registered(name, display_name, password, salt) matches Ok(account) ==> account.username
            == username(name)->Ok_0 && account.password_hash == hashed_with(password, salt)->Ok_0
            && account.display_name == shown_as(display_name, account.username),
        username(name) matches Err(fault) ==> registered(name, display_name, password, salt)
            == Err::<Registration, AuthFault>(fault),
{
}

/// What the audit log is told of an administrator's act: who, what and on what.
pub proof fn acts_are_recorded_with_their_actor(
    actor: Account,
    action: Seq<char>,
    target_type: Seq<char>,
    target_id: Seq<char>,
    message: Seq<char>,
)
    ensures
        ({
            let record = admin_audit(actor, action, target_type, target_id, message);
            &&& record.actor_id == Some(actor.id)
            &&& record.actor == actor.username
            &&& record.action == action
            &&& record.target_type == target_type
            &&& record.target_id == target_id
            &&& record.message == message
            &&& record.ip.len() == 0
            &&& record.user_agent.len() == 0
        }),
{
}

/// The names of roles are known exactly if each of them is, and they stay in their order.
pub proof fn roles_are_known_by_all_their_names(names: Seq<Option<String>>)
    ensures
        known_names(names) is Some <==> forall|i: int|
            0 <= i < names.len() ==> (#[trigger] names[i]) is Some,
        known_names(names) matches Some(known) ==> known.len() == names.len() && forall|i: int|
            0 <= i < names.len() ==> #[trigger] known[i] == names[i]->0@,
    decreases names.len(),
{
    if names.len() > 0 {
        let before = names.drop_last();
        roles_are_known_by_all_their_names(before);
        if forall|i: int| 0 <= i < names.len() ==> (#[trigger] names[i]) is Some {
            assert forall|i: int| 0 <= i < before.len() implies (#[trigger] before[i]) is Some by {
                assert(names[i] == before[i]);
            }
            assert(names[names.len() - 1] is Some);
        }
        if known_names(names) is Some {
            assert forall|i: int| 0 <= i < names.len() implies (#[trigger] names[i]) is Some by {
                if i < before.len() {
                    assert(before[i] == names[i]);
                }
            }
            let known = known_names(names)->0;
            assert forall|i: int| 0 <= i < names.len() implies #[trigger] known[i]
                == names[i]->0@ by {
                if i < before.len() {
                    assert(known_names(before)->0[i] == before[i]->0@);
                }
            }
        }
    }
}

/// The roles that come with the platform stay as they are, and a role that does not exist cannot
/// be changed.
pub proof fn only_custom_roles_are_changed(flag: i64)
    ensures
        custom_role_fault(Some(1i64)) is Some,
        flag != 1 ==> custom_role_fault(Some(flag)) is None,
        custom_role_fault(None) is Some,
{
}

/// A role is active or disabled.
pub proof fn roles_are_active_or_disabled(status: Seq<char>)
    ensures
        role_status_fault(status) is None <==> status == "active"@ || status == "disabled"@,
{
}

/// Nobody changes the roles or resets the password of the account that they use.
pub proof fn own_accounts_are_not_administered(actor: Account, account_id: i64)
    ensures
        password_reset_fault(actor, account_id) is None <==> account_id != actor.id,
        role_change_fault(actor, account_id) is None <==> account_id != actor.id,
{
}

/// Sessions of others are ended here, and one's own is not.
pub proof fn own_sessions_are_not_revoked(own: i64, session_id: i64)
    ensures
        may_revoke(own, session_id) <==> own != session_id,
{
}

/// A role is made exactly if its code is accepted and it has a name.
pub proof fn roles_have_code_and_name(code: Seq<char>, name: Seq<char>)
    ensures
        is_role(code, name) <==> role_code(code) is Ok && trimmed(name).len() > 0,
{
}

} // verus!
