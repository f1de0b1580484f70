//! Signing in and out: what is decided at each step, and what the audit log is told.

use vstd::prelude::*;

use super::error::{
    auth_outcome, invalid_input, unauthorized, AuthError, AuthFault,
};
use super::inputs::{
    normalize_api_token_source, normalize_username, timestamp_after, token_prefix, token_source,
    username,
};
use super::password::{
    option_bytes, short_password_fault, validate_password, verification, verify_password,
};
use super::random::random_bytes;
use super::session::{
    copy_texts, Account, AuthAccount, AuthResult, CurrentSession, LoginInput, Session,
    SessionTokens,
};
use super::session_store::{SessionSnapshot, Snapshot};
use super::token::{hash_token, token_from, token_hash, token_of, TOKEN_BYTES};
use crate::decimal::{integer_text, signed_decimal};
use crate::digest::base64_url;
use crate::pieces::{cut_to, option_text};
use crate::text::{blank, is_blank, same_text, texts, trim, trimmed};

verus! {

pub const ACCESS_TTL_SECS: i64 = 2 * 60 * 60;

pub const REFRESH_TTL_SECS: i64 = 14 * 24 * 60 * 60;

pub const MAX_FAILED_LOGIN_ATTEMPTS: i64 = 5;

pub const BOOTSTRAP_SUPER_ADMIN_USERNAME: &'static str = "admin";

/// Why an account was locked after too many failures.
pub const AUTOMATIC_LOCK_REASON: &'static str = "连续登录失败自动锁定";

/// An entry of the audit log.
#[derive(Clone, Debug)]
pub struct AuditRecord {
    pub actor_account_id: Option<i64>,
    pub actor_username: String,
    pub action: String,
    pub target_type: String,
    pub target_id: String,
    pub message: String,
    pub ip: String,
    pub user_agent: String,
}

/// An entry of the audit log as a mathematical value.
pub struct Audit {
    pub actor_id: Option<i64>,
    pub actor: Seq<char>,
    pub action: Seq<char>,
    pub target_type: Seq<char>,
    pub target_id: Seq<char>,
    pub message: Seq<char>,
    pub ip: Seq<char>,
    pub user_agent: Seq<char>,
}

impl View for AuditRecord {
    type V = Audit;

    open spec fn view(&self) -> Audit {
        Audit {
            actor_id: self.actor_account_id,
            actor: self.actor_username@,
            action: self.action@,
            target_type: self.target_type@,
            target_id: self.target_id@,
            message: self.message@,
            ip: self.ip@,
            user_agent: self.user_agent@,
        }
    }
}

pub(crate) fn audit(
    actor_id: Option<i64>,
    actor: &str,
    action: &str,
    target_type: &str,
    target_id: String,
    message: String,
    ip: &str,
    user_agent: &str,
) -> (record: AuditRecord)
    ensures
        record@ == (Audit {
            actor_id,
            actor: actor@,
            action: action@,
            target_type: target_type@,
            target_id: target_id@,
            message: message@,
            ip: ip@,
            user_agent: user_agent@,
        }),
{
    AuditRecord {
        actor_account_id: actor_id,
        actor_username: actor.to_owned(),
        action: action.to_owned(),
        target_type: target_type.to_owned(),
        target_id,
        message,
        ip: ip.to_owned(),
        user_agent: user_agent.to_owned(),
    }
}

/// An entry about an account, by the account itself.
pub open spec fn own_audit(
    account: Account,
    action: Seq<char>,
    message: Seq<char>,
    ip: Seq<char>,
    user_agent: Seq<char>,
) -> Audit {
    Audit {
        actor_id: Some(account.id),
        actor: account.username,
        action,
        target_type: "account"@,
        target_id: signed_decimal(account.id as int),
        message,
        ip,
        user_agent,
    }
}

fn own_record(account: &AuthAccount, action: &str, message: String, ip: &str, user_agent: &str) -> (
    record: AuditRecord)
    ensures
        record@ == own_audit(account@, action@, message@, ip@, user_agent@),
{
    audit(
        Some(account.id),
        account.username.as_str(),
        action,
        "account",
        integer_text(account.id),
        message,
        ip,
        user_agent,
    )
}

// ---------------------------------------------------------------------------
// The first account
// ---------------------------------------------------------------------------

/// Whether the platform has no account yet.
pub fn bootstrap_required(account_count: i64) -> (required: bool)
    ensures
        required == (account_count == 0),
{
    account_count == 0
}

/// The name under which the first administrator is shown, where there can be one.
pub open spec fn bootstrap_name(
    password: Seq<char>,
    display_name: Option<Seq<char>>,
    account_count: i64,
) -> Result<Seq<char>, AuthFault> {
    if password.len() < 8 {
        Err(short_password_fault())
    } else if account_count != 0 {
        Err(AuthFault::Conflict("平台管理员已经初始化"@))
    } else {
        Ok(
            match display_name {
                Some(name) => if is_blank(name) {
                    BOOTSTRAP_SUPER_ADMIN_USERNAME@
                } else {
                    trimmed(name)
                },
                None => BOOTSTRAP_SUPER_ADMIN_USERNAME@,
            },
        )
    }
}

/// Admits the creation of the first account, and says how it is shown.
pub fn begin_bootstrap(input: &LoginInput, account_count: i64) -> (result: Result<
    String,
    AuthError,
>)
    ensures
        auth_outcome(result) == bootstrap_name(
            input.password@,
            option_text(input.display_name),
            account_count,
        ),
{
    match validate_password(input.password.as_str()) {
        Ok(_) => {},
        Err(error) => return Err(error),
    }
    if !bootstrap_required(account_count) {
        return Err(AuthError::Conflict("平台管理员已经初始化".to_owned()));
    }
    match &input.display_name {
        Some(name) => {
            let shown = trim(name.as_str());
            if shown.as_str().is_empty() {
                Ok(BOOTSTRAP_SUPER_ADMIN_USERNAME.to_owned())
            } else {
                Ok(shown)
            }
        },
        None => Ok(BOOTSTRAP_SUPER_ADMIN_USERNAME.to_owned()),
    }
}

/// The entry that records the creation of the first account.
pub fn bootstrap_audit(account_id: i64, ip: &str, user_agent: &str) -> (record: AuditRecord)
    ensures
        record@ == (Audit {
            actor_id: Some(account_id),
            actor: BOOTSTRAP_SUPER_ADMIN_USERNAME@,
            action: "auth.bootstrap"@,
            target_type: "account"@,
            target_id: signed_decimal(account_id as int),
            message: "初始化超级管理员"@,
            ip: ip@,
            user_agent: user_agent@,
        }),
{
    audit(
        Some(account_id),
        BOOTSTRAP_SUPER_ADMIN_USERNAME,
        "auth.bootstrap",
        "account",
        integer_text(account_id),
        "初始化超级管理员".to_owned(),
        ip,
        user_agent,
    )
}

// ---------------------------------------------------------------------------
// Signing in
// ---------------------------------------------------------------------------

/// The name that is looked up for someone who signs in.
pub open spec fn login_name(name: Seq<char>, password: Seq<char>) -> Result<Seq<char>, AuthFault> {
    match username(name) {
        Err(fault) => Err(fault),
        Ok(accepted) => if is_blank(password) {
            Err(AuthFault::InvalidInput("请输入密码"@))
        } else {
            Ok(accepted)
        },
    }
}

/// Accepts the form of a request to sign in, and says for which account it is.
pub fn begin_login(input: &LoginInput) -> (result: Result<String, AuthError>)
    ensures
        auth_outcome(result) == login_name(input.username@, input.password@),
{
    let name = match normalize_username(input.username.as_str()) {
        Ok(name) => name,
        Err(error) => return Err(error),
    };
    if blank(input.password.as_str()) {
        return Err(invalid_input("请输入密码"));
    }
    Ok(name)
}

/// What a store knows of the account that someone wants to sign in to.
#[derive(Debug)]
pub struct LoginRecord {
    pub account: AuthAccount,
    pub password_hash: String,
    pub failed_login_attempts: i64,
}

/// What is decided about a request to sign in.
#[derive(Debug)]
pub enum LoginDecision {
    /// The request is refused, and nothing but an entry of the audit log remains of it.
    Refuse { audit: AuditRecord, error: AuthError },
    /// The password was wrong: the failures are counted, and too many of them lock the account
    /// and end its sessions.
    Fail {
        account_id: i64,
        failed_attempts: i64,
        locked: bool,
        /// Why the account is locked, where it is.
        lock_reason: Option<&'static str>,
        audit: AuditRecord,
        error: AuthError,
    },
    /// The request is granted.
    Accept(AuthAccount),
}

/// A decision as a mathematical value.
pub enum Decision {
    Refuse(Audit, AuthFault),
    Fail {
        account_id: i64,
        attempts: i64,
        locked: bool,
        lock_reason: Option<Seq<char>>,
        audit: Audit,
        fault: AuthFault,
    },
    Accept(Account),
}

impl View for LoginDecision {
    type V = Decision;

    open spec fn view(&self) -> Decision {
        match self {
            LoginDecision::Refuse { audit, error } => Decision::Refuse(audit@, error@),
            LoginDecision::Fail {
                account_id,
                failed_attempts,
                locked,
                lock_reason,
                audit,
                error,
            } => Decision::Fail {
                account_id: *account_id,
                attempts: *failed_attempts,
                locked: *locked,
                lock_reason: match lock_reason {
                    Some(reason) => Some(reason@),
                    None => None,
                },
                audit: audit@,
                fault: error@,
            },
            LoginDecision::Accept(account) => Decision::Accept(account@),
        }
    }
}

/// The number of failures after one more.
pub open spec fn one_more(attempts: i64) -> i64 {
    if attempts < i64::MAX {
        (attempts + 1) as i64
    } else {
        attempts
    }
}

pub open spec fn wrong_credentials() -> AuthFault {
    AuthFault::Unauthorized("用户名或密码错误"@)
}

/// What is said to an account that is not active.
pub open spec fn inactive_message(status: Seq<char>) -> Seq<char> {
    if status == "locked"@ {
        "账号已锁定"@
    } else {
        "账号未启用"@
    }
}

/// What is decided for an account, given whether the password belongs to it.
pub open spec fn judged(
    account: Account,
    failures: i64,
    belongs: bool,
    ip: Seq<char>,
    user_agent: Seq<char>,
) -> Decision {
    if account.status != "active"@ {
        Decision::Refuse(
            own_audit(
                account,
                "auth.login_failed"@,
                inactive_message(account.status),
                ip,
                user_agent,
            ),
            AuthFault::Forbidden(inactive_message(account.status)),
        )
    } else if !belongs {
        let attempts = one_more(failures);
        let locked = attempts >= MAX_FAILED_LOGIN_ATTEMPTS;
        Decision::Fail {
            account_id: account.id,
            attempts,
            locked,
            lock_reason: if locked {
                Some(AUTOMATIC_LOCK_REASON@)
            } else {
                None
            },
            audit: own_audit(
                account,
                "auth.login_failed"@,
                (if locked {
                    "密码错误，账号已锁定（连续失败 "@
                } else {
                    "密码错误（连续失败 "@
                }) + signed_decimal(attempts as int) + " 次）"@,
                ip,
                user_agent,
            ),
            fault: wrong_credentials(),
        }
    } else {
        Decision::Accept(account)
    }
}

/// What is decided where no account has the name.
pub open spec fn nobody(name: Seq<char>, ip: Seq<char>, user_agent: Seq<char>) -> Decision {
    Decision::Refuse(
        Audit {
            actor_id: None,
            actor: name,
            action: "auth.login_failed"@,
            target_type: "account"@,
            target_id: Seq::empty(),
            message: "账号不存在"@,
            ip,
            user_agent,
        },
        wrong_credentials(),
    )
}

/// Decides about a request to sign in, given whether the password belongs to the account.
pub fn judge_login(record: LoginRecord, belongs: bool, ip: &str, user_agent: &str) -> (decision:
    LoginDecision)
    ensures
        decision@ == judged(
            record.account@,
            record.failed_login_attempts,
            belongs,
            ip@,
            user_agent@,
        ),
{
    let account = record.account;
    if !same_text(account.status.as_str(), "active") {
        let message = if same_text(account.status.as_str(), "locked") {
            "账号已锁定"
        } else {
            "账号未启用"
        };
        return LoginDecision::Refuse {
            audit: own_record(
                &account,
                "auth.login_failed",
                message.to_owned(),
                ip,
                user_agent,
            ),
            error: AuthError::Forbidden(message.to_owned()),
        };
    }
    if !belongs {
        let failed_attempts: i64 = if record.failed_login_attempts < i64::MAX {
            record.failed_login_attempts + 1
        } else {
            record.failed_login_attempts
        };
        let locked = failed_attempts >= MAX_FAILED_LOGIN_ATTEMPTS;
        let start = if locked {
            "密码错误，账号已锁定（连续失败 "
        } else {
            "密码错误（连续失败 "
        };
        let message = start.to_owned().concat(integer_text(failed_attempts).as_str()).concat(
            " 次）",
        );
        return LoginDecision::Fail {
            account_id: account.id,
            failed_attempts,
            locked,
            lock_reason: if locked {
                Some(AUTOMATIC_LOCK_REASON)
            } else {
                None
            },
            audit: own_record(&account, "auth.login_failed", message, ip, user_agent),
            error: unauthorized("用户名或密码错误"),
        };
    }
    LoginDecision::Accept(account)
}

/// Decides about a request to sign in to the account of the given name. The password is verified
/// only where the account is active.
pub fn decide_login(name: &str, input: &LoginInput, record: Option<LoginRecord>) -> (result: Result<
    LoginDecision,
    AuthError,
>)
    ensures
        match record {
            None => result is Ok && result->Ok_0@ == nobody(
                name@,
                input.client_ip@,
                input.user_agent@,
            ),
            Some(known) => {
                let verified = verification(input.password@, known.password_hash@);
                if known.account@.status == "active"@ && verified is Err {
                    result is Err && result->Err_0@ == verified->Err_0
                } else {
                    result is Ok && result->Ok_0@ == judged(
                        known.account@,
                        known.failed_login_attempts,
                        verified == Ok::<bool, AuthFault>(true),
                        input.client_ip@,
                        input.user_agent@,
                    )
                }
            },
        },
{
    let ip = input.client_ip.as_str();
    let user_agent = input.user_agent.as_str();
    match record {
        None => {
            let nothing = String::new();
            assert(nothing@ =~= Seq::<char>::empty());
            Ok(
                LoginDecision::Refuse {
                    audit: audit(
                        None,
                        name,
                        "auth.login_failed",
                        "account",
                        nothing,
                        "账号不存在".to_owned(),
                        ip,
                        user_agent,
                    ),
                    error: unauthorized("用户名或密码错误"),
                },
            )
        },
        Some(known) => {
            if !same_text(known.account.status.as_str(), "active") {
                return Ok(judge_login(known, false, ip, user_agent));
            }
            match verify_password(input.password.as_str(), known.password_hash.as_str()) {
                Ok(belongs) => Ok(judge_login(known, belongs, ip, user_agent)),
                Err(error) => Err(error),
            }
        },
    }
}

/// The entry that records that someone has signed in.
pub fn login_audit(account: &AuthAccount, ip: &str, user_agent: &str) -> (record: AuditRecord)
    ensures
        record@ == own_audit(account@, "auth.login"@, "登录成功"@, ip@, user_agent@),
{
    own_record(account, "auth.login", "登录成功".to_owned(), ip, user_agent)
}

/// The entry that records that someone has signed out.
pub fn logout_audit(session: &CurrentSession) -> (record: AuditRecord)
    ensures
        record@ == own_audit(
            session@.account,
            "auth.logout"@,
            "退出登录"@,
            Seq::empty(),
            Seq::empty(),
        ),
{
    let nothing = String::new();
    assert(nothing@ =~= Seq::<char>::empty());
    own_record(
        &session.account,
        "auth.logout",
        "退出登录".to_owned(),
        nothing.as_str(),
        nothing.as_str(),
    )
}

// ---------------------------------------------------------------------------
// Sessions
// ---------------------------------------------------------------------------

/// The tokens of a new session, and the hashes by which they are kept.
#[derive(Debug)]
pub struct NewTokens {
    pub access_token: String,
    pub refresh_token: String,
    pub csrf_token: String,
    pub access_hash: String,
    pub refresh_hash: String,
}

/// The tokens of a new session as mathematical values.
pub struct Tokens {
    pub access_token: Seq<char>,
    pub refresh_token: Seq<char>,
    pub csrf_token: Seq<char>,
    pub access_hash: Seq<char>,
    pub refresh_hash: Seq<char>,
}

impl View for NewTokens {
    type V = Tokens;

    open spec fn view(&self) -> Tokens {
        Tokens {
            access_token: self.access_token@,
            refresh_token: self.refresh_token@,
            csrf_token: self.csrf_token@,
            access_hash: self.access_hash@,
            refresh_hash: self.refresh_hash@,
        }
    }
}

/// The text is a token that was made of as many random bytes as a token takes.
pub open spec fn is_token(text: Seq<char>) -> bool {
    exists|bytes: Seq<u8>| bytes.len() == TOKEN_BYTES && text == #[trigger] base64_url(bytes)
}

/// Random bytes that were drawn for a token: nothing, or as many as a token takes.
pub open spec fn is_draw(bytes: Option<Seq<u8>>) -> bool {
    bytes is Some ==> bytes->0.len() == TOKEN_BYTES
}

/// The tokens of a new session, given the random bytes that were drawn for each of them.
pub open spec fn tokens_from(
    access: Option<Seq<u8>>,
    refresh: Option<Seq<u8>>,
    csrf: Option<Seq<u8>>,
) -> Result<Tokens, AuthFault> {
    match (access, refresh, csrf) {
        (Some(access_bytes), Some(refresh_bytes), Some(csrf_bytes)) => Ok(
            Tokens {
                access_token: base64_url(access_bytes),
                refresh_token: base64_url(refresh_bytes),
                csrf_token: base64_url(csrf_bytes),
                access_hash: token_hash(base64_url(access_bytes)),
                refresh_hash: token_hash(base64_url(refresh_bytes)),
            },
        ),
        _ => Err(AuthFault::Internal("生成登录凭证失败"@)),
    }
}

/// The outcome of making the tokens of a session as a mathematical value.
pub open spec fn tokens_outcome(result: Result<NewTokens, AuthError>) -> Result<
    Tokens,
    AuthFault,
> {
    match result {
        Ok(tokens) => Ok(tokens@),
        Err(error) => Err(error@),
    }
}

/// Makes the tokens of a new session from the random bytes that were drawn for each of them.
pub fn tokens_of(
    access: Option<Vec<u8>>,
    refresh: Option<Vec<u8>>,
    csrf: Option<Vec<u8>>,
) -> (result: Result<NewTokens, AuthError>)
    ensures
        tokens_outcome(result) == tokens_from(
            option_bytes(access),
            option_bytes(refresh),
            option_bytes(csrf),
        ),
{
    let access_token = match token_of(access) {
        Ok(token) => token,
        Err(error) => return Err(error),
    };
    let refresh_token = match token_of(refresh) {
        Ok(token) => token,
        Err(error) => return Err(error),
    };
    let csrf_token = match token_of(csrf) {
        Ok(token) => token,
        Err(error) => return Err(error),
    };
    let access_hash = hash_token(access_token.as_str());
    let refresh_hash = hash_token(refresh_token.as_str());
    Ok(NewTokens { access_token, refresh_token, csrf_token, access_hash, refresh_hash })
}

/// Makes the tokens of a new session, each from random bytes of its own. It fails only where no
/// random bytes can be had.
pub fn new_tokens() -> (result: Result<NewTokens, AuthError>)
    ensures
        exists|access: Option<Seq<u8>>, refresh: Option<Seq<u8>>, csrf: Option<Seq<u8>>|
            is_draw(access) && is_draw(refresh) && is_draw(csrf) && tokens_outcome(result)
                == #[trigger] tokens_from(access, refresh, csrf),
        match result {
            Ok(tokens) => {
                &&& is_token(tokens.access_token@)
                &&& is_token(tokens.refresh_token@)
                &&& is_token(tokens.csrf_token@)
                &&& tokens.access_hash@ == token_hash(tokens.access_token@)
                &&& tokens.refresh_hash@ == token_hash(tokens.refresh_token@)
            },
            Err(error) => error@ == AuthFault::Internal("生成登录凭证失败"@),
        },
{
    let access = random_bytes(TOKEN_BYTES);
    let refresh = random_bytes(TOKEN_BYTES);
    let csrf = random_bytes(TOKEN_BYTES);
    let ghost drawn = (option_bytes(access), option_bytes(refresh), option_bytes(csrf));
    let result = tokens_of(access, refresh, csrf);
    assert(tokens_outcome(result) == tokens_from(drawn.0, drawn.1, drawn.2));
    result
}

/// The snapshot of a new session.
pub open spec fn new_snapshot(
    session_id: i64,
    account: Account,
    role_codes: Seq<Seq<char>>,
    permission_keys: Seq<Seq<char>>,
    access_hash: Seq<char>,
    refresh_hash: Seq<char>,
    csrf_token: Seq<char>,
) -> Snapshot {
    Snapshot {
        session_id,
        account,
        role_codes,
        permission_keys,
        is_super_admin: account.is_super_admin,
        access_token_hash: access_hash,
        refresh_token_hash: refresh_hash,
        access_expires_at: "+"@ + signed_decimal(ACCESS_TTL_SECS as int) + "s"@,
        refresh_expires_at: "+"@ + signed_decimal(REFRESH_TTL_SECS as int) + "s"@,
        csrf_token,
    }
}

/// Puts together a new session, once a store has given it an identifier.
pub fn issue_session(
    session_id: i64,
    account: &AuthAccount,
    role_codes: &Vec<String>,
    permission_keys: &Vec<String>,
    tokens: NewTokens,
) -> (issued: (SessionSnapshot, AuthResult))
    ensures
        issued.0@ == new_snapshot(
            session_id,
            account@,
            texts(role_codes@),
            texts(permission_keys@),
            tokens.access_hash@,
            tokens.refresh_hash@,
            tokens.csrf_token@,
        ),
        issued.1.session@ == issued.0@.session(),
        issued.1.tokens.access_token@ == tokens.access_token@,
        issued.1.tokens.refresh_token@ == tokens.refresh_token@,
{
    let snapshot = SessionSnapshot {
        session_id,
        account: account.copy(),
        role_codes: copy_texts(role_codes),
        permission_keys: copy_texts(permission_keys),
        is_super_admin: account.is_super_admin,
        access_token_hash: tokens.access_hash,
        refresh_token_hash: tokens.refresh_hash,
        access_expires_at: timestamp_after(ACCESS_TTL_SECS),
        refresh_expires_at: timestamp_after(REFRESH_TTL_SECS),
        csrf_token: tokens.csrf_token,
    };
    let session = snapshot.current_session();
    (
        snapshot,
        AuthResult {
            session,
            tokens: SessionTokens {
                access_token: tokens.access_token,
                refresh_token: tokens.refresh_token,
            },
        },
    )
}

/// A session that is known is still signed in.
pub open spec fn is_signed_in(known: bool, active_sessions: i64) -> bool {
    known && active_sessions != 0
}

/// A session can be renewed: it was found, and so was its account, which is active.
pub open spec fn may_renew(found: bool, status: Option<Seq<char>>) -> bool {
    found && status == Some("active"@)
}

/// Accepts an access token by the session that was found for it and by whether the session is
/// still active; a session that is not has to be forgotten.
pub fn accept_session(snapshot: Option<&SessionSnapshot>, active_sessions: i64) -> (result: Result<
    CurrentSession,
    AuthError,
>)
    ensures
        match (snapshot, result) {
            (Some(found), Ok(session)) => active_sessions != 0 && session@ == found@.session(),
            (Some(_), Err(error)) => active_sessions == 0 && error@ == AuthFault::Unauthorized(
                "登录已过期，请重新登录"@,
            ),
            (None, Err(error)) => error@ == AuthFault::Unauthorized(
                "登录已过期，请重新登录"@,
            ),
            (None, Ok(_)) => false,
        },
        result is Ok <==> is_signed_in(snapshot is Some, active_sessions),
{
    match snapshot {
        Some(found) => {
            if active_sessions == 0 {
                Err(unauthorized("登录已过期，请重新登录"))
            } else {
                Ok(found.current_session())
            }
        },
        None => Err(unauthorized("登录已过期，请重新登录")),
    }
}

/// Accepts a refresh token by the account that was found for it.
pub fn accept_refresh(found: bool, account: Option<AuthAccount>) -> (result: Result<
    AuthAccount,
    AuthError,
>)
    ensures
        match result {
            Ok(accepted) => found && account is Some && accepted@ == account->0@
                && account->0@.status == "active"@,
            Err(error) => if found && account is Some {
                account->0@.status != "active"@ && error@ == AuthFault::Forbidden("账号未启用"@)
            } else {
                error@ == AuthFault::Unauthorized("登录续期失败，请重新登录"@)
            },
        },
        result is Ok <==> may_renew(
            found,
            match account {
                Some(known) => Some(known@.status),
                None => None,
            },
        ),
{
    if !found {
        return Err(unauthorized("登录续期失败，请重新登录"));
    }
    match account {
        Some(known) => {
            if !same_text(known.status.as_str(), "active") {
                return Err(AuthError::Forbidden("账号未启用".to_owned()));
            }
            Ok(known)
        },
        None => Err(unauthorized("登录续期失败，请重新登录")),
    }
}

// ---------------------------------------------------------------------------
// Tokens of the programming interface
// ---------------------------------------------------------------------------

/// A token that is about to be stored.
#[derive(Debug)]
pub struct NewApiToken {
    pub token: String,
    pub token_hash: String,
    pub token_prefix: String,
    pub source: String,
}

#[derive(Clone, Debug)]
pub struct CreatedApiToken {
    pub id: i64,
    pub token: String,
    pub token_prefix: String,
    pub source: String,
}

#[derive(Clone, Debug)]
pub struct ApiTokenAuthSession {
    pub session: CurrentSession,
    pub token_id: i64,
    pub source: String,
}

/// A token that is about to be stored, as a mathematical value.
pub struct ApiToken {
    pub token: Seq<char>,
    pub token_hash: Seq<char>,
    pub token_prefix: Seq<char>,
    pub source: Seq<char>,
}

impl View for NewApiToken {
    type V = ApiToken;

    open spec fn view(&self) -> ApiToken {
        ApiToken {
            token: self.token@,
            token_hash: self.token_hash@,
            token_prefix: self.token_prefix@,
            source: self.source@,
        }
    }
}

/// The token for a source, given the random bytes that were drawn for it.
pub open spec fn api_token_from(source: Seq<char>, bytes: Option<Seq<u8>>) -> Result<
    ApiToken,
    AuthFault,
> {
    match (token_source(source), token_from(bytes)) {
        (Err(fault), _) => Err(fault),
        (_, Err(fault)) => Err(fault),
        (Ok(accepted), Ok(token)) => Ok(
            ApiToken {
                token,
                token_hash: token_hash(token),
                token_prefix: cut_to(token, 10),
                source: accepted,
            },
        ),
    }
}

/// The outcome of making a token of the programming interface as a mathematical value.
pub open spec fn api_token_outcome(result: Result<NewApiToken, AuthError>) -> Result<
    ApiToken,
    AuthFault,
> {
    match result {
        Ok(made) => Ok(made@),
        Err(error) => Err(error@),
    }
}

/// Makes a token of the programming interface from the random bytes that were drawn for it.
pub fn api_token_of(source: &str, bytes: Option<Vec<u8>>) -> (result: Result<
    NewApiToken,
    AuthError,
>)
    ensures
        api_token_outcome(result) == api_token_from(source@, option_bytes(bytes)),
{
    let accepted = match normalize_api_token_source(source) {
        Ok(accepted) => accepted,
        Err(error) => return Err(error),
    };
    let token = match token_of(bytes) {
        Ok(token) => token,
        Err(error) => return Err(error),
    };
    let token_hash = hash_token(token.as_str());
    let prefix = token_prefix(token.as_str());
    Ok(NewApiToken { token, token_hash, token_prefix: prefix, source: accepted })
}

/// Makes a token of the programming interface from random bytes of its own.
pub fn new_api_token(source: &str) -> (result: Result<NewApiToken, AuthError>)
    ensures
        exists|bytes: Option<Seq<u8>>|
            is_draw(bytes) && api_token_outcome(result) == #[trigger] api_token_from(
                source@,
                bytes,
            ),
        match token_source(source@) {
            Err(fault) => result is Err && result->Err_0@ == fault,
            Ok(accepted) => match result {
                Ok(made) => {
                    &&& is_token(made.token@)
                    &&& made.token_hash@ == token_hash(made.token@)
                    &&& made.token_prefix@ == cut_to(made.token@, 10)
                    &&& made.source@ == accepted
                },
                Err(error) => error@ == AuthFault::Internal("生成登录凭证失败"@),
            },
        },
{
    let bytes = random_bytes(TOKEN_BYTES);
    let ghost drawn = option_bytes(bytes);
    let result = api_token_of(source, bytes);
    assert(api_token_outcome(result) == api_token_from(source@, drawn));
    result
}

/// An entry about a token of the programming interface.
pub open spec fn token_audit(
    actor: Account,
    verb: Seq<char>,
    action: Seq<char>,
    token_id: i64,
    source: Seq<char>,
    prefix: Seq<char>,
) -> Audit {
    Audit {
        actor_id: Some(actor.id),
        actor: actor.username,
        action,
        target_type: "api_token"@,
        target_id: signed_decimal(token_id as int),
        message: verb + " api token source="@ + source + " prefix="@ + prefix,
        ip: Seq::empty(),
        user_agent: Seq::empty(),
    }
}

fn token_record(
    actor: &CurrentSession,
    verb: &str,
    action: &str,
    token_id: i64,
    source: &str,
    prefix: &str,
) -> (record: AuditRecord)
    ensures
        record@ == token_audit(actor@.account, verb@, action@, token_id, source@, prefix@),
{
    let nothing = String::new();
    assert(nothing@ =~= Seq::<char>::empty());
    audit(
        Some(actor.account.id),
        actor.account.username.as_str(),
        action,
        "api_token",
        integer_text(token_id),
        verb.to_owned().concat(" api token source=").concat(source).concat(" prefix=").concat(
            prefix,
        ),
        nothing.as_str(),
        nothing.as_str(),
    )
}

/// What is answered once a token is stored, and the entry that records it.
pub fn finish_api_token(actor: &CurrentSession, token_id: i64, made: NewApiToken) -> (outcome: (
    CreatedApiToken,
    AuditRecord,
))
    ensures
        outcome.0.id == token_id,
        outcome.0.token@ == made.token@,
        outcome.0.token_prefix@ == made.token_prefix@,
        outcome.0.source@ == made.source@,
        outcome.1@ == token_audit(
            actor@.account,
            "create"@,
            "api_tokens.create"@,
            token_id,
            made.source@,
            made.token_prefix@,
        ),
{
    let record = token_record(
        actor,
        "create",
        "api_tokens.create",
        token_id,
        made.source.as_str(),
        made.token_prefix.as_str(),
    );
    (
        CreatedApiToken {
            id: token_id,
            token: made.token,
            token_prefix: made.token_prefix,
            source: made.source,
        },
        record,
    )
}

/// The entry that records that a token was revoked, where there was one to revoke.
pub fn finish_token_revocation(
    actor: &CurrentSession,
    token_id: i64,
    revoked: Option<(String, String)>,
) -> (result: Result<AuditRecord, AuthError>)
    ensures
        match (revoked, result) {
            (Some(token), Ok(record)) => record@ == token_audit(
                actor@.account,
                "revoke"@,
                "api_tokens.revoke"@,
                token_id,
                token.1@,
                token.0@,
            ),
            (None, Err(error)) => error@ == AuthFault::InvalidInput(
                "API Token 不存在或已吊销"@,
            ),
            _ => false,
        },
{
    match revoked {
        Some(token) => Ok(
            token_record(
                actor,
                "revoke",
                "api_tokens.revoke",
                token_id,
                token.1.as_str(),
                token.0.as_str(),
            ),
        ),
        None => Err(invalid_input("API Token 不存在或已吊销")),
    }
}

/// What a store knows of a token of the programming interface that is active, as its account is.
#[derive(Debug)]
pub struct ApiTokenRecord {
    pub token_id: i64,
    pub source: String,
    pub account: AuthAccount,
}

/// The session of someone who uses a token of the programming interface.
pub open spec fn api_session(
    token_id: i64,
    source: Seq<char>,
    account: Account,
    role_codes: Seq<Seq<char>>,
    permission_keys: Seq<Seq<char>>,
) -> Session {
    Session {
        session_id: 0,
        account,
        role_codes,
        permission_keys,
        is_super_admin: account.is_super_admin,
        csrf_token: Seq::empty(),
        access_token_hash: "api:"@ + signed_decimal(token_id as int) + ":"@ + source,
    }
}

/// Accepts a token of the programming interface by what was found for it.
pub fn accept_api_token(
    record: Option<ApiTokenRecord>,
    role_codes: Vec<String>,
    permission_keys: Vec<String>,
) -> (result: Result<ApiTokenAuthSession, AuthError>)
    ensures
        match (record, result) {
            (Some(known), Ok(accepted)) => {
                &&& accepted.token_id == known.token_id
                &&& accepted.source@ == known.source@
                &&& accepted.session@ == api_session(
                    known.token_id,
                    known.source@,
                    known.account@,
                    texts(role_codes@),
                    texts(permission_keys@),
                )
            },
            (None, Err(error)) => error@ == AuthFault::Unauthorized(
                "API Token 无效或已吊销"@,
            ),
            _ => false,
        },
{
    match record {
        Some(known) => {
            let marker = "api:".to_owned().concat(integer_text(known.token_id).as_str()).concat(
                ":",
            ).concat(known.source.as_str());
            let nothing = String::new();
            assert(nothing@ =~= Seq::<char>::empty());
            Ok(
                ApiTokenAuthSession {
                    session: CurrentSession {
                        session_id: 0,
                        is_super_admin: known.account.is_super_admin,
                        account: known.account,
                        role_codes,
                        permission_keys,
                        csrf_token: nothing,
                        access_token_hash: marker,
                    },
                    token_id: known.token_id,
                    source: known.source,
                },
            )
        },
        None => Err(unauthorized("API Token 无效或已吊销")),
    }
}

// ---------------------------------------------------------------------------
// Laws
// ---------------------------------------------------------------------------

/// Someone is let in exactly when the account is active and the password belongs to it.
pub proof fn only_active_accounts_get_in(
    account: Account,
    failures: i64,
    belongs: bool,
    ip: Seq<char>,
    user_agent: Seq<char>,
)
    ensures
        judged(account, failures, belongs, ip, user_agent) is Accept <==> account.status
            == "active"@ && belongs,
{
}

/// The fifth failure in a row locks an account, and no earlier one does.
pub proof fn failures_lock_accounts(
    account: Account,
    failures: i64,
    ip: Seq<char>,
    user_agent: Seq<char>,
)
    requires
        account.status == "active"@,
        0 <= failures < i64::MAX,
    ensures
        match judged(account, failures, false, ip, user_agent) {
            Decision::Fail { attempts, locked, .. } => attempts == failures + 1 && (locked
                <==> failures + 1 >= 5),
            _ => false,
        },
{
}

/// Who signs in to an account that does not exist hears the same as who gives a wrong password.
pub proof fn refusals_do_not_tell_names_apart(
    account: Account,
    failures: i64,
    name: Seq<char>,
    ip: Seq<char>,
    user_agent: Seq<char>,
)
    requires
        account.status == "active"@,
    ensures
        judged(account, failures, false, ip, user_agent)->fault == nobody(
            name,
            ip,
            user_agent,
        )->Refuse_1,
{
}

/// Who is refused is told why: a locked account that it is locked, another that it is not enabled.
/// The audit log is told whose account it was.
pub proof fn refusals_say_why(
    account: Account,
    failures: i64,
    belongs: bool,
    ip: Seq<char>,
    user_agent: Seq<char>,
)
    requires
        account.status != "active"@,
    ensures
        match judged(account, failures, belongs, ip, user_agent) {
            Decision::Refuse(audit, fault) => {
                &&& fault == AuthFault::Forbidden(audit.message)
                &&& audit.message == if account.status == "locked"@ {
                    "账号已锁定"@
                } else {
                    "账号未启用"@
                }
                &&& audit.actor_id == Some(account.id)
                &&& audit.actor == account.username
                &&& audit.action == "auth.login_failed"@
                &&& audit.target_type == "account"@
                &&& audit.target_id == signed_decimal(account.id as int)
                &&& audit.ip == ip
                &&& audit.user_agent == user_agent
            },
            _ => false,
        },
{
}

/// A wrong password is counted for the account, the account is locked from the fifth time on, with
/// a reason, and the audit log is told how often it has happened.
pub proof fn wrong_passwords_are_counted(
    account: Account,
    failures: i64,
    ip: Seq<char>,
    user_agent: Seq<char>,
)
    requires
        account.status == "active"@,
        failures < i64::MAX,
    ensures
        match judged(account, failures, false, ip, user_agent) {
            Decision::Fail { account_id, attempts, locked, lock_reason, audit, fault } => {
                &&& account_id == account.id
                &&& attempts == failures + 1
                &&& locked <==> failures >= 4
                &&& locked <==> lock_reason is Some
                &&& audit.actor_id == Some(account.id)
                &&& audit.target_id == signed_decimal(account.id as int)
                &&& audit.action == "auth.login_failed"@
                &&& audit.message == (if failures >= 4 {
                    "密码错误，账号已锁定（连续失败 "@
                } else {
                    "密码错误（连续失败 "@
                }) + signed_decimal(failures + 1) + " 次）"@
                &&& audit.ip == ip
                &&& audit.user_agent == user_agent
                &&& fault is Unauthorized
            },
            _ => false,
        },
{
}

/// Tokens are made from all three draws or not at all, each from its own, and the hashes are those
/// of their tokens.
pub proof fn tokens_come_with_their_hashes(
    access: Option<Seq<u8>>,
    refresh: Option<Seq<u8>>,
    csrf: Option<Seq<u8>>,
)
    ensures
        tokens_from(access, refresh, csrf) is Ok <==> access is Some && refresh is Some
            && csrf is Some,
        tokens_from(access, refresh, csrf) matches Ok(tokens) ==> {
            &&& tokens.access_token == base64_url(access->0)
            &&& tokens.refresh_token == base64_url(refresh->0)
            &&& tokens.csrf_token == base64_url(csrf->0)
            &&& tokens.access_hash == token_hash(tokens.access_token)
            &&& tokens.refresh_hash == token_hash(tokens.refresh_token)
        },
{
}

/// A new session belongs to its account, is found by the hashes of its tokens, and lasts for two
/// hours, or two weeks if it is renewed.
pub proof fn sessions_last_two_hours_or_two_weeks(
    session_id: i64,
    account: Account,
    role_codes: Seq<Seq<char>>,
    permission_keys: Seq<Seq<char>>,
    access_hash: Seq<char>,
    refresh_hash: Seq<char>,
    csrf_token: Seq<char>,
)
    ensures
        ({
            let session = new_snapshot(
                session_id,
                account,
                role_codes,
                permission_keys,
                access_hash,
                refresh_hash,
                csrf_token,
            );
            &&& session.session_id == session_id
            &&& session.account == account
            &&& session.role_codes == role_codes
            &&& session.permission_keys == permission_keys
            &&& session.is_super_admin == account.is_super_admin
            &&& session.access_token_hash == access_hash
            &&& session.refresh_token_hash == refresh_hash
            &&& session.csrf_token == csrf_token
            &&& session.access_expires_at == "+7200s"@
            &&& session.refresh_expires_at == "+1209600s"@
        }),
{
    reveal_strlit("+");
    reveal_strlit("s");
    reveal_strlit("+7200s");
    reveal_strlit("+1209600s");
    assert(ACCESS_TTL_SECS == 7200);
    assert(REFRESH_TTL_SECS == 1209600);
    reveal_with_fuel(crate::decimal::decimal, 8);
    assert(signed_decimal(7200) =~= seq!['7', '2', '0', '0']);
    assert(signed_decimal(1209600) =~= seq!['1', '2', '0', '9', '6', '0', '0']);
    assert("+"@ + signed_decimal(7200) + "s"@ =~= "+7200s"@);
    assert("+"@ + signed_decimal(1209600) + "s"@ =~= "+1209600s"@);
}

/// A token for programs is made exactly if its source is accepted and there is a draw for it. It is
/// recognised by its first ten characters and by its hash.
pub proof fn api_tokens_are_recognised(source: Seq<char>, bytes: Option<Seq<u8>>)
    ensures
        api_token_from(source, bytes) is Ok <==> token_source(source) is Ok && bytes is Some,
        api_token_from(source, bytes) matches Ok(made) ==> {
            &&& made.token == base64_url(bytes->0)
            &&& made.token_hash == token_hash(made.token)
            &&& made.token_prefix.len() <= 10
            &&& made.token.len() >= 10 ==> made.token_prefix == made.token.subrange(0, 10)
            &&& made.token.len() < 10 ==> made.token_prefix == made.token
            &&& made.source == token_source(source)->Ok_0
        },
{
    if api_token_from(source, bytes) is Ok {
        let token = base64_url(bytes->0);
        if token.len() >= 10 {
            assert(cut_to(token, 10) =~= token.subrange(0, 10));
        }
    }
}

/// Sessions of tokens for programs are told from each other by token and source, and have the rights
/// of the account.
pub proof fn api_sessions_have_the_rights_of_the_account(
    token_id: i64,
    source: Seq<char>,
    account: Account,
    role_codes: Seq<Seq<char>>,
    permission_keys: Seq<Seq<char>>,
)
    ensures
        ({
            let session = api_session(token_id, source, account, role_codes, permission_keys);
            &&& session.session_id == 0
            &&& session.account == account
            &&& session.is_super_admin == account.is_super_admin
            &&& session.role_codes == role_codes
            &&& session.permission_keys == permission_keys
            &&& session.csrf_token.len() == 0
            &&& session.access_token_hash == seq!['a', 'p', 'i', ':'] + signed_decimal(
                token_id as int,
            ) + seq![':'] + source
        }),
{
    reveal_strlit("api:");
    reveal_strlit(":");
    assert("api:"@ =~= seq!['a', 'p', 'i', ':']);
    assert(":"@ =~= seq![':']);
}

/// The platform is set up once: only while there is no account, and with a password of eight
/// characters or more. The administrator is called `admin` unless they say otherwise.
pub proof fn the_platform_is_set_up_once(
    password: Seq<char>,
    display_name: Option<Seq<char>>,
    account_count: i64,
)
    ensures
        bootstrap_name(password, display_name, account_count) is Ok <==> password.len() >= 8
            && account_count == 0,
        bootstrap_name(password, display_name, account_count) matches Ok(name) ==> name
            == if display_name is Some && trimmed(display_name->0).len() > 0 {
            trimmed(display_name->0)
        } else {
            "admin"@
        },
        password.len() >= 8 && account_count != 0 ==> bootstrap_name(
            password,
            display_name,
            account_count,
        )->Err_0 is Conflict,
{
}

/// Signing in needs a name that is accepted and a password that is not blank.
pub proof fn signing_in_needs_name_and_password(name: Seq<char>, password: Seq<char>)
    ensures
        login_name(name, password) is Ok <==> username(name) is Ok && trimmed(password).len() > 0,
        login_name(name, password) is Ok ==> login_name(name, password) == username(name),
{
}

/// A session is accepted while it is known and active, and renewed while it is known and its account
/// is active.
pub proof fn sessions_end_with_their_accounts(active_sessions: i64, status: Seq<char>)
    ensures
        is_signed_in(true, active_sessions) <==> active_sessions != 0,
        !is_signed_in(false, active_sessions),
        may_renew(true, Some(status)) <==> status == "active"@,
        !may_renew(false, Some(status)),
        !may_renew(true, None),
{
}

/// Tokens are drawn from 32 random bytes.
pub proof fn tokens_are_drawn_from_32_bytes(bytes: Seq<u8>)
    ensures
        is_draw(Some(bytes)) <==> bytes.len() == 32,
        is_draw(None),
        bytes.len() == 32 ==> is_token(base64_url(bytes)),
{
}

/// What the audit log is told of a token for programs: who made or revoked it, which one it is, where
/// it comes from and how it begins.
pub proof fn acts_on_tokens_are_recorded(
    actor: Account,
    verb: Seq<char>,
    action: Seq<char>,
    token_id: i64,
    source: Seq<char>,
    prefix: Seq<char>,
)
    ensures
        ({
            let record = token_audit(actor, verb, action, token_id, source, prefix);
            &&& record.actor_id == Some(actor.id)
            &&& record.actor == actor.username
            &&& record.action == action
            &&& record.target_type == "api_token"@
            &&& record.target_id == signed_decimal(token_id as int)
            &&& record.message == verb + " api token source="@ + source + " prefix="@ + prefix
        }),
{
}

/// Who signs in under a name that is not known is refused as with a wrong password, and the audit
/// log is told the name.
pub proof fn unknown_names_are_refused(name: Seq<char>, ip: Seq<char>, user_agent: Seq<char>)
    ensures
        match nobody(name, ip, user_agent) {
            Decision::Refuse(audit, fault) => {
                &&& fault is Unauthorized
                &&& audit.actor_id is None
                &&& audit.actor == name
                &&& audit.action == "auth.login_failed"@
                &&& audit.target_type == "account"@
                &&& audit.target_id.len() == 0
                &&& audit.message == "账号不存在"@
                &&& audit.ip == ip
                &&& audit.user_agent == user_agent
            },
            _ => false,
        },
{
}

} // verus!
