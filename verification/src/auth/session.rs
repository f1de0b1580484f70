//! Accounts that are signed in.

use vstd::prelude::*;

use crate::text::{blank, is_blank, lemma_texts_push, same_text, texts};

verus! {

#[derive(Clone, Debug)]
pub struct AuthAccount {
    pub id: i64,
    pub username: String,
    pub display_name: String,
    pub status: String,
    pub is_super_admin: bool,
}

/// An account as a mathematical value.
pub struct Account {
    pub id: i64,
    pub username: Seq<char>,
    pub display_name: Seq<char>,
    pub status: Seq<char>,
    pub is_super_admin: bool,
}

impl View for AuthAccount {
    type V = Account;

    open spec fn view(&self) -> Account {
        Account {
            id: self.id,
            username: self.username@,
            display_name: self.display_name@,
            status: self.status@,
            is_super_admin: self.is_super_admin,
        }
    }
}

impl AuthAccount {
    pub fn copy(&self) -> (account: AuthAccount)
        ensures
            account@ == self@,
    {
        AuthAccount {
            id: self.id,
            username: self.username.clone(),
            display_name: self.display_name.clone(),
            status: self.status.clone(),
            is_super_admin: self.is_super_admin,
        }
    }
}

pub fn copy_texts(items: &Vec<String>) -> (copy: Vec<String>)
    ensures
        texts(copy@) == texts(items@),
{
    let mut copy: Vec<String> = Vec::new();
    let mut i: usize = 0;
    assert(texts(copy@) =~= texts(items@).take(0));
    while i < items.len()
        invariant
            i <= items@.len(),
            texts(copy@) == texts(items@).take(i as int),
        decreases items@.len() - i,
    {
        proof {
            lemma_texts_push(copy@, items@[i as int]);
        }
        copy.push(items[i].clone());
        i = i + 1;
        assert(texts(copy@) =~= texts(items@).take(i as int));
    }
    assert(texts(items@).take(i as int) =~= texts(items@));
    copy
}

#[derive(Clone, Debug)]
pub struct CurrentSession {
    pub session_id: i64,
    pub account: AuthAccount,
    pub role_codes: Vec<String>,
    pub permission_keys: Vec<String>,
    pub is_super_admin: bool,
    pub csrf_token: String,
    pub access_token_hash: String,
}

/// A session as a mathematical value.
pub struct Session {
    pub session_id: i64,
    pub account: Account,
    pub role_codes: Seq<Seq<char>>,
    pub permission_keys: Seq<Seq<char>>,
    pub is_super_admin: bool,
    pub csrf_token: Seq<char>,
    pub access_token_hash: Seq<char>,
}

impl View for CurrentSession {
    type V = Session;

    open spec fn view(&self) -> Session {
        Session {
            session_id: self.session_id,
            account: self.account@,
            role_codes: texts(self.role_codes@),
            permission_keys: texts(self.permission_keys@),
            is_super_admin: self.is_super_admin,
            csrf_token: self.csrf_token@,
            access_token_hash: self.access_token_hash@,
        }
    }
}

impl Session {
    pub open spec fn shown_name(self) -> Seq<char> {
        if is_blank(self.account.display_name) {
            self.account.username
        } else {
            self.account.display_name
        }
    }

    /// A super administrator may do everything, anyone else what their roles permit.
    pub open spec fn may(self, permission: Seq<char>) -> bool {
        self.is_super_admin || self.permission_keys.contains(permission)
    }
}

impl CurrentSession {
    pub fn display_name(&self) -> (name: &str)
        ensures
            name@ == self@.shown_name(),
    {
        if blank(self.account.display_name.as_str()) {
            self.account.username.as_str()
        } else {
            self.account.display_name.as_str()
        }
    }

    pub fn can(&self, permission_key: &str) -> (allowed: bool)
        ensures
            allowed == self@.may(permission_key@),
    {
        if self.is_super_admin {
            return true;
        }
        let ghost keys = self@.permission_keys;
        let mut i: usize = 0;
        while i < self.permission_keys.len()
            invariant
                i <= self.permission_keys@.len(),
                keys == texts(self.permission_keys@),
                forall|k: int| 0 <= k < i ==> #[trigger] keys[k] != permission_key@,
            decreases self.permission_keys@.len() - i,
        {
            assert(keys[i as int] == self.permission_keys@[i as int]@);
            if same_text(self.permission_keys[i].as_str(), permission_key) {
                assert(keys[i as int] == permission_key@);
                return true;
            }
            i = i + 1;
        }
        false
    }
}

#[derive(Debug)]
pub struct LoginInput {
    pub username: String,
    pub password: String,
    pub display_name: Option<String>,
    pub client_ip: String,
    pub user_agent: String,
}

#[derive(Clone, Debug)]
pub struct SessionTokens {
    pub access_token: String,
    pub refresh_token: String,
}

#[derive(Clone, Debug)]
pub struct AuthResult {
    pub session: CurrentSession,
    pub tokens: SessionTokens,
}

/// Whatever a super administrator wants to do is permitted.
pub proof fn super_administrators_may_do_everything(session: Session, permission: Seq<char>)
    requires
        session.is_super_admin,
    ensures
        session.may(permission),
{
}

/// Whoever is no super administrator may do what is among their permissions, and nothing else.
pub proof fn others_may_do_what_they_are_permitted(session: Session, permission: Seq<char>)
    requires
        !session.is_super_admin,
    ensures
        session.may(permission) <==> exists|i: int|
            0 <= i < session.permission_keys.len() && #[trigger] session.permission_keys[i]
                == permission,
{
}

/// A session is shown under the name of its account that says something.
pub proof fn sessions_are_shown_under_a_name(session: Session)
    ensures
        crate::text::trimmed(session.account.display_name).len() == 0 ==> session.shown_name()
            == session.account.username,
        crate::text::trimmed(session.account.display_name).len() > 0 ==> session.shown_name()
            == session.account.display_name,
{
}

} // verus!
