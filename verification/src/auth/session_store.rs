//! Sessions that are kept in memory, found by the hashes of their tokens.

use vstd::prelude::*;

use super::session::{copy_texts, Account, AuthAccount, CurrentSession, Session};
use crate::text::{lemma_texts_push, same_text, texts};

verus! {

/// Everything that is known of a session.
#[derive(Clone, Debug)]
pub struct SessionSnapshot {
    pub session_id: i64,
    pub account: AuthAccount,
    pub role_codes: Vec<String>,
    pub permission_keys: Vec<String>,
    pub is_super_admin: bool,
    pub access_token_hash: String,
    pub refresh_token_hash: String,
    pub access_expires_at: String,
    pub refresh_expires_at: String,
    pub csrf_token: String,
}

/// A snapshot as a mathematical value.
pub struct Snapshot {
    pub session_id: i64,
    pub account: Account,
    pub role_codes: Seq<Seq<char>>,
    pub permission_keys: Seq<Seq<char>>,
    pub is_super_admin: bool,
    pub access_token_hash: Seq<char>,
    pub refresh_token_hash: Seq<char>,
    pub access_expires_at: Seq<char>,
    pub refresh_expires_at: Seq<char>,
    pub csrf_token: Seq<char>,
}

impl View for SessionSnapshot {
    type V = Snapshot;

    open spec fn view(&self) -> Snapshot {
        Snapshot {
            session_id: self.session_id,
            account: self.account@,
            role_codes: texts(self.role_codes@),
            permission_keys: texts(self.permission_keys@),
            is_super_admin: self.is_super_admin,
            access_token_hash: self.access_token_hash@,
            refresh_token_hash: self.refresh_token_hash@,
            access_expires_at: self.access_expires_at@,
            refresh_expires_at: self.refresh_expires_at@,
            csrf_token: self.csrf_token@,
        }
    }
}

impl Snapshot {
    /// The session without what is needed to renew it.
    pub open spec fn session(self) -> Session {
        Session {
            session_id: self.session_id,
            account: self.account,
            role_codes: self.role_codes,
            permission_keys: self.permission_keys,
            is_super_admin: self.is_super_admin,
            csrf_token: self.csrf_token,
            access_token_hash: self.access_token_hash,
        }
    }
}

impl SessionSnapshot {
    pub fn current_session(&self) -> (session: CurrentSession)
        ensures
            session@ == self@.session(),
    {
        CurrentSession {
            session_id: self.session_id,
            account: self.account.copy(),
            role_codes: copy_texts(&self.role_codes),
            permission_keys: copy_texts(&self.permission_keys),
            is_super_admin: self.is_super_admin,
            csrf_token: self.csrf_token.clone(),
            access_token_hash: self.access_token_hash.clone(),
        }
    }

    pub fn copy(&self) -> (snapshot: SessionSnapshot)
        ensures
            snapshot@ == self@,
    {
        SessionSnapshot {
            session_id: self.session_id,
            account: self.account.copy(),
            role_codes: copy_texts(&self.role_codes),
            permission_keys: copy_texts(&self.permission_keys),
            is_super_admin: self.is_super_admin,
            access_token_hash: self.access_token_hash.clone(),
            refresh_token_hash: self.refresh_token_hash.clone(),
            access_expires_at: self.access_expires_at.clone(),
            refresh_expires_at: self.refresh_expires_at.clone(),
            csrf_token: self.csrf_token.clone(),
        }
    }
}

// ---------------------------------------------------------------------------
// An index by text
// ---------------------------------------------------------------------------

/// Numbers that are found by a text; no text occurs twice.
struct TextIndex {
    entries: Vec<(String, i64)>,
}

/// The entry at the given position is the one for the text.
spec fn entry_at(entries: Seq<(String, i64)>, text: Seq<char>, at: int) -> bool {
    0 <= at < entries.len() && entries[at].0@ == text
}

impl TextIndex {
    spec fn wf(self) -> bool {
        forall|i: int, j: int|
            0 <= i < j < self.entries@.len() ==> self.entries@[i].0@ != self.entries@[j].0@
    }

    spec fn map(self) -> Map<Seq<char>, i64> {
        Map::new(
            |text: Seq<char>| exists|at: int| entry_at(self.entries@, text, at),
            |text: Seq<char>|
                self.entries@[choose|at: int| entry_at(self.entries@, text, at)].1,
        )
    }

    proof fn lemma_entry(self, at: int)
        requires
            self.wf(),
            0 <= at < self.entries@.len(),
        ensures
            self.map().contains_key(self.entries@[at].0@),
            self.map()[self.entries@[at].0@] == self.entries@[at].1,
    {
        let text = self.entries@[at].0@;
        assert(entry_at(self.entries@, text, at));
        let found = choose|k: int| entry_at(self.entries@, text, k);
        assert(entry_at(self.entries@, text, found));
        if found < at {
            assert(self.entries@[found].0@ != self.entries@[at].0@);
        } else if at < found {
            assert(self.entries@[at].0@ != self.entries@[found].0@);
        }
    }

    fn new() -> (index: TextIndex)
        ensures
            index.wf(),
            index.map() == Map::<Seq<char>, i64>::empty(),
    {
        let index = TextIndex { entries: Vec::new() };
        assert(index.map() =~= Map::<Seq<char>, i64>::empty());
        index
    }

    fn position(&self, text: &str) -> (at: usize)
        ensures
            at <= self.entries@.len(),
            at < self.entries@.len() ==> self.entries@[at as int].0@ == text@,
            at == self.entries@.len() ==> !self.map().contains_key(text@),
    {
        let mut at: usize = 0;
        while at < self.entries.len() && !same_text(self.entries[at].0.as_str(), text)
            invariant
                at <= self.entries@.len(),
                forall|k: int| 0 <= k < at ==> !#[trigger] entry_at(self.entries@, text@, k),
            decreases self.entries@.len() - at,
        {
            at = at + 1;
        }
        at
    }

    fn get(&self, text: &str) -> (number: Option<i64>)
        requires
            self.wf(),
        ensures
            number == (if self.map().contains_key(text@) {
                Some(self.map()[text@])
            } else {
                None
            }),
    {
        let at = self.position(text);
        if at < self.entries.len() {
            proof {
                self.lemma_entry(at as int);
            }
            Some(self.entries[at].1)
        } else {
            None
        }
    }

    fn remove(&mut self, text: &str)
        requires
            old(self).wf(),
        ensures
            final(self).wf(),
            final(self).map() == old(self).map().remove(text@),
    {
        let at = self.position(text);
        if at < self.entries.len() {
            let ghost before = *self;
            let _ = self.entries.remove(at);
            proof {
                let after = *self;
                assert forall|i: int, j: int| 0 <= i < j < after.entries@.len() implies
                    after.entries@[i].0@ != after.entries@[j].0@ by {
                    let a = if i < at { i } else { i + 1 };
                    let b = if j < at { j } else { j + 1 };
                    assert(before.entries@[a].0@ != before.entries@[b].0@);
                }
                assert(after.map() =~= before.map().remove(text@)) by {
                    assert forall|key: Seq<char>| after.map().contains_key(key)
                        <==> before.map().remove(text@).contains_key(key) by {
                        if after.map().contains_key(key) {
                            let k = choose|k: int| entry_at(after.entries@, key, k);
                            let o = if k < at { k } else { k + 1 };
                            assert(entry_at(before.entries@, key, o));
                            if key == text@ {
                                if o < at {
                                    assert(before.entries@[o].0@ != before.entries@[at as int].0@);
                                } else {
                                    assert(before.entries@[at as int].0@ != before.entries@[o].0@);
                                }
                            }
                        }
                        if before.map().remove(text@).contains_key(key) {
                            let o = choose|o: int| entry_at(before.entries@, key, o);
                            assert(o != at);
                            let k = if o < at { o } else { o - 1 };
                            assert(entry_at(after.entries@, key, k));
                        }
                    }
                    assert forall|key: Seq<char>| after.map().contains_key(key) implies
                        after.map()[key] == before.map()[key] by {
                        let k = choose|k: int| entry_at(after.entries@, key, k);
                        let o = if k < at { k } else { k + 1 };
                        after.lemma_entry(k);
                        before.lemma_entry(o);
                    }
                }
            }
        } else {
            assert(self.map() =~= self.map().remove(text@));
        }
    }

    fn insert(&mut self, text: &str, number: i64)
        requires
            old(self).wf(),
        ensures
            final(self).wf(),
            final(self).map() == old(self).map().insert(text@, number),
    {
        self.remove(text);
        let ghost before = *self;
        self.entries.push((text.to_owned(), number));
        proof {
            let after = *self;
            let n = before.entries@.len() as int;
            assert forall|i: int| 0 <= i < n implies (#[trigger] before.entries@[i]).0@
                != text@ by {
                if before.entries@[i].0@ == text@ {
                    before.lemma_entry(i);
                }
            }
            assert forall|i: int, j: int| 0 <= i < j < after.entries@.len() implies
                after.entries@[i].0@ != after.entries@[j].0@ by {
                assert(after.entries@[i] == before.entries@[i]);
                if j < n {
                    assert(before.entries@[i].0@ != before.entries@[j].0@);
                }
            }
            assert(after.map() =~= old(self).map().insert(text@, number)) by {
                assert forall|key: Seq<char>| after.map().contains_key(key)
                    <==> old(self).map().insert(text@, number).contains_key(key) by {
                    if after.map().contains_key(key) {
                        let k = choose|k: int| entry_at(after.entries@, key, k);
                        if k < n {
                            assert(entry_at(before.entries@, key, k));
                            assert(before.map().contains_key(key));
                        }
                    }
                    if key == text@ {
                        assert(entry_at(after.entries@, key, n));
                    } else if old(self).map().contains_key(key) {
                        assert(before.map().contains_key(key));
                        let k = choose|k: int| entry_at(before.entries@, key, k);
                        assert(entry_at(after.entries@, key, k));
                    }
                }
                assert forall|key: Seq<char>| after.map().contains_key(key) implies
                    after.map()[key] == old(self).map().insert(text@, number)[key] by {
                    let k = choose|k: int| entry_at(after.entries@, key, k);
                    after.lemma_entry(k);
                    if k < n {
                        before.lemma_entry(k);
                    }
                }
            }
        }
    }
}

// ---------------------------------------------------------------------------
// The store
// ---------------------------------------------------------------------------

/// A store as a mathematical value.
pub struct StoreState {
    /// The session of each hash of an access token.
    pub access: Map<Seq<char>, i64>,
    /// The session of each hash of a refresh token.
    pub refresh: Map<Seq<char>, i64>,
    pub sessions: Map<i64, Snapshot>,
}

impl StoreState {
    pub open spec fn empty() -> StoreState {
        StoreState { access: Map::empty(), refresh: Map::empty(), sessions: Map::empty() }
    }

    /// The store with the session.
    pub open spec fn with(self, session: Snapshot) -> StoreState {
        StoreState {
            access: self.access.insert(session.access_token_hash, session.session_id),
            refresh: self.refresh.insert(session.refresh_token_hash, session.session_id),
            sessions: self.sessions.insert(session.session_id, session),
        }
    }

    /// The store without the session.
    pub open spec fn without(self, session: Snapshot) -> StoreState {
        StoreState {
            access: self.access.remove(session.access_token_hash),
            refresh: self.refresh.remove(session.refresh_token_hash),
            sessions: self.sessions.remove(session.session_id),
        }
    }

    /// What an index leads to.
    pub open spec fn found(self, index: Map<Seq<char>, i64>, hash: Seq<char>) -> Option<Snapshot> {
        if index.contains_key(hash) && self.sessions.contains_key(index[hash]) {
            Some(self.sessions[index[hash]])
        } else {
            None
        }
    }

    pub open spec fn by_access(self, hash: Seq<char>) -> Option<Snapshot> {
        self.found(self.access, hash)
    }

    pub open spec fn by_refresh(self, hash: Seq<char>) -> Option<Snapshot> {
        self.found(self.refresh, hash)
    }

    /// The store without the session of that number.
    pub open spec fn without_id(self, session_id: i64) -> StoreState {
        if self.sessions.contains_key(session_id) {
            StoreState {
                access: self.access.remove(self.sessions[session_id].access_token_hash),
                refresh: self.refresh.remove(self.sessions[session_id].refresh_token_hash),
                sessions: self.sessions.remove(session_id),
            }
        } else {
            self
        }
    }

    /// The identifier is that of a session of the account.
    pub open spec fn belongs(self, session_id: i64, account_id: i64) -> bool {
        self.sessions.contains_key(session_id) && self.sessions[session_id].account.id
            == account_id
    }

    /// Some session of the account has the hash of an access token.
    pub open spec fn account_has_access(self, account_id: i64, hash: Seq<char>) -> bool {
        exists|id: i64|
            #[trigger] self.belongs(id, account_id) && self.sessions[id].access_token_hash == hash
    }

    /// Some session of the account has the hash of a refresh token.
    pub open spec fn account_has_refresh(self, account_id: i64, hash: Seq<char>) -> bool {
        exists|id: i64|
            #[trigger] self.belongs(id, account_id) && self.sessions[id].refresh_token_hash == hash
    }

    /// The store without the sessions of the account.
    pub open spec fn without_account(self, account_id: i64) -> StoreState {
        StoreState {
            access: self.access.remove_keys(
                Set::new(|hash: Seq<char>| self.account_has_access(account_id, hash)),
            ),
            refresh: self.refresh.remove_keys(
                Set::new(|hash: Seq<char>| self.account_has_refresh(account_id, hash)),
            ),
            sessions: self.sessions.remove_keys(
                Set::new(|id: i64| self.belongs(id, account_id)),
            ),
        }
    }
}

/// Keeps sessions in memory.
pub struct MemorySessionStore {
    access_index: TextIndex,
    refresh_index: TextIndex,
    sessions: Vec<SessionSnapshot>,
}

/// The session at the given position has the identifier.
spec fn session_at(sessions: Seq<SessionSnapshot>, id: i64, at: int) -> bool {
    0 <= at < sessions.len() && sessions[at].session_id == id
}

/// No two sessions share an identifier.
spec fn distinct_sessions(sessions: Seq<SessionSnapshot>) -> bool {
    forall|i: int, j: int|
        0 <= i < j < sessions.len() ==> sessions[i].session_id != sessions[j].session_id
}

spec fn session_map(sessions: Seq<SessionSnapshot>) -> Map<i64, Snapshot> {
    Map::new(
        |id: i64| exists|at: int| session_at(sessions, id, at),
        |id: i64| sessions[choose|at: int| session_at(sessions, id, at)]@,
    )
}

proof fn lemma_session(sessions: Seq<SessionSnapshot>, at: int)
    requires
        distinct_sessions(sessions),
        0 <= at < sessions.len(),
    ensures
        session_map(sessions).contains_key(sessions[at].session_id),
        session_map(sessions)[sessions[at].session_id] == sessions[at]@,
{
    let id = sessions[at].session_id;
    assert(session_at(sessions, id, at));
    let found = choose|k: int| session_at(sessions, id, k);
    assert(session_at(sessions, id, found));
    if found < at {
        assert(sessions[found].session_id != sessions[at].session_id);
    } else if at < found {
        assert(sessions[at].session_id != sessions[found].session_id);
    }
}

proof fn lemma_session_removed(sessions: Seq<SessionSnapshot>, at: int)
    requires
        distinct_sessions(sessions),
        0 <= at < sessions.len(),
    ensures
        distinct_sessions(sessions.remove(at)),
        session_map(sessions.remove(at)) == session_map(sessions).remove(sessions[at].session_id),
{
    let after = sessions.remove(at);
    let id = sessions[at].session_id;
    assert forall|i: int, j: int| 0 <= i < j < after.len() implies after[i].session_id
        != after[j].session_id by {
        let a = if i < at { i } else { i + 1 };
        let b = if j < at { j } else { j + 1 };
        assert(sessions[a].session_id != sessions[b].session_id);
    }
    assert(session_map(after) =~= session_map(sessions).remove(id)) by {
        assert forall|key: i64| session_map(after).contains_key(key)
            <==> session_map(sessions).remove(id).contains_key(key) by {
            if session_map(after).contains_key(key) {
                let k = choose|k: int| session_at(after, key, k);
                let o = if k < at { k } else { k + 1 };
                assert(session_at(sessions, key, o));
                if key == id {
                    if o < at {
                        assert(sessions[o].session_id != sessions[at].session_id);
                    } else {
                        assert(sessions[at].session_id != sessions[o].session_id);
                    }
                }
            }
            if session_map(sessions).remove(id).contains_key(key) {
                let o = choose|o: int| session_at(sessions, key, o);
                assert(o != at);
                let k = if o < at { o } else { o - 1 };
                assert(session_at(after, key, k));
            }
        }
        assert forall|key: i64| session_map(after).contains_key(key) implies session_map(after)[key]
            == session_map(sessions)[key] by {
            let k = choose|k: int| session_at(after, key, k);
            let o = if k < at { k } else { k + 1 };
            lemma_session(after, k);
            lemma_session(sessions, o);
        }
    }
}

impl View for MemorySessionStore {
    type V = StoreState;

    closed spec fn view(&self) -> StoreState {
        StoreState {
            access: self.access_index.map(),
            refresh: self.refresh_index.map(),
            sessions: session_map(self.sessions@),
        }
    }
}

impl MemorySessionStore {
    /// No hash and no identifier occurs twice.
    pub closed spec fn wf(self) -> bool {
        self.access_index.wf() && self.refresh_index.wf() && distinct_sessions(self.sessions@)
    }

    pub fn new() -> (store: MemorySessionStore)
        ensures
            store.wf(),
            store@ == StoreState::empty(),
    {
        let store = MemorySessionStore {
            access_index: TextIndex::new(),
            refresh_index: TextIndex::new(),
            sessions: Vec::new(),
        };
        assert(session_map(store.sessions@) =~= Map::<i64, Snapshot>::empty());
        store
    }

    fn position(&self, session_id: i64) -> (at: usize)
        ensures
            at <= self.sessions@.len(),
            at < self.sessions@.len() ==> self.sessions@[at as int].session_id == session_id,
            at == self.sessions@.len() ==> !self@.sessions.contains_key(session_id),
    {
        let mut at: usize = 0;
        while at < self.sessions.len() && self.sessions[at].session_id != session_id
            invariant
                at <= self.sessions@.len(),
                forall|k: int| 0 <= k < at ==> !#[trigger] session_at(self.sessions@, session_id, k),
            decreases self.sessions@.len() - at,
        {
            at = at + 1;
        }
        at
    }

    fn remove_session(&mut self, session_id: i64) -> (removed: Option<SessionSnapshot>)
        requires
            old(self).wf(),
        ensures
            final(self).wf(),
            final(self)@ == (StoreState {
                sessions: old(self)@.sessions.remove(session_id),
                ..old(self)@
            }),
            match removed {
                Some(session) => old(self)@.sessions.contains_key(session_id)
                    && old(self)@.sessions[session_id] == session@,
                None => !old(self)@.sessions.contains_key(session_id),
            },
    {
        let at = self.position(session_id);
        if at < self.sessions.len() {
            proof {
                lemma_session(self.sessions@, at as int);
                lemma_session_removed(self.sessions@, at as int);
            }
            Some(self.sessions.remove(at))
        } else {
            assert(self@.sessions =~= self@.sessions.remove(session_id));
            None
        }
    }

    /// Keeps a session.
    pub fn save(&mut self, session: &SessionSnapshot)
        requires
            old(self).wf(),
        ensures
            final(self).wf(),
            final(self)@ == old(self)@.with(session@),
    {
        self.access_index.insert(session.access_token_hash.as_str(), session.session_id);
        self.refresh_index.insert(session.refresh_token_hash.as_str(), session.session_id);
        let _ = self.remove_session(session.session_id);
        let ghost before = self.sessions@;
        let id = session.session_id;
        let copy = session.copy();
        self.sessions.push(copy);
        proof {
            let after = self.sessions@;
            let n = before.len() as int;
            assert forall|i: int| 0 <= i < n implies (#[trigger] before[i]).session_id != id by {
                if before[i].session_id == id {
                    lemma_session(before, i);
                }
            }
            assert forall|i: int, j: int| 0 <= i < j < after.len() implies after[i].session_id
                != after[j].session_id by {
                assert(after[i] == before[i]);
                if j < n {
                    assert(before[i].session_id != before[j].session_id);
                }
            }
            let wanted = old(self)@.sessions.insert(id, session@);
            assert(session_map(after) =~= wanted) by {
                assert forall|key: i64| session_map(after).contains_key(key)
                    <==> wanted.contains_key(key) by {
                    if session_map(after).contains_key(key) {
                        let k = choose|k: int| session_at(after, key, k);
                        if k < n {
                            assert(session_at(before, key, k));
                            assert(session_map(before).contains_key(key));
                        }
                    }
                    if key == id {
                        assert(session_at(after, key, n));
                    } else if old(self)@.sessions.contains_key(key) {
                        assert(session_map(before).contains_key(key));
                        let k = choose|k: int| session_at(before, key, k);
                        assert(session_at(after, key, k));
                    }
                }
                assert forall|key: i64| session_map(after).contains_key(key) implies
                    session_map(after)[key] == wanted[key] by {
                    let k = choose|k: int| session_at(after, key, k);
                    lemma_session(after, k);
                    if k < n {
                        lemma_session(before, k);
                    }
                }
            }
        }
    }

    fn session_of(&self, id: Option<i64>) -> (session: Option<SessionSnapshot>)
        requires
            self.wf(),
        ensures
            match session {
                Some(found) => id is Some && self@.sessions.contains_key(id->0)
                    && self@.sessions[id->0] == found@,
                None => id is None || !self@.sessions.contains_key(id->0),
            },
    {
        match id {
            Some(session_id) => {
                let at = self.position(session_id);
                if at < self.sessions.len() {
                    proof {
                        lemma_session(self.sessions@, at as int);
                    }
                    Some(self.sessions[at].copy())
                } else {
                    None
                }
            },
            None => None,
        }
    }

    pub fn get_by_access_hash(&self, access_token_hash: &str) -> (session: Option<SessionSnapshot>)
        requires
            self.wf(),
        ensures
            match session {
                Some(found) => self@.by_access(access_token_hash@) == Some(found@),
                None => self@.by_access(access_token_hash@) is None,
            },
    {
        self.session_of(self.access_index.get(access_token_hash))
    }

    pub fn get_by_refresh_hash(&self, refresh_token_hash: &str) -> (session: Option<
        SessionSnapshot,
    >)
        requires
            self.wf(),
        ensures
            match session {
                Some(found) => self@.by_refresh(refresh_token_hash@) == Some(found@),
                None => self@.by_refresh(refresh_token_hash@) is None,
            },
    {
        self.session_of(self.refresh_index.get(refresh_token_hash))
    }

    pub fn delete_session(&mut self, session: &SessionSnapshot)
        requires
            old(self).wf(),
        ensures
            final(self).wf(),
            final(self)@ == old(self)@.without(session@),
    {
        self.access_index.remove(session.access_token_hash.as_str());
        self.refresh_index.remove(session.refresh_token_hash.as_str());
        let _ = self.remove_session(session.session_id);
    }

    pub fn delete_session_by_id(&mut self, session_id: i64)
        requires
            old(self).wf(),
        ensures
            final(self).wf(),
            final(self)@ == old(self)@.without_id(session_id),
    {
        match self.remove_session(session_id) {
            Some(session) => {
                self.access_index.remove(session.access_token_hash.as_str());
                self.refresh_index.remove(session.refresh_token_hash.as_str());
            },
            None => {
                assert(old(self)@.sessions.remove(session_id) =~= old(self)@.sessions);
            },
        }
    }

    /// Forgets every session of the account.
    pub fn delete_sessions_by_account(&mut self, account_id: i64)
        requires
            old(self).wf(),
        ensures
            final(self).wf(),
            final(self)@ == old(self)@.without_account(account_id),
    {
        let ghost start = self@;
        let ghost first = self.sessions@;
        let mut gone_access: Vec<String> = Vec::new();
        let mut gone_refresh: Vec<String> = Vec::new();
        let mut at: usize = 0;
        while at < self.sessions.len()
            invariant
                self.wf(),
                start == old(self)@,
                at <= self.sessions@.len(),
                self@.access == start.access,
                self@.refresh == start.refresh,
                forall|id: i64| #[trigger]
                    self@.sessions.contains_key(id) ==> start.sessions.contains_key(id)
                        && self@.sessions[id] == start.sessions[id],
                forall|id: i64|
                    #[trigger] start.sessions.contains_key(id) ==> self@.sessions.contains_key(id)
                        || start.belongs(id, account_id),
                forall|k: int|
                    0 <= k < at ==> (#[trigger] self.sessions@[k]).account.id != account_id,
                forall|hash: Seq<char>|
                    #[trigger] texts(gone_access@).contains(hash) ==> start.account_has_access(
                        account_id,
                        hash,
                    ),
                forall|hash: Seq<char>|
                    #[trigger] texts(gone_refresh@).contains(hash) ==> start.account_has_refresh(
                        account_id,
                        hash,
                    ),
                forall|id: i64|
                    #[trigger] start.belongs(id, account_id) && !self@.sessions.contains_key(id)
                        ==> texts(gone_access@).contains(start.sessions[id].access_token_hash)
                        && texts(gone_refresh@).contains(start.sessions[id].refresh_token_hash),
            decreases self.sessions@.len() - at,
        {
            if self.sessions[at].account.id == account_id {
                let ghost before = *self;
                let ghost access_before = texts(gone_access@);
                let ghost refresh_before = texts(gone_refresh@);
                proof {
                    lemma_session(self.sessions@, at as int);
                    lemma_session_removed(self.sessions@, at as int);
                }
                let session = self.sessions.remove(at);
                let ghost id = session.session_id;
                proof {
                    assert(self@.sessions == before@.sessions.remove(id));
                    assert(start.belongs(id, account_id));
                    lemma_texts_push(gone_access@, session.access_token_hash);
                    lemma_texts_push(gone_refresh@, session.refresh_token_hash);
                }
                gone_access.push(session.access_token_hash);
                gone_refresh.push(session.refresh_token_hash);
                proof {
                    let n = access_before.len() as int;
                    assert(texts(gone_access@)[n] == start.sessions[id].access_token_hash);
                    assert(texts(gone_refresh@)[refresh_before.len() as int]
                        == start.sessions[id].refresh_token_hash);
                    assert forall|hash: Seq<char>| #[trigger]
                        texts(gone_access@).contains(hash) implies start.account_has_access(
                        account_id,
                        hash,
                    ) by {
                        let all = texts(gone_access@);
                        let k = choose|k: int| 0 <= k < all.len() && all[k] == hash;
                        if k < n {
                            assert(access_before[k] == hash);
                            assert(access_before.contains(hash));
                        }
                    }
                    assert forall|hash: Seq<char>| #[trigger]
                        texts(gone_refresh@).contains(hash) implies start.account_has_refresh(
                        account_id,
                        hash,
                    ) by {
                        let all = texts(gone_refresh@);
                        let k = choose|k: int| 0 <= k < all.len() && all[k] == hash;
                        if k < refresh_before.len() {
                            assert(refresh_before[k] == hash);
                            assert(refresh_before.contains(hash));
                        }
                    }
                    assert forall|other: i64|
                        #[trigger] start.belongs(other, account_id) && !self@.sessions.contains_key(
                            other,
                        ) implies texts(gone_access@).contains(
                        start.sessions[other].access_token_hash,
                    ) && texts(gone_refresh@).contains(
                        start.sessions[other].refresh_token_hash,
                    ) by {
                        if other != id {
                            let a = start.sessions[other].access_token_hash;
                            let r = start.sessions[other].refresh_token_hash;
                            assert(access_before.contains(a));
                            assert(refresh_before.contains(r));
                            let i = choose|i: int|
                                0 <= i < access_before.len() && access_before[i] == a;
                            assert(texts(gone_access@)[i] == a);
                            let j = choose|j: int|
                                0 <= j < refresh_before.len() && refresh_before[j] == r;
                            assert(texts(gone_refresh@)[j] == r);
                        }
                    }
                }
            } else {
                at = at + 1;
            }
        }
        let ghost left = self@.sessions;
        proof {
            assert forall|id: i64| left.contains_key(id) implies left[id].account.id
                != account_id by {
                let k = choose|k: int| session_at(self.sessions@, id, k);
                lemma_session(self.sessions@, k);
            }
            assert(left =~= start.without_account(account_id).sessions) by {
                assert forall|id: i64| left.contains_key(id) <==> start.without_account(
                    account_id,
                ).sessions.contains_key(id) by {
                    if left.contains_key(id) {
                        assert(!start.belongs(id, account_id));
                    }
                }
            }
            assert forall|hash: Seq<char>| texts(gone_access@).contains(hash)
                <==> start.account_has_access(account_id, hash) by {
                if start.account_has_access(account_id, hash) {
                    let id = choose|id: i64|
                        #[trigger] start.belongs(id, account_id)
                            && start.sessions[id].access_token_hash == hash;
                    assert(!left.contains_key(id));
                }
            }
            assert forall|hash: Seq<char>| texts(gone_refresh@).contains(hash)
                <==> start.account_has_refresh(account_id, hash) by {
                if start.account_has_refresh(account_id, hash) {
                    let id = choose|id: i64|
                        #[trigger] start.belongs(id, account_id)
                            && start.sessions[id].refresh_token_hash == hash;
                    assert(!left.contains_key(id));
                }
            }
        }
        remove_all(&mut self.access_index, &gone_access);
        remove_all(&mut self.refresh_index, &gone_refresh);
        proof {
            assert(self@.access =~= start.without_account(account_id).access);
            assert(self@.refresh =~= start.without_account(account_id).refresh);
        }
    }
}

fn remove_all(index: &mut TextIndex, hashes: &Vec<String>)
    requires
        old(index).wf(),
    ensures
        final(index).wf(),
        final(index).map() == old(index).map().remove_keys(
            Set::new(|hash: Seq<char>| texts(hashes@).contains(hash)),
        ),
{
    let ghost start = index.map();
    let mut i: usize = 0;
    assert(index.map() =~= start.remove_keys(
        Set::new(|hash: Seq<char>| texts(hashes@).take(0).contains(hash)),
    ));
    while i < hashes.len()
        invariant
            index.wf(),
            i <= hashes@.len(),
            index.map() == start.remove_keys(
                Set::new(|hash: Seq<char>| texts(hashes@).take(i as int).contains(hash)),
            ),
        decreases hashes@.len() - i,
    {
        let ghost all = texts(hashes@);
        let ghost now = index.map();
        index.remove(hashes[i].as_str());
        proof {
            let less = all.take(i as int);
            let next = all.take(i + 1);
            let gone = Set::new(|hash: Seq<char>| less.contains(hash));
            let more = Set::new(|hash: Seq<char>| next.contains(hash));
            assert(all[i as int] == hashes@[i as int]@);
            assert forall|hash: Seq<char>| more.contains(hash) <==> gone.contains(hash) || hash
                == all[i as int] by {
                if next.contains(hash) {
                    let k = choose|k: int| 0 <= k < next.len() && next[k] == hash;
                    if k < i {
                        assert(less[k] == hash);
                    }
                }
                if less.contains(hash) {
                    let k = choose|k: int| 0 <= k < less.len() && less[k] == hash;
                    assert(next[k] == hash);
                }
                if hash == all[i as int] {
                    assert(next[i as int] == hash);
                }
            }
            assert(index.map() =~= start.remove_keys(more));
        }
        i = i + 1;
    }
    assert(texts(hashes@).take(i as int) =~= texts(hashes@));
}

// ---------------------------------------------------------------------------
// Laws
// ---------------------------------------------------------------------------

/// A session that was saved is found by either of its tokens, as it was saved.
pub proof fn saved_sessions_are_found(store: StoreState, session: Snapshot)
    ensures
        store.with(session).by_access(session.access_token_hash) == Some(session),
        store.with(session).by_refresh(session.refresh_token_hash) == Some(session),
{
}

/// A session that was deleted is found by neither of its tokens.
pub proof fn deleted_sessions_are_gone(store: StoreState, session: Snapshot)
    ensures
        store.without(session).by_access(session.access_token_hash) is None,
        store.without(session).by_refresh(session.refresh_token_hash) is None,
        !store.without(session).sessions.contains_key(session.session_id),
{
}

/// After the sessions of an account were deleted, no token leads to a session of the account.
pub proof fn accounts_are_signed_out(store: StoreState, account_id: i64, hash: Seq<char>)
    ensures
        store.without_account(account_id).by_access(hash) is Some ==> store.without_account(
            account_id,
        ).by_access(hash)->0.account.id != account_id,
        store.without_account(account_id).by_refresh(hash) is Some ==> store.without_account(
            account_id,
        ).by_refresh(hash)->0.account.id != account_id,
{
    let after = store.without_account(account_id);
    if after.by_access(hash) is Some {
        assert(!store.belongs(after.access[hash], account_id));
    }
    if after.by_refresh(hash) is Some {
        assert(!store.belongs(after.refresh[hash], account_id));
    }
}

/// The sessions of other accounts, whose tokens the account does not share, are left alone.
pub proof fn other_accounts_stay_signed_in(store: StoreState, account_id: i64, hash: Seq<char>)
    ensures
        store.by_access(hash) is Some && store.by_access(hash)->0.account.id != account_id
            && !store.account_has_access(account_id, hash) ==> store.without_account(
            account_id,
        ).by_access(hash) == store.by_access(hash),
        store.by_refresh(hash) is Some && store.by_refresh(hash)->0.account.id != account_id
            && !store.account_has_refresh(account_id, hash) ==> store.without_account(
            account_id,
        ).by_refresh(hash) == store.by_refresh(hash),
{
    if store.by_access(hash) is Some && store.by_access(hash)->0.account.id != account_id {
        assert(!store.belongs(store.access[hash], account_id));
    }
    if store.by_refresh(hash) is Some && store.by_refresh(hash)->0.account.id != account_id {
        assert(!store.belongs(store.refresh[hash], account_id));
    }
}

/// When a session is replaced by a new one with other tokens, the tokens of the new one lead to it
/// and those of the old one to nothing.
pub proof fn renewed_sessions_replace_old_ones(
    store: StoreState,
    old_one: Snapshot,
    new_one: Snapshot,
)
    requires
        old_one.session_id != new_one.session_id,
        old_one.access_token_hash != new_one.access_token_hash,
        old_one.refresh_token_hash != new_one.refresh_token_hash,
    ensures
        ({
            let after = store.with(new_one).without(old_one);
            &&& after.by_access(new_one.access_token_hash) == Some(new_one)
            &&& after.by_refresh(new_one.refresh_token_hash) == Some(new_one)
            &&& after.by_access(old_one.access_token_hash) is None
            &&& after.by_refresh(old_one.refresh_token_hash) is None
        }),
{
}

/// Saving a session leaves the others as they were: what other tokens led to, they still lead to.
pub proof fn saving_leaves_other_sessions(store: StoreState, session: Snapshot, hash: Seq<char>)
    ensures
        hash != session.access_token_hash && (store.access.contains_key(hash) ==> store.access[hash]
            != session.session_id) ==> store.with(session).by_access(hash) == store.by_access(hash),
        hash != session.refresh_token_hash && (store.refresh.contains_key(hash)
            ==> store.refresh[hash] != session.session_id) ==> store.with(session).by_refresh(hash)
            == store.by_refresh(hash),
{
}

/// Deleting a session leaves the others as they were.
pub proof fn deleting_leaves_other_sessions(store: StoreState, session: Snapshot, hash: Seq<char>)
    ensures
        hash != session.access_token_hash && store.access.contains_key(hash) && store.access[hash]
            != session.session_id ==> store.without(session).by_access(hash) == store.by_access(
            hash,
        ),
        hash != session.refresh_token_hash && store.refresh.contains_key(hash)
            && store.refresh[hash] != session.session_id ==> store.without(session).by_refresh(hash)
            == store.by_refresh(hash),
{
}

/// A new store knows nobody.
pub proof fn new_stores_are_empty(hash: Seq<char>)
    ensures
        StoreState::empty().by_access(hash) is None,
        StoreState::empty().by_refresh(hash) is None,
{
}

/// A session that is ended by its number is gone with both its tokens, and the others stay; a number
/// that is not known changes nothing.
pub proof fn sessions_are_ended_by_number(store: StoreState, session_id: i64, hash: Seq<char>)
    ensures
        !store.sessions.contains_key(session_id) ==> store.without_id(session_id) == store,
        !store.without_id(session_id).sessions.contains_key(session_id),
        store.sessions.contains_key(session_id) ==> {
            let ended = store.sessions[session_id];
            let after = store.without_id(session_id);
            &&& after.by_access(ended.access_token_hash) is None
            &&& after.by_refresh(ended.refresh_token_hash) is None
            &&& hash != ended.access_token_hash && (store.access.contains_key(hash)
                ==> store.access[hash] != session_id) ==> after.by_access(hash) == store.by_access(
                hash,
            )
            &&& hash != ended.refresh_token_hash && (store.refresh.contains_key(hash)
                ==> store.refresh[hash] != session_id) ==> after.by_refresh(hash)
                == store.by_refresh(hash)
        },
{
}

} // verus!
