//! Which permissions a role has: the ones that were chosen with all they depend on, and the fixed
//! ones of the roles that come with the platform.

use vstd::prelude::*;

use super::error::{invalid_input, AuthError, AuthFault};
use super::inputs::unique_ids;
use super::permissions::{
    all_permissions, dependencies, is_registered, key_views, permission_dependencies,
    permission_views, registry, PermissionView,
};
use crate::order::{
    contains_number, sorted_unique, strictly_ascending, text_before, text_less,
    text_order_is_strict, text_order_is_transitive,
};
use crate::text::same_text;

verus! {

/// A permission that is stored: its identifier and its key.
#[derive(Clone, Debug)]
pub struct StoredPermission {
    pub id: i64,
    pub key: String,
}

/// The last of the rows that has the identifier.
pub open spec fn key_of(rows: Seq<StoredPermission>, id: i64) -> Option<Seq<char>>
    decreases rows.len(),
{
    if rows.len() == 0 {
        None
    } else if rows.last().id == id {
        Some(rows.last().key@)
    } else {
        key_of(rows.drop_last(), id)
    }
}

/// The identifier stands for the key, and it is the greatest that does.
pub open spec fn stands_for(rows: Seq<StoredPermission>, id: i64, key: Seq<char>) -> bool {
    key_of(rows, id) == Some(key) && forall|other: i64|
        #[trigger] key_of(rows, other) == Some(key) ==> other <= id
}

/// The permission `needed` is one that `id` depends on.
pub open spec fn depends_on(rows: Seq<StoredPermission>, id: i64, needed: i64) -> bool {
    key_of(rows, id) is Some && exists|i: int|
        0 <= i < dependencies(key_of(rows, id)->0).len() && stands_for(
            rows,
            needed,
            #[trigger] dependencies(key_of(rows, id)->0)[i],
        )
}

/// The permission is one of the chosen ones, or at most `steps` dependencies away from one.
pub open spec fn reached(
    rows: Seq<StoredPermission>,
    chosen: Seq<i64>,
    id: i64,
    steps: nat,
) -> bool
    decreases steps,
{
    chosen.contains(id) || (steps > 0 && exists|from: i64|
        reached(rows, chosen, from, (steps - 1) as nat) && #[trigger] depends_on(rows, from, id))
}

/// The permission is granted along with the chosen ones.
pub open spec fn is_granted(rows: Seq<StoredPermission>, chosen: Seq<i64>, id: i64) -> bool {
    exists|steps: nat| reached(rows, chosen, id, steps)
}

proof fn lemma_key_of(rows: Seq<StoredPermission>, id: i64)
    ensures
        key_of(rows, id) is Some ==> exists|i: int|
            0 <= i < rows.len() && (#[trigger] rows[i]).id == id,
        key_of(rows, id) is None ==> forall|i: int|
            0 <= i < rows.len() ==> (#[trigger] rows[i]).id != id,
    decreases rows.len(),
{
    if rows.len() > 0 && rows.last().id != id {
        let before = rows.drop_last();
        lemma_key_of(before, id);
        if key_of(rows, id) is Some {
            let k = choose|k: int| 0 <= k < before.len() && (#[trigger] before[k]).id == id;
            assert(rows[k].id == id);
        } else {
            assert forall|i: int| 0 <= i < rows.len() implies (#[trigger] rows[i]).id != id by {
                if i < before.len() {
                    assert(before[i] == rows[i]);
                }
            }
        }
    } else if rows.len() > 0 {
        assert(rows[rows.len() - 1].id == id);
    }
}

fn find_key<'a>(rows: &'a Vec<StoredPermission>, id: i64) -> (key: Option<&'a str>)
    ensures
        crate::urls::option_str(key) == key_of(rows@, id),
{
    let mut end: usize = rows.len();
    assert(rows@.take(end as int) =~= rows@);
    while end > 0
        invariant
            end <= rows@.len(),
            key_of(rows@, id) == key_of(rows@.take(end as int), id),
        decreases end,
    {
        assert(rows@.take(end as int).drop_last() =~= rows@.take(end - 1));
        if rows[end - 1].id == id {
            return Some(rows[end - 1].key.as_str());
        }
        end = end - 1;
    }
    None
}

fn find_id(rows: &Vec<StoredPermission>, key: &str) -> (id: Option<i64>)
    ensures
        match id {
            Some(found) => stands_for(rows@, found, key@),
            None => forall|other: i64| #[trigger] key_of(rows@, other) != Some(key@),
        },
{
    let mut found: Option<i64> = None;
    let mut i: usize = 0;
    while i < rows.len()
        invariant
            i <= rows@.len(),
            found is Some ==> key_of(rows@, found->0) == Some(key@),
            forall|k: int|
                0 <= k < i && key_of(rows@, (#[trigger] rows@[k]).id) == Some(key@) ==> found
                    is Some && rows@[k].id <= found->0,
        decreases rows@.len() - i,
    {
        let id = rows[i].id;
        let matches_key = match find_key(rows, id) {
            Some(current) => same_text(current, key),
            None => false,
        };
        if matches_key {
            match found {
                Some(best) => {
                    if best < id {
                        found = Some(id);
                    }
                },
                None => {
                    found = Some(id);
                },
            }
        }
        i = i + 1;
    }
    proof {
        assert forall|other: i64| #[trigger] key_of(rows@, other) == Some(key@) implies found
            is Some && other <= found->0 by {
            lemma_key_of(rows@, other);
            let k = choose|k: int| 0 <= k < rows@.len() && (#[trigger] rows@[k]).id == other;
            assert(key_of(rows@, rows@[k].id) == Some(key@));
        }
    }
    found
}

/// The identifiers of stored permissions.
pub open spec fn row_ids(rows: Seq<StoredPermission>) -> Seq<i64> {
    rows.map_values(|row: StoredPermission| row.id)
}

proof fn lemma_ids_fit(rows: Seq<StoredPermission>, ids: Seq<i64>)
    requires
        ids.no_duplicates(),
        forall|i: int| 0 <= i < ids.len() ==> key_of(rows, #[trigger] ids[i]) is Some,
    ensures
        ids.len() <= rows.len(),
{
    let known = row_ids(rows);
    assert forall|id: i64| ids.to_set().contains(id) implies known.to_set().contains(id) by {
        let k = choose|k: int| 0 <= k < ids.len() && ids[k] == id;
        assert(key_of(rows, ids[k]) is Some);
        lemma_key_of(rows, id);
        let m = choose|m: int| 0 <= m < rows.len() && (#[trigger] rows[m]).id == id;
        assert(known[m] == id);
        assert(known.contains(id));
    }
    assert(ids.to_set().subset_of(known.to_set()));
    ids.unique_seq_to_set();
    known.lemma_cardinality_of_set();
    vstd::seq_lib::seq_to_set_is_finite(known);
    vstd::set_lib::lemma_len_subset(ids.to_set(), known.to_set());
}

pub open spec fn unknown_permission() -> AuthFault {
    AuthFault::InvalidInput("权限不存在"@)
}

/// Every chosen permission is stored.
pub open spec fn all_known(rows: Seq<StoredPermission>, chosen: Seq<i64>) -> bool {
    forall|i: int| 0 <= i < chosen.len() ==> key_of(rows, #[trigger] chosen[i]) is Some
}

proof fn lemma_reached_later(
    rows: Seq<StoredPermission>,
    chosen: Seq<i64>,
    id: i64,
    steps: nat,
    needed: i64,
)
    requires
        reached(rows, chosen, id, steps),
        depends_on(rows, id, needed),
    ensures
        reached(rows, chosen, needed, steps + 1),
{
    assert(reached(rows, chosen, id, ((steps + 1) - 1) as nat));
}

proof fn lemma_closed_holds_reached(
    rows: Seq<StoredPermission>,
    chosen: Seq<i64>,
    ids: Seq<i64>,
    id: i64,
    steps: nat,
)
    requires
        forall|x: i64| #[trigger] chosen.contains(x) ==> ids.contains(x),
        forall|x: i64, y: i64|
            ids.contains(x) && #[trigger] depends_on(rows, x, y) ==> ids.contains(y),
        reached(rows, chosen, id, steps),
    ensures
        ids.contains(id),
    decreases steps,
{
    if !chosen.contains(id) {
        let from = choose|from: i64|
            reached(rows, chosen, from, (steps - 1) as nat) && #[trigger] depends_on(
                rows,
                from,
                id,
            );
        lemma_closed_holds_reached(rows, chosen, ids, from, (steps - 1) as nat);
    }
}

/// The chosen permissions with all that they depend on, in ascending order.
pub fn normalized_permission_ids(permission_ids: &Vec<i64>, rows: &Vec<StoredPermission>) -> (result:
    Result<Vec<i64>, AuthError>)
    ensures
        match result {
            Ok(ids) => {
                &&& all_known(rows@, permission_ids@)
                &&& strictly_ascending(ids@)
                &&& forall|id: i64|
                    #[trigger] ids@.contains(id) <==> is_granted(rows@, permission_ids@, id)
            },
            Err(error) => !all_known(rows@, permission_ids@) && error@ == unknown_permission(),
        },
{
    let ghost chosen = permission_ids@;
    let mut ids = unique_ids(permission_ids);
    let mut i: usize = 0;
    while i < ids.len()
        invariant
            i <= ids@.len(),
            chosen == permission_ids@,
            forall|id: i64|
                #![trigger ids@.contains(id)]
                #![trigger chosen.contains(id)]
                ids@.contains(id) <==> chosen.contains(id),
            forall|k: int| 0 <= k < i ==> key_of(rows@, #[trigger] ids@[k]) is Some,
        decreases ids@.len() - i,
    {
        if find_key(rows, ids[i]).is_none() {
            proof {
                assert(ids@.contains(ids@[i as int]));
                let k = choose|k: int| 0 <= k < chosen.len() && chosen[k] == ids@[i as int];
                assert(key_of(rows@, chosen[k]) is None);
            }
            return Err(invalid_input("权限不存在"));
        }
        i = i + 1;
    }
    proof {
        assert forall|k: int| 0 <= k < chosen.len() implies key_of(rows@, #[trigger] chosen[k])
            is Some by {
            assert(chosen.contains(chosen[k]));
            let m = choose|m: int| 0 <= m < ids@.len() && ids@[m] == chosen[k];
            assert(key_of(rows@, ids@[m]) is Some);
        }
        assert forall|id: i64| #[trigger] ids@.contains(id) implies is_granted(
            rows@,
            chosen,
            id,
        ) by {
            assert(reached(rows@, chosen, id, 0));
        }
        assert(ids@.no_duplicates());
        lemma_ids_fit(rows@, ids@);
    }
    let mut cursor: usize = 0;
    while cursor < ids.len()
        invariant
            cursor <= ids@.len() <= rows@.len(),
            ids@.no_duplicates(),
            all_known(rows@, ids@),
            forall|id: i64| #[trigger] chosen.contains(id) ==> ids@.contains(id),
            forall|id: i64| #[trigger] ids@.contains(id) ==> is_granted(rows@, chosen, id),
            forall|k: int, needed: i64|
                0 <= k < cursor && #[trigger] depends_on(rows@, ids@[k], needed)
                    ==> ids@.contains(needed),
        decreases rows@.len() - cursor,
    {
        let id = ids[cursor];
        let ghost key = key_of(rows@, id)->0;
        assert(key_of(rows@, ids@[cursor as int]) is Some);
        match find_key(rows, id) {
            Some(permission_key) => {
                let needed_keys = permission_dependencies(permission_key);
                let ghost deps = dependencies(key);
                assert(key_views(needed_keys@) == deps);
                let mut k: usize = 0;
                while k < needed_keys.len()
                    invariant
                        k <= needed_keys@.len(),
                        key_views(needed_keys@) == deps,
                        deps == dependencies(key),
                        key_of(rows@, id) == Some(key),
                        cursor < ids@.len() <= rows@.len(),
                        id == ids@[cursor as int],
                        ids@.no_duplicates(),
                        all_known(rows@, ids@),
                        forall|x: i64| #[trigger] chosen.contains(x) ==> ids@.contains(x),
                        forall|x: i64| #[trigger] ids@.contains(x) ==> is_granted(rows@, chosen, x),
                        forall|m: int, needed: i64|
                            0 <= m < cursor && #[trigger] depends_on(rows@, ids@[m], needed)
                                ==> ids@.contains(needed),
                        forall|m: int, needed: i64|
                            0 <= m < k && #[trigger] stands_for(rows@, needed, deps[m])
                                ==> ids@.contains(needed),
                    decreases needed_keys@.len() - k,
                {
                    assert(deps[k as int] == needed_keys@[k as int]@);
                    let ghost before = ids@;
                    match find_id(rows, needed_keys[k]) {
                        Some(needed) => {
                            proof {
                                assert(depends_on(rows@, id, needed)) by {
                                    assert(stands_for(
                                        rows@,
                                        needed,
                                        dependencies(key_of(rows@, id)->0)[k as int],
                                    ));
                                }
                                assert(ids@.contains(id));
                                assert(is_granted(rows@, chosen, id));
                                let steps = choose|steps: nat| reached(rows@, chosen, id, steps);
                                lemma_reached_later(rows@, chosen, id, steps, needed);
                                assert(is_granted(rows@, chosen, needed));
                            }
                            if !contains_number(&ids, needed) {
                                ids.push(needed);
                                proof {
                                    assert(ids@[before.len() as int] == needed);
                                    assert forall|x: i64| before.contains(x) implies ids@.contains(
                                        x,
                                    ) by {
                                        let m = choose|m: int|
                                            0 <= m < before.len() && before[m] == x;
                                        assert(ids@[m] == x);
                                    }
                                    assert forall|x: i64| #[trigger] ids@.contains(x) implies
                                        is_granted(rows@, chosen, x) by {
                                        let m = choose|m: int| 0 <= m < ids@.len() && ids@[m] == x;
                                        if m < before.len() {
                                            assert(before[m] == x);
                                            assert(before.contains(x));
                                        }
                                    }
                                    assert(ids@.no_duplicates()) by {
                                        assert forall|a: int, b: int|
                                            0 <= a < b < ids@.len() implies ids@[a] != ids@[b] by {
                                            if b < before.len() {
                                                assert(before[a] != before[b]);
                                            } else {
                                                assert(before[a] == ids@[a]);
                                                assert(before.contains(before[a]));
                                            }
                                        }
                                    }
                                    assert forall|m: int| 0 <= m < ids@.len() implies key_of(
                                        rows@,
                                        #[trigger] ids@[m],
                                    ) is Some by {
                                        if m < before.len() {
                                            assert(before[m] == ids@[m]);
                                        }
                                    }
                                    lemma_ids_fit(rows@, ids@);
                                    assert forall|m: int, other: i64|
                                        0 <= m < cursor && #[trigger] depends_on(
                                            rows@,
                                            ids@[m],
                                            other,
                                        ) implies ids@.contains(other) by {
                                        assert(ids@[m] == before[m]);
                                        assert(before.contains(other));
                                    }
                                    assert forall|m: int, other: i64|
                                        0 <= m < k && #[trigger] stands_for(rows@, other, deps[m])
                                            implies ids@.contains(other) by {
                                        assert(before.contains(other));
                                    }
                                }
                            }
                            assert forall|m: int, other: i64|
                                0 <= m < k + 1 && #[trigger] stands_for(rows@, other, deps[m])
                                    implies ids@.contains(other) by {
                                if m == k {
                                    assert(other == needed);
                                    assert(ids@.contains(needed));
                                }
                            }
                        },
                        None => {
                            assert forall|m: int, other: i64|
                                0 <= m < k + 1 && #[trigger] stands_for(rows@, other, deps[m])
                                    implies ids@.contains(other) by {
                                if m == k {
                                    assert(key_of(rows@, other) == Some(deps[m]));
                                }
                            }
                        },
                    }
                    k = k + 1;
                }
                proof {
                    assert(needed_keys@.len() == deps.len());
                    assert forall|m: int, needed: i64|
                        0 <= m < cursor + 1 && #[trigger] depends_on(rows@, ids@[m], needed)
                            implies ids@.contains(needed) by {
                        if m == cursor {
                            let j = choose|j: int|
                                0 <= j < deps.len() && stands_for(
                                    rows@,
                                    needed,
                                    #[trigger] deps[j],
                                );
                            assert(stands_for(rows@, needed, deps[j]));
                        }
                    }
                }
            },
            None => {},
        }
        cursor = cursor + 1;
    }
    let sorted = sorted_unique(&ids);
    proof {
        assert forall|id: i64| #[trigger] sorted@.contains(id) <==> is_granted(
            rows@,
            permission_ids@,
            id,
        ) by {
            if is_granted(rows@, chosen, id) {
                let steps = choose|steps: nat| reached(rows@, chosen, id, steps);
                assert forall|x: i64, y: i64|
                    ids@.contains(x) && #[trigger] depends_on(rows@, x, y) implies ids@.contains(
                    y,
                ) by {
                    let m = choose|m: int| 0 <= m < ids@.len() && ids@[m] == x;
                    assert(depends_on(rows@, ids@[m], y));
                }
                lemma_closed_holds_reached(rows@, chosen, ids@, id, steps);
            }
        }
    }
    Ok(sorted)
}

// ---------------------------------------------------------------------------
// Roles that come with the platform
// ---------------------------------------------------------------------------

/// Which permissions a role of the platform has.
#[derive(Clone, Debug)]
pub enum BuiltinPermissionScope {
    /// Every permission that is stored.
    AllCurrent,
    /// The given ones.
    Explicit(Vec<&'static str>),
}

/// Which permissions a role of the platform has, as a mathematical value.
pub enum BuiltinScope {
    AllCurrent,
    Explicit(Seq<Seq<char>>),
}

impl View for BuiltinPermissionScope {
    type V = BuiltinScope;

    open spec fn view(&self) -> BuiltinScope {
        match self {
            BuiltinPermissionScope::AllCurrent => BuiltinScope::AllCurrent,
            BuiltinPermissionScope::Explicit(keys) => BuiltinScope::Explicit(key_views(keys@)),
        }
    }
}

pub open spec fn deployer_keys() -> Seq<Seq<char>> {
    seq![
        "dashboard.view"@,
        "apps.view"@,
        "services.view"@,
        "services.deploy"@,
        "services.logs"@,
        "services.rollback"@,
        "nodes.view"@,
        "node_credentials.view"@,
        "tasks.view"@,
        "tasks.cancel"@,
        "tasks.retry"@,
        "templates.view"@,
        "artifacts.view"@,
        "profile.view"@,
        "profile.password.change"@,
    ]
}

pub open spec fn operator_keys() -> Seq<Seq<char>> {
    seq![
        "dashboard.view"@,
        "apps.view"@,
        "apps.create"@,
        "apps.update"@,
        "apps.status"@,
        "services.view"@,
        "services.logs"@,
        "nodes.view"@,
        "nodes.manage"@,
        "nodes.install"@,
        "node_credentials.view"@,
        "node_credentials.manage"@,
        "tasks.view"@,
        "templates.view"@,
        "artifacts.view"@,
        "artifacts.upload"@,
        "settings.view"@,
        "profile.view"@,
        "profile.password.change"@,
    ]
}

pub open spec fn viewer_keys() -> Seq<Seq<char>> {
    seq![
        "dashboard.view"@,
        "apps.view"@,
        "services.view"@,
        "nodes.view"@,
        "node_credentials.view"@,
        "tasks.view"@,
        "templates.view"@,
        "artifacts.view"@,
        "settings.view"@,
        "profile.view"@,
        "profile.password.change"@,
    ]
}

pub open spec fn auditor_keys() -> Seq<Seq<char>> {
    seq![
        "dashboard.view"@,
        "apps.view"@,
        "services.view"@,
        "nodes.view"@,
        "node_credentials.view"@,
        "tasks.view"@,
        "audit.view"@,
        "profile.view"@,
        "profile.password.change"@,
    ]
}

pub open spec fn builtin_scope(role_code: Seq<char>) -> Option<BuiltinScope> {
    if role_code == "super_admin"@ || role_code == "admin"@ {
        Some(BuiltinScope::AllCurrent)
    } else if role_code == "deployer"@ {
        Some(BuiltinScope::Explicit(deployer_keys()))
    } else if role_code == "operator"@ {
        Some(BuiltinScope::Explicit(operator_keys()))
    } else if role_code == "viewer"@ {
        Some(BuiltinScope::Explicit(viewer_keys()))
    } else if role_code == "auditor"@ {
        Some(BuiltinScope::Explicit(auditor_keys()))
    } else {
        None
    }
}

/// The codes of the roles that come with the platform.
pub fn builtin_role_codes() -> (codes: Vec<&'static str>)
    ensures
        key_views(codes@) == seq![
            "super_admin"@,
            "admin"@,
            "deployer"@,
            "operator"@,
            "viewer"@,
            "auditor"@,
        ],
{
    let codes = vec!["super_admin", "admin", "deployer", "operator", "viewer", "auditor"];
    assert(key_views(codes@) =~= seq![
        "super_admin"@,
        "admin"@,
        "deployer"@,
        "operator"@,
        "viewer"@,
        "auditor"@,
    ]);
    codes
}

/// Which permissions a role of the platform has; none where the role is not one of them.
pub fn builtin_role_permissions(role_code: &str) -> (scope: Option<BuiltinPermissionScope>)
    ensures
        match scope {
            Some(known) => builtin_scope(role_code@) == Some(known@),
            None => builtin_scope(role_code@) is None,
        },
{
    if same_text(role_code, "super_admin") || same_text(role_code, "admin") {
        return Some(BuiltinPermissionScope::AllCurrent);
    }
    if same_text(role_code, "deployer") {
        let keys = vec![
            "dashboard.view",
            "apps.view",
            "services.view",
            "services.deploy",
            "services.logs",
            "services.rollback",
            "nodes.view",
            "node_credentials.view",
            "tasks.view",
            "tasks.cancel",
            "tasks.retry",
            "templates.view",
            "artifacts.view",
            "profile.view",
            "profile.password.change",
        ];
        assert(key_views(keys@) =~= deployer_keys());
        return Some(BuiltinPermissionScope::Explicit(keys));
    }
    if same_text(role_code, "operator") {
        let keys = vec![
            "dashboard.view",
            "apps.view",
            "apps.create",
            "apps.update",
            "apps.status",
            "services.view",
            "services.logs",
            "nodes.view",
            "nodes.manage",
            "nodes.install",
            "node_credentials.view",
            "node_credentials.manage",
            "tasks.view",
            "templates.view",
            "artifacts.view",
            "artifacts.upload",
            "settings.view",
            "profile.view",
            "profile.password.change",
        ];
        assert(key_views(keys@) =~= operator_keys());
        return Some(BuiltinPermissionScope::Explicit(keys));
    }
    if same_text(role_code, "viewer") {
        let keys = vec![
            "dashboard.view",
            "apps.view",
            "services.view",
            "nodes.view",
            "node_credentials.view",
            "tasks.view",
            "templates.view",
            "artifacts.view",
            "settings.view",
            "profile.view",
            "profile.password.change",
        ];
        assert(key_views(keys@) =~= viewer_keys());
        return Some(BuiltinPermissionScope::Explicit(keys));
    }
    if same_text(role_code, "auditor") {
        let keys = vec![
            "dashboard.view",
            "apps.view",
            "services.view",
            "nodes.view",
            "node_credentials.view",
            "tasks.view",
            "audit.view",
            "profile.view",
            "profile.password.change",
        ];
        assert(key_views(keys@) =~= auditor_keys());
        return Some(BuiltinPermissionScope::Explicit(keys));
    }
    None
}

/// The identifiers of the keys that are stored, in the order of the keys.
pub open spec fn ids_of_keys(rows: Seq<StoredPermission>, keys: Seq<Seq<char>>) -> Seq<i64>
    decreases keys.len(),
{
    if keys.len() == 0 {
        Seq::empty()
    } else {
        let before = ids_of_keys(rows, keys.drop_last());
        if exists|id: i64| stands_for(rows, id, keys.last()) {
            before.push(choose|id: i64| stands_for(rows, id, keys.last()))
        } else {
            before
        }
    }
}

/// The identifiers of the permissions that a role of the platform has.
pub open spec fn builtin_ids(rows: Seq<StoredPermission>, scope: BuiltinScope) -> Seq<i64> {
    match scope {
        BuiltinScope::AllCurrent => row_ids(rows),
        BuiltinScope::Explicit(keys) => ids_of_keys(rows, keys),
    }
}

pub fn builtin_permission_ids(scope: &BuiltinPermissionScope, rows: &Vec<StoredPermission>) -> (ids:
    Vec<i64>)
    ensures
        ids@ == builtin_ids(rows@, scope@),
{
    let mut ids: Vec<i64> = Vec::new();
    match scope {
        BuiltinPermissionScope::AllCurrent => {
            let mut i: usize = 0;
            while i < rows.len()
                invariant
                    i <= rows@.len(),
                    ids@ == row_ids(rows@).take(i as int),
                decreases rows@.len() - i,
            {
                ids.push(rows[i].id);
                i = i + 1;
                assert(ids@ =~= row_ids(rows@).take(i as int));
            }
            assert(ids@ =~= row_ids(rows@));
        },
        BuiltinPermissionScope::Explicit(keys) => {
            let ghost model = key_views(keys@);
            let mut i: usize = 0;
            assert(model.take(0) =~= Seq::empty());
            while i < keys.len()
                invariant
                    i <= keys@.len(),
                    model == key_views(keys@),
                    ids@ == ids_of_keys(rows@, model.take(i as int)),
                decreases keys@.len() - i,
            {
                assert(model.take(i + 1).drop_last() =~= model.take(i as int));
                let ghost key = model[i as int];
                assert(key == keys@[i as int]@);
                assert(model.take(i + 1).last() == key);
                match find_id(rows, keys[i]) {
                    Some(id) => {
                        proof {
                            let last = model.take(i + 1).last();
                            let chosen = choose|other: i64| stands_for(rows@, other, last);
                            assert(stands_for(rows@, id, key));
                            assert(stands_for(rows@, chosen, key));
                            assert(key_of(rows@, chosen) == Some(key));
                            assert(key_of(rows@, id) == Some(key));
                        }
                        ids.push(id);
                    },
                    None => {
                        assert forall|other: i64| !stands_for(rows@, other, key) by {
                            assert(key_of(rows@, other) != Some(key));
                        }
                    },
                }
                i = i + 1;
            }
            assert(model.take(i as int) =~= model);
        },
    }
    ids
}

// ---------------------------------------------------------------------------
// Stored permissions that are no longer registered
// ---------------------------------------------------------------------------

/// The identifiers of the rows whose keys are not registered.
pub open spec fn stale_ids(rows: Seq<StoredPermission>) -> Seq<i64>
    decreases rows.len(),
{
    if rows.len() == 0 {
        Seq::empty()
    } else if is_registered(rows.last().key@) {
        stale_ids(rows.drop_last())
    } else {
        stale_ids(rows.drop_last()).push(rows.last().id)
    }
}

fn registered(key: &str) -> (is: bool)
    ensures
        is == is_registered(key@),
{
    let permissions = all_permissions();
    let mut i: usize = 0;
    while i < permissions.len()
        invariant
            i <= permissions@.len(),
            permission_views(permissions@) == registry(),
            forall|k: int| 0 <= k < i ==> (#[trigger] registry()[k]).key != key@,
        decreases permissions@.len() - i,
    {
        assert(registry()[i as int] == permissions@[i as int]@);
        if same_text(permissions[i].key, key) {
            assert(registry()[i as int].key == key@);
            return true;
        }
        i = i + 1;
    }
    assert(registry().len() == permissions@.len());
    false
}

/// The stored permissions that have to be deleted.
pub fn stale_permission_ids(rows: &Vec<StoredPermission>) -> (ids: Vec<i64>)
    ensures
        ids@ == stale_ids(rows@),
{
    let mut ids: Vec<i64> = Vec::new();
    let mut i: usize = 0;
    assert(rows@.take(0) =~= Seq::empty());
    while i < rows.len()
        invariant
            i <= rows@.len(),
            ids@ == stale_ids(rows@.take(i as int)),
        decreases rows@.len() - i,
    {
        assert(rows@.take(i + 1).drop_last() =~= rows@.take(i as int));
        if !registered(rows[i].key.as_str()) {
            ids.push(rows[i].id);
        }
        i = i + 1;
    }
    assert(rows@.take(i as int) =~= rows@);
    ids
}

// ---------------------------------------------------------------------------
// Permissions by module
// ---------------------------------------------------------------------------

/// The permissions of one module.
#[derive(Clone, Debug)]
pub struct PermissionGroup {
    pub module: String,
    pub permissions: Vec<PermissionView>,
}

/// The rows of the module, in order.
pub open spec fn rows_of_module(rows: Seq<PermissionView>, module: Seq<char>) -> Seq<PermissionView>
    decreases rows.len(),
{
    if rows.len() == 0 {
        rows
    } else if rows.last().module@ == module {
        rows_of_module(rows.drop_last(), module).push(rows.last())
    } else {
        rows_of_module(rows.drop_last(), module)
    }
}

/// The groups are those of the rows: every module once, in dictionary order, with all its rows.
pub open spec fn groups_rows(groups: Seq<PermissionGroup>, rows: Seq<PermissionView>) -> bool {
    &&& forall|i: int, j: int|
        0 <= i < j < groups.len() ==> text_before(groups[i].module@, groups[j].module@)
    &&& forall|i: int|
        0 <= i < groups.len() ==> (#[trigger] groups[i]).permissions@ == rows_of_module(
            rows,
            groups[i].module@,
        ) && groups[i].permissions@.len() > 0
    &&& forall|k: int|
        0 <= k < rows.len() ==> exists|i: int|
            0 <= i < groups.len() && (#[trigger] groups[i]).module@ == (#[trigger] rows[k]).module@
}

proof fn lemma_no_rows(rows: Seq<PermissionView>, module: Seq<char>)
    requires
        forall|k: int| 0 <= k < rows.len() ==> (#[trigger] rows[k]).module@ != module,
    ensures
        rows_of_module(rows, module).len() == 0,
    decreases rows.len(),
{
    if rows.len() > 0 {
        assert(rows[rows.len() - 1].module@ != module);
        assert forall|k: int| 0 <= k < rows.drop_last().len() implies (
        #[trigger] rows.drop_last()[k]).module@ != module by {
            assert(rows[k].module@ != module);
        }
        lemma_no_rows(rows.drop_last(), module);
    }
}

fn add_to_group(
    groups: &mut Vec<PermissionGroup>,
    row: PermissionView,
    Ghost(rows): Ghost<Seq<PermissionView>>,
)
    requires
        groups_rows(old(groups)@, rows),
    ensures
        groups_rows(final(groups)@, rows.push(row)),
{
    let ghost before = groups@;
    let ghost more = rows.push(row);
    let ghost module = row.module@;
    assert(more.drop_last() =~= rows);
    let mut at: usize = 0;
    while at < groups.len() && text_less(groups[at].module.as_str(), row.module.as_str())
        invariant
            at <= groups@.len(),
            groups@ == before,
            forall|i: int| 0 <= i < at ==> text_before((#[trigger] groups@[i]).module@, row.module@),
        decreases groups@.len() - at,
    {
        at = at + 1;
    }
    if at < groups.len() && same_text(groups[at].module.as_str(), row.module.as_str()) {
        let mut group = groups.remove(at);
        group.permissions.push(row);
        groups.insert(at, group);
        proof {
            let after = groups@;
            assert(after.len() == before.len());
            assert forall|i: int| 0 <= i < after.len() implies (#[trigger] after[i]).module
                == before[i].module && (i != at ==> after[i] == before[i]) by {}
            assert forall|i: int, j: int| 0 <= i < j < after.len() implies text_before(
                after[i].module@,
                after[j].module@,
            ) by {
                assert(text_before(before[i].module@, before[j].module@));
            }
            assert forall|i: int| 0 <= i < after.len() implies (#[trigger] after[i]).permissions@
                == rows_of_module(more, after[i].module@) && after[i].permissions@.len() > 0 by {
                assert(before[i].permissions@ == rows_of_module(rows, before[i].module@));
                if i != at {
                    if i < at {
                        assert(text_before(before[i].module@, before[at as int].module@));
                    } else {
                        assert(text_before(before[at as int].module@, before[i].module@));
                    }
                    text_order_is_strict(before[i].module@, before[at as int].module@);
                    assert(before[i].module@ != module);
                }
            }
            assert forall|k: int| 0 <= k < more.len() implies exists|i: int|
                0 <= i < after.len() && (#[trigger] after[i]).module@ == (
                #[trigger] more[k]).module@ by {
                if k < rows.len() {
                    assert(more[k] == rows[k]);
                    let i = choose|i: int|
                        0 <= i < before.len() && (#[trigger] before[i]).module@ == rows[k].module@;
                    assert(after[i].module@ == more[k].module@);
                } else {
                    assert(after[at as int].module@ == more[k].module@);
                }
            }
        }
    } else {
        proof {
            assert forall|i: int| 0 <= i < before.len() implies (#[trigger] before[i]).module@
                != module by {
                text_order_is_strict(before[i].module@, module);
                if i >= at {
                    text_order_is_strict(before[at as int].module@, module);
                    if i > at {
                        assert(text_before(before[at as int].module@, before[i].module@));
                    }
                }
            }
            assert forall|k: int| 0 <= k < rows.len() implies (#[trigger] rows[k]).module@
                != module by {
                let i = choose|i: int|
                    0 <= i < before.len() && (#[trigger] before[i]).module@ == rows[k].module@;
                assert(before[i].module@ != module);
            }
            lemma_no_rows(rows, module);
            assert(rows_of_module(rows, module) =~= Seq::empty());
        }
        let name = row.module.clone();
        let mut permissions: Vec<PermissionView> = Vec::new();
        permissions.push(row);
        assert(permissions@ =~= rows_of_module(more, module));
        groups.insert(at, PermissionGroup { module: name, permissions });
        proof {
            let after = groups@;
            assert forall|i: int| 0 <= i < after.len() implies (#[trigger] after[i]) == (if i < at {
                before[i]
            } else if i == at {
                after[at as int]
            } else {
                before[i - 1]
            }) by {}
            assert forall|i: int, j: int| 0 <= i < j < after.len() implies text_before(
                after[i].module@,
                after[j].module@,
            ) by {
                let a = if i < at { i } else { i - 1 };
                let b = if j < at { j } else { j - 1 };
                if i != at && j != at {
                    assert(text_before(before[a].module@, before[b].module@));
                } else if i == at {
                    text_order_is_strict(before[at as int].module@, module);
                    if b > at {
                        assert(text_before(before[at as int].module@, before[b].module@));
                        text_order_is_transitive(
                            module,
                            before[at as int].module@,
                            before[b].module@,
                        );
                    }
                }
            }
            assert forall|i: int| 0 <= i < after.len() implies (#[trigger] after[i]).permissions@
                == rows_of_module(more, after[i].module@) && after[i].permissions@.len() > 0 by {
                if i != at {
                    let a = if i < at { i } else { i - 1 };
                    assert(before[a].permissions@ == rows_of_module(rows, before[a].module@));
                    assert(before[a].module@ != module);
                }
            }
            assert forall|k: int| 0 <= k < more.len() implies exists|i: int|
                0 <= i < after.len() && (#[trigger] after[i]).module@ == (
                #[trigger] more[k]).module@ by {
                if k < rows.len() {
                    assert(more[k] == rows[k]);
                    let i = choose|i: int|
                        0 <= i < before.len() && (#[trigger] before[i]).module@ == rows[k].module@;
                    let o = if i < at { i } else { i + 1 };
                    assert(after[o].module@ == more[k].module@);
                } else {
                    assert(after[at as int].module@ == more[k].module@);
                }
            }
        }
    }
}

/// The permissions by module.
pub fn permission_groups(rows: Vec<PermissionView>) -> (groups: Vec<PermissionGroup>)
    ensures
        groups_rows(groups@, rows@),
{
    let ghost all = rows@;
    let mut rest = rows;
    let mut groups: Vec<PermissionGroup> = Vec::new();
    let ghost mut done: int = 0;
    assert(all.skip(0) =~= all);
    while rest.len() > 0
        invariant
            0 <= done <= all.len(),
            rest@ == all.skip(done),
            groups_rows(groups@, all.take(done)),
        decreases rest@.len(),
    {
        let row = rest.remove(0);
        proof {
            assert(all.take(done + 1) =~= all.take(done).push(row));
            assert(rest@ =~= all.skip(done + 1));
        }
        add_to_group(&mut groups, row, Ghost(all.take(done)));
        proof {
            done = done + 1;
        }
    }
    assert(all.take(done) =~= all);
    groups
}

// ---------------------------------------------------------------------------
// Laws
// ---------------------------------------------------------------------------

/// What was chosen is granted, and with a permission all that it depends on.
pub proof fn grants_are_closed(
    rows: Seq<StoredPermission>,
    chosen: Seq<i64>,
    id: i64,
    needed: i64,
)
    ensures
        chosen.contains(id) ==> is_granted(rows, chosen, id),
        is_granted(rows, chosen, id) && depends_on(rows, id, needed) ==> is_granted(
            rows,
            chosen,
            needed,
        ),
{
    if chosen.contains(id) {
        assert(reached(rows, chosen, id, 0));
    }
    if is_granted(rows, chosen, id) && depends_on(rows, id, needed) {
        let steps = choose|steps: nat| reached(rows, chosen, id, steps);
        lemma_reached_later(rows, chosen, id, steps, needed);
    }
}

/// To choose what is granted already grants nothing more.
pub proof fn grants_are_stable(
    rows: Seq<StoredPermission>,
    chosen: Seq<i64>,
    granted: Seq<i64>,
    id: i64,
)
    requires
        forall|x: i64| #[trigger] granted.contains(x) <==> is_granted(rows, chosen, x),
    ensures
        is_granted(rows, granted, id) <==> is_granted(rows, chosen, id),
{
    if is_granted(rows, granted, id) {
        let steps = choose|steps: nat| reached(rows, granted, id, steps);
        assert forall|x: i64, y: i64|
            granted.contains(x) && #[trigger] depends_on(rows, x, y) implies granted.contains(
            y,
        ) by {
            grants_are_closed(rows, chosen, x, y);
        }
        lemma_closed_holds_reached(rows, granted, granted, id, steps);
    }
    if is_granted(rows, chosen, id) {
        assert(granted.contains(id));
        assert(reached(rows, granted, id, 0));
    }
}

/// A wider choice grants at least as much.
pub proof fn grants_grow(
    rows: Seq<StoredPermission>,
    chosen: Seq<i64>,
    wider: Seq<i64>,
    id: i64,
)
    requires
        forall|x: i64| #[trigger] chosen.contains(x) ==> wider.contains(x),
        is_granted(rows, chosen, id),
    ensures
        is_granted(rows, wider, id),
{
    let steps = choose|steps: nat| reached(rows, chosen, id, steps);
    lemma_grants_grow(rows, chosen, wider, id, steps);
}

proof fn lemma_grants_grow(
    rows: Seq<StoredPermission>,
    chosen: Seq<i64>,
    wider: Seq<i64>,
    id: i64,
    steps: nat,
)
    requires
        forall|x: i64| #[trigger] chosen.contains(x) ==> wider.contains(x),
        reached(rows, chosen, id, steps),
    ensures
        reached(rows, wider, id, steps),
    decreases steps,
{
    if !chosen.contains(id) {
        let from = choose|from: i64|
            reached(rows, chosen, from, (steps - 1) as nat) && #[trigger] depends_on(
                rows,
                from,
                id,
            );
        lemma_grants_grow(rows, chosen, wider, from, (steps - 1) as nat);
    }
}

proof fn lemma_views_need_nothing()
    ensures
        dependencies("dashboard.view"@).len() == 0,
        dependencies("apps.view"@).len() == 0,
        dependencies("services.view"@).len() == 0,
        dependencies("nodes.view"@).len() == 0,
        dependencies("node_credentials.view"@).len() == 0,
        dependencies("tasks.view"@).len() == 0,
        dependencies("templates.view"@).len() == 0,
        dependencies("artifacts.view"@).len() == 0,
        dependencies("settings.view"@).len() == 0,
        dependencies("profile.view"@).len() == 0,
        dependencies("audit.view"@).len() == 0,
{
    reveal_strlit("dashboard.view");
    assert("dashboard.view"@.skip(9) =~= seq!['.', 'v', 'i', 'e', 'w']);
    super::permissions::viewing_needs_nothing("dashboard.view"@);
    reveal_strlit("apps.view");
    assert("apps.view"@.skip(4) =~= seq!['.', 'v', 'i', 'e', 'w']);
    super::permissions::viewing_needs_nothing("apps.view"@);
    reveal_strlit("services.view");
    assert("services.view"@.skip(8) =~= seq!['.', 'v', 'i', 'e', 'w']);
    super::permissions::viewing_needs_nothing("services.view"@);
    reveal_strlit("nodes.view");
    assert("nodes.view"@.skip(5) =~= seq!['.', 'v', 'i', 'e', 'w']);
    super::permissions::viewing_needs_nothing("nodes.view"@);
    reveal_strlit("node_credentials.view");
    assert("node_credentials.view"@.skip(16) =~= seq!['.', 'v', 'i', 'e', 'w']);
    super::permissions::viewing_needs_nothing("node_credentials.view"@);
    reveal_strlit("tasks.view");
    assert("tasks.view"@.skip(5) =~= seq!['.', 'v', 'i', 'e', 'w']);
    super::permissions::viewing_needs_nothing("tasks.view"@);
    reveal_strlit("templates.view");
    assert("templates.view"@.skip(9) =~= seq!['.', 'v', 'i', 'e', 'w']);
    super::permissions::viewing_needs_nothing("templates.view"@);
    reveal_strlit("artifacts.view");
    assert("artifacts.view"@.skip(9) =~= seq!['.', 'v', 'i', 'e', 'w']);
    super::permissions::viewing_needs_nothing("artifacts.view"@);
    reveal_strlit("settings.view");
    assert("settings.view"@.skip(8) =~= seq!['.', 'v', 'i', 'e', 'w']);
    super::permissions::viewing_needs_nothing("settings.view"@);
    reveal_strlit("profile.view");
    assert("profile.view"@.skip(7) =~= seq!['.', 'v', 'i', 'e', 'w']);
    super::permissions::viewing_needs_nothing("profile.view"@);
    reveal_strlit("audit.view");
    assert("audit.view"@.skip(5) =~= seq!['.', 'v', 'i', 'e', 'w']);
    super::permissions::viewing_needs_nothing("audit.view"@);
}

proof fn lemma_deployer_keys_are_closed(i: int, k: int)
    requires
        0 <= i < deployer_keys().len(),
        0 <= k < dependencies(deployer_keys()[i]).len(),
    ensures
        deployer_keys().contains(dependencies(deployer_keys()[i])[k]),
{
    super::permissions::actions_need_the_pages_they_show();
    lemma_views_need_nothing();
    let keys = deployer_keys();
    if i == 3 {
        assert(keys[1] == "apps.view"@);
        assert(keys[2] == "services.view"@);
        assert(keys[8] == "tasks.view"@);
    }
    if i == 4 {
        assert(keys[2] == "services.view"@);
    }
    if i == 5 {
        assert(keys[1] == "apps.view"@);
        assert(keys[2] == "services.view"@);
        assert(keys[8] == "tasks.view"@);
    }
    if i == 9 {
        assert(keys[8] == "tasks.view"@);
    }
    if i == 10 {
        assert(keys[8] == "tasks.view"@);
    }
    if i == 14 {
        assert(keys[13] == "profile.view"@);
    }
}

proof fn lemma_operator_keys_are_closed(i: int, k: int)
    requires
        0 <= i < operator_keys().len(),
        0 <= k < dependencies(operator_keys()[i]).len(),
    ensures
        operator_keys().contains(dependencies(operator_keys()[i])[k]),
{
    super::permissions::actions_need_the_pages_they_show();
    lemma_views_need_nothing();
    let keys = operator_keys();
    if i == 2 {
        assert(keys[1] == "apps.view"@);
    }
    if i == 3 {
        assert(keys[1] == "apps.view"@);
    }
    if i == 4 {
        assert(keys[1] == "apps.view"@);
    }
    if i == 6 {
        assert(keys[5] == "services.view"@);
    }
    if i == 8 {
        assert(keys[7] == "nodes.view"@);
    }
    if i == 9 {
        assert(keys[7] == "nodes.view"@);
        assert(keys[12] == "tasks.view"@);
    }
    if i == 11 {
        assert(keys[10] == "node_credentials.view"@);
    }
    if i == 15 {
        assert(keys[14] == "artifacts.view"@);
    }
    if i == 18 {
        assert(keys[17] == "profile.view"@);
    }
}

proof fn lemma_viewer_keys_are_closed(i: int, k: int)
    requires
        0 <= i < viewer_keys().len(),
        0 <= k < dependencies(viewer_keys()[i]).len(),
    ensures
        viewer_keys().contains(dependencies(viewer_keys()[i])[k]),
{
    super::permissions::actions_need_the_pages_they_show();
    lemma_views_need_nothing();
    let keys = viewer_keys();
    if i == 10 {
        assert(keys[9] == "profile.view"@);
    }
}

proof fn lemma_auditor_keys_are_closed(i: int, k: int)
    requires
        0 <= i < auditor_keys().len(),
        0 <= k < dependencies(auditor_keys()[i]).len(),
    ensures
        auditor_keys().contains(dependencies(auditor_keys()[i])[k]),
{
    super::permissions::actions_need_the_pages_they_show();
    lemma_views_need_nothing();
    let keys = auditor_keys();
    if i == 8 {
        assert(keys[7] == "profile.view"@);
    }
}

/// The roles that come with the platform are whole: with a permission they have all that it needs.
pub proof fn built_in_roles_are_whole(role_code: Seq<char>, key: Seq<char>, needed: Seq<char>)
    requires
        builtin_scope(role_code) is Some,
        builtin_scope(role_code)->0 is Explicit,
        builtin_scope(role_code)->0->0.contains(key),
        dependencies(key).contains(needed),
    ensures
        builtin_scope(role_code)->0->0.contains(needed),
{
    let keys = builtin_scope(role_code)->0->0;
    let i = choose|i: int| 0 <= i < keys.len() && keys[i] == key;
    let k = choose|k: int| 0 <= k < dependencies(key).len() && dependencies(key)[k] == needed;
    if role_code == "deployer"@ {
        lemma_deployer_keys_are_closed(i, k);
    } else if role_code == "operator"@ {
        lemma_operator_keys_are_closed(i, k);
    } else if role_code == "viewer"@ {
        lemma_viewer_keys_are_closed(i, k);
    } else {
        lemma_auditor_keys_are_closed(i, k);
    }
}

/// Viewers and auditors look, and change nothing but their own password.
pub proof fn viewers_and_auditors_only_look(key: Seq<char>)
    requires
        viewer_keys().contains(key) || auditor_keys().contains(key),
    ensures
        key == "profile.password.change"@ || (key.len() > 5 && key.skip(key.len() - 5) == seq![
            '.',
            'v',
            'i',
            'e',
            'w',
        ]),
{
    reveal_strlit("apps.view");
    reveal_strlit("artifacts.view");
    reveal_strlit("audit.view");
    reveal_strlit("dashboard.view");
    reveal_strlit("node_credentials.view");
    reveal_strlit("nodes.view");
    reveal_strlit("profile.password.change");
    reveal_strlit("profile.view");
    reveal_strlit("services.view");
    reveal_strlit("settings.view");
    reveal_strlit("tasks.view");
    reveal_strlit("templates.view");
    assert(key == "profile.password.change"@ || (key.len() > 5 && key.skip(key.len() - 5) =~= seq![
        '.',
        'v',
        'i',
        'e',
        'w',
    ]));
}

/// Who may what among the roles that come with the platform: administrators everything; deployers
/// deploy, take back, cancel and try again; operators set up applications, nodes and packages;
/// whatever viewers see, operators see.
pub proof fn built_in_roles_have_their_tasks(key: Seq<char>)
    ensures
        builtin_scope("super_admin"@) == Some(BuiltinScope::AllCurrent),
        builtin_scope("admin"@) == Some(BuiltinScope::AllCurrent),
        builtin_scope("deployer"@) == Some(BuiltinScope::Explicit(deployer_keys())),
        builtin_scope("operator"@) == Some(BuiltinScope::Explicit(operator_keys())),
        builtin_scope("viewer"@) == Some(BuiltinScope::Explicit(viewer_keys())),
        builtin_scope("auditor"@) == Some(BuiltinScope::Explicit(auditor_keys())),
        deployer_keys().contains("services.deploy"@),
        deployer_keys().contains("services.rollback"@),
        deployer_keys().contains("tasks.cancel"@),
        deployer_keys().contains("tasks.retry"@),
        operator_keys().contains("apps.create"@),
        operator_keys().contains("apps.update"@),
        operator_keys().contains("apps.status"@),
        operator_keys().contains("nodes.manage"@),
        operator_keys().contains("nodes.install"@),
        operator_keys().contains("node_credentials.manage"@),
        operator_keys().contains("artifacts.upload"@),
        auditor_keys().contains("audit.view"@),
        viewer_keys().contains(key) ==> operator_keys().contains(key),
{
    reveal_strlit("super_admin");
    reveal_strlit("admin");
    reveal_strlit("deployer");
    reveal_strlit("operator");
    reveal_strlit("viewer");
    reveal_strlit("auditor");
    assert("super_admin"@.len() == 11);
    assert("admin"@.len() == 5);
    assert("deployer"@.len() == 8);
    assert("operator"@.len() == 8);
    assert("viewer"@.len() == 6);
    assert("auditor"@.len() == 7);
    assert("deployer"@[0] == 'd');
    assert("operator"@[0] == 'o');
    assert(deployer_keys()[3] == "services.deploy"@);
    assert(deployer_keys()[5] == "services.rollback"@);
    assert(deployer_keys()[9] == "tasks.cancel"@);
    assert(deployer_keys()[10] == "tasks.retry"@);
    assert(operator_keys()[2] == "apps.create"@);
    assert(operator_keys()[3] == "apps.update"@);
    assert(operator_keys()[4] == "apps.status"@);
    assert(operator_keys()[8] == "nodes.manage"@);
    assert(operator_keys()[9] == "nodes.install"@);
    assert(operator_keys()[11] == "node_credentials.manage"@);
    assert(operator_keys()[15] == "artifacts.upload"@);
    assert(auditor_keys()[6] == "audit.view"@);
    let all = operator_keys();
    let some = viewer_keys();
    assert(all[0] == some[0]);
    assert(all[1] == some[1]);
    assert(all[5] == some[2]);
    assert(all[7] == some[3]);
    assert(all[10] == some[4]);
    assert(all[12] == some[5]);
    assert(all[13] == some[6]);
    assert(all[14] == some[7]);
    assert(all[16] == some[8]);
    assert(all[17] == some[9]);
    assert(all[18] == some[10]);
}

/// No role that comes with the platform but the administrators' may manage accounts, roles,
/// sessions or tokens.
pub proof fn only_administrators_manage_accounts(role_code: Seq<char>, key: Seq<char>)
    requires
        builtin_scope(role_code) is Some,
        builtin_scope(role_code)->0 is Explicit,
        builtin_scope(role_code)->0->0.contains(key),
    ensures
        !(key.len() > 5 && key[0] == 'r' && key[1] == 'b' && key[2] == 'a' && key[3] == 'c'),
        !(key.len() > 4 && key[0] == 'a' && key[1] == 'p' && key[2] == 'i' && key[3] == '_'),
{
    reveal_strlit("apps.create");
    reveal_strlit("apps.status");
    reveal_strlit("apps.update");
    reveal_strlit("apps.view");
    reveal_strlit("artifacts.upload");
    reveal_strlit("artifacts.view");
    reveal_strlit("audit.view");
    reveal_strlit("dashboard.view");
    reveal_strlit("node_credentials.manage");
    reveal_strlit("node_credentials.view");
    reveal_strlit("nodes.install");
    reveal_strlit("nodes.manage");
    reveal_strlit("nodes.view");
    reveal_strlit("profile.password.change");
    reveal_strlit("profile.view");
    reveal_strlit("services.deploy");
    reveal_strlit("services.logs");
    reveal_strlit("services.rollback");
    reveal_strlit("services.view");
    reveal_strlit("settings.view");
    reveal_strlit("tasks.cancel");
    reveal_strlit("tasks.retry");
    reveal_strlit("tasks.view");
    reveal_strlit("templates.view");
}

/// The identifiers of keys are those of the rows that stand for them.
pub proof fn keys_are_found_among_the_rows(
    rows: Seq<StoredPermission>,
    keys: Seq<Seq<char>>,
    id: i64,
)
    ensures
        ids_of_keys(rows, keys).contains(id) <==> exists|i: int|
            0 <= i < keys.len() && #[trigger] stands_for(rows, id, keys[i]),
    decreases keys.len(),
{
    if keys.len() > 0 {
        let before = keys.drop_last();
        let earlier = ids_of_keys(rows, before);
        let all = ids_of_keys(rows, keys);
        keys_are_found_among_the_rows(rows, before, id);
        if earlier.contains(id) {
            let at = choose|at: int| 0 <= at < earlier.len() && earlier[at] == id;
            assert(all[at] == id);
            let i = choose|i: int| 0 <= i < before.len() && #[trigger] stands_for(
                rows,
                id,
                before[i],
            );
            assert(stands_for(rows, id, keys[i]));
        }
        if stands_for(rows, id, keys.last()) {
            let other = choose|other: i64| stands_for(rows, other, keys.last());
            assert(other <= id && id <= other);
            assert(all[all.len() - 1] == id);
            assert(stands_for(rows, id, keys[keys.len() - 1]));
        }
        if all.contains(id) && !earlier.contains(id) {
            let at = choose|at: int| 0 <= at < all.len() && all[at] == id;
            if at < earlier.len() {
                assert(earlier[at] == id);
            }
            assert(stands_for(rows, id, keys[keys.len() - 1]));
        }
        if exists|i: int| 0 <= i < keys.len() && #[trigger] stands_for(rows, id, keys[i]) {
            let i = choose|i: int| 0 <= i < keys.len() && #[trigger] stands_for(rows, id, keys[i]);
            if i < before.len() {
                assert(stands_for(rows, id, before[i]));
            }
        }
    }
}

/// What is stale are the rows whose keys are no longer registered.
pub proof fn unregistered_rows_are_stale(rows: Seq<StoredPermission>, id: i64)
    ensures
        stale_ids(rows).contains(id) <==> exists|i: int|
            0 <= i < rows.len() && (#[trigger] rows[i]).id == id && !is_registered(rows[i].key@),
    decreases rows.len(),
{
    if rows.len() > 0 {
        let before = rows.drop_last();
        let earlier = stale_ids(before);
        let all = stale_ids(rows);
        unregistered_rows_are_stale(before, id);
        if earlier.contains(id) {
            let at = choose|at: int| 0 <= at < earlier.len() && earlier[at] == id;
            assert(all[at] == id);
            let i = choose|i: int|
                0 <= i < before.len() && (#[trigger] before[i]).id == id && !is_registered(
                    before[i].key@,
                );
            assert(rows[i] == before[i]);
        }
        if all.contains(id) && !earlier.contains(id) {
            let at = choose|at: int| 0 <= at < all.len() && all[at] == id;
            if at < earlier.len() {
                assert(earlier[at] == id);
            }
            assert(rows[rows.len() - 1].id == id);
        }
        if exists|i: int|
            0 <= i < rows.len() && (#[trigger] rows[i]).id == id && !is_registered(rows[i].key@) {
            let i = choose|i: int|
                0 <= i < rows.len() && (#[trigger] rows[i]).id == id && !is_registered(
                    rows[i].key@,
                );
            if i < before.len() {
                assert(before[i] == rows[i]);
            } else {
                assert(all[all.len() - 1] == id);
            }
        }
    }
}

/// The rows of a module are all rows of the module, in their order.
pub proof fn modules_keep_their_rows(rows: Seq<PermissionView>, row: PermissionView, module: Seq<char>)
    ensures
        rows_of_module(Seq::empty(), module) == Seq::<PermissionView>::empty(),
        row.module@ == module ==> rows_of_module(rows.push(row), module) == rows_of_module(
            rows,
            module,
        ).push(row),
        row.module@ != module ==> rows_of_module(rows.push(row), module) == rows_of_module(
            rows,
            module,
        ),
{
    assert(rows.push(row).drop_last() =~= rows);
}

/// Nothing is granted without need: what is granted was chosen, or something else that is granted
/// depends on it.
pub proof fn nothing_is_granted_without_need(
    rows: Seq<StoredPermission>,
    chosen: Seq<i64>,
    id: i64,
)
    requires
        is_granted(rows, chosen, id),
    ensures
        chosen.contains(id) || exists|from: i64|
            is_granted(rows, chosen, from) && #[trigger] depends_on(rows, from, id),
{
    let steps = choose|steps: nat| reached(rows, chosen, id, steps);
    if !chosen.contains(id) {
        let from = choose|from: i64|
            reached(rows, chosen, from, (steps - 1) as nat) && #[trigger] depends_on(
                rows,
                from,
                id,
            );
        assert(is_granted(rows, chosen, from));
        assert(depends_on(rows, from, id));
    }
}

/// A permission is known by the last row of its identifier, and stands for its key if no later
/// identifier has the same key.
pub proof fn permissions_are_known_by_their_rows(
    rows: Seq<StoredPermission>,
    row: StoredPermission,
    id: i64,
)
    ensures
        key_of(Seq::empty(), id) is None,
        row.id == id ==> key_of(rows.push(row), id) == Some(row.key@),
        row.id != id ==> key_of(rows.push(row), id) == key_of(rows, id),
{
    assert(rows.push(row).drop_last() =~= rows);
}

/// Administrators get every permission that there is.
pub proof fn administrators_get_every_permission(rows: Seq<StoredPermission>, i: int)
    requires
        0 <= i < rows.len(),
    ensures
        builtin_ids(rows, BuiltinScope::AllCurrent).len() == rows.len(),
        builtin_ids(rows, BuiltinScope::AllCurrent)[i] == rows[i].id,
{
}

/// Permissions are shown in groups: every row is in the one group of its module, and no group is
/// empty or holds a row of another module. The groups are in the order of their modules.
pub proof fn rows_are_grouped_by_module(
    groups: Seq<PermissionGroup>,
    rows: Seq<PermissionView>,
    k: int,
    i: int,
    j: int,
)
    requires
        groups_rows(groups, rows),
        0 <= k < rows.len(),
        0 <= i < groups.len(),
        0 <= j < groups.len(),
    ensures
        groups[i].permissions@.contains(rows[k]) <==> groups[i].module@ == rows[k].module@,
        exists|g: int| 0 <= g < groups.len() && #[trigger] groups[g].permissions@.contains(rows[k]),
        groups[i].permissions@.len() > 0,
        i < j ==> text_before(groups[i].module@, groups[j].module@),
{
    lemma_module_row(rows, groups[i].module@, rows[k]);
    let g = choose|g: int|
        0 <= g < groups.len() && (#[trigger] groups[g]).module@ == rows[k].module@;
    lemma_module_row(rows, groups[g].module@, rows[k]);
    assert(groups[g].permissions@.contains(rows[k]));
}

proof fn lemma_module_row(rows: Seq<PermissionView>, module: Seq<char>, row: PermissionView)
    ensures
        rows_of_module(rows, module).contains(row) <==> rows.contains(row) && row.module@ == module,
    decreases rows.len(),
{
    if rows.len() > 0 {
        let before = rows.drop_last();
        let earlier = rows_of_module(before, module);
        let all = rows_of_module(rows, module);
        lemma_module_row(before, module, row);
        if earlier.contains(row) {
            let at = choose|at: int| 0 <= at < earlier.len() && earlier[at] == row;
            assert(all[at] == row);
            let k = choose|k: int| 0 <= k < before.len() && before[k] == row;
            assert(rows[k] == row);
        }
        if all.contains(row) && !earlier.contains(row) {
            let at = choose|at: int| 0 <= at < all.len() && all[at] == row;
            if at < earlier.len() {
                assert(earlier[at] == row);
            }
            assert(rows[rows.len() - 1] == row);
        }
        if rows.contains(row) && row.module@ == module {
            let k = choose|k: int| 0 <= k < rows.len() && rows[k] == row;
            if k < before.len() {
                assert(before[k] == row);
            } else {
                assert(all[all.len() - 1] == row);
            }
        }
    }
}

} // verus!
