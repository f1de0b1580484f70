//! The forms in which names, codes and filters are accepted, and how accounts and roles are named
//! to a reader.

use vstd::prelude::*;

use super::error::{auth_outcome, invalid_input, AuthError, AuthFault};
use crate::decimal::{integer_text, signed_decimal};
use crate::order::{sorted_unique, strictly_ascending};
use crate::pieces::{cut_to, first_chars, join, joined, option_text};
use crate::query::{
    any_column, condition, like, like_pattern, normalize_optional_filter, normalize_short_filter,
    optional_filter, optional_like, part_views, push_bind, push_condition, push_sql, short_filter,
    Part, QueryPart,
};
use crate::text::{
    all_in, every, lowercase, lowered, same_text, texts, trim, trimmed, CharClass,
};

verus! {

/// A user name in lower case: at least three characters.
pub open spec fn username(value: Seq<char>) -> Result<Seq<char>, AuthFault> {
    let name = lowered(trimmed(value));
    if name.len() == 0 {
        Err(AuthFault::InvalidInput("请输入用户名"@))
    } else if name.len() < 3 {
        Err(AuthFault::InvalidInput("用户名至少需要 3 个字符"@))
    } else {
        Ok(name)
    }
}

pub fn normalize_username(value: &str) -> (result: Result<String, AuthError>)
    ensures
        auth_outcome(result) == username(value@),
{
    let name = lowercase(trim(value).as_str());
    if name.as_str().is_empty() {
        return Err(invalid_input("请输入用户名"));
    }
    if name.as_str().unicode_len() < 3 {
        return Err(invalid_input("用户名至少需要 3 个字符"));
    }
    Ok(name)
}

/// The code of a role in lower case: letters, digits, underscores and dashes.
pub open spec fn role_code(value: Seq<char>) -> Result<Seq<char>, AuthFault> {
    let code = lowered(trimmed(value));
    if code.len() == 0 {
        Err(AuthFault::InvalidInput("请输入角色编码"@))
    } else if !every(code, CharClass::RoleCode) {
        Err(AuthFault::InvalidInput("角色编码只能包含小写字母、数字、下划线和中划线"@))
    } else {
        Ok(code)
    }
}

pub fn normalize_role_code(value: &str) -> (result: Result<String, AuthError>)
    ensures
        auth_outcome(result) == role_code(value@),
{
    let code = lowercase(trim(value).as_str());
    if code.as_str().is_empty() {
        return Err(invalid_input("请输入角色编码"));
    }
    if !all_in(code.as_str(), CharClass::RoleCode) {
        return Err(invalid_input("角色编码只能包含小写字母、数字、下划线和中划线"));
    }
    Ok(code)
}

/// Where a token of the programming interface comes from: 1 to 80 characters.
pub open spec fn token_source(value: Seq<char>) -> Result<Seq<char>, AuthFault> {
    let source = trimmed(value);
    if source.len() == 0 {
        Err(AuthFault::InvalidInput("请输入 Token 来源"@))
    } else if source.len() > 80 {
        Err(AuthFault::InvalidInput("Token 来源不能超过 80 个字符"@))
    } else {
        Ok(source)
    }
}

pub fn normalize_api_token_source(value: &str) -> (result: Result<String, AuthError>)
    ensures
        auth_outcome(result) == token_source(value@),
{
    let source = trim(value);
    if source.as_str().is_empty() {
        return Err(invalid_input("请输入 Token 来源"));
    }
    if source.as_str().unicode_len() > 80 {
        return Err(invalid_input("Token 来源不能超过 80 个字符"));
    }
    Ok(source)
}

/// What is shown of a token: its first ten characters.
pub fn token_prefix(token: &str) -> (prefix: String)
    ensures
        prefix@ == cut_to(token@, 10),
{
    first_chars(token, 10)
}

/// The identifiers in ascending order, each once.
pub fn unique_ids(ids: &Vec<i64>) -> (unique: Vec<i64>)
    ensures
        strictly_ascending(unique@),
        forall|id: i64| unique@.contains(id) <==> ids@.contains(id),
{
    sorted_unique(ids)
}

pub open spec fn status_name(status: Seq<char>) -> Seq<char> {
    if status == "active"@ {
        "启用"@
    } else if status == "disabled"@ {
        "禁用"@
    } else if status == "locked"@ {
        "锁定"@
    } else {
        "未知"@
    }
}

pub fn account_status_name(status: &str) -> (name: &'static str)
    ensures
        name@ == status_name(status@),
{
    if same_text(status, "active") {
        "启用"
    } else if same_text(status, "disabled") {
        "禁用"
    } else if same_text(status, "locked") {
        "锁定"
    } else {
        "未知"
    }
}

/// An account by its display name and its user name, or by the latter alone where they agree.
pub open spec fn account_label(name: Seq<char>, display_name: Seq<char>) -> Seq<char> {
    let shown = trimmed(display_name);
    if shown.len() == 0 || shown == name {
        name
    } else {
        shown + " ("@ + name + ")"@
    }
}

pub fn format_account_label(name: &str, display_name: &str) -> (label: String)
    ensures
        label@ == account_label(name@, display_name@),
{
    let shown = trim(display_name);
    if shown.as_str().is_empty() || same_text(shown.as_str(), name) {
        name.to_owned()
    } else {
        shown.concat(" (").concat(name).concat(")")
    }
}

/// A role by its name and its code.
pub open spec fn role_label(name: Seq<char>, code: Seq<char>) -> Seq<char> {
    name + " ("@ + code + ")"@
}

pub fn format_role_label(name: &str, code: &str) -> (label: String)
    ensures
        label@ == role_label(name@, code@),
{
    name.to_owned().concat(" (").concat(code).concat(")")
}

pub open spec fn role_summary(names: Seq<Seq<char>>) -> Seq<char> {
    if names.len() == 0 {
        "未分配"@
    } else {
        joined(names, "、"@)
    }
}

pub fn role_summary_from_names(names: &Vec<String>) -> (summary: String)
    ensures
        summary@ == role_summary(texts(names@)),
{
    if names.len() == 0 {
        "未分配".to_owned()
    } else {
        join(names, "、")
    }
}

/// How far in the future something expires, as a text.
pub fn timestamp_after(seconds: i64) -> (text: String)
    ensures
        text@ == "+"@ + signed_decimal(seconds as int) + "s"@,
{
    "+".to_owned().concat(integer_text(seconds).as_str()).concat("s")
}

// ---------------------------------------------------------------------------
// Filters of the audit log
// ---------------------------------------------------------------------------

#[derive(Clone, Debug)]
pub struct AuditLogFilter {
    pub action: Option<String>,
    pub target_type: Option<String>,
    pub actor: Option<String>,
    pub query: Option<String>,
}

impl Default for AuditLogFilter {
    fn default() -> (filter: AuditLogFilter)
        ensures
            filter.action is None,
            filter.target_type is None,
            filter.actor is None,
            filter.query is None,
    {
        AuditLogFilter { action: None, target_type: None, actor: None, query: None }
    }
}

/// The filter that is taken for a given one.
pub open spec fn is_filter_of(filter: AuditLogFilter, accepted: AuditLogFilter) -> bool {
    &&& option_text(accepted.action) == optional_filter(option_text(filter.action))
    &&& option_text(accepted.target_type) == optional_filter(option_text(filter.target_type))
    &&& option_text(accepted.actor) == short_filter(option_text(filter.actor), 80)
    &&& option_text(accepted.query) == short_filter(option_text(filter.query), 120)
}

pub fn normalize_audit_filter(filter: AuditLogFilter) -> (accepted: AuditLogFilter)
    ensures
        is_filter_of(filter, accepted),
{
    AuditLogFilter {
        action: normalize_optional_filter(filter.action),
        target_type: normalize_optional_filter(filter.target_type),
        actor: normalize_short_filter(filter.actor, 80),
        query: normalize_short_filter(filter.query, 120),
    }
}

/// The condition that a text occurs in one of the columns of the audit log.
pub open spec fn audit_search(query: Option<Seq<char>>) -> Seq<Part> {
    match query {
        Some(text) => any_column(
            " AND (action LIKE "@,
            seq![
                " OR target_type LIKE "@,
                " OR target_id LIKE "@,
                " OR message LIKE "@,
                " OR actor_username LIKE "@,
            ],
            like(text),
        ).push(Part::Sql(")"@)),
        None => Seq::empty(),
    }
}

/// The conditions of a filter.
pub open spec fn audit_conditions(
    action: Option<Seq<char>>,
    target_type: Option<Seq<char>>,
    actor: Option<Seq<char>>,
    query: Option<Seq<char>>,
) -> Seq<Part> {
    condition(" AND action = "@, action) + condition(" AND target_type = "@, target_type)
        + condition(" AND actor_username LIKE "@, optional_like(actor)) + audit_search(query)
}

pub fn push_audit_filter_clauses(filter: &AuditLogFilter) -> (parts: Vec<QueryPart>)
    ensures
        part_views(parts@) == audit_conditions(
            option_text(filter.action),
            option_text(filter.target_type),
            option_text(filter.actor),
            option_text(filter.query),
        ),
{
    let mut parts: Vec<QueryPart> = Vec::new();
    assert(part_views(parts@) =~= Seq::empty());
    push_condition(&mut parts, " AND action = ", &filter.action);
    push_condition(&mut parts, " AND target_type = ", &filter.target_type);
    let actor = like_pattern(&filter.actor);
    push_condition(&mut parts, " AND actor_username LIKE ", &actor);
    let ghost before = part_views(parts@);
    assert(before =~= condition(" AND action = "@, option_text(filter.action)) + condition(
        " AND target_type = "@,
        option_text(filter.target_type),
    ) + condition(" AND actor_username LIKE "@, optional_like(option_text(filter.actor))));
    match like_pattern(&filter.query) {
        Some(pattern) => {
            let text = pattern.as_str();
            push_sql(&mut parts, " AND (action LIKE ");
            push_bind(&mut parts, text);
            push_sql(&mut parts, " OR target_type LIKE ");
            push_bind(&mut parts, text);
            push_sql(&mut parts, " OR target_id LIKE ");
            push_bind(&mut parts, text);
            push_sql(&mut parts, " OR message LIKE ");
            push_bind(&mut parts, text);
            push_sql(&mut parts, " OR actor_username LIKE ");
            push_bind(&mut parts, text);
            push_sql(&mut parts, ")");
            proof {
                let a = " OR target_type LIKE "@;
                let b = " OR target_id LIKE "@;
                let c = " OR message LIKE "@;
                let d = " OR actor_username LIKE "@;
                let four = seq![a, b, c, d];
                let three = seq![a, b, c];
                let two = seq![a, b];
                let one = seq![a];
                assert(four.drop_last() =~= three);
                assert(three.drop_last() =~= two);
                assert(two.drop_last() =~= one);
                assert(one.drop_last() =~= Seq::empty());
                let first = " AND (action LIKE "@;
                reveal_with_fuel(any_column, 6);
                assert(any_column(first, Seq::empty(), text@) =~= seq![
                    Part::Sql(first),
                    Part::Bind(text@),
                ]);
                assert(part_views(parts@) =~= before + audit_search(option_text(filter.query)));
            }
        },
        None => {
            assert(before + audit_search(option_text(filter.query)) =~= before);
        },
    }
    parts
}

// ---------------------------------------------------------------------------
// Laws
// ---------------------------------------------------------------------------

/// No value of a filter becomes a part of the query's text: the fixed texts of the conditions
/// are the same whatever the values are.
pub proof fn filters_are_bound(left: Seq<char>, right: Seq<char>, sql: Seq<char>)
    ensures
        condition(sql, Some(left))[0] == condition(sql, Some(right))[0],
        condition(sql, Some(left))[1] == Part::Bind(left),
        condition(sql, Some(left)).len() == 2,
{
}

/// No upper case letter of ASCII is left in an accepted user name.
pub proof fn usernames_are_lower_case(value: Seq<char>, i: int)
    requires
        username(value) is Ok,
        0 <= i < username(value)->Ok_0.len(),
    ensures
        !crate::text::is_upper(username(value)->Ok_0[i]),
{
}

/// A name is accepted exactly if three characters are left of it without white space around it, and
/// is kept in small letters.
pub proof fn usernames_have_three_characters(value: Seq<char>)
    ensures
        username(value) is Ok <==> trimmed(value).len() >= 3,
        username(value) matches Ok(name) ==> name == lowered(trimmed(value)),
        trimmed(value).len() == 0 ==> username(value) == Err::<Seq<char>, AuthFault>(
            AuthFault::InvalidInput("请输入用户名"@),
        ),
{
}

/// The code of a role is accepted exactly if it holds something, and nothing but letters, digits,
/// underscores and dashes; it is kept in small letters.
pub proof fn role_codes_hold_letters_digits_and_dashes(value: Seq<char>)
    ensures
        ({
            let code = lowered(trimmed(value));
            &&& role_code(value) is Ok <==> code.len() > 0 && forall|i: int|
                0 <= i < code.len() ==> ('a' <= #[trigger] code[i] <= 'z' || '0' <= code[i] <= '9'
                    || code[i] == '_' || code[i] == '-')
            &&& role_code(value) is Ok ==> role_code(value)->Ok_0 == code
        }),
{
    let code = lowered(trimmed(value));
    if every(code, CharClass::RoleCode) {
        assert forall|i: int| 0 <= i < code.len() implies ('a' <= #[trigger] code[i] <= 'z' || '0'
            <= code[i] <= '9' || code[i] == '_' || code[i] == '-') by {
            assert(CharClass::RoleCode.has(code[i]));
        }
    }
    if forall|i: int|
        0 <= i < code.len() ==> ('a' <= #[trigger] code[i] <= 'z' || '0' <= code[i] <= '9'
            || code[i] == '_' || code[i] == '-') {
        assert forall|i: int| 0 <= i < code.len() implies CharClass::RoleCode.has(
            #[trigger] code[i],
        ) by {
            let c = code[i];
        }
        assert(every(code, CharClass::RoleCode));
    }
}

/// The source of a token is accepted exactly if it has 1 to 80 characters without white space around
/// it.
pub proof fn token_sources_are_short(value: Seq<char>)
    ensures
        token_source(value) is Ok <==> 0 < trimmed(value).len() < 81,
        token_source(value) matches Ok(source) ==> source == trimmed(value),
{
}

/// An account is named by its user name, with the other name before it where that is a different
/// one. A role is named with its code in brackets.
pub proof fn labels_hold_the_names(name: Seq<char>, display_name: Seq<char>, code: Seq<char>)
    ensures
        trimmed(display_name).len() == 0 || trimmed(display_name) == name ==> account_label(
            name,
            display_name,
        ) == name,
        trimmed(display_name).len() > 0 && trimmed(display_name) != name ==> account_label(
            name,
            display_name,
        ) == trimmed(display_name) + seq![' ', '('] + name + seq![')'],
        role_label(name, code) == name + seq![' ', '('] + code + seq![')'],
{
    reveal_strlit(" (");
    reveal_strlit(")");
    assert(" ("@ =~= seq![' ', '(']);
    assert(")"@ =~= seq![')']);
}

/// Roles are summed up in their order, and their lack is said.
pub proof fn roles_are_summed_up_in_order(names: Seq<Seq<char>>, name: Seq<char>)
    ensures
        role_summary(Seq::empty()) == "未分配"@,
        role_summary(seq![name]) == name,
        names.len() > 0 ==> role_summary(names.push(name)) == role_summary(names) + "、"@ + name,
{
    assert(names.push(name).drop_last() =~= names);
}

/// Searching the audit log looks into actions, targets, messages and actors alike, and for the same
/// text in each.
pub proof fn searches_look_everywhere(text: Seq<char>)
    ensures
        ({
            let parts = audit_search(Some(text));
            let pattern = Part::Bind(seq!['%'] + text + seq!['%']);
            &&& parts.len() == 11
            &&& parts[0] == Part::Sql(" AND (action LIKE "@)
            &&& parts[2] == Part::Sql(" OR target_type LIKE "@)
            &&& parts[4] == Part::Sql(" OR target_id LIKE "@)
            &&& parts[6] == Part::Sql(" OR message LIKE "@)
            &&& parts[8] == Part::Sql(" OR actor_username LIKE "@)
            &&& parts[10] == Part::Sql(")"@)
            &&& parts[1] == pattern && parts[3] == pattern && parts[5] == pattern && parts[7]
                == pattern && parts[9] == pattern
        }),
        audit_search(None) == Seq::<Part>::empty(),
{
    reveal_strlit("%");
    assert("%"@ =~= seq!['%']);
    reveal_with_fuel(any_column, 6);
    let others = seq![
        " OR target_type LIKE "@,
        " OR target_id LIKE "@,
        " OR message LIKE "@,
        " OR actor_username LIKE "@,
    ];
    let o3 = others.drop_last();
    let o2 = o3.drop_last();
    let o1 = o2.drop_last();
    let o0 = o1.drop_last();
    let first = " AND (action LIKE "@;
    let pattern = like(text);
    assert(any_column(first, o0, pattern) =~= seq![Part::Sql(first), Part::Bind(pattern)]);
    assert(any_column(first, o1, pattern).len() == 4);
    assert(any_column(first, o2, pattern).len() == 6);
    assert(any_column(first, o3, pattern).len() == 8);
    assert(any_column(first, others, pattern).len() == 10);
}

/// A status is told in words.
pub proof fn statuses_are_told_in_words(status: Seq<char>)
    ensures
        status_name("active"@) == "启用"@,
        status_name("disabled"@) == "禁用"@,
        status_name("locked"@) == "锁定"@,
        status != "active"@ && status != "disabled"@ && status != "locked"@ ==> status_name(status)
            == "未知"@,
{
    reveal_strlit("active");
    reveal_strlit("disabled");
    reveal_strlit("locked");
    assert("active"@.len() == 6);
    assert("disabled"@.len() == 8);
    assert("locked"@.len() == 6);
    assert("active"@[0] == 'a');
    assert("locked"@[0] == 'l');
}

/// Each filter of the audit log narrows its own column, and one that is not given narrows nothing.
pub proof fn filters_narrow_their_own_columns(
    action: Seq<char>,
    target_type: Seq<char>,
    actor: Seq<char>,
)
    ensures
        audit_conditions(None, None, None, None) == Seq::<Part>::empty(),
        audit_conditions(Some(action), None, None, None) == seq![
            Part::Sql(" AND action = "@),
            Part::Bind(action),
        ],
        audit_conditions(None, Some(target_type), None, None) == seq![
            Part::Sql(" AND target_type = "@),
            Part::Bind(target_type),
        ],
        audit_conditions(None, None, Some(actor), None) == seq![
            Part::Sql(" AND actor_username LIKE "@),
            Part::Bind(seq!['%'] + actor + seq!['%']),
        ],
        audit_conditions(Some(action), Some(target_type), Some(actor), None) == audit_conditions(
            Some(action),
            None,
            None,
            None,
        ) + audit_conditions(None, Some(target_type), None, None) + audit_conditions(
            None,
            None,
            Some(actor),
            None,
        ),
{
    reveal_strlit("%");
    assert("%"@ =~= seq!['%']);
    assert(audit_conditions(None, None, None, None) =~= Seq::<Part>::empty());
    assert(audit_conditions(Some(action), None, None, None) =~= seq![
        Part::Sql(" AND action = "@),
        Part::Bind(action),
    ]);
    assert(audit_conditions(None, Some(target_type), None, None) =~= seq![
        Part::Sql(" AND target_type = "@),
        Part::Bind(target_type),
    ]);
    assert(audit_conditions(None, None, Some(actor), None) =~= seq![
        Part::Sql(" AND actor_username LIKE "@),
        Part::Bind(seq!['%'] + actor + seq!['%']),
    ]);
    assert(audit_conditions(Some(action), Some(target_type), Some(actor), None)
        =~= audit_conditions(Some(action), None, None, None) + audit_conditions(
        None,
        Some(target_type),
        None,
        None,
    ) + audit_conditions(None, None, Some(actor), None));
}

/// Filters of the audit log are taken without white space around them, those that are searched for
/// no longer than 80 characters for a name and 120 for a text.
pub proof fn audit_filters_are_short(filter: AuditLogFilter, accepted: AuditLogFilter)
    requires
        is_filter_of(filter, accepted),
    ensures
        accepted.action is Some <==> filter.action is Some && trimmed(filter.action->0@).len() > 0,
        accepted.action is Some ==> accepted.action->0@ == trimmed(filter.action->0@),
        accepted.target_type is Some <==> filter.target_type is Some && trimmed(
            filter.target_type->0@,
        ).len() > 0,
        accepted.target_type is Some ==> accepted.target_type->0@ == trimmed(
            filter.target_type->0@,
        ),
        accepted.actor is Some <==> filter.actor is Some && trimmed(filter.actor->0@).len() > 0,
        accepted.actor is Some ==> accepted.actor->0@.len() <= 80 && (trimmed(
            filter.actor->0@,
        ).len() <= 80 ==> accepted.actor->0@ == trimmed(filter.actor->0@)),
        accepted.query is Some <==> filter.query is Some && trimmed(filter.query->0@).len() > 0,
        accepted.query is Some ==> accepted.query->0@.len() <= 120 && (trimmed(
            filter.query->0@,
        ).len() <= 120 ==> accepted.query->0@ == trimmed(filter.query->0@)),
{
}

} // verus!
