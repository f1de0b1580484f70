//! The event log: what is accepted into it, and how it is searched.

use vstd::prelude::*;

use crate::pieces::{first_chars, option_text};
use crate::query::{
    any_column, condition, like, like_pattern, normalize_optional_filter, normalize_short_filter,
    optional_filter, part_views, push_bind, push_condition, push_sql, short_filter, Part,
    QueryPart,
};
use crate::text::{same_text, trim, trimmed};

verus! {

#[derive(Clone, Debug)]
pub struct EventLogFilter {
    pub event_type: Option<String>,
    pub level: Option<String>,
    pub target_type: Option<String>,
    pub query: Option<String>,
}

impl Default for EventLogFilter {
    fn default() -> (filter: EventLogFilter)
        ensures
            filter.event_type is None,
            filter.level is None,
            filter.target_type is None,
            filter.query is None,
    {
        EventLogFilter { event_type: None, level: None, target_type: None, query: None }
    }
}

#[derive(Clone, Debug)]
pub struct EventLogItem {
    pub id: i64,
    pub event_type: String,
    pub level: String,
    pub target_type: String,
    pub target_id: String,
    pub target_name: String,
    pub title: String,
    pub summary: String,
    pub detail: String,
    pub created_at: String,
}

#[derive(Clone, Debug)]
pub struct EventFilterOption {
    pub value: String,
}

pub struct EventLogInput<'a> {
    pub event_type: &'a str,
    pub level: &'a str,
    pub target_type: &'a str,
    pub target_id: &'a str,
    pub target_name: &'a str,
    pub title: &'a str,
    pub summary: &'a str,
    pub detail: &'a str,
}

#[derive(Debug)]
pub enum EventLogError {
    InvalidInput(String),
    Internal(String),
}

impl EventLogError {
    pub open spec fn text(self) -> Seq<char> {
        match self {
            EventLogError::InvalidInput(message) => message@,
            EventLogError::Internal(message) => message@,
        }
    }

    pub fn message(&self) -> (message: &str)
        ensures
            message@ == self.text(),
    {
        match self {
            EventLogError::InvalidInput(message) => message.as_str(),
            EventLogError::Internal(message) => message.as_str(),
        }
    }
}

/// The error says that the level is not supported.
pub open spec fn is_level_error(error: EventLogError) -> bool {
    error is InvalidInput && error.text() == "事件级别不支持"@
}

fn level_error() -> (error: EventLogError)
    ensures
        is_level_error(error),
{
    EventLogError::InvalidInput("事件级别不支持".to_owned())
}

pub open spec fn is_level(name: Seq<char>) -> bool {
    name == "debug"@ || name == "info"@ || name == "warning"@ || name == "error"@
}

/// The level of an event; the usual one where none is given.
pub open spec fn level(value: Seq<char>) -> Option<Seq<char>> {
    let name = trimmed(value);
    if is_level(name) {
        Some(name)
    } else if name.len() == 0 {
        Some("info"@)
    } else {
        None
    }
}

pub fn normalize_level(value: &str) -> (result: Result<&'static str, EventLogError>)
    ensures
        match result {
            Ok(name) => level(value@) == Some(name@),
            Err(error) => level(value@) is None && is_level_error(error),
        },
{
    let name = trim(value);
    let text = name.as_str();
    if same_text(text, "debug") {
        Ok("debug")
    } else if same_text(text, "info") {
        Ok("info")
    } else if same_text(text, "warning") {
        Ok("warning")
    } else if same_text(text, "error") {
        Ok("error")
    } else if text.is_empty() {
        Ok("info")
    } else {
        Err(level_error())
    }
}

/// The text without what exceeds the limit, with a mark where something was cut off.
pub open spec fn truncated(value: Seq<char>, limit: int) -> Seq<char> {
    if value.len() > limit {
        value.take(limit) + "\n... truncated ..."@
    } else {
        value
    }
}

pub fn truncate(value: &str, max_chars: usize) -> (text: String)
    ensures
        text@ == truncated(value@, max_chars as int),
{
    let kept = first_chars(value, max_chars);
    if value.unicode_len() > max_chars {
        kept.concat("\n... truncated ...")
    } else {
        kept
    }
}

/// An event as it is stored.
#[derive(Clone, Debug)]
pub struct EventRow {
    pub event_type: String,
    pub level: &'static str,
    pub target_type: String,
    pub target_id: String,
    pub target_name: String,
    pub title: String,
    pub summary: String,
    pub detail: String,
}

/// A field of an event: trimmed and cut to its limit.
pub open spec fn field(value: Seq<char>, limit: int) -> Seq<char> {
    truncated(trimmed(value), limit)
}

fn field_text(value: &str, max_chars: usize) -> (text: String)
    ensures
        text@ == field(value@, max_chars as int),
{
    truncate(trim(value).as_str(), max_chars)
}

/// The row that an event becomes.
pub open spec fn is_row_of(input: EventLogInput<'_>, row: EventRow) -> bool {
    &&& level(input.level@) == Some(row.level@)
    &&& row.event_type@ == field(input.event_type@, 80)
    &&& row.target_type@ == field(input.target_type@, 80)
    &&& row.target_id@ == field(input.target_id@, 80)
    &&& row.target_name@ == field(input.target_name@, 160)
    &&& row.title@ == field(input.title@, 160)
    &&& row.summary@ == field(input.summary@, 1000)
    &&& row.detail@ == field(input.detail@, 16_000)
}

/// Accepts an event into the log.
pub fn insert_event_log(input: EventLogInput<'_>) -> (result: Result<EventRow, EventLogError>)
    ensures
        match result {
            Ok(row) => is_row_of(input, row),
            Err(error) => level(input.level@) is None && is_level_error(error),
        },
{
    let level = match normalize_level(input.level) {
        Ok(level) => level,
        Err(error) => return Err(error),
    };
    Ok(
        EventRow {
            event_type: field_text(input.event_type, 80),
            level,
            target_type: field_text(input.target_type, 80),
            target_id: field_text(input.target_id, 80),
            target_name: field_text(input.target_name, 160),
            title: field_text(input.title, 160),
            summary: field_text(input.summary, 1000),
            detail: field_text(input.detail, 16_000),
        },
    )
}

/// The filter that is taken for a given one.
pub open spec fn is_filter_of(filter: EventLogFilter, accepted: EventLogFilter) -> bool {
    &&& option_text(accepted.event_type) == short_filter(option_text(filter.event_type), 80)
    &&& option_text(accepted.target_type) == short_filter(option_text(filter.target_type), 80)
    &&& option_text(accepted.query) == short_filter(option_text(filter.query), 120)
    &&& option_text(accepted.level) == optional_filter(option_text(filter.level))
}

/// Accepts a filter: what is given is trimmed and cut, and the level must be one of the known
/// ones.
pub fn normalize_event_filter(filter: EventLogFilter) -> (result: Result<
    EventLogFilter,
    EventLogError,
>)
    ensures
        ({
            let wanted = optional_filter(option_text(filter.level));
            match result {
                Ok(accepted) => {
                    &&& wanted is Some ==> is_level(wanted->0)
                    &&& is_filter_of(filter, accepted)
                },
                Err(error) => wanted is Some && !is_level(wanted->0) && is_level_error(error),
            }
        }),
{
    let level = normalize_optional_filter(filter.level);
    match &level {
        Some(name) => {
            let text = name.as_str();
            if !same_text(text, "debug") && !same_text(text, "info") && !same_text(
                text,
                "warning",
            ) && !same_text(text, "error") {
                return Err(level_error());
            }
        },
        None => {},
    }
    Ok(
        EventLogFilter {
            event_type: normalize_short_filter(filter.event_type, 80),
            level,
            target_type: normalize_short_filter(filter.target_type, 80),
            query: normalize_short_filter(filter.query, 120),
        },
    )
}

/// The columns that are searched after the first.
pub open spec fn event_columns() -> Seq<Seq<char>> {
    seq![
        " OR level LIKE "@,
        " OR target_type LIKE "@,
        " OR target_id LIKE "@,
        " OR target_name LIKE "@,
        " OR title LIKE "@,
        " OR summary LIKE "@,
        " OR detail LIKE "@,
    ]
}

/// The condition that a text occurs in one of the columns of the event log.
pub open spec fn event_search(query: Option<Seq<char>>) -> Seq<Part> {
    match query {
        Some(text) => any_column(" AND (event_type LIKE "@, event_columns(), like(text)).push(
            Part::Sql(")"@),
        ),
        None => Seq::empty(),
    }
}

/// The conditions of a filter.
pub open spec fn event_conditions(
    event_type: Option<Seq<char>>,
    level: Option<Seq<char>>,
    target_type: Option<Seq<char>>,
    query: Option<Seq<char>>,
) -> Seq<Part> {
    condition(" AND event_type = "@, event_type) + condition(" AND level = "@, level) + condition(
        " AND target_type = "@,
        target_type,
    ) + event_search(query)
}

fn push_search(parts: &mut Vec<QueryPart>, pattern: &str)
    ensures
        part_views(final(parts)@) == part_views(old(parts)@) + any_column(
            " AND (event_type LIKE "@,
            event_columns(),
            pattern@,
        ).push(Part::Sql(")"@)),
{
    let columns: Vec<&'static str> = vec![
        " OR level LIKE ",
        " OR target_type LIKE ",
        " OR target_id LIKE ",
        " OR target_name LIKE ",
        " OR title LIKE ",
        " OR summary LIKE ",
        " OR detail LIKE ",
    ];
    let ghost start = part_views(parts@);
    let ghost all = event_columns();
    let ghost first = " AND (event_type LIKE "@;
    assert(columns@.map_values(|column: &'static str| column@) =~= all);
    push_sql(parts, " AND (event_type LIKE ");
    push_bind(parts, pattern);
    assert(all.take(0) =~= Seq::empty());
    assert(part_views(parts@) =~= start + any_column(first, all.take(0), pattern@));
    let mut i: usize = 0;
    while i < columns.len()
        invariant
            i <= columns@.len(),
            columns@.map_values(|column: &'static str| column@) == all,
            part_views(parts@) == start + any_column(first, all.take(i as int), pattern@),
        decreases columns@.len() - i,
    {
        let ghost before = any_column(first, all.take(i as int), pattern@);
        assert(all[i as int] == columns@[i as int]@);
        assert(all.take(i + 1).drop_last() =~= all.take(i as int));
        push_sql(parts, columns[i]);
        push_bind(parts, pattern);
        i = i + 1;
        assert(part_views(parts@) =~= start + any_column(first, all.take(i as int), pattern@));
    }
    assert(columns@.len() == all.len());
    assert(all.take(i as int) =~= all);
    push_sql(parts, ")");
    assert(part_views(parts@) =~= start + any_column(first, all, pattern@).push(
        Part::Sql(")"@),
    ));
}

pub fn push_event_filter_clauses(filter: &EventLogFilter) -> (parts: Vec<QueryPart>)
    ensures
        part_views(parts@) == event_conditions(
            option_text(filter.event_type),
            option_text(filter.level),
            option_text(filter.target_type),
            option_text(filter.query),
        ),
{
    let mut parts: Vec<QueryPart> = Vec::new();
    assert(part_views(parts@) =~= Seq::empty());
    push_condition(&mut parts, " AND event_type = ", &filter.event_type);
    push_condition(&mut parts, " AND level = ", &filter.level);
    push_condition(&mut parts, " AND target_type = ", &filter.target_type);
    let ghost before = part_views(parts@);
    assert(before =~= condition(" AND event_type = "@, option_text(filter.event_type)) + condition(
        " AND level = "@,
        option_text(filter.level),
    ) + condition(" AND target_type = "@, option_text(filter.target_type)));
    match like_pattern(&filter.query) {
        Some(pattern) => {
            push_search(&mut parts, pattern.as_str());
        },
        None => {
            assert(before + event_search(None) =~= before);
        },
    }
    parts
}

/// No field of a stored event is longer than its limit and the mark of what was cut off.
pub proof fn fields_are_bounded(value: Seq<char>, limit: int)
    requires
        limit >= 0,
    ensures
        field(value, limit).len() <= limit + "\n... truncated ..."@.len(),
{
}

/// An event is of one of four levels; where none is given it is told for information.
pub proof fn events_have_one_of_four_levels(value: Seq<char>)
    ensures
        ({
            let name = trimmed(value);
            &&& level(value) is Some <==> name.len() == 0 || name == "debug"@ || name == "info"@
                || name == "warning"@ || name == "error"@
            &&& name.len() == 0 ==> level(value) == Some("info"@)
            &&& name.len() > 0 && level(value) is Some ==> level(value) == Some(name)
        }),
{
    reveal_strlit("debug");
    reveal_strlit("info");
    reveal_strlit("warning");
    reveal_strlit("error");
    assert("debug"@.len() == 5);
    assert("info"@.len() == 4);
    assert("warning"@.len() == 7);
    assert("error"@.len() == 5);
    assert("debug"@[0] == 'd');
    assert("error"@[0] == 'e');
}

/// A text is kept whole up to its limit; of a longer one the beginning is kept, and it is said that
/// something is missing.
pub proof fn long_texts_are_cut_and_marked(value: Seq<char>, limit: int)
    requires
        limit >= 0,
    ensures
        value.len() <= limit ==> truncated(value, limit) == value,
        value.len() > limit ==> truncated(value, limit) == value.subrange(0, limit)
            + "\n... truncated ..."@,
        field(value, limit) == truncated(trimmed(value), limit),
{
    if value.len() > limit {
        assert(value.take(limit) =~= value.subrange(0, limit));
    }
}

/// Every field of an event has its limit: 80 characters for kinds and identifiers, 160 for names and
/// titles, 1000 for the summary and 16000 for the details.
pub proof fn events_are_kept_within_limits(input: EventLogInput<'_>, row: EventRow)
    requires
        is_row_of(input, row),
    ensures
        trimmed(input.event_type@).len() <= 80 ==> row.event_type@ == trimmed(input.event_type@),
        row.event_type@.len() <= 80 + 18,
        trimmed(input.target_type@).len() <= 80 ==> row.target_type@ == trimmed(input.target_type@),
        row.target_type@.len() <= 80 + 18,
        trimmed(input.target_id@).len() <= 80 ==> row.target_id@ == trimmed(input.target_id@),
        row.target_id@.len() <= 80 + 18,
        trimmed(input.target_name@).len() <= 160 ==> row.target_name@ == trimmed(
            input.target_name@,
        ),
        row.target_name@.len() <= 160 + 18,
        trimmed(input.title@).len() <= 160 ==> row.title@ == trimmed(input.title@),
        row.title@.len() <= 160 + 18,
        trimmed(input.summary@).len() <= 1000 ==> row.summary@ == trimmed(input.summary@),
        row.summary@.len() <= 1000 + 18,
        trimmed(input.detail@).len() <= 16_000 ==> row.detail@ == trimmed(input.detail@),
        row.detail@.len() <= 16_000 + 18,
{
    reveal_strlit("\n... truncated ...");
    assert("\n... truncated ..."@.len() == 18);
}

/// Searching the event log looks into all columns of an event, and for the same text in each.
pub proof fn searches_look_into_all_columns(text: Seq<char>)
    ensures
        ({
            let parts = event_search(Some(text));
            let pattern = Part::Bind(seq!['%'] + text + seq!['%']);
            &&& parts.len() == 17
            &&& parts[0] == Part::Sql(" AND (event_type LIKE "@)
            &&& parts[2] == Part::Sql(" OR level LIKE "@)
            &&& parts[4] == Part::Sql(" OR target_type LIKE "@)
            &&& parts[6] == Part::Sql(" OR target_id LIKE "@)
            &&& parts[8] == Part::Sql(" OR target_name LIKE "@)
            &&& parts[10] == Part::Sql(" OR title LIKE "@)
            &&& parts[12] == Part::Sql(" OR summary LIKE "@)
            &&& parts[14] == Part::Sql(" OR detail LIKE "@)
            &&& parts[16] == Part::Sql(")"@)
            &&& parts[1] == pattern && parts[3] == pattern && parts[5] == pattern && parts[7]
                == pattern && parts[9] == pattern && parts[11] == pattern && parts[13] == pattern
                && parts[15] == pattern
        }),
        event_search(None) == Seq::<Part>::empty(),
{
    reveal_strlit("%");
    assert("%"@ =~= seq!['%']);
    let first = " AND (event_type LIKE "@;
    let pattern = like(text);
    let c7 = event_columns();
    let c6 = c7.drop_last();
    let c5 = c6.drop_last();
    let c4 = c5.drop_last();
    let c3 = c4.drop_last();
    let c2 = c3.drop_last();
    let c1 = c2.drop_last();
    let c0 = c1.drop_last();
    assert(any_column(first, c0, pattern) =~= seq![Part::Sql(first), Part::Bind(pattern)]);
    assert(any_column(first, c1, pattern).len() == 4);
    assert(any_column(first, c2, pattern).len() == 6);
    assert(any_column(first, c3, pattern).len() == 8);
    assert(any_column(first, c4, pattern).len() == 10);
    assert(any_column(first, c5, pattern).len() == 12);
    assert(any_column(first, c6, pattern).len() == 14);
    assert(any_column(first, c7, pattern).len() == 16);
}

/// Each filter of the event log narrows its own column, and one that is not given narrows nothing.
pub proof fn filters_narrow_their_own_columns(
    event_type: Seq<char>,
    wanted: Seq<char>,
    target_type: Seq<char>,
)
    ensures
        event_conditions(None, None, None, None) == Seq::<Part>::empty(),
        event_conditions(Some(event_type), None, None, None) == seq![
            Part::Sql(" AND event_type = "@),
            Part::Bind(event_type),
        ],
        event_conditions(None, Some(wanted), None, None) == seq![
            Part::Sql(" AND level = "@),
            Part::Bind(wanted),
        ],
        event_conditions(None, None, Some(target_type), None) == seq![
            Part::Sql(" AND target_type = "@),
            Part::Bind(target_type),
        ],
        event_conditions(Some(event_type), Some(wanted), Some(target_type), None)
            == event_conditions(Some(event_type), None, None, None) + event_conditions(
            None,
            Some(wanted),
            None,
            None,
        ) + event_conditions(None, None, Some(target_type), None),
{
    assert(event_conditions(None, None, None, None) =~= Seq::<Part>::empty());
    assert(event_conditions(Some(event_type), None, None, None) =~= seq![
        Part::Sql(" AND event_type = "@),
        Part::Bind(event_type),
    ]);
    assert(event_conditions(None, Some(wanted), None, None) =~= seq![
        Part::Sql(" AND level = "@),
        Part::Bind(wanted),
    ]);
    assert(event_conditions(None, None, Some(target_type), None) =~= seq![
        Part::Sql(" AND target_type = "@),
        Part::Bind(target_type),
    ]);
    assert(event_conditions(Some(event_type), Some(wanted), Some(target_type), None)
        =~= event_conditions(Some(event_type), None, None, None) + event_conditions(
        None,
        Some(wanted),
        None,
        None,
    ) + event_conditions(None, None, Some(target_type), None));
}

/// Filters of the event log are taken without white space around them, and no longer than 80
/// characters for a kind and 120 for a text.
pub proof fn event_filters_are_short(filter: EventLogFilter, accepted: EventLogFilter)
    requires
        is_filter_of(filter, accepted),
    ensures
        accepted.event_type is Some <==> filter.event_type is Some && trimmed(
            filter.event_type->0@,
        ).len() > 0,
        accepted.event_type is Some ==> accepted.event_type->0@.len() <= 80 && (trimmed(
            filter.event_type->0@,
        ).len() <= 80 ==> accepted.event_type->0@ == trimmed(filter.event_type->0@)),
        accepted.target_type is Some <==> filter.target_type is Some && trimmed(
            filter.target_type->0@,
        ).len() > 0,
        accepted.target_type is Some ==> accepted.target_type->0@.len() <= 80 && (trimmed(
            filter.target_type->0@,
        ).len() <= 80 ==> accepted.target_type->0@ == trimmed(filter.target_type->0@)),
        accepted.query is Some <==> filter.query is Some && trimmed(filter.query->0@).len() > 0,
        accepted.query is Some ==> accepted.query->0@.len() <= 120 && (trimmed(
            filter.query->0@,
        ).len() <= 120 ==> accepted.query->0@ == trimmed(filter.query->0@)),
        accepted.level is Some ==> accepted.level->0@ == trimmed(filter.level->0@),
{
}

} // verus!
