//! Conditions of a query, put together from fixed texts and bound values.

use vstd::prelude::*;

use crate::pieces::{cut_to, first_chars, option_text};
use crate::text::{trim, trimmed};

verus! {

/// A part of a query: a fixed text, or a value that is bound.
#[derive(Clone, Debug, PartialEq, Eq)]
pub enum QueryPart {
    Sql(String),
    Bind(String),
}

/// A part of a query as a mathematical value.
pub enum Part {
    Sql(Seq<char>),
    Bind(Seq<char>),
}

impl View for QueryPart {
    type V = Part;

    open spec fn view(&self) -> Part {
        match self {
            QueryPart::Sql(text) => Part::Sql(text@),
            QueryPart::Bind(value) => Part::Bind(value@),
        }
    }
}

pub open spec fn part_views(parts: Seq<QueryPart>) -> Seq<Part> {
    parts.map_values(|part: QueryPart| part@)
}

pub(crate) fn push_sql(parts: &mut Vec<QueryPart>, text: &str)
    ensures
        part_views(final(parts)@) == part_views(old(parts)@).push(Part::Sql(text@)),
{
    let part = QueryPart::Sql(text.to_owned());
    let ghost before = part_views(parts@);
    parts.push(part);
    assert(part_views(parts@) =~= before.push(Part::Sql(text@)));
}

pub(crate) fn push_bind(parts: &mut Vec<QueryPart>, value: &str)
    ensures
        part_views(final(parts)@) == part_views(old(parts)@).push(Part::Bind(value@)),
{
    let part = QueryPart::Bind(value.to_owned());
    let ghost before = part_views(parts@);
    parts.push(part);
    assert(part_views(parts@) =~= before.push(Part::Bind(value@)));
}

/// A condition, where a value is given.
pub open spec fn condition(sql: Seq<char>, value: Option<Seq<char>>) -> Seq<Part> {
    match value {
        Some(text) => seq![Part::Sql(sql), Part::Bind(text)],
        None => Seq::empty(),
    }
}

pub(crate) fn push_condition(parts: &mut Vec<QueryPart>, sql: &str, value: &Option<String>)
    ensures
        part_views(final(parts)@) == part_views(old(parts)@) + condition(sql@, option_text(*value)),
{
    let ghost before = part_views(parts@);
    match value {
        Some(text) => {
            push_sql(parts, sql);
            push_bind(parts, text.as_str());
            assert(part_views(parts@) =~= before + condition(sql@, Some(text@)));
        },
        None => {
            assert(before + condition(sql@, None) =~= before);
        },
    }
}

/// A pattern that matches every text that holds the given one.
pub open spec fn like(text: Seq<char>) -> Seq<char> {
    "%"@ + text + "%"@
}

pub open spec fn optional_like(text: Option<Seq<char>>) -> Option<Seq<char>> {
    match text {
        Some(value) => Some(like(value)),
        None => None,
    }
}

pub(crate) fn like_pattern(text: &Option<String>) -> (pattern: Option<String>)
    ensures
        option_text(pattern) == optional_like(option_text(*text)),
{
    match text {
        Some(value) => Some("%".to_owned().concat(value.as_str()).concat("%")),
        None => None,
    }
}

/// A condition that one of several columns matches.
pub open spec fn any_column(first: Seq<char>, others: Seq<Seq<char>>, pattern: Seq<char>) -> Seq<
    Part,
>
    decreases others.len(),
{
    if others.len() == 0 {
        seq![Part::Sql(first), Part::Bind(pattern)]
    } else {
        any_column(first, others.drop_last(), pattern).push(Part::Sql(others.last())).push(
            Part::Bind(pattern),
        )
    }
}

/// A filter without white space around it; none where nothing is left.
pub open spec fn optional_filter(value: Option<Seq<char>>) -> Option<Seq<char>> {
    match value {
        Some(text) => if trimmed(text).len() == 0 {
            None
        } else {
            Some(trimmed(text))
        },
        None => None,
    }
}

pub fn normalize_optional_filter(value: Option<String>) -> (filter: Option<String>)
    ensures
        option_text(filter) == optional_filter(option_text(value)),
{
    match value {
        Some(text) => {
            let kept = trim(text.as_str());
            if kept.as_str().is_empty() {
                None
            } else {
                Some(kept)
            }
        },
        None => None,
    }
}

/// A filter of at most `limit` characters.
pub open spec fn short_filter(value: Option<Seq<char>>, limit: int) -> Option<Seq<char>> {
    match optional_filter(value) {
        Some(text) => Some(cut_to(text, limit)),
        None => None,
    }
}

pub(crate) fn normalize_short_filter(value: Option<String>, limit: usize) -> (filter: Option<
    String,
>)
    ensures
        option_text(filter) == short_filter(option_text(value), limit as int),
{
    match normalize_optional_filter(value) {
        Some(text) => Some(first_chars(text.as_str(), limit)),
        None => None,
    }
}

/// A filter that is blank is none; any other is taken without white space around it, and no longer
/// than its limit.
pub proof fn blank_filters_are_none(value: Option<Seq<char>>, limit: int)
    requires
        limit >= 0,
    ensures
        optional_filter(value) is Some <==> value is Some && trimmed(value->0).len() > 0,
        optional_filter(value) matches Some(text) ==> text == trimmed(value->0),
        short_filter(value, limit) is Some <==> optional_filter(value) is Some,
        short_filter(value, limit) matches Some(text) ==> text.len() <= limit && text.is_prefix_of(
            trimmed(value->0),
        ) && (trimmed(value->0).len() <= limit ==> text == trimmed(value->0)),
{
}

/// What is searched for may stand anywhere, and is never part of the statement itself.
pub proof fn searched_texts_stand_anywhere(text: Seq<char>, sql: Seq<char>)
    ensures
        like(text) == seq!['%'] + text + seq!['%'],
        optional_like(None) is None,
        optional_like(Some(text)) == Some(seq!['%'] + text + seq!['%']),
        condition(sql, None) == Seq::<Part>::empty(),
        condition(sql, Some(text)) == seq![Part::Sql(sql), Part::Bind(text)],
{
    reveal_strlit("%");
    assert("%"@ =~= seq!['%']);
}

} // verus!
