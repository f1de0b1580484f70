//! The environment of a unit: which variables it gets, and how they are written down.

use vstd::prelude::*;
use vstd::utf8::encode_utf8;

use super::error::{runtime_fault, validation, DeploymentRuntimeError, RuntimeFault};
use crate::deploy::commands::env_views;
use crate::order::text_before;
use crate::pieces::{
    after_prefix, cut_first, first_of, lemma_first_of, lemma_pieces_not_empty, lines, pieces,
    strip_prefix, without_carriage_return,
};
use crate::text::{all_in, any, any_in, chars_of, every, is_digit, CharClass};

verus! {

pub proof fn lemma_entry_push(entries: Seq<(String, String)>, entry: (String, String))
    ensures
        env_views(entries.push(entry)) == env_views(entries).push((entry.0@, entry.1@)),
{
    assert(env_views(entries.push(entry)) =~= env_views(entries).push((entry.0@, entry.1@)));
}

/// What the names of a unit's variables begin with among all secrets.
pub open spec fn unit_prefix(environment_key: Seq<char>, unit_key: Seq<char>) -> Seq<char> {
    environment_key + "."@ + unit_key + "."@
}

/// The entries whose names begin with the prefix, by the rest of their names.
pub open spec fn entries_below(
    entries: Seq<(Seq<char>, Seq<char>)>,
    prefix: Seq<char>,
) -> Seq<(Seq<char>, Seq<char>)>
    decreases entries.len(),
{
    if entries.len() == 0 {
        entries
    } else {
        let before = entries_below(entries.drop_last(), prefix);
        match after_prefix(entries.last().0, prefix) {
            Some(name) => before.push((name, entries.last().1)),
            None => before,
        }
    }
}

/// The variables of a unit in an environment, among all secrets.
pub fn environment_variables(
    secrets: &Vec<(String, String)>,
    environment_key: &str,
    unit_key: &str,
) -> (variables: Vec<(String, String)>)
    ensures
        env_views(variables@) == entries_below(
            env_views(secrets@),
            unit_prefix(environment_key@, unit_key@),
        ),
{
    let prefix = environment_key.to_owned().concat(".").concat(unit_key).concat(".");
    let ghost all = env_views(secrets@);
    let mut variables: Vec<(String, String)> = Vec::new();
    let mut i: usize = 0;
    assert(env_views(variables@) =~= entries_below(all.take(0), prefix@));
    while i < secrets.len()
        invariant
            i <= secrets@.len(),
            all == env_views(secrets@),
            env_views(variables@) == entries_below(all.take(i as int), prefix@),
        decreases secrets@.len() - i,
    {
        assert(all.take(i + 1).drop_last() =~= all.take(i as int));
        assert(all[i as int] == (secrets@[i as int].0@, secrets@[i as int].1@));
        match strip_prefix(secrets[i].0.as_str(), prefix.as_str()) {
            Some(name) => {
                let value = secrets[i].1.clone();
                proof {
                    lemma_entry_push(variables@, (name, value));
                }
                variables.push((name, value));
            },
            None => {},
        }
        i = i + 1;
    }
    assert(all.take(i as int) =~= all);
    variables
}

/// A variable that can be written down: a name of letters, digits and underscores that does not
/// begin with a digit, and a value of one line.
pub open spec fn is_valid_variable(name: Seq<char>, value: Seq<char>) -> bool {
    name.len() > 0 && every(name, CharClass::Word) && !is_digit(name[0]) && !any(
        value,
        CharClass::LineBreak,
    )
}

/// What is wrong with the first variable that cannot be written down.
pub open spec fn variables_fault(entries: Seq<(Seq<char>, Seq<char>)>) -> Option<RuntimeFault>
    decreases entries.len(),
{
    if entries.len() == 0 {
        None
    } else {
        match variables_fault(entries.drop_last()) {
            Some(fault) => Some(fault),
            None => if is_valid_variable(entries.last().0, entries.last().1) {
                None
            } else {
                Some(
                    RuntimeFault::Validation(
                        "invalid deployment environment variable "@ + entries.last().0,
                    ),
                )
            },
        }
    }
}

proof fn lemma_fault_stays(entries: Seq<(Seq<char>, Seq<char>)>, count: int)
    requires
        0 <= count <= entries.len(),
        variables_fault(entries.take(count)) is Some,
    ensures
        variables_fault(entries) == variables_fault(entries.take(count)),
    decreases entries.len() - count,
{
    if count < entries.len() {
        assert(entries.take(count + 1).drop_last() =~= entries.take(count));
        lemma_fault_stays(entries, count + 1);
    } else {
        assert(entries.take(count) =~= entries);
    }
}

fn valid_variable(name: &str, value: &str) -> (valid: bool)
    ensures
        valid == is_valid_variable(name@, value@),
{
    let chars = chars_of(name);
    chars.len() > 0 && all_in(name, CharClass::Word) && !('0' <= chars[0] && chars[0] <= '9')
        && !any_in(value, CharClass::LineBreak)
}

pub fn validate_environment_variables(variables: &Vec<(String, String)>) -> (result: Result<
    (),
    DeploymentRuntimeError,
>)
    ensures
        runtime_fault(result) == variables_fault(env_views(variables@)),
{
    let ghost all = env_views(variables@);
    let mut i: usize = 0;
    assert(all.take(0) =~= Seq::empty());
    while i < variables.len()
        invariant
            i <= variables@.len(),
            all == env_views(variables@),
            variables_fault(all.take(i as int)) is None,
        decreases variables@.len() - i,
    {
        assert(all.take(i + 1).drop_last() =~= all.take(i as int));
        assert(all[i as int] == (variables@[i as int].0@, variables@[i as int].1@));
        if !valid_variable(variables[i].0.as_str(), variables[i].1.as_str()) {
            proof {
                lemma_fault_stays(all, i + 1);
            }
            return Err(
                validation(
                    "invalid deployment environment variable ".to_owned().concat(
                        variables[i].0.as_str(),
                    ).as_str(),
                ),
            );
        }
        i = i + 1;
    }
    assert(all.take(i as int) =~= all);
    Ok(())
}

/// A line for each variable.
pub open spec fn environment_file(entries: Seq<(Seq<char>, Seq<char>)>) -> Seq<char>
    decreases entries.len(),
{
    if entries.len() == 0 {
        Seq::empty()
    } else {
        environment_file(entries.drop_last()) + entries.last().0 + "="@ + entries.last().1 + "\n"@
    }
}

pub fn render_environment_file(variables: &Vec<(String, String)>) -> (bytes: Vec<u8>)
    ensures
        bytes@ == encode_utf8(environment_file(env_views(variables@))),
{
    let ghost all = env_views(variables@);
    let mut text = String::new();
    let mut i: usize = 0;
    assert(all.take(0) =~= Seq::empty());
    while i < variables.len()
        invariant
            i <= variables@.len(),
            all == env_views(variables@),
            text@ == environment_file(all.take(i as int)),
        decreases variables@.len() - i,
    {
        assert(all.take(i + 1).drop_last() =~= all.take(i as int));
        text.append(variables[i].0.as_str());
        text.append("=");
        text.append(variables[i].1.as_str());
        text.append("\n");
        i = i + 1;
    }
    assert(all.take(i as int) =~= all);
    text.as_str().as_bytes_vec()
}

/// The variables that every script gets, after those of the unit.
pub open spec fn platform_variables(
    app_key: Seq<char>,
    environment_key: Seq<char>,
    unit_key: Seq<char>,
    version: Seq<char>,
) -> Seq<(Seq<char>, Seq<char>)> {
    seq![
        ("EASY_DEPLOY_APP_KEY"@, app_key),
        ("EASY_DEPLOY_ENVIRONMENT"@, environment_key),
        ("EASY_DEPLOY_UNIT_KEY"@, unit_key),
        ("EASY_DEPLOY_VERSION"@, version),
    ]
}

/// The variables of a script.
pub fn execution_environment(
    variables: &Vec<(String, String)>,
    app_key: &str,
    environment_key: &str,
    unit_key: &str,
    version: &str,
) -> (env: Vec<(String, String)>)
    ensures
        env_views(env@) == env_views(variables@) + platform_variables(
            app_key@,
            environment_key@,
            unit_key@,
            version@,
        ),
{
    let ghost all = env_views(variables@);
    let mut env: Vec<(String, String)> = Vec::new();
    let mut i: usize = 0;
    assert(env_views(env@) =~= all.take(0));
    while i < variables.len()
        invariant
            i <= variables@.len(),
            all == env_views(variables@),
            env_views(env@) == all.take(i as int),
        decreases variables@.len() - i,
    {
        let entry = (variables[i].0.clone(), variables[i].1.clone());
        proof {
            lemma_entry_push(env@, entry);
        }
        env.push(entry);
        i = i + 1;
        assert(env_views(env@) =~= all.take(i as int));
    }
    assert(env_views(env@) =~= all);
    let ghost own = env@;
    assert(forall|k: int| 0 <= k < all.len() ==> #[trigger] all[k] == (own[k].0@, own[k].1@));
    env.push(("EASY_DEPLOY_APP_KEY".to_owned(), app_key.to_owned()));
    env.push(("EASY_DEPLOY_ENVIRONMENT".to_owned(), environment_key.to_owned()));
    env.push(("EASY_DEPLOY_UNIT_KEY".to_owned(), unit_key.to_owned()));
    env.push(("EASY_DEPLOY_VERSION".to_owned(), version.to_owned()));
    assert(env_views(env@) =~= all + platform_variables(
        app_key@,
        environment_key@,
        unit_key@,
        version@,
    ));
    env
}

/// The values of the variables, which must not show up in a log.
pub open spec fn secret_values(entries: Seq<(Seq<char>, Seq<char>)>) -> Seq<Seq<char>> {
    entries.map_values(|entry: (Seq<char>, Seq<char>)| entry.1)
}

pub fn secrets_of(variables: &Vec<(String, String)>) -> (secrets: Vec<String>)
    ensures
        crate::text::texts(secrets@) == secret_values(env_views(variables@)),
{
    let ghost model = secret_values(env_views(variables@));
    let mut secrets: Vec<String> = Vec::new();
    let mut i: usize = 0;
    assert(crate::text::texts(secrets@) =~= model.take(0));
    while i < variables.len()
        invariant
            i <= variables@.len(),
            model == secret_values(env_views(variables@)),
            crate::text::texts(secrets@) == model.take(i as int),
        decreases variables@.len() - i,
    {
        assert(model[i as int] == variables@[i as int].1@);
        proof {
            crate::text::lemma_texts_push(secrets@, variables@[i as int].1);
        }
        secrets.push(variables[i].1.clone());
        i = i + 1;
        assert(crate::text::texts(secrets@) =~= model.take(i as int));
    }
    assert(model.take(i as int) =~= model);
    secrets
}

// ---------------------------------------------------------------------------
// Laws
// ---------------------------------------------------------------------------

/// The names stand in dictionary order, each once.
pub open spec fn names_ascend(entries: Seq<(Seq<char>, Seq<char>)>) -> bool {
    forall|i: int, j: int| 0 <= i < j < entries.len() ==> text_before(entries[i].0, entries[j].0)
}

proof fn lemma_order_below_prefix(prefix: Seq<char>, a: Seq<char>, b: Seq<char>)
    ensures
        text_before(prefix + a, prefix + b) == text_before(a, b),
    decreases prefix.len(),
{
    if prefix.len() == 0 {
        assert(prefix + a =~= a);
        assert(prefix + b =~= b);
    } else {
        assert((prefix + a).drop_first() =~= prefix.drop_first() + a);
        assert((prefix + b).drop_first() =~= prefix.drop_first() + b);
        lemma_order_below_prefix(prefix.drop_first(), a, b);
    }
}

/// Each of the entries below the prefix comes from an entry of the same value whose name begins
/// with the prefix, and these come in the same order.
proof fn lemma_entries_below(entries: Seq<(Seq<char>, Seq<char>)>, prefix: Seq<char>)
    ensures
        forall|i: int|
            0 <= i < entries_below(entries, prefix).len() ==> entries.contains(
                (
                    prefix + (#[trigger] entries_below(entries, prefix)[i]).0,
                    entries_below(entries, prefix)[i].1,
                ),
            ),
    decreases entries.len(),
{
    if entries.len() > 0 {
        let rest = entries.drop_last();
        let before = entries_below(rest, prefix);
        let after = entries_below(entries, prefix);
        lemma_entries_below(rest, prefix);
        assert forall|i: int| 0 <= i < after.len() implies entries.contains(
            (prefix + (#[trigger] after[i]).0, after[i].1),
        ) by {
            if i < before.len() {
                let found = (prefix + before[i].0, before[i].1);
                assert(rest.contains(found));
                let k = choose|k: int| 0 <= k < rest.len() && rest[k] == found;
                assert(entries[k] == found);
            } else {
                let last = entries.last();
                assert(prefix + after[i].0 =~= last.0);
                assert(entries[entries.len() - 1] == (prefix + after[i].0, after[i].1));
            }
        }
    }
}

/// A unit gets the secrets of its own environment and no others, under their names and with
/// their values.
pub proof fn units_get_their_own_secrets(
    secrets: Seq<(Seq<char>, Seq<char>)>,
    environment_key: Seq<char>,
    unit_key: Seq<char>,
    i: int,
)
    requires
        0 <= i < entries_below(secrets, unit_prefix(environment_key, unit_key)).len(),
    ensures
        ({
            let prefix = unit_prefix(environment_key, unit_key);
            let entry = entries_below(secrets, prefix)[i];
            secrets.contains((prefix + entry.0, entry.1))
        }),
{
    lemma_entries_below(secrets, unit_prefix(environment_key, unit_key));
}

/// Where the secrets stand in dictionary order, so do the variables of a unit.
pub proof fn variables_stay_in_order(entries: Seq<(Seq<char>, Seq<char>)>, prefix: Seq<char>)
    requires
        names_ascend(entries),
    ensures
        names_ascend(entries_below(entries, prefix)),
    decreases entries.len(),
{
    if entries.len() > 0 {
        let rest = entries.drop_last();
        assert forall|i: int, j: int| 0 <= i < j < rest.len() implies text_before(
            rest[i].0,
            rest[j].0,
        ) by {
            assert(text_before(entries[i].0, entries[j].0));
        }
        variables_stay_in_order(rest, prefix);
        let before = entries_below(rest, prefix);
        let after = entries_below(entries, prefix);
        lemma_entries_below(rest, prefix);
        assert forall|i: int, j: int| 0 <= i < j < after.len() implies text_before(
            after[i].0,
            after[j].0,
        ) by {
            if j < before.len() {
                assert(text_before(before[i].0, before[j].0));
            } else {
                let found = (prefix + before[i].0, before[i].1);
                assert(rest.contains(found));
                let k = choose|k: int| 0 <= k < rest.len() && rest[k] == found;
                assert(text_before(entries[k].0, entries[entries.len() - 1].0));
                assert(entries.last().0 =~= prefix + after[j].0);
                lemma_order_below_prefix(prefix, before[i].0, after[j].0);
            }
        }
    }
}

/// What is written down of valid variables has as many lines as there are variables: no value
/// adds a line.
pub proof fn environment_files_cannot_be_extended(entries: Seq<(Seq<char>, Seq<char>)>)
    requires
        variables_fault(entries) is None,
    ensures
        line_feeds(environment_file(entries)) == entries.len(),
    decreases entries.len(),
{
    if entries.len() > 0 {
        let rest = entries.drop_last();
        environment_files_cannot_be_extended(rest);
        let name = entries.last().0;
        let value = entries.last().1;
        reveal_strlit("=");
        reveal_strlit("\n");
        lemma_no_line_feeds(name, CharClass::Word);
        lemma_single_line(value);
        let start = environment_file(rest);
        lemma_line_feeds_add(start, name);
        lemma_line_feeds_add(start + name, "="@);
        lemma_line_feeds_add(start + name + "="@, value);
        lemma_line_feeds_add(start + name + "="@ + value, "\n"@);
        assert("="@ =~= seq!['=']);
        assert("\n"@ =~= seq!['\n']);
        assert(seq!['='].drop_last() =~= Seq::empty());
        assert(seq!['\n'].drop_last() =~= Seq::empty());
        assert(line_feeds(seq!['=']) == 0) by {
            reveal_with_fuel(line_feeds, 2);
        }
        assert(line_feeds(seq!['\n']) == 1) by {
            reveal_with_fuel(line_feeds, 2);
        }
    }
}

/// The number of line feeds in a text.
pub open spec fn line_feeds(s: Seq<char>) -> nat
    decreases s.len(),
{
    if s.len() == 0 {
        0
    } else {
        line_feeds(s.drop_last()) + (if s.last() == '\n' {
            1nat
        } else {
            0
        })
    }
}

proof fn lemma_line_feeds_add(a: Seq<char>, b: Seq<char>)
    ensures
        line_feeds(a + b) == line_feeds(a) + line_feeds(b),
    decreases b.len(),
{
    if b.len() == 0 {
        assert(a + b =~= a);
    } else {
        assert((a + b).drop_last() =~= a + b.drop_last());
        lemma_line_feeds_add(a, b.drop_last());
    }
}

proof fn lemma_no_line_feeds(s: Seq<char>, class: CharClass)
    requires
        every(s, class),
        !class.has('\n'),
    ensures
        line_feeds(s) == 0,
    decreases s.len(),
{
    if s.len() > 0 {
        assert(class.has(s[s.len() - 1]));
        assert(every(s.drop_last(), class));
        lemma_no_line_feeds(s.drop_last(), class);
    }
}

proof fn lemma_single_line(s: Seq<char>)
    requires
        !any(s, CharClass::LineBreak),
    ensures
        line_feeds(s) == 0,
    decreases s.len(),
{
    if s.len() > 0 {
        assert(!CharClass::LineBreak.has(s[s.len() - 1]));
        assert(!any(s.drop_last(), CharClass::LineBreak)) by {
            if any(s.drop_last(), CharClass::LineBreak) {
                let k = choose|k: int|
                    0 <= k < s.drop_last().len() && CharClass::LineBreak.has(
                        #[trigger] s.drop_last()[k],
                    );
                assert(CharClass::LineBreak.has(s[k]));
            }
        }
        lemma_single_line(s.drop_last());
    }
}

/// The line of a variable, without its end.
pub open spec fn variable_line(name: Seq<char>, value: Seq<char>) -> Seq<char> {
    name + "="@ + value
}

proof fn lemma_pieces_grow(s: Seq<char>, more: Seq<char>, class: CharClass)
    requires
        !any(more, class),
    ensures
        pieces(s + more, class) == pieces(s, class).drop_last().push(
            pieces(s, class).last() + more,
        ),
    decreases more.len(),
{
    let before = pieces(s, class);
    lemma_pieces_not_empty(s, class);
    if more.len() == 0 {
        assert(s + more =~= s);
        assert(before.last() + more =~= before.last());
        assert(before =~= before.drop_last().push(before.last()));
    } else {
        let rest = more.drop_last();
        assert(!class.has(more[more.len() - 1]));
        assert(!any(rest, class)) by {
            if any(rest, class) {
                let k = choose|k: int| 0 <= k < rest.len() && class.has(#[trigger] rest[k]);
                assert(class.has(more[k]));
            }
        }
        lemma_pieces_grow(s, rest, class);
        assert((s + more).drop_last() =~= s + rest);
        let so_far = before.drop_last().push(before.last() + rest);
        assert(so_far.drop_last() =~= before.drop_last());
        assert((before.last() + rest).push(more.last()) =~= before.last() + more);
    }
}

proof fn lemma_variable_line(name: Seq<char>, value: Seq<char>)
    requires
        is_valid_variable(name, value),
    ensures
        !any(variable_line(name, value), CharClass::LineFeed),
        without_carriage_return(variable_line(name, value)) == variable_line(name, value),
        cut_first(variable_line(name, value), CharClass::Equals) == Some((name, value)),
{
    let line = variable_line(name, value);
    reveal_strlit("=");
    let n = name.len() as int;
    assert(line[n] == '=');
    assert forall|i: int| 0 <= i < line.len() implies !CharClass::LineBreak.has(
        #[trigger] line[i],
    ) by {
        if i < n {
            assert(line[i] == name[i]);
            assert(CharClass::Word.has(name[i]));
        } else if i > n {
            assert(line[i] == value[i - n - 1]);
            assert(!CharClass::LineBreak.has(value[i - n - 1]));
        }
    }
    assert(!CharClass::LineBreak.has(line[line.len() - 1]));
    if any(line, CharClass::LineFeed) {
        let k = choose|k: int| 0 <= k < line.len() && CharClass::LineFeed.has(#[trigger] line[k]);
        assert(!CharClass::LineBreak.has(line[k]));
    }
    lemma_first_of(line, CharClass::Equals);
    let at = first_of(line, CharClass::Equals);
    if at < n {
        assert(line[at] == name[at]);
        assert(CharClass::Word.has(name[at]));
    } else if at > n {
        assert(!CharClass::Equals.has(line[n]));
    }
    assert(line.take(n) =~= name);
    assert(line.skip(n + 1) =~= value);
}

proof fn lemma_file_pieces(entries: Seq<(Seq<char>, Seq<char>)>)
    requires
        variables_fault(entries) is None,
    ensures
        pieces(environment_file(entries), CharClass::LineFeed) == entries.map_values(
            |entry: (Seq<char>, Seq<char>)| variable_line(entry.0, entry.1),
        ).push(Seq::empty()),
        forall|i: int|
            0 <= i < entries.len() ==> is_valid_variable(
                (#[trigger] entries[i]).0,
                entries[i].1,
            ),
    decreases entries.len(),
{
    let class = CharClass::LineFeed;
    let line_of = |entry: (Seq<char>, Seq<char>)| variable_line(entry.0, entry.1);
    if entries.len() == 0 {
        assert(pieces(environment_file(entries), class) =~= entries.map_values(line_of).push(
            Seq::empty(),
        ));
    } else {
        let rest = entries.drop_last();
        let last = entries.last();
        lemma_file_pieces(rest);
        assert forall|i: int| 0 <= i < entries.len() implies is_valid_variable(
            (#[trigger] entries[i]).0,
            entries[i].1,
        ) by {
            if i < rest.len() {
                assert(rest[i] == entries[i]);
            }
        }
        let start = environment_file(rest);
        let line = variable_line(last.0, last.1);
        let file = environment_file(entries);
        lemma_variable_line(last.0, last.1);
        lemma_pieces_grow(start, line, class);
        reveal_strlit("\n");
        assert(file =~= (start + line).push('\n'));
        assert(file.drop_last() =~= start + line);
        let before = rest.map_values(line_of);
        assert(before.push(Seq::<char>::empty()).drop_last() =~= before);
        assert(Seq::<char>::empty() + line =~= line);
        assert(entries.map_values(line_of) =~= before.push(line));
    }
}

/// What is written down of valid variables reads back as these variables, in their order: it has a
/// line for each of them, which cut at its first equals sign gives the name and the value.
pub proof fn environment_files_read_back(entries: Seq<(Seq<char>, Seq<char>)>)
    requires
        variables_fault(entries) is None,
    ensures
        lines(environment_file(entries)).len() == entries.len(),
        forall|i: int|
            0 <= i < entries.len() ==> cut_first(
                lines(environment_file(entries))[i],
                CharClass::Equals,
            ) == Some(#[trigger] entries[i]),
        entries.len() > 0 ==> environment_file(entries).last() == '\n',
{
    lemma_file_pieces(entries);
    let line_of = |entry: (Seq<char>, Seq<char>)| variable_line(entry.0, entry.1);
    let all = pieces(environment_file(entries), CharClass::LineFeed);
    let found = lines(environment_file(entries));
    assert(all.drop_last() =~= entries.map_values(line_of));
    assert forall|i: int| 0 <= i < entries.len() implies cut_first(found[i], CharClass::Equals)
        == Some(#[trigger] entries[i]) by {
        assert(is_valid_variable(entries[i].0, entries[i].1));
        lemma_variable_line(entries[i].0, entries[i].1);
        assert(all[i] == variable_line(entries[i].0, entries[i].1));
        assert(found[i] == without_carriage_return(all[i]));
    }
    reveal_strlit("\n");
}

/// Secrets are a unit's own exactly if their names begin with the environment, a dot, the unit and a
/// dot. They keep what follows, their values and their order.
pub proof fn secrets_are_found_by_environment_and_unit(
    secrets: Seq<(Seq<char>, Seq<char>)>,
    environment_key: Seq<char>,
    unit_key: Seq<char>,
    name: Seq<char>,
    value: Seq<char>,
)
    ensures
        ({
            let prefix = unit_prefix(environment_key, unit_key);
            let own = environment_key + seq!['.'] + unit_key + seq!['.'] + name;
            &&& entries_below(Seq::empty(), prefix) == Seq::<(Seq<char>, Seq<char>)>::empty()
            &&& entries_below(secrets.push((own, value)), prefix) == entries_below(
                secrets,
                prefix,
            ).push((name, value))
            &&& !(environment_key + seq!['.'] + unit_key + seq!['.']).is_prefix_of(name)
                ==> entries_below(secrets.push((name, value)), prefix) == entries_below(
                secrets,
                prefix,
            )
        }),
{
    reveal_strlit(".");
    assert("."@ =~= seq!['.']);
    let prefix = unit_prefix(environment_key, unit_key);
    let own = environment_key + seq!['.'] + unit_key + seq!['.'] + name;
    assert(own =~= prefix + name);
    crate::pieces::prefixes_come_off(prefix, name, own);
    assert(secrets.push((own, value)).drop_last() =~= secrets);
    assert(secrets.push((name, value)).drop_last() =~= secrets);
}

/// A variable is accepted exactly if its name holds letters, digits and underscores, does not begin
/// with a digit, and its value is a single line. All are accepted, or none.
pub proof fn variables_are_names_and_lines(
    entries: Seq<(Seq<char>, Seq<char>)>,
)
    ensures
        variables_fault(entries) is None <==> forall|i: int|
            0 <= i < entries.len() ==> is_plain_variable(#[trigger] entries[i]),
    decreases entries.len(),
{
    if entries.len() > 0 {
        let before = entries.drop_last();
        let last = entries.last();
        variables_are_names_and_lines(before);
        lemma_plain_variable(last);
        if forall|i: int| 0 <= i < entries.len() ==> is_plain_variable(#[trigger] entries[i]) {
            assert forall|i: int| 0 <= i < before.len() implies is_plain_variable(
                #[trigger] before[i],
            ) by {
                assert(entries[i] == before[i]);
            }
            assert(is_plain_variable(entries[entries.len() - 1]));
        }
        if variables_fault(entries) is None {
            assert forall|i: int| 0 <= i < entries.len() implies is_plain_variable(
                #[trigger] entries[i],
            ) by {
                if i < before.len() {
                    assert(before[i] == entries[i]);
                }
            }
        }
    }
}

/// A name of letters, digits and underscores that begins with no digit, and a value of one line.
pub open spec fn is_plain_variable(entry: (Seq<char>, Seq<char>)) -> bool {
    &&& entry.0.len() > 0
    &&& !('0' <= entry.0[0] <= '9')
    &&& forall|i: int|
        0 <= i < entry.0.len() ==> ('a' <= #[trigger] entry.0[i] <= 'z' || 'A' <= entry.0[i] <= 'Z'
            || '0' <= entry.0[i] <= '9' || entry.0[i] == '_')
    &&& !entry.1.contains('\n')
    &&& !entry.1.contains('\r')
}

proof fn lemma_plain_variable(entry: (Seq<char>, Seq<char>))
    ensures
        is_valid_variable(entry.0, entry.1) <==> is_plain_variable(entry),
{
    let name = entry.0;
    let value = entry.1;
    if every(name, CharClass::Word) {
        assert forall|i: int| 0 <= i < name.len() implies ('a' <= #[trigger] name[i] <= 'z' || 'A'
            <= name[i] <= 'Z' || '0' <= name[i] <= '9' || name[i] == '_') by {
            assert(CharClass::Word.has(name[i]));
        }
    }
    if is_plain_variable(entry) {
        assert forall|i: int| 0 <= i < name.len() implies CharClass::Word.has(
            #[trigger] name[i],
        ) by {
            let c = name[i];
        }
        assert(every(name, CharClass::Word));
    }
    if any(value, CharClass::LineBreak) {
        let k = choose|k: int| 0 <= k < value.len() && CharClass::LineBreak.has(#[trigger] value[k]);
        assert(value[k] == '\n' || value[k] == '\r');
    }
    if value.contains('\n') {
        let k = choose|k: int| 0 <= k < value.len() && value[k] == '\n';
        assert(CharClass::LineBreak.has(value[k]));
    }
    if value.contains('\r') {
        let k = choose|k: int| 0 <= k < value.len() && value[k] == '\r';
        assert(CharClass::LineBreak.has(value[k]));
    }
}

/// What the platform tells every script: the application, the environment, the unit and the version.
pub proof fn scripts_know_what_is_deployed(
    app_key: Seq<char>,
    environment_key: Seq<char>,
    unit_key: Seq<char>,
    version: Seq<char>,
)
    ensures
        ({
            let told = platform_variables(app_key, environment_key, unit_key, version);
            &&& told.len() == 4
            &&& told.contains(("EASY_DEPLOY_APP_KEY"@, app_key))
            &&& told.contains(("EASY_DEPLOY_ENVIRONMENT"@, environment_key))
            &&& told.contains(("EASY_DEPLOY_UNIT_KEY"@, unit_key))
            &&& told.contains(("EASY_DEPLOY_VERSION"@, version))
        }),
{
    let told = platform_variables(app_key, environment_key, unit_key, version);
    assert(told[0] == ("EASY_DEPLOY_APP_KEY"@, app_key));
    assert(told[1] == ("EASY_DEPLOY_ENVIRONMENT"@, environment_key));
    assert(told[2] == ("EASY_DEPLOY_UNIT_KEY"@, unit_key));
    assert(told[3] == ("EASY_DEPLOY_VERSION"@, version));
}

} // verus!
