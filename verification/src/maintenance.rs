//! The removal of demonstration data: which tables and directories it concerns, and where the
//! database is backed up to.

use vstd::prelude::*;

use crate::decimal::{decimal, natural_text};
use crate::deploy::commands::path_below;
use crate::deployment_retention::deletion::below;
use crate::order::{
    sort_ranked, text_before, text_less, text_order_is_strict, text_order_is_transitive, Ranking,
};
use crate::pieces::{after_prefix, strip_prefix};
use crate::text::{same_text, texts};
use crate::urls::option_str;

verus! {

#[derive(Clone, Debug)]
pub struct CleanDemoDataOptions {
    pub dry_run: bool,
    pub backup: bool,
    pub data_dir: String,
}

#[derive(Clone, Debug)]
pub struct CleanDemoDataReport {
    pub backup_path: Option<String>,
    pub table_counts: Vec<TableCount>,
    pub removed_paths: Vec<String>,
}

#[derive(Clone, Debug)]
pub struct TableCount {
    pub table: String,
    pub count: i64,
}

/// The tables that are emptied.
pub open spec fn business_table_names() -> Seq<Seq<char>> {
    seq![
        "admin_sessions"@,
        "admin_audit_logs"@,
        "event_logs"@,
        "operation_task_node_results"@,
        "operation_task_logs"@,
        "deployment_runs"@,
        "operation_tasks"@,
        "binary_artifacts"@,
        "app_binary_configs"@,
        "app_health_checks"@,
        "app_config_snapshots"@,
        "app_runtime_states"@,
        "app_targets"@,
        "apps"@,
        "node_checks"@,
        "node_capabilities"@,
        "node_credentials"@,
    ]
}

/// The views of names.
pub open spec fn name_views(names: Seq<&'static str>) -> Seq<Seq<char>> {
    names.map_values(|name: &'static str| name@)
}

/// The tables that are emptied, in the order in which that is done.
pub fn business_tables() -> (tables: Vec<&'static str>)
    ensures
        name_views(tables@) == business_table_names(),
{
    let tables = vec![
        "admin_sessions",
        "admin_audit_logs",
        "event_logs",
        "operation_task_node_results",
        "operation_task_logs",
        "deployment_runs",
        "operation_tasks",
        "binary_artifacts",
        "app_binary_configs",
        "app_health_checks",
        "app_config_snapshots",
        "app_runtime_states",
        "app_targets",
        "apps",
        "node_checks",
        "node_capabilities",
        "node_credentials",
    ];
    assert(name_views(tables@) =~= business_table_names());
    tables
}

/// What is done: nothing but counting in a dry run; a backup only where one is wanted.
#[derive(Clone, Copy, Debug, PartialEq, Eq, Structural)]
pub struct CleanPlan {
    pub backup: bool,
    pub clear: bool,
}

/// What is done: a dry run does nothing.
pub open spec fn planned_cleaning(options: CleanDemoDataOptions) -> CleanPlan {
    CleanPlan { backup: options.backup && !options.dry_run, clear: !options.dry_run }
}

pub fn clean_plan(options: &CleanDemoDataOptions) -> (plan: CleanPlan)
    ensures
        plan == planned_cleaning(*options),
{
    CleanPlan { backup: options.backup && !options.dry_run, clear: !options.dry_run }
}

/// The directories that are removed where they exist.
pub fn runtime_paths(data_dir: &str) -> (paths: Vec<String>)
    ensures
        texts(paths@) == seq![below(data_dir@, "apps"@), below(data_dir@, "credentials"@)],
{
    let paths = vec![path_below(data_dir, "apps"), path_below(data_dir, "credentials")];
    assert(texts(paths@) =~= seq![below(data_dir@, "apps"@), below(data_dir@, "credentials"@)]);
    paths
}

/// The file of a database.
pub open spec fn database_file(url: Seq<char>) -> Result<Seq<char>, Seq<char>> {
    match after_prefix(url, "sqlite://"@) {
        None => Err("clean-demo-data 目前只支持 sqlite:// 数据库"@),
        Some(path) => if path.len() == 0 || path == ":memory:"@ {
            Err("内存数据库不支持备份清理"@)
        } else {
            Ok(path)
        },
    }
}

pub fn sqlite_database_path(database_url: &str) -> (result: Result<String, String>)
    ensures
        match result {
            Ok(path) => database_file(database_url@) == Ok::<Seq<char>, Seq<char>>(path@),
            Err(error) => database_file(database_url@) == Err::<Seq<char>, Seq<char>>(error@),
        },
{
    match strip_prefix(database_url, "sqlite://") {
        None => Err("clean-demo-data 目前只支持 sqlite:// 数据库".to_owned()),
        Some(path) => {
            if path.as_str().is_empty() || same_text(path.as_str(), ":memory:") {
                Err("内存数据库不支持备份清理".to_owned())
            } else {
                Ok(path)
            }
        },
    }
}

/// The text, or another one where there is none.
pub open spec fn text_or(text: Option<Seq<char>>, other: Seq<char>) -> Seq<char> {
    match text {
        Some(value) => value,
        None => other,
    }
}

/// The name of a backup: that of the database, the time and the database's extension.
pub open spec fn backup_name(
    stem: Option<Seq<char>>,
    extension: Option<Seq<char>>,
    seconds: u64,
) -> Seq<char> {
    text_or(stem, "easy-deploy"@) + ".backup-"@ + decimal(seconds as nat) + "."@ + text_or(
        extension,
        "db"@,
    )
}

/// The name of a backup, made of the stem and the extension of the database's file.
pub fn backup_file_name(stem: Option<&str>, extension: Option<&str>, seconds: u64) -> (name: String)
    ensures
        name@ == backup_name(option_str(stem), option_str(extension), seconds),
{
    let start = match stem {
        Some(known) => known,
        None => "easy-deploy",
    };
    let end = match extension {
        Some(known) => known,
        None => "db",
    };
    start.to_owned().concat(".backup-").concat(natural_text(seconds).as_str()).concat(".").concat(
        end,
    )
}

/// Texts in dictionary order.
struct ByText;

impl Ranking<String> for ByText {
    closed spec fn ranks_before(left: String, right: String) -> bool {
        text_before(left@, right@)
    }

    proof fn ranking_is_order(a: String, b: String, c: String) {
        text_order_is_strict(a@, b@);
        text_order_is_strict(b@, c@);
        text_order_is_strict(a@, c@);
        if text_before(c@, a@) {
            if text_before(a@, b@) {
                text_order_is_transitive(c@, a@, b@);
            }
        }
    }

    fn comes_before(left: &String, right: &String) -> (before: bool) {
        text_less(left.as_str(), right.as_str())
    }
}

/// No text stands after one that belongs behind it.
pub open spec fn in_dictionary_order(items: Seq<String>) -> bool {
    forall|i: int, j: int| 0 <= i < j < items.len() ==> !text_before(items[j]@, items[i]@)
}

/// The report of a removal; after a dry run the directories are listed in dictionary order.
pub fn clean_report(
    options: &CleanDemoDataOptions,
    backup_path: Option<String>,
    table_counts: Vec<TableCount>,
    removed_paths: Vec<String>,
) -> (report: CleanDemoDataReport)
    ensures
        report.backup_path == backup_path,
        report.table_counts == table_counts,
        report.removed_paths@.to_multiset() == removed_paths@.to_multiset(),
        options.dry_run ==> in_dictionary_order(report.removed_paths@),
        !options.dry_run ==> report.removed_paths@ == removed_paths@,
{
    let paths = if options.dry_run {
        let sorted = sort_ranked::<String, ByText>(removed_paths);
        proof {
            assert forall|i: int, j: int| 0 <= i < j < sorted@.len() implies !text_before(
                sorted@[j]@,
                sorted@[i]@,
            ) by {
                assert(!ByText::ranks_before(sorted@[j], sorted@[i]));
            }
        }
        sorted
    } else {
        removed_paths
    };
    CleanDemoDataReport { backup_path, table_counts, removed_paths: paths }
}

/// A database that is backed up is a file: its address begins with `sqlite://` and goes on with
/// something other than a database in memory.
pub proof fn databases_are_files(url: Seq<char>, path: Seq<char>)
    ensures
        path.len() > 0 && path != ":memory:"@ ==> database_file("sqlite://"@ + path) == Ok::<
            Seq<char>,
            Seq<char>,
        >(path),
        database_file("sqlite://"@ + Seq::empty()) is Err,
        database_file("sqlite://"@ + ":memory:"@) is Err,
        !"sqlite://"@.is_prefix_of(url) ==> database_file(url) is Err,
{
    reveal_strlit(":memory:");
    crate::pieces::prefixes_come_off("sqlite://"@, path, url);
    crate::pieces::prefixes_come_off("sqlite://"@, Seq::empty(), url);
    crate::pieces::prefixes_come_off("sqlite://"@, ":memory:"@, url);
}

/// A dry run changes nothing and backs up nothing.
pub proof fn dry_runs_change_nothing(options: CleanDemoDataOptions)
    ensures
        options.dry_run ==> !planned_cleaning(options).clear && !planned_cleaning(options).backup,
        !options.dry_run ==> planned_cleaning(options).clear && planned_cleaning(options).backup
            == options.backup,
{
}

/// A backup stands beside the database under its name and the time.
pub proof fn backups_are_named_after_the_database(
    stem: Seq<char>,
    extension: Seq<char>,
    seconds: u64,
)
    ensures
        backup_name(Some(stem), Some(extension), seconds) == stem + ".backup-"@ + decimal(
            seconds as nat,
        ) + "."@ + extension,
        backup_name(None, None, seconds) == "easy-deploy"@ + ".backup-"@ + decimal(seconds as nat)
            + "."@ + "db"@,
{
}

} // verus!
