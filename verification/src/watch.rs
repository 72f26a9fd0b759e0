//! Watching a database file for changes: a scalar is queried at intervals, and
//! a new value of it tells of a change.
//!
//! Only a file can be watched. An in-memory database is a new and empty engine
//! on every connection, so nothing outside ever changes it.

use vstd::prelude::*;

use crate::duckdb::QueryOutcome;
use crate::json::{trees, Json, JsonTree};
use crate::surface::{bare_text, text_of_value};
use crate::text::{begins_with, blank, is_blank, opt_text, rejection, starts_with, trim, trimmed};
use crate::types::DuckDbAttach;

verus! {

/// The identifier of the backend that the watch belongs to.
pub const PLUGIN_ID: &'static str = "dev.mcpg.backend.duckdb";

/// The kind of watch.
pub const WATCH_KIND: &'static str = "duckdb_poll";

/// One minute.
pub fn default_interval_ms() -> (ms: u64)
    ensures
        ms == 60_000,
{
    60_000
}

/// Ten seconds.
pub fn default_timeout_ms() -> (ms: u64)
    ensures
        ms == 10_000,
{
    10_000
}

/// The operator's description of a watch.
#[derive(Debug)]
pub struct WatchSpec {
    /// The path of the database file.
    pub database: String,
    pub read_only: bool,
    pub allow_external_access: bool,
    pub init_sql: Vec<String>,
    pub attach: Vec<DuckDbAttach>,
    /// The query whose first column of its first row is the cursor.
    pub tracking_query: String,
    /// The interval between two queries, in milliseconds, handed to the program
    /// that runs them.
    pub interval_ms: u64,
    /// The ceiling on one query, in milliseconds. It is not kept here, and any
    /// value is accepted: it is handed to the program that runs the engine.
    pub timeout_ms: u64,
}

impl WatchSpec {
    /// The description of a watch with everything else left out.
    pub fn new(database: String, tracking_query: String) -> (spec: WatchSpec)
        ensures
            spec.database == database,
            spec.read_only,
            !spec.allow_external_access,
            spec.init_sql@.len() == 0,
            spec.attach@.len() == 0,
            spec.tracking_query == tracking_query,
            spec.interval_ms == 60_000,
            spec.timeout_ms == 10_000,
    {
        WatchSpec {
            database,
            read_only: true,
            allow_external_access: false,
            init_sql: Vec::new(),
            attach: Vec::new(),
            tracking_query,
            interval_ms: default_interval_ms(),
            timeout_ms: default_timeout_ms(),
        }
    }
}

/// A database that nothing outside changes: none, or one in memory.
pub open spec fn has_no_change_source(database: Seq<char>) -> bool {
    is_blank(database) || begins_with(trimmed(database), ":memory:"@)
}

/// Whether a database is one that nothing outside changes: none, or one in
/// memory, with or without flags.
pub fn is_memory_or_empty(database: &str) -> (r: bool)
    ensures
        r == has_no_change_source(database@),
{
    blank(database) || starts_with(trim(database).as_str(), ":memory:")
}

/// Why a watch is rejected, if it is. The guard's verdict on the tracking query
/// comes last.
pub open spec fn watch_rejection(spec: WatchSpec, verdict: Option<Seq<char>>) -> Option<Seq<char>> {
    if has_no_change_source(spec.database@) {
        Some(
            "duckdb_poll requires a file-backed database; :memory: has no external change source"@,
        )
    } else if is_blank(spec.tracking_query@) {
        Some("tracking_query must not be empty"@)
    } else {
        verdict
    }
}

/// Checks the description of a watch: a file, and a tracking query that is not
/// blank and that the read-only guard accepts.
pub fn check_watch(spec: &WatchSpec, verdict: Option<String>) -> (r: Result<(), String>)
    ensures
        rejection(r) == watch_rejection(*spec, opt_text(verdict)),
{
    if is_memory_or_empty(spec.database.as_str()) {
        return Err(
            "duckdb_poll requires a file-backed database; :memory: has no external change source".to_owned(),
        );
    }
    if blank(spec.tracking_query.as_str()) {
        return Err("tracking_query must not be empty".to_owned());
    }
    match verdict {
        Some(reason) => Err(reason),
        None => Ok(()),
    }
}

/// The cursor that rows give: the first column of the first row as bare text;
/// none without rows, without columns, or for null.
pub open spec fn cursor_of(rows: Seq<JsonTree>) -> Option<Seq<char>> {
    if rows.len() == 0 {
        None
    } else {
        match rows[0] {
            JsonTree::Object(members) => if members.len() > 0 {
                bare_text(members[0].1)
            } else {
                None
            },
            _ => None,
        }
    }
}

/// The cursor that a query gave.
pub fn cursor_from_outcome(outcome: &QueryOutcome) -> (cursor: Option<String>)
    ensures
        opt_text(cursor) == cursor_of(trees(outcome.rows@)),
{
    if outcome.rows.len() == 0 {
        return None;
    }
    assert(trees(outcome.rows@)[0] == outcome.rows@[0].tree());
    match &outcome.rows[0] {
        Json::Object(object) => {
            if object.len() > 0 {
                text_of_value(object.value(0))
            } else {
                None
            }
        },
        _ => None,
    }
}

/// `r` is what a watch makes of the engine's answer.
pub open spec fn is_tick(
    result: Result<QueryOutcome, String>,
    r: Result<Option<String>, String>,
) -> bool {
    match result {
        Ok(outcome) => r matches Ok(cursor) && opt_text(cursor) == cursor_of(trees(outcome.rows@)),
        Err(e) => r matches Err(message) && message@ == "duckdb_poll tick: "@ + e@,
    }
}

/// What one query of a watch gives: a cursor, none, or the message of the
/// failure.
pub fn tick(result: Result<QueryOutcome, String>) -> (r: Result<Option<String>, String>)
    ensures
        match result {
            Ok(outcome) => r matches Ok(cursor) && opt_text(cursor) == cursor_of(
                trees(outcome.rows@),
            ),
            Err(e) => r matches Err(message) && message@ == "duckdb_poll tick: "@ + e@,
        },
        is_tick(result, r),
{
    match result {
        Ok(outcome) => Ok(cursor_from_outcome(&outcome)),
        Err(e) => {
            let mut message = "duckdb_poll tick: ".to_owned();
            message.append(e.as_str());
            Err(message)
        },
    }
}

} // verus!
