//! Watching a database file.

use duckdb_binding::duckdb::QueryOutcome;
use duckdb_binding::json::Json;
use duckdb_binding::types::DuckDbAttach;
use duckdb_binding::watch::{
    check_watch, cursor_from_outcome, is_memory_or_empty, tick, WatchSpec, PLUGIN_ID, WATCH_KIND,
};

fn parse(text: &str) -> Json {
    Json::parse(text.as_bytes()).expect("json")
}

fn outcome(rows: Vec<Json>) -> QueryOutcome {
    let row_count = rows.len();
    QueryOutcome {
        rows,
        truncated: false,
        row_count,
    }
}

#[test]
fn manifest_and_kind_are_correct() {
    assert_eq!(PLUGIN_ID, "dev.mcpg.backend.duckdb");
    assert_eq!(WATCH_KIND, "duckdb_poll");
}

#[test]
fn spec_parses_with_defaults() {
    let parsed = WatchSpec::new(
        "/data/warehouse.duckdb".into(),
        "SELECT max(updated_at) FROM events".into(),
    );
    assert_eq!(parsed.interval_ms, 60_000);
    assert_eq!(parsed.timeout_ms, 10_000);
    assert!(parsed.read_only);
    assert!(!parsed.allow_external_access);
    assert!(parsed.init_sql.is_empty());
    assert!(parsed.attach.is_empty());
}

#[test]
fn spec_parses_overrides() {
    let parsed = WatchSpec {
        database: "/data/warehouse.duckdb".into(),
        read_only: false,
        allow_external_access: true,
        init_sql: vec!["INSTALL httpfs; LOAD httpfs;".into()],
        attach: vec![DuckDbAttach {
            alias: "lake".into(),
            source: "s3://b/db.duckdb".into(),
            read_only: true,
        }],
        tracking_query: "SELECT count(*) FROM events".into(),
        interval_ms: 30_000,
        timeout_ms: 5_000,
    };
    assert!(!parsed.read_only);
    assert!(parsed.allow_external_access);
    assert_eq!(parsed.init_sql.len(), 1);
    assert_eq!(parsed.attach.len(), 1);
    assert_eq!(parsed.interval_ms, 30_000);
    assert_eq!(parsed.timeout_ms, 5_000);
    assert_eq!(check_watch(&parsed, None), Ok(()));
}

#[test]
fn memory_database_is_invalid_spec() {
    for db in [":memory:", ":memory:?cache=shared", "", "   "] {
        let spec = WatchSpec::new(db.into(), "SELECT max(t) FROM e".into());
        assert!(
            check_watch(&spec, None).is_err(),
            "should reject non-file database: {db:?}"
        );
        assert!(is_memory_or_empty(db));
    }
    assert!(is_memory_or_empty("  :memory:  "));
    assert!(!is_memory_or_empty("/data/:memory:"));
}

#[test]
fn empty_tracking_query_is_invalid_spec() {
    let spec = WatchSpec::new("/data/w.duckdb".into(), "   ".into());
    assert_eq!(
        check_watch(&spec, None),
        Err("tracking_query must not be empty".to_owned())
    );
}

#[test]
fn non_read_only_tracking_query_is_invalid_spec() {
    let spec = WatchSpec::new("/data/w.duckdb".into(), "DELETE FROM events".into());
    assert_eq!(
        check_watch(&spec, Some("not read-only".into())),
        Err("not read-only".to_owned())
    );
}

#[test]
fn the_database_is_judged_before_the_query() {
    let spec = WatchSpec::new(":memory:".into(), " ".into());
    assert_eq!(
        check_watch(&spec, Some("not read-only".into())),
        Err("duckdb_poll requires a file-backed database; :memory: has no external change source".to_owned())
    );
}

#[test]
fn cursor_from_outcome_extracts_first_scalar() {
    let oc = outcome(vec![parse(
        r#"{ "max(updated_at)": "2026-06-23 10:00:00" }"#,
    )]);
    assert_eq!(
        cursor_from_outcome(&oc).as_deref(),
        Some("2026-06-23 10:00:00")
    );

    let oc = outcome(vec![parse(r#"{ "count_star()": 42 }"#)]);
    assert_eq!(cursor_from_outcome(&oc).as_deref(), Some("42"));
}

#[test]
fn cursor_from_outcome_none_on_zero_rows_or_null() {
    assert_eq!(cursor_from_outcome(&outcome(vec![])), None);
    let null = outcome(vec![parse(r#"{ "max(t)": null }"#)]);
    assert_eq!(cursor_from_outcome(&null), None);
}

#[test]
fn cursor_reads_the_first_column_only() {
    let oc = outcome(vec![
        parse(r#"{ "b": [1, {"x": "y"}], "a": 2 }"#),
        parse(r#"{ "b": 3 }"#),
    ]);
    assert_eq!(cursor_from_outcome(&oc).as_deref(), Some(r#"[1,{"x":"y"}]"#));
    assert_eq!(cursor_from_outcome(&outcome(vec![parse("{}")])), None);
    assert_eq!(cursor_from_outcome(&outcome(vec![parse("7")])), None);
    let oc = outcome(vec![parse(r#"{ "b": false }"#)]);
    assert_eq!(cursor_from_outcome(&oc).as_deref(), Some("false"));
}

#[test]
fn a_tick_reports_its_failure() {
    assert_eq!(
        tick(Err("DuckDB open failed: x".into())),
        Err("duckdb_poll tick: DuckDB open failed: x".to_owned())
    );
    assert_eq!(
        tick(Ok(outcome(vec![parse(r#"{ "n": 1 }"#)]))),
        Ok(Some("1".to_owned()))
    );
}
