//! Replies: errors, envelopes and schemas.

use duckdb_binding::envelope::{
    build_result_envelope, catalog_envelope_schema, classify_error, duckdb_downstream_error,
    list_columns_columns, list_tables_columns, result_envelope_schema, retryable,
};
use duckdb_binding::json::{integer, string, Json};

fn parse(text: &str) -> Json {
    Json::parse(text.as_bytes()).expect("json")
}

fn at<'a>(value: &'a Json, path: &[&str]) -> &'a Json {
    let mut here = value;
    for key in path {
        here = here.get(key).expect("member");
    }
    here
}

fn item(value: &Json, i: usize) -> &Json {
    match value {
        Json::Array(items) => &items[i],
        _ => panic!("not an array"),
    }
}

#[test]
fn io_failure_is_retryable_transport_error() {
    let e = classify_error("DuckDB query failed: IO Error: could not read file");
    assert_eq!(e.get("kind"), Some(&string("transport_error")));
    assert_eq!(e.get("retryable"), Some(&Json::Bool(true)));
}

#[test]
fn lock_failure_is_retryable() {
    let e = classify_error("Could not set lock on file: held by another process");
    assert_eq!(e.get("kind"), Some(&string("transport_error")));
    assert_eq!(e.get("retryable"), Some(&Json::Bool(true)));
}

#[test]
fn binder_error_is_not_retryable() {
    let e = classify_error("DuckDB query failed: Binder Error: column \"bogus\" not found");
    assert_eq!(e.get("kind"), Some(&string("duckdb_error")));
    assert_eq!(e.get("retryable"), Some(&Json::Bool(false)));
}

#[test]
fn external_access_denial_is_not_retryable() {
    let e = classify_error(
        "Permission Error: File system LocalFileSystem has been disabled by external access",
    );
    assert_eq!(e.get("kind"), Some(&string("duckdb_error")));
    assert_eq!(e.get("retryable"), Some(&Json::Bool(false)));
}

#[test]
fn every_sign_of_transport_counts() {
    for m in [
        "IO ERROR", "i/o error", "Disk full", "locked", "timed out", "Timeout", "connection lost",
        "INTERRUPT",
    ] {
        assert!(retryable(m), "{m}");
    }
    for m in [
        "parser error", "binder error", "catalog error", "syntax error", "permission",
        "not allowed", "read-only guard", "external access", "conversion error", "invalid input",
    ] {
        assert!(!retryable(&format!("IO Error: {m} on disk")), "{m}");
    }
    assert!(!retryable("something else"));
}

#[test]
fn downstream_errors_read_as_documented() {
    assert_eq!(
        duckdb_downstream_error("transport_error", "m", true),
        parse(
            r#"{ "kind": "transport_error", "code": "mcpg.downstream_duckdb.transport_error",
                 "message": "m", "retryable": true, "retryClass": "with_backoff",
                 "suggestedAction": "check_storage_and_retry" }"#
        )
    );
    assert_eq!(
        classify_error("nope"),
        parse(
            r#"{ "kind": "duckdb_error", "code": "mcpg.downstream_duckdb.duckdb_error",
                 "message": "nope", "retryable": false, "retryClass": "do_not_retry",
                 "suggestedAction": "inspect_sql_error" }"#
        )
    );
}

#[test]
fn query_envelope_has_rows_and_count() {
    let rows = vec![parse(r#"{ "id": 1 }"#)];
    let env = build_result_envelope(
        "u.get",
        "u.get",
        ":memory:",
        Some(&rows),
        Some(1),
        false,
        7,
        None,
        None,
    );
    assert_eq!(at(&env, &["response", "count"]), &integer(1));
    assert_eq!(
        item(at(&env, &["response", "rows"]), 0).get("id"),
        Some(&integer(1))
    );
    assert_eq!(at(&env, &["response", "truncated"]), &Json::Bool(false));
    assert_eq!(at(&env, &["request", "database"]), &string(":memory:"));
    assert_eq!(at(&env, &["downstreamError"]), &Json::Null);
    assert_eq!(
        env.to_text(),
        r#"{"toolName":"u.get","profile":"u.get","request":{"database":":memory:"},"response":{"rows":[{"id":1}],"count":1,"truncated":false,"durationMs":7},"downstreamError":null,"downstreamErrors":[],"error":null}"#
    );
}

#[test]
fn truncated_flag_is_carried() {
    let rows = vec![parse(r#"{ "id": 1 }"#)];
    let env = build_result_envelope(
        "u.get",
        "u.get",
        "/d.duckdb",
        Some(&rows),
        Some(1),
        true,
        3,
        None,
        None,
    );
    assert_eq!(at(&env, &["response", "truncated"]), &Json::Bool(true));
}

#[test]
fn error_envelope_nulls_response() {
    let d = classify_error("DuckDB query failed: Catalog Error: Table does not exist");
    let env = build_result_envelope(
        "u.get",
        "u.get",
        ":memory:",
        None,
        None,
        false,
        2,
        Some(&d),
        Some("table missing"),
    );
    assert_eq!(at(&env, &["response"]), &Json::Null);
    assert_eq!(at(&env, &["downstreamError", "kind"]), &string("duckdb_error"));
    assert_eq!(item(at(&env, &["downstreamErrors"]), 0), &d);
    assert_eq!(at(&env, &["error"]), &string("table missing"));
}

#[test]
fn count_falls_back_to_the_rows() {
    let rows = vec![Json::Null, Json::Null];
    let env = build_result_envelope("t", "p", "d", Some(&rows), None, false, 0, None, None);
    assert_eq!(at(&env, &["response", "count"]), &integer(2));
    let env = build_result_envelope("t", "p", "d", None, None, false, 0, None, None);
    assert_eq!(at(&env, &["response", "count"]), &Json::Null);
    assert_eq!(at(&env, &["response", "rows"]), &Json::Null);
    let env = build_result_envelope("t", "p", "d", Some(&rows), Some(9), false, 0, None, None);
    assert_eq!(at(&env, &["response", "count"]), &integer(9));
}

#[test]
fn catalog_envelope_schema_types_known_columns() {
    let schema = catalog_envelope_schema(&list_tables_columns());
    let items = at(
        &schema,
        &["properties", "response", "properties", "rows", "items"],
    );
    assert_eq!(items.get("type"), Some(&string("object")));
    assert!(matches!(
        at(items, &["properties", "table_name"]),
        Json::Object(_)
    ));
    assert_eq!(items.get("additionalProperties"), Some(&Json::Bool(true)));
}

#[test]
fn catalog_columns_are_the_listed_ones() {
    assert_eq!(
        list_tables_columns(),
        vec!["table_catalog", "table_schema", "table_name", "table_type"]
    );
    let schema = catalog_envelope_schema(&list_columns_columns());
    let items = at(
        &schema,
        &["properties", "response", "properties", "rows", "items"],
    );
    assert_eq!(
        items,
        &parse(
            r#"{ "type": "object", "properties": {
                "table_name": { "type": ["string", "integer", "null"] },
                "column_name": { "type": ["string", "integer", "null"] },
                "data_type": { "type": ["string", "integer", "null"] },
                "is_nullable": { "type": ["string", "integer", "null"] },
                "ordinal_position": { "type": ["string", "integer", "null"] }
            }, "additionalProperties": true }"#
        )
    );
}

#[test]
fn output_schema_matches_envelope_shape() {
    let schema = result_envelope_schema();
    assert_eq!(schema.get("type"), Some(&string("object")));
    let rows = vec![parse(r#"{ "id": 1 }"#)];
    let env = build_result_envelope(
        "u.get",
        "u.get",
        ":memory:",
        Some(&rows),
        Some(1),
        false,
        7,
        None,
        None,
    );
    let props = at(&schema, &["properties"]);
    match &env {
        Json::Object(members) => {
            for i in 0..members.len() {
                let key = members.key(i);
                assert!(props.get(key).is_some(), "schema missing key `{key}`");
            }
        }
        _ => panic!("envelope object"),
    }
    assert_eq!(
        at(
            &schema,
            &["properties", "response", "properties", "rows", "items"]
        ),
        &parse("{}")
    );
}

#[test]
fn envelope_schema_reads_as_documented() {
    assert_eq!(
        result_envelope_schema(),
        parse(
            r#"{
        "$schema": "https://json-schema.org/draft/2020-12/schema",
        "type": "object",
        "properties": {
            "toolName": { "type": "string" },
            "profile": { "type": "string" },
            "request": {
                "type": "object",
                "properties": { "database": { "type": "string" } },
                "additionalProperties": true
            },
            "response": {
                "type": ["object", "null"],
                "properties": {
                    "rows": { "type": ["array", "null"], "items": {} },
                    "count": { "type": ["integer", "null"] },
                    "truncated": { "type": "boolean" },
                    "durationMs": { "type": "integer" }
                },
                "additionalProperties": true
            },
            "downstreamError": { "type": ["object", "null"] },
            "downstreamErrors": { "type": "array", "items": {} },
            "error": { "type": ["string", "null"] }
        },
        "additionalProperties": true
    }"#
        )
    );
}
