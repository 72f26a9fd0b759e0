//! Statements, the plan of opening, cells and rows.

use duckdb_binding::duckdb::{
    build_list_columns_sql, build_list_tables_sql, build_read_file_sql, plan_open, row_to_json,
    valid_attach_alias, value_ref_to_json, CatalogFilters, DuckCell, DuckDbManager, EngineFault,
    RowCollector, SetupStep, TimeUnit,
};
use duckdb_binding::json::{integer, string, Json};
use duckdb_binding::params::{
    arguments_referenced_by_params, eval_param_binds, extract_argument_idents, json_to_duck_bind,
    params_input_schema, CompiledParam, DuckBind,
};
use duckdb_binding::types::DuckDbAttach;

fn parse(text: &str) -> Json {
    Json::parse(text.as_bytes()).expect("json")
}

fn names(list: &[&str]) -> Vec<String> {
    list.iter().map(|s| (*s).to_owned()).collect()
}

fn text(s: &str) -> Option<DuckCell> {
    Some(DuckCell::Text(s.as_bytes().to_vec()))
}

fn number(f: f64) -> Option<serde_json::Number> {
    serde_json::Number::from_f64(f)
}

#[test]
fn list_tables_sql_binds_filters_as_params() {
    let filters = CatalogFilters {
        schema: Some("main".into()),
        table_type: Some("VIEW".into()),
        ..Default::default()
    };
    let (sql, binds) = build_list_tables_sql(&filters);
    assert!(sql.contains("information_schema.tables"));
    assert!(sql.contains("table_schema = ?"));
    assert!(sql.contains("table_type = ?"));
    assert!(
        !sql.contains("main"),
        "value must be bound, not interpolated"
    );
    assert!(
        !sql.contains("VIEW"),
        "value must be bound, not interpolated"
    );
    assert_eq!(
        binds,
        vec![DuckBind::Str("main".into()), DuckBind::Str("VIEW".into())]
    );
}

#[test]
fn list_tables_sql_no_filters_has_no_where() {
    let (sql, binds) = build_list_tables_sql(&CatalogFilters::default());
    assert!(!sql.contains("WHERE"));
    assert!(binds.is_empty());
}

#[test]
fn list_columns_sql_binds_table_filter() {
    let filters = CatalogFilters {
        table: Some("customers".into()),
        ..Default::default()
    };
    let (sql, binds) = build_list_columns_sql(&filters);
    assert!(sql.contains("information_schema.columns"));
    assert!(sql.contains("table_name = ?"));
    assert!(sql.contains("ordinal_position"));
    assert!(!sql.contains("customers"), "value must be bound");
    assert_eq!(binds, vec![DuckBind::Str("customers".into())]);
}

#[test]
fn read_file_sql_escapes_path_and_binds_predicate() {
    let sql = build_read_file_sql(
        "read_parquet",
        "/data/o'brien/*.parquet",
        &vec!["region".to_owned(), "amount".to_owned()],
        Some("amount > ?"),
    );
    assert_eq!(
        sql,
        "SELECT region, amount FROM read_parquet('/data/o''brien/*.parquet') WHERE amount > ?"
    );
}

#[test]
fn read_file_sql_defaults_to_star_and_no_where() {
    let sql = build_read_file_sql("read_csv_auto", "/data/x.csv", &vec![], None);
    assert_eq!(sql, "SELECT * FROM read_csv_auto('/data/x.csv')");
}

#[test]
fn extract_argument_idents_finds_names() {
    let got = extract_argument_idents("arguments.user_id + size(arguments.tags)");
    assert_eq!(got, vec!["user_id".to_owned(), "tags".to_owned()]);
    assert!(extract_argument_idents("1 + 2").is_empty());
}

#[test]
fn attach_alias_validation() {
    assert!(valid_attach_alias("lake"));
    assert!(valid_attach_alias("_db1"));
    assert!(valid_attach_alias("Catalog_2"));
    assert!(!valid_attach_alias("1lake"));
    assert!(!valid_attach_alias("la ke"));
    assert!(!valid_attach_alias("la);DROP"));
    assert!(!valid_attach_alias(""));
}

#[test]
fn catalog_statements_read_as_documented() {
    let filters = CatalogFilters {
        catalog: Some("c".into()),
        schema: Some("".into()),
        table: Some("t".into()),
        table_type: Some("VIEW".into()),
    };
    let (sql, binds) = build_list_tables_sql(&filters);
    assert_eq!(
        sql,
        "SELECT table_catalog, table_schema, table_name, table_type FROM information_schema.tables \
         WHERE table_catalog = ? AND table_name = ? AND table_type = ? \
         ORDER BY table_schema, table_name"
    );
    assert_eq!(sql.matches('?').count(), binds.len());
    let (sql, binds) = build_list_columns_sql(&filters);
    assert_eq!(
        sql,
        "SELECT table_name, column_name, data_type, is_nullable, ordinal_position \
         FROM information_schema.columns WHERE table_catalog = ? AND table_name = ? \
         ORDER BY table_name, ordinal_position"
    );
    assert_eq!(
        binds,
        vec![DuckBind::Str("c".into()), DuckBind::Str("t".into())]
    );
}

#[test]
fn filter_values_do_not_change_the_statement() {
    let a = CatalogFilters {
        table: Some("x".into()),
        ..Default::default()
    };
    let b = CatalogFilters {
        table: Some("x' OR 1=1; --".into()),
        ..Default::default()
    };
    assert_eq!(build_list_tables_sql(&a).0, build_list_tables_sql(&b).0);
    assert_eq!(build_list_columns_sql(&a).0, build_list_columns_sql(&b).0);
}

#[test]
fn read_file_sql_drops_a_blank_predicate() {
    assert_eq!(
        build_read_file_sql("read_csv_auto", "'", &names(&["a"]), Some("  ")),
        "SELECT a FROM read_csv_auto('''')"
    );
}

#[test]
fn opening_applies_guards_then_setup() {
    let attach = vec![
        DuckDbAttach {
            alias: "lake".into(),
            source: "it's.db".into(),
            read_only: true,
        },
        DuckDbAttach {
            alias: "x".into(),
            source: "y".into(),
            read_only: false,
        },
    ];
    let plan = plan_open(
        "/data/w.duckdb",
        true,
        false,
        &names(&["LOAD httpfs;", "SET x = 1"]),
        &attach,
    );
    assert!(plan.open_read_only);
    assert!(!plan.external_access);
    assert_eq!(
        plan.steps,
        vec![
            SetupStep::Run {
                sql: "LOAD httpfs;".into(),
                failure: "DuckDB init_sql[0] failed: ".into(),
            },
            SetupStep::Run {
                sql: "SET x = 1".into(),
                failure: "DuckDB init_sql[1] failed: ".into(),
            },
            SetupStep::Run {
                sql: "ATTACH 'it''s.db' AS lake (READ_ONLY)".into(),
                failure: "DuckDB attach `lake` failed: ".into(),
            },
            SetupStep::Run {
                sql: "ATTACH 'y' AS x".into(),
                failure: "DuckDB attach `x` failed: ".into(),
            },
        ]
    );
}

#[test]
fn memory_is_not_opened_read_only() {
    let plan = plan_open(":memory:", true, true, &vec![], &vec![]);
    assert!(!plan.open_read_only);
    assert!(plan.external_access);
    assert!(plan.steps.is_empty());
    assert!(!plan_open("f.db", false, false, &vec![], &vec![]).open_read_only);
}

#[test]
fn nothing_follows_a_refused_alias() {
    let target = |alias: &str| DuckDbAttach {
        alias: alias.into(),
        source: "s".into(),
        read_only: false,
    };
    let plan = plan_open(
        "f.db",
        false,
        true,
        &vec![],
        &vec![target("a"), target("b;DROP"), target("c"), target("d e")],
    );
    assert_eq!(plan.steps.len(), 2);
    assert_eq!(
        plan.steps[1],
        SetupStep::Refuse("DuckDB attach alias `b;DROP` is not a safe identifier".into())
    );
}

#[test]
fn manager_keeps_what_it_opens_with() {
    let manager = DuckDbManager::new("f.db".into(), true, false, names(&["SELECT 1"]), vec![]);
    assert_eq!(manager.database, "f.db");
    assert!(manager.read_only);
    assert!(!manager.allow_external_access);
    assert_eq!(manager.init_sql, names(&["SELECT 1"]));
    assert!(manager.attach.is_empty());
}

#[test]
fn faults_read_as_documented() {
    let e = || "e".to_owned();
    let cases = vec![
        (
            EngineFault::ExternalAccess(e()),
            "DuckDB config (external access) failed: e",
        ),
        (
            EngineFault::ReadOnly(e()),
            "DuckDB config (read-only) failed: e",
        ),
        (EngineFault::Open(e()), "DuckDB open failed: e"),
        (
            EngineFault::OpenWorker(e()),
            "DuckDB open worker task failed: e",
        ),
        (EngineFault::PoolBuild(e()), "DuckDB pool build failed: e"),
        (EngineFault::Recycle(e()), "recycle ping failed: e"),
        (EngineFault::Prepare(e()), "DuckDB prepare failed: e"),
        (EngineFault::Query(e()), "DuckDB query failed: e"),
        (EngineFault::RowRead(e()), "DuckDB row read failed: e"),
    ];
    for (fault, message) in cases {
        assert_eq!(fault.message(), message);
    }
}

#[test]
fn marshals_scalar_columns() {
    let mut rows = RowCollector::new(names(&["id", "name", "x", "active"]), 1_000);
    rows.push(&vec![
        Some(DuckCell::Int(42)),
        text("alice"),
        Some(DuckCell::Null),
        Some(DuckCell::Boolean(true)),
    ]);
    let oc = rows.finish();
    assert_eq!(oc.row_count, 1);
    assert!(!oc.truncated);
    assert_eq!(
        oc.rows[0],
        parse(r#"{ "id": 42, "name": "alice", "x": null, "active": true }"#)
    );
}

#[test]
fn marshals_float_and_blob_and_bigint() {
    let row = row_to_json(
        &names(&["f", "b", "big"]),
        &vec![
            Some(DuckCell::Real(number(1.5))),
            Some(DuckCell::Blob(vec![0, 1])),
            Some(DuckCell::BigInt(9_223_372_036_854_775_807)),
        ],
    );
    assert_eq!(row.get("f"), Some(&parse("1.5")));
    assert_eq!(row.get("big"), Some(&integer(9_223_372_036_854_775_807)));
    assert_eq!(row.get("b"), Some(&string("AAE=")));
}

#[test]
fn hugeint_overflowing_i64_is_stringified() {
    let h = value_ref_to_json(&DuckCell::HugeInt(170141183460469231731687303715884105727));
    assert_eq!(h, string("170141183460469231731687303715884105727"));
}

#[test]
fn integers_keep_their_digits() {
    assert_eq!(value_ref_to_json(&DuckCell::TinyInt(-128)), integer(-128));
    assert_eq!(value_ref_to_json(&DuckCell::SmallInt(-5)), integer(-5));
    assert_eq!(value_ref_to_json(&DuckCell::UTinyInt(255)), integer(255));
    assert_eq!(
        value_ref_to_json(&DuckCell::USmallInt(65535)),
        integer(65535)
    );
    assert_eq!(
        value_ref_to_json(&DuckCell::UInt(4_294_967_295)),
        integer(4_294_967_295)
    );
    assert_eq!(
        value_ref_to_json(&DuckCell::UBigInt(9_223_372_036_854_775_807)),
        integer(9_223_372_036_854_775_807)
    );
    assert_eq!(
        value_ref_to_json(&DuckCell::UBigInt(9_223_372_036_854_775_808)),
        string("9223372036854775808")
    );
    assert_eq!(
        value_ref_to_json(&DuckCell::HugeInt(-9_223_372_036_854_775_808)),
        integer(-9_223_372_036_854_775_808)
    );
    assert_eq!(
        value_ref_to_json(&DuckCell::HugeInt(-9_223_372_036_854_775_809)),
        string("-9223372036854775809")
    );
    assert_eq!(
        value_ref_to_json(&DuckCell::HugeInt(i128::MIN)),
        string("-170141183460469231731687303715884105728")
    );
}

#[test]
fn other_cells_become_text() {
    assert_eq!(
        value_ref_to_json(&DuckCell::Decimal("1.50".into())),
        string("1.50")
    );
    assert_eq!(
        value_ref_to_json(&DuckCell::Timestamp(TimeUnit::Microsecond, -7)),
        string("-7 Microsecond")
    );
    assert_eq!(
        value_ref_to_json(&DuckCell::Time64(TimeUnit::Nanosecond, 12)),
        string("12 Nanosecond")
    );
    assert_eq!(
        value_ref_to_json(&DuckCell::Timestamp(TimeUnit::Second, 1)),
        string("1 Second")
    );
    assert_eq!(
        value_ref_to_json(&DuckCell::Timestamp(TimeUnit::Millisecond, 0)),
        string("0 Millisecond")
    );
    assert_eq!(value_ref_to_json(&DuckCell::Date32(-1)), string("-1"));
    assert_eq!(
        value_ref_to_json(&DuckCell::Interval {
            months: 1,
            days: -2,
            nanos: 3,
        }),
        string("1mo -2d 3ns")
    );
    assert_eq!(
        value_ref_to_json(&DuckCell::Other("List(..)".into())),
        string("List(..)")
    );
    assert_eq!(
        value_ref_to_json(&DuckCell::Real(number(f64::NAN))),
        Json::Null
    );
    assert_eq!(
        value_ref_to_json(&DuckCell::Text(vec![b'a', 0xff, 0xc3, 0xa9])),
        string("a\u{fffd}é")
    );
    assert_eq!(value_ref_to_json(&DuckCell::Blob(vec![])), string(""));
    assert_eq!(
        value_ref_to_json(&DuckCell::Blob(vec![0xff, 0xfe, 0xfd, 0xfc])),
        string("//79/A==")
    );
}

#[test]
fn of_equal_columns_the_last_counts() {
    let row = row_to_json(
        &names(&["a", "b", "a", "c", "d"]),
        &vec![
            Some(DuckCell::Int(1)),
            Some(DuckCell::Int(2)),
            Some(DuckCell::Int(3)),
            None,
        ],
    );
    assert_eq!(row, parse(r#"{ "a": 3, "b": 2, "c": null, "d": null }"#));
    assert_eq!(row.to_text(), r#"{"a":3,"b":2,"c":null,"d":null}"#);
}

#[test]
fn max_rows_cap_sets_truncated_and_exact_count() {
    let mut rows = RowCollector::new(names(&["n"]), 3);
    for n in 0..10 {
        rows.push(&vec![Some(DuckCell::BigInt(n))]);
    }
    assert_eq!(rows.row_count(), 10);
    let oc = rows.finish();
    assert_eq!(oc.rows.len(), 3);
    assert!(oc.truncated);
    assert_eq!(oc.row_count, 10);
    assert_eq!(oc.rows[2], parse(r#"{ "n": 2 }"#));
}

#[test]
fn a_full_page_is_not_truncated() {
    let mut rows = RowCollector::new(names(&["n"]), 2);
    rows.push(&vec![]);
    rows.push(&vec![]);
    let oc = rows.finish();
    assert!(!oc.truncated);
    assert_eq!(oc.row_count, 2);
    assert_eq!(oc.rows[0], parse(r#"{ "n": null }"#));
}

#[test]
fn argument_idents_keep_every_appearance() {
    assert_eq!(
        extract_argument_idents("arguments.a + arguments. + arguments.arguments.b1_é arguments.a"),
        names(&["a", "arguments", "a"])
    );
    assert_eq!(extract_argument_idents("xarguments.y"), names(&["y"]));
    assert_eq!(extract_argument_idents("arguments"), names(&[]));
}

#[test]
fn referenced_arguments_come_once() {
    let params = vec![
        CompiledParam {
            source: "arguments.b + arguments.a".into(),
        },
        CompiledParam {
            source: "arguments.a + arguments.c".into(),
        },
    ];
    assert_eq!(
        arguments_referenced_by_params(&params),
        names(&["b", "a", "c"])
    );
    assert_eq!(
        params_input_schema(&names(&["b", "a"])).to_text(),
        r#"{"type":"object","properties":{"b":{},"a":{}},"additionalProperties":true}"#
    );
    assert_eq!(
        params_input_schema(&vec![]),
        parse(r#"{ "type": "object", "properties": {}, "additionalProperties": true }"#)
    );
}

#[test]
fn scalars_bind_as_what_they_are() {
    assert_eq!(json_to_duck_bind(&Json::Null), Ok(DuckBind::Null));
    assert_eq!(
        json_to_duck_bind(&Json::Bool(true)),
        Ok(DuckBind::Bool(true))
    );
    assert_eq!(json_to_duck_bind(&integer(-3)), Ok(DuckBind::Int(-3)));
    assert_eq!(
        json_to_duck_bind(&parse("1.5")),
        Ok(DuckBind::Real(number(1.5).unwrap()))
    );
    assert_eq!(
        json_to_duck_bind(&parse("9223372036854775808")),
        Ok(DuckBind::Real(serde_json::Number::from(
            9223372036854775808u64
        )))
    );
    assert_eq!(
        json_to_duck_bind(&parse("2.0")),
        Ok(DuckBind::Real(number(2.0).unwrap()))
    );
    assert!(json_to_duck_bind(&parse("[]")).is_err());
    assert!(json_to_duck_bind(&parse("{}")).is_err());
}

#[test]
fn parameters_bind_in_order_or_not_at_all() {
    assert_eq!(
        eval_param_binds(Ok(vec![integer(1), string("x")])),
        Ok(vec![DuckBind::Int(1), DuckBind::Str("x".into())])
    );
    assert_eq!(
        eval_param_binds(Err("no such key".into())),
        Err("evaluating params: no such key".to_owned())
    );
    assert_eq!(
        eval_param_binds(Ok(vec![integer(1), parse("[1]")])),
        Err("binding params: parameter value must be a scalar; arrays and objects cannot be bound".to_owned())
    );
}

#[test]
fn texts_keep_their_characters() {
    for t in ["", "bob", "zażółć 漢字 🦆", "a\"b\\c\n'"] {
        assert_eq!(
            value_ref_to_json(&DuckCell::Text(t.as_bytes().to_vec())),
            string(t)
        );
    }
}

#[test]
fn blobs_are_padded_to_groups_of_four() {
    let cases: [(&[u8], &str); 6] = [
        (b"f", "Zg=="),
        (b"fo", "Zm8="),
        (b"foo", "Zm9v"),
        (b"foob", "Zm9vYg=="),
        (&[0xfb, 0xff, 0xbf], "+/+/"),
        (&[0x00, 0x10, 0x83, 0xd3, 0x5d, 0xb7], "ABCD0123"),
    ];
    for (bytes, expected) in cases {
        assert_eq!(
            value_ref_to_json(&DuckCell::Blob(bytes.to_vec())),
            string(expected)
        );
    }
}
