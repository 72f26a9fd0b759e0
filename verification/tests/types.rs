//! The operator's description of a binding: defaults, and the checks on its
//! parts.

use duckdb_binding::names::NameMap;
use duckdb_binding::register::{check_spec, guarded_statements, Verdicts};
use duckdb_binding::surface::Surface;
use duckdb_binding::types::{
    is_safe_sql_identifier, validate_completion, validate_list_query, validate_read_file,
    CatalogFilterConfig, CompletionConfig, DuckDbAttach, DuckDbBackendSpec, DuckDbOperation,
    DuckDbQueryConfig,
    ListQueryConfig, ListQueryMode, ReadFileConfig, ReadFileFormat,
};

/// What the checks say of a description whose statements the guard accepts.
fn check(spec: &DuckDbBackendSpec) -> Result<(), String> {
    let mut verdicts: Verdicts = NameMap::new();
    for sql in guarded_statements(spec) {
        verdicts = verdicts.with(&sql, None);
    }
    check_spec(spec, &verdicts)
}

#[test]
fn spec_applies_defaults_when_omitted() {
    let mut spec = DuckDbBackendSpec::new(":memory:".to_owned());
    spec.statement = "SELECT 1 AS one".to_owned();
    assert!(spec.read_only);
    assert!(!spec.allow_external_access);
    assert_eq!(spec.query.statement_timeout_ms, 30_000);
    assert_eq!(spec.query.max_rows, 100_000);
    assert_eq!(spec.pool_max_size, 2);
    assert!(spec.init_sql.is_empty());
    assert!(spec.attach.is_empty());
    assert!(spec.params.is_empty());
    assert_eq!(spec.operation, DuckDbOperation::Query);
    assert!(spec.read_file.is_none());
    assert!(spec.catalog_filters.argument_names().is_empty());
    assert_eq!(spec.surface, Surface::Tool);
    assert!(spec.uri.is_none());
    assert_eq!(spec.variable_completions.len(), 0);
    assert_eq!(check(&spec), Ok(()));
}

#[test]
fn parses_list_tables_operation_with_filters() {
    let mut spec = DuckDbBackendSpec::new(":memory:".to_owned());
    spec.operation = DuckDbOperation::ListTables;
    spec.catalog_filters.schema = Some("main".to_owned());
    spec.catalog_filters.table_type_arg = Some("kind".to_owned());
    assert_eq!(spec.operation, DuckDbOperation::ListTables);
    assert!(spec.operation.is_catalog());
    assert_eq!(spec.operation.as_str(), "list_tables");
    assert_eq!(spec.catalog_filters.schema.as_deref(), Some("main"));
    assert_eq!(
        spec.catalog_filters.argument_names(),
        vec!["kind".to_owned()]
    );
    assert!(spec.statement.is_empty());
    assert_eq!(check(&spec), Ok(()));
}

#[test]
fn parses_list_columns_operation() {
    let mut spec = DuckDbBackendSpec::new(":memory:".to_owned());
    spec.operation = DuckDbOperation::ListColumns;
    spec.catalog_filters.table = Some("customers".to_owned());
    assert_eq!(spec.operation, DuckDbOperation::ListColumns);
    assert!(spec.operation.is_catalog());
    assert_eq!(spec.catalog_filters.table.as_deref(), Some("customers"));
    assert_eq!(check(&spec), Ok(()));
    spec.catalog_filters.table = Some("  ".to_owned());
    assert!(check(&spec).is_err());
}

#[test]
fn parses_read_file_operation() {
    let mut spec = DuckDbBackendSpec::new(":memory:".to_owned());
    spec.operation = DuckDbOperation::ReadFile;
    spec.allow_external_access = true;
    spec.read_file = Some(ReadFileConfig {
        path: "/data/sales/*.parquet".into(),
        format: ReadFileFormat::Parquet,
        columns: vec!["region".into(), "amount".into()],
        predicate: Some("amount > ?".into()),
    });
    assert_eq!(spec.operation, DuckDbOperation::ReadFile);
    assert!(!spec.operation.is_catalog());
    assert_eq!(check(&spec), Ok(()));
    spec.allow_external_access = false;
    assert!(check(&spec).is_err());
    let rf = spec.read_file.expect("read_file");
    assert_eq!(rf.path, "/data/sales/*.parquet");
    assert_eq!(rf.format, ReadFileFormat::Parquet);
    assert_eq!(rf.format.table_function(), "read_parquet");
    assert_eq!(rf.columns, vec!["region".to_owned(), "amount".to_owned()]);
    assert_eq!(rf.predicate.as_deref(), Some("amount > ?"));
}

#[test]
fn read_file_format_csv_maps_to_read_csv_auto() {
    assert_eq!(ReadFileFormat::Csv.table_function(), "read_csv_auto");
    assert_eq!(ReadFileFormat::default(), ReadFileFormat::Parquet);
}

#[test]
fn validate_read_file_enforces_path_columns_and_cred() {
    let mut cfg = ReadFileConfig {
        path: "/data/x.parquet".into(),
        format: ReadFileFormat::Parquet,
        columns: vec!["a".into(), "b".into()],
        predicate: Some("a > ?".into()),
    };
    assert!(validate_read_file(&cfg).is_ok());

    cfg.path = "  ".into();
    assert!(validate_read_file(&cfg).is_err(), "empty path");

    cfg.path = "s3://b/cred://aws/x#k".into();
    assert!(validate_read_file(&cfg).is_err(), "bare cred:// in path");

    cfg.path = "/data/x.parquet".into();
    cfg.columns = vec!["a; DROP TABLE t".into()];
    assert!(
        validate_read_file(&cfg).is_err(),
        "unsafe projection identifier"
    );

    cfg.columns = vec![];
    cfg.predicate = Some("  ".into());
    assert!(
        validate_read_file(&cfg).is_err(),
        "empty predicate when set"
    );
}

#[test]
fn read_file_rejections_read_as_documented() {
    let mut cfg = ReadFileConfig {
        path: "\t\u{3000}".into(),
        format: ReadFileFormat::Csv,
        columns: vec!["ok".into(), "1st".into(), "also bad".into()],
        predicate: None,
    };
    assert_eq!(
        validate_read_file(&cfg),
        Err("read_file.path must not be empty".to_owned())
    );
    cfg.path = "cred://x".into();
    assert_eq!(
        validate_read_file(&cfg),
        Err("read_file.path must not contain a bare cred:// URI — use ${cred://…} (resolved at config load)".to_owned())
    );
    cfg.path = "x.csv".into();
    assert_eq!(
        validate_read_file(&cfg),
        Err("read_file.columns entry '1st' is not a safe SQL identifier".to_owned())
    );
    cfg.columns = vec![];
    cfg.predicate = Some("\n".into());
    assert_eq!(
        validate_read_file(&cfg),
        Err("read_file.predicate must not be empty when set".to_owned())
    );
}

#[test]
fn parses_list_query_and_completions() {
    let mut spec = DuckDbBackendSpec::new(":memory:".to_owned());
    spec.surface = Surface::Resource;
    spec.list_query = Some(ListQueryConfig {
        sql: "SELECT id AS uri FROM t WHERE id > ? ORDER BY id LIMIT ?".into(),
        mode: ListQueryMode::default(),
        cursor_column: Some("id".into()),
        page_size: 50,
    });
    spec.variable_completions = NameMap::new().with(
        "name",
        CompletionConfig {
            sql: "SELECT name FROM t WHERE name LIKE ? || '%' LIMIT 100".into(),
            max_results: None,
        },
    );
    spec.statement = "SELECT 1 AS one".into();
    assert_eq!(
        guarded_statements(&spec),
        vec![
            "SELECT 1 AS one".to_owned(),
            "SELECT id AS uri FROM t WHERE id > ? ORDER BY id LIMIT ?".to_owned(),
            "SELECT name FROM t WHERE name LIKE ? || '%' LIMIT 100".to_owned(),
        ]
    );
    assert_eq!(check(&spec), Ok(()));
    let lq = spec.list_query.expect("list_query");
    assert_eq!(lq.page_size, 50);
    assert_eq!(lq.mode, ListQueryMode::Keyset);
    assert_eq!(lq.cursor_column.as_deref(), Some("id"));
    assert!(spec.variable_completions.get("name").is_some());
    assert!(spec.variable_completions.get("other").is_none());
}

#[test]
fn read_query_defaults_to_none() {
    let spec = DuckDbBackendSpec::new(":memory:".to_owned());
    assert!(spec.read_query.is_none());
}

#[test]
fn validate_list_query_enforces_bounds_and_cursor() {
    let mut cfg = ListQueryConfig {
        sql: "SELECT id AS uri FROM t".into(),
        mode: ListQueryMode::Keyset,
        cursor_column: None,
        page_size: 100,
    };
    assert!(
        validate_list_query(&cfg).is_err(),
        "keyset needs cursor_column"
    );
    cfg.cursor_column = Some("id".into());
    assert!(validate_list_query(&cfg).is_ok());
    cfg.cursor_column = Some("id; DROP TABLE t".into());
    assert!(
        validate_list_query(&cfg).is_err(),
        "unsafe cursor identifier"
    );
    cfg.cursor_column = Some("id".into());
    cfg.page_size = 0;
    assert!(validate_list_query(&cfg).is_err(), "page_size out of range");
    cfg.page_size = 100;
    cfg.sql = "  ".into();
    assert!(validate_list_query(&cfg).is_err(), "empty sql");
}

#[test]
fn list_query_rejections_read_as_documented() {
    let mut cfg = ListQueryConfig {
        sql: " ".into(),
        mode: ListQueryMode::Keyset,
        cursor_column: Some("  ".into()),
        page_size: 1001,
    };
    assert_eq!(
        validate_list_query(&cfg),
        Err("list_query.sql must not be empty".to_owned())
    );
    cfg.sql = "SELECT 1".into();
    assert_eq!(
        validate_list_query(&cfg),
        Err("list_query.page_size (1001) must be in 1..=1000".to_owned())
    );
    cfg.page_size = 1000;
    assert_eq!(
        validate_list_query(&cfg),
        Err("list_query.cursor_column is required for mode: keyset".to_owned())
    );
    cfg.cursor_column = Some(" a b ".into());
    assert_eq!(
        validate_list_query(&cfg),
        Err("list_query.cursor_column 'a b' is not a safe SQL identifier".to_owned())
    );
    cfg.cursor_column = Some(" id ".into());
    assert_eq!(validate_list_query(&cfg), Ok(()));
}

#[test]
fn validate_list_query_offset_mode_skips_cursor() {
    let cfg = ListQueryConfig {
        sql: "SELECT id AS uri FROM t LIMIT ? OFFSET ?".into(),
        mode: ListQueryMode::Offset,
        cursor_column: None,
        page_size: 100,
    };
    assert!(validate_list_query(&cfg).is_ok());
}

#[test]
fn validate_completion_requires_single_placeholder() {
    let mut cc = CompletionConfig {
        sql: "SELECT name FROM t WHERE name LIKE ? || '%'".into(),
        max_results: None,
    };
    assert!(validate_completion("name", &cc).is_ok());
    cc.sql = "SELECT name FROM t".into();
    assert!(validate_completion("name", &cc).is_err(), "needs one ?");
    cc.sql = "SELECT name FROM t WHERE a = ? AND b = ?".into();
    assert!(validate_completion("name", &cc).is_err(), "exactly one ?");
    cc.sql = "  ".into();
    assert!(validate_completion("name", &cc).is_err(), "empty sql");
}

#[test]
fn a_quoted_mark_is_no_placeholder() {
    let mut cc = CompletionConfig {
        sql: "SELECT name FROM t WHERE name <> '?'".into(),
        max_results: None,
    };
    assert!(validate_completion("name", &cc).is_err());
    cc.sql = "SELECT name FROM t WHERE name <> '?' AND name LIKE ? -- really?".into();
    assert!(validate_completion("name", &cc).is_ok());
    cc.sql = "SELECT n FROM t WHERE n <> $$it's$$ AND n LIKE ?".into();
    assert!(validate_completion("name", &cc).is_ok());
    cc.sql = "SELECT n FROM t WHERE n <> $$?$$".into();
    assert!(validate_completion("name", &cc).is_err());
    cc.sql = r"SELECT n FROM t WHERE n <> E'\'' AND n LIKE ?".into();
    assert!(validate_completion("name", &cc).is_ok());
}

#[test]
fn completion_rejections_name_the_variable() {
    let mut cc = CompletionConfig {
        sql: "".into(),
        max_results: None,
    };
    assert_eq!(
        validate_completion("city", &cc),
        Err("variable_completions.city.sql must not be empty".to_owned())
    );
    cc.sql = "SELECT 1".into();
    assert_eq!(
        validate_completion("city", &cc),
        Err("variable_completions.city.sql must reference exactly one `?` placeholder (bound to the typed prefix)".to_owned())
    );
}

#[test]
fn argument_names_come_once_in_filter_order() {
    let mut cfg = CatalogFilterConfig::default();
    cfg.table_type_arg = Some("kind".into());
    cfg.catalog_arg = Some("where".into());
    cfg.schema_arg = Some("kind".into());
    cfg.table_arg = Some("table".into());
    assert_eq!(
        cfg.argument_names(),
        vec!["where".to_owned(), "kind".to_owned(), "table".to_owned()]
    );
}

#[test]
fn operations_have_their_words() {
    assert_eq!(DuckDbOperation::default(), DuckDbOperation::Query);
    assert_eq!(DuckDbOperation::Query.as_str(), "query");
    assert_eq!(DuckDbOperation::ListColumns.as_str(), "list_columns");
    assert_eq!(DuckDbOperation::ReadFile.as_str(), "read_file");
    assert!(!DuckDbOperation::Query.is_catalog());
    assert!(!DuckDbOperation::ReadFile.is_catalog());
    assert_eq!(DuckDbQueryConfig::default().max_rows, 100_000);
}

#[test]
fn safe_identifiers_are_plain() {
    assert!(is_safe_sql_identifier("_a1"));
    assert!(!is_safe_sql_identifier("a-b"));
    assert!(!is_safe_sql_identifier("é"));
    assert!(!is_safe_sql_identifier(""));
}

#[test]
fn parses_overrides_and_attach() {
    let mut spec = DuckDbBackendSpec::new("/data/warehouse.duckdb".to_owned());
    spec.read_only = false;
    spec.allow_external_access = true;
    spec.init_sql = vec!["INSTALL httpfs; LOAD httpfs;".to_owned()];
    spec.attach = vec![DuckDbAttach {
        alias: "lake".into(),
        source: "s3://bucket/db.duckdb".into(),
        read_only: true,
    }];
    spec.statement = "SELECT * FROM read_parquet(?)".into();
    spec.params = vec!["arguments.path".into()];
    spec.query = DuckDbQueryConfig {
        statement_timeout_ms: 5000,
        max_rows: 50,
    };
    assert!(!spec.read_only);
    assert!(spec.allow_external_access);
    assert_eq!(spec.init_sql.len(), 1);
    assert_eq!(spec.attach.len(), 1);
    assert_eq!(spec.attach[0].alias, "lake");
    assert!(spec.attach[0].read_only);
    assert_eq!(spec.query.statement_timeout_ms, 5000);
    assert_eq!(spec.query.max_rows, 50);
    assert!(guarded_statements(&spec).is_empty());
    assert_eq!(check(&spec), Ok(()));
    spec.attach[0].alias = "la ke".into();
    assert!(check(&spec).is_err());
}

#[test]
fn parses_resource_template_read_query() {
    let mut spec = DuckDbBackendSpec::new(":memory:".to_owned());
    spec.surface = Surface::Resource;
    spec.read_query = Some("SELECT * FROM orders WHERE id = ?".into());
    spec.params = vec!["arguments.id".into()];
    assert_eq!(
        spec.read_query.as_deref(),
        Some("SELECT * FROM orders WHERE id = ?")
    );
    assert!(spec.statement.is_empty());
    assert_eq!(spec.params, vec!["arguments.id".to_owned()]);
    assert_eq!(
        guarded_statements(&spec),
        vec!["SELECT * FROM orders WHERE id = ?".to_owned()]
    );
    assert_eq!(check(&spec), Ok(()));
    spec.read_query = None;
    assert!(check(&spec).is_err());
}
