//! Registering bindings and calling them.

use duckdb_binding::audit::{audit_action_for_outcome, audit_record, synthetic_system_identity};
use duckdb_binding::call::{
    accept_arguments, completion_values, finalize_payload, first_step, label_of_failure,
    listing_page, plan_completion, plan_listing, resolve_catalog_filters, resolve_one, settle,
    shape_outcome, step_after_run, step_after_values, tool_name, CallStep, EngineRun,
};
use duckdb_binding::duckdb::{DuckCell, QueryOutcome, RowCollector};
use duckdb_binding::json::{integer, string, Json};
use duckdb_binding::names::NameMap;
use duckdb_binding::params::{json_to_duck_bind, DuckBind};
use duckdb_binding::plugin::{BackendError, DuckDbBackendPlugin};
use duckdb_binding::register::{check_spec, guarded_statements, reject_bare_cred, Verdicts};
use duckdb_binding::surface::{
    resource_contents_body, rows_to_completion_values, rows_to_resource_page, Surface,
};
use duckdb_binding::types::{
    CompletionConfig, DuckDbAttach, DuckDbBackendSpec, DuckDbOperation, ListQueryConfig,
    ListQueryMode, ReadFileConfig, ReadFileFormat,
};

fn parse(text: &str) -> Json {
    Json::parse(text.as_bytes()).expect("json")
}

fn at<'a>(value: &'a Json, path: &[&str]) -> &'a Json {
    let mut here = value;
    for key in path {
        here = here.get(key).expect("member");
    }
    here
}

fn item(value: &Json, i: usize) -> &Json {
    match value {
        Json::Array(items) => &items[i],
        _ => panic!("not an array"),
    }
}

fn items(value: &Json) -> usize {
    match value {
        Json::Array(items) => items.len(),
        _ => panic!("not an array"),
    }
}

/// A guard for these tests: a statement is read-only where it selects.
fn verdicts(spec: &DuckDbBackendSpec) -> Verdicts {
    let mut map: Verdicts = NameMap::new();
    for sql in guarded_statements(spec) {
        let verdict = if sql.trim_start().starts_with("SELECT") {
            None
        } else {
            Some("read-only guard: not a SELECT".to_owned())
        };
        map = map.with(&sql, verdict);
    }
    map
}

fn register(
    plugin: &mut DuckDbBackendPlugin,
    name: &str,
    spec: DuckDbBackendSpec,
) -> Result<(), BackendError> {
    let guard = verdicts(&spec);
    plugin.register_profile(name, spec, &guard, Ok(()), Ok(()))
}

fn refused(spec: DuckDbBackendSpec) -> String {
    let mut plugin = DuckDbBackendPlugin::new();
    match register(&mut plugin, "x", spec) {
        Err(BackendError::InvalidSpec { message }) => {
            assert!(plugin.profile("x").is_none());
            message
        }
        other => panic!("expected InvalidSpec, got {other:?}"),
    }
}

fn memory() -> DuckDbBackendSpec {
    DuckDbBackendSpec::new(":memory:".to_owned())
}

fn minimal_spec() -> DuckDbBackendSpec {
    let mut spec = memory();
    spec.statement = "SELECT 1 AS one WHERE 1 = ?".into();
    spec.params = vec!["arguments.id".into()];
    spec
}

fn rows(list: &[&str]) -> QueryOutcome {
    let rows: Vec<Json> = list.iter().map(|t| parse(t)).collect();
    let row_count = rows.len();
    QueryOutcome {
        rows,
        truncated: false,
        row_count,
    }
}

/// Registers a binding and replies to a call whose query gave `outcome`.
fn call(spec: DuckDbBackendSpec, args: &str, outcome: QueryOutcome) -> Json {
    let mut plugin = DuckDbBackendPlugin::new();
    register(&mut plugin, "b", spec).expect("register");
    let profile = plugin.profile("b").unwrap();
    let reply = step_after_run(
        profile,
        "b",
        "tool",
        &parse(args),
        EngineRun::Finished(Ok(outcome)),
        5,
    );
    reply.body
}

#[test]
fn kind_is_duckdb() {
    assert_eq!(DuckDbBackendPlugin::new().kind(), "duckdb");
}

#[test]
fn manifest_id() {
    assert_eq!(DuckDbBackendPlugin::new().id(), "dev.mcpg.backend.duckdb");
}

#[test]
fn output_schema_is_object() {
    let plugin = DuckDbBackendPlugin::default();
    let schema = plugin.output_schema("an").unwrap();
    assert_eq!(schema.get("type"), Some(&string("object")));
}

#[test]
fn input_schema_lists_referenced_params() {
    let mut plugin = DuckDbBackendPlugin::new();
    register(&mut plugin, "an", minimal_spec()).expect("register");
    let schema = plugin.input_schema("an").unwrap();
    assert_eq!(schema.get("type"), Some(&string("object")));
    assert_eq!(schema.get("additionalProperties"), Some(&Json::Bool(true)));
    assert!(matches!(
        at(&schema, &["properties", "id"]),
        Json::Object(_)
    ));
    assert_eq!(
        at(&plugin.input_schema("other").unwrap(), &["properties"]),
        &parse("{}")
    );
}

#[test]
fn register_accepts_minimal_spec() {
    let mut plugin = DuckDbBackendPlugin::new();
    register(&mut plugin, "an", minimal_spec()).expect("register");
    let p = plugin.profile("an").unwrap();
    assert_eq!(p.database, ":memory:");
    assert!(p.read_only);
    assert!(!p.allow_external_access);
    assert_eq!(p.compiled_params.len(), 1);
    assert!(!p.pooled, ":memory: must not be pooled");
}

#[test]
fn files_are_pooled() {
    let mut plugin = DuckDbBackendPlugin::new();
    let mut spec = DuckDbBackendSpec::new("/data/w.duckdb".into());
    spec.statement = "SELECT 1".into();
    register(&mut plugin, "f", spec).expect("register");
    let p = plugin.profile("f").unwrap();
    assert!(p.pooled);
    assert_eq!(p.timeout_ms, 30_000);
    assert_eq!(p.max_rows, 100_000);
}

#[test]
fn register_rejects_zero_pool_max_size() {
    let mut spec = minimal_spec();
    spec.pool_max_size = 0;
    assert_eq!(refused(spec), "pool_max_size must be greater than 0");
}

#[test]
fn register_rejects_other_zero_bounds() {
    let mut spec = minimal_spec();
    spec.query.statement_timeout_ms = 0;
    spec.query.max_rows = 0;
    assert_eq!(
        refused(spec),
        "query.statement_timeout_ms must be greater than 0"
    );
    let mut spec = minimal_spec();
    spec.query.max_rows = 0;
    assert_eq!(refused(spec), "query.max_rows must be greater than 0");
}

#[test]
fn register_rejects_blank_database() {
    let mut spec = minimal_spec();
    spec.database = "  ".into();
    assert_eq!(refused(spec), "database must not be empty");
}

#[test]
fn register_rejects_non_select_when_read_only() {
    let mut spec = minimal_spec();
    spec.statement = "DELETE FROM t".into();
    assert_eq!(refused(spec), "read-only guard: not a SELECT");
}

#[test]
fn register_allows_non_select_when_not_read_only() {
    let mut plugin = DuckDbBackendPlugin::new();
    let mut spec = minimal_spec();
    spec.read_only = false;
    spec.statement = "CREATE TABLE t(x INTEGER)".into();
    spec.params = vec![];
    assert!(guarded_statements(&spec).is_empty());
    register(&mut plugin, "w", spec).expect("write under read_only=false");
}

#[test]
fn register_rejects_bad_attach_alias() {
    let mut spec = minimal_spec();
    spec.allow_external_access = true;
    spec.attach = vec![DuckDbAttach {
        alias: "bad;DROP".into(),
        source: "x.db".into(),
        read_only: false,
    }];
    assert_eq!(
        refused(spec),
        "attach alias `bad;DROP` must match [A-Za-z_][A-Za-z0-9_]*"
    );
}

#[test]
fn register_rejects_bare_cred() {
    let mut spec = minimal_spec();
    spec.init_sql = vec!["CREATE SECRET s (KEY_ID 'cred://aws/x#id')".into()];
    assert_eq!(
        refused(spec),
        "init_sql[0] must not contain a bare cred:// URI — use ${cred://…} (resolved at config load)"
    );
}

#[test]
fn bare_credentials_are_rejected_everywhere() {
    let tail = " must not contain a bare cred:// URI — use ${cred://…} (resolved at config load)";
    assert_eq!(reject_bare_cred("f", "a cred:/ b"), Ok(()));
    assert_eq!(reject_bare_cred("f", "cred://"), Err(format!("f{tail}")));

    let mut spec = minimal_spec();
    spec.database = "cred://db".into();
    assert_eq!(refused(spec), format!("database{tail}"));

    let mut spec = minimal_spec();
    spec.statement = "SELECT 'cred://x'".into();
    assert_eq!(refused(spec), format!("statement{tail}"));

    let mut spec = minimal_spec();
    spec.attach = vec![DuckDbAttach {
        alias: "lake".into(),
        source: "cred://x".into(),
        read_only: false,
    }];
    assert_eq!(refused(spec), format!("attach[lake].source{tail}"));

    let mut spec = minimal_spec();
    spec.surface = Surface::Resource;
    spec.list_query = Some(ListQueryConfig {
        sql: "SELECT 'cred://x'".into(),
        mode: ListQueryMode::Offset,
        cursor_column: None,
        page_size: 1,
    });
    assert_eq!(refused(spec), format!("list_query.sql{tail}"));

    let mut spec = minimal_spec();
    spec.variable_completions = NameMap::new().with(
        "v",
        CompletionConfig {
            sql: "SELECT 'cred://x' LIKE ?".into(),
            max_results: None,
        },
    );
    assert_eq!(refused(spec), format!("variable_completions.v.sql{tail}"));

    let mut spec = memory();
    spec.operation = DuckDbOperation::ReadFile;
    spec.allow_external_access = true;
    spec.read_file = Some(ReadFileConfig {
        path: "x.csv".into(),
        format: ReadFileFormat::Csv,
        columns: vec![],
        predicate: Some("a = 'cred://x'".into()),
    });
    assert_eq!(refused(spec), format!("read_file.predicate{tail}"));

    let mut spec = memory();
    spec.operation = DuckDbOperation::ListTables;
    spec.catalog_filters.schema = Some("cred://aws/x#id".into());
    assert_eq!(refused(spec), format!("catalog_filters.schema{tail}"));

    let mut spec = minimal_spec();
    spec.catalog_filters.catalog = Some("cred://x".into());
    assert_eq!(refused(spec), format!("catalog_filters.catalog{tail}"));

    let mut spec = minimal_spec();
    spec.catalog_filters.table = Some("cred://x".into());
    assert_eq!(refused(spec), format!("catalog_filters.table{tail}"));

    let mut spec = minimal_spec();
    spec.catalog_filters.table_type = Some("cred://x".into());
    assert_eq!(refused(spec), format!("catalog_filters.table_type{tail}"));

    let mut spec = minimal_spec();
    spec.catalog_filters.catalog_arg = Some("cred://x".into());
    assert_eq!(refused(spec), format!("catalog_filters.catalog_arg{tail}"));

    let mut spec = minimal_spec();
    spec.catalog_filters.schema_arg = Some("cred://x".into());
    assert_eq!(refused(spec), format!("catalog_filters.schema_arg{tail}"));

    let mut spec = minimal_spec();
    spec.catalog_filters.table_arg = Some("cred://x".into());
    assert_eq!(refused(spec), format!("catalog_filters.table_arg{tail}"));

    let mut spec = minimal_spec();
    spec.catalog_filters.table_type_arg = Some("cred://x".into());
    assert_eq!(refused(spec), format!("catalog_filters.table_type_arg{tail}"));

    let mut spec = minimal_spec();
    spec.params = vec!["arguments.id".into(), "'cred://x'".into()];
    assert_eq!(refused(spec), format!("params[1]{tail}"));

    let mut spec = minimal_spec();
    spec.surface = Surface::Resource;
    spec.uri = Some("cred://x".into());
    assert_eq!(refused(spec), format!("uri{tail}"));

    let mut spec = minimal_spec();
    spec.surface = Surface::Resource;
    spec.list_query = Some(ListQueryConfig {
        sql: "SELECT 1".into(),
        mode: ListQueryMode::Offset,
        cursor_column: Some("cred://x".into()),
        page_size: 1,
    });
    assert_eq!(refused(spec), format!("list_query.cursor_column{tail}"));

    let file = |path: &str, column: &str, predicate: &str| {
        let mut spec = minimal_spec();
        spec.read_file = Some(ReadFileConfig {
            path: path.into(),
            format: ReadFileFormat::Csv,
            columns: vec!["a".into(), column.into()],
            predicate: Some(predicate.into()),
        });
        spec
    };
    assert_eq!(
        refused(file("cred://x", "b", "p")),
        format!("read_file.path{tail}")
    );
    assert_eq!(
        refused(file("f", "cred://x", "p")),
        format!("read_file.columns[1]{tail}")
    );
    assert_eq!(
        refused(file("f", "b", "cred://x")),
        format!("read_file.predicate{tail}")
    );
}

#[test]
fn register_rejects_empty_statement() {
    let mut spec = minimal_spec();
    spec.statement = "   ".into();
    assert_eq!(
        refused(spec),
        "statement must not be empty (or set `read_query` for a resource_template read binding)"
    );
}

#[test]
fn a_refused_binding_leaves_the_old_one() {
    let mut plugin = DuckDbBackendPlugin::new();
    register(&mut plugin, "a", minimal_spec()).expect("register");
    let mut bad = minimal_spec();
    bad.database = "/other".into();
    let guard = verdicts(&bad);
    let err = plugin.register_profile("a", bad, &guard, Err("params[0]: bad".into()), Ok(()));
    assert_eq!(
        err,
        Err(BackendError::InvalidSpec {
            message: "params[0]: bad".into()
        })
    );
    assert_eq!(plugin.profile("a").unwrap().database, ":memory:");

    let mut file = minimal_spec();
    file.database = "/other".into();
    let guard = verdicts(&file);
    let err = plugin.register_profile("a", file, &guard, Ok(()), Err("no pool".into()));
    assert_eq!(
        err,
        Err(BackendError::InvalidSpec {
            message: "no pool".into()
        })
    );

    let ok = minimal_spec();
    let guard = verdicts(&ok);
    plugin
        .register_profile("a", ok, &guard, Ok(()), Err("no pool".into()))
        .expect("memory needs no pool");
    let mut next = minimal_spec();
    next.database = "/next".into();
    register(&mut plugin, "b", next).expect("second");
    assert_eq!(plugin.profile("a").unwrap().database, ":memory:");
    assert_eq!(plugin.profile("b").unwrap().database, "/next");
}

#[test]
fn completions_are_judged_in_order_of_their_names() {
    let bad = |sql: &str| CompletionConfig {
        sql: sql.into(),
        max_results: None,
    };
    let mut spec = minimal_spec();
    spec.variable_completions = NameMap::new()
        .with("b", bad("DELETE ?"))
        .with("a", bad("SELECT ?"))
        .with("c", bad(""));
    assert_eq!(
        guarded_statements(&spec),
        vec![
            "SELECT 1 AS one WHERE 1 = ?".to_owned(),
            "SELECT ?".to_owned(),
            "DELETE ?".to_owned(),
            "".to_owned(),
        ]
    );
    assert_eq!(refused(spec), "read-only guard: not a SELECT");
}

#[test]
fn check_spec_tells_what_registration_would() {
    let spec = minimal_spec();
    assert_eq!(check_spec(&spec, &verdicts(&spec)), Ok(()));
}

#[test]
fn execute_unknown_profile_is_profile_not_found() {
    let plugin = DuckDbBackendPlugin::new();
    let refusal = plugin
        .begin_call("missing", &[], &vec![])
        .expect_err("missing");
    assert_eq!(
        refusal.error,
        BackendError::ProfileNotFound {
            backend_name: "missing".into()
        }
    );
    assert_eq!(refusal.label, "profile_not_found");
}

#[test]
fn calls_read_their_payload_and_tool_name() {
    let mut plugin = DuckDbBackendPlugin::new();
    register(&mut plugin, "b", minimal_spec()).expect("register");
    let begun = plugin.begin_call("b", &[], &vec![]).expect("call");
    assert_eq!(begun.arguments, parse("{}"));
    assert_eq!(begun.tool_name, "b");

    let headers = vec![
        ("Other".to_owned(), "no".to_owned()),
        ("MCPG-Tool-Name".to_owned(), "t".to_owned()),
        ("mcpg-tool-name".to_owned(), "late".to_owned()),
    ];
    let begun = plugin
        .begin_call("b", br#"{"id":3}"#, &headers)
        .expect("call");
    assert_eq!(begun.arguments.get("id"), Some(&integer(3)));
    assert_eq!(begun.tool_name, "t");
    assert_eq!(tool_name(&vec![], "x"), "x");

    let refusal = plugin.begin_call("b", b"{", &headers).expect_err("json");
    assert_eq!(refusal.label, "invalid_spec");
    match refusal.error {
        BackendError::InvalidSpec { message } => assert!(
            message.starts_with("DuckDB plugin payload is not valid JSON: EOF"),
            "{message}"
        ),
        other => panic!("{other:?}"),
    }
    assert_eq!(
        accept_arguments(Err("e".into())),
        Err(BackendError::InvalidSpec {
            message: "DuckDB plugin payload is not valid JSON: e".into()
        })
    );
}

#[test]
fn register_rejects_uri_on_tool_surface() {
    let mut spec = memory();
    spec.statement = "SELECT 1 AS one".into();
    spec.uri = Some("duckdb://x".into());
    spec.surface = Surface::Tool;
    assert_eq!(
        refused(spec),
        "`uri` is only valid with `surface: resource` (this binding is `surface: tool`)"
    );
}

#[test]
fn register_rejects_blank_uri_and_read_query() {
    let mut spec = minimal_spec();
    spec.surface = Surface::Resource;
    spec.uri = Some(" ".into());
    assert_eq!(refused(spec), "`uri` must not be empty");
    let mut spec = minimal_spec();
    spec.surface = Surface::Resource;
    spec.read_query = Some(" ".into());
    assert_eq!(refused(spec), "`read_query` must not be empty");
}

#[test]
fn resource_surface_emits_contents_body() {
    let mut spec = memory();
    spec.statement = "SELECT i AS id FROM range(2) AS t(i)".into();
    spec.surface = Surface::Resource;
    let body = call(
        spec,
        r#"{ "uri": "duckdb://docs/all" }"#,
        rows(&[r#"{"id":0}"#, r#"{"id":1}"#]),
    );
    let contents = at(&body, &["contents"]);
    assert_eq!(items(contents), 1);
    let first = item(contents, 0);
    assert_eq!(first.get("uri"), Some(&string("duckdb://docs/all")));
    assert_eq!(first.get("text"), Some(&string(r#"[{"id":0},{"id":1}]"#)));
    assert!(first.get("blob").is_none());
    assert_eq!(first.get("mimeType"), Some(&string("application/json")));
}

#[test]
fn a_configured_uri_comes_first() {
    let mut spec = memory();
    spec.statement = "SELECT 1".into();
    spec.surface = Surface::Resource;
    spec.uri = Some("duckdb://fixed".into());
    let body = call(spec, r#"{ "uri": "duckdb://asked" }"#, rows(&[]));
    assert_eq!(
        item(at(&body, &["contents"]), 0).get("uri"),
        Some(&string("duckdb://fixed"))
    );
}

#[test]
fn resource_surface_without_uri_yields_error_envelope() {
    let mut spec = memory();
    spec.statement = "SELECT 1 AS one".into();
    spec.surface = Surface::Resource;
    let body = call(spec, "{}", rows(&[r#"{"one":1}"#]));
    assert!(body.get("contents").is_none());
    assert!(at(&body, &["downstreamError"]) != &Json::Null);
    assert_eq!(
        at(&body, &["error"]),
        &string("resource surface requires a `uri` (set a static `uri` on the binding or invoke via a resources/read request)")
    );
}

#[test]
fn an_empty_uri_is_none() {
    let mut spec = memory();
    spec.statement = "SELECT 1 AS one".into();
    spec.surface = Surface::Resource;
    let body = call(spec, r#"{ "uri": "" }"#, rows(&[r#"{"one":1}"#]));
    assert!(body.get("contents").is_none());
    assert!(at(&body, &["downstreamError"]) != &Json::Null);
}

#[test]
fn prompt_surface_emits_messages_body() {
    let mut spec = memory();
    spec.statement = "SELECT i AS id FROM range(1) AS t(i)".into();
    spec.surface = Surface::Prompt;
    let body = call(spec, "{}", rows(&[r#"{"id":0}"#]));
    let messages = at(&body, &["messages"]);
    assert_eq!(items(messages), 1);
    let first = item(messages, 0);
    assert_eq!(first.get("role"), Some(&string("user")));
    assert_eq!(at(first, &["content", "type"]), &string("text"));
    assert_eq!(at(first, &["content", "text"]), &string(r#"[{"id":0}]"#));
}

#[test]
fn tool_surface_unchanged_envelope() {
    let mut spec = memory();
    spec.statement = "SELECT 1 AS one".into();
    let env = call(spec, "{}", rows(&[r#"{"one":1}"#]));
    assert!(env.get("contents").is_none());
    assert!(env.get("messages").is_none());
    assert_eq!(
        item(at(&env, &["response", "rows"]), 0).get("one"),
        Some(&integer(1))
    );
    assert_eq!(at(&env, &["response", "durationMs"]), &integer(5));
    assert_eq!(
        finalize_payload(&env).map(|b| String::from_utf8(b).unwrap()),
        Ok(env.to_text())
    );
}

#[test]
fn failures_are_labelled_and_classified() {
    assert_eq!(label_of_failure("DuckDB call timed out"), "timeout");
    assert_eq!(label_of_failure("Timeout of parser error"), "timeout");
    assert_eq!(label_of_failure("IO Error: disk"), "transport_error");
    assert_eq!(label_of_failure("Catalog Error: disk"), "duckdb_error");

    let mut plugin = DuckDbBackendPlugin::new();
    register(&mut plugin, "b", minimal_spec()).expect("register");
    let profile = plugin.profile("b").unwrap();
    let reply = shape_outcome(profile, "b", "t", &parse("{}"), Err("IO Error".into()), 1);
    assert_eq!(reply.label, "transport_error");
    assert_eq!(reply.reason.as_deref(), Some("IO Error"));
    assert_eq!(at(&reply.body, &["response"]), &Json::Null);
    assert_eq!(
        at(&reply.body, &["downstreamError", "retryable"]),
        &Json::Bool(true)
    );
    assert_eq!(at(&reply.body, &["toolName"]), &string("t"));
    assert_eq!(at(&reply.body, &["profile"]), &string("b"));
}

#[test]
fn runs_settle_to_their_messages() {
    let message = |run: EngineRun| settle(run).expect_err("failure");
    assert_eq!(
        message(EngineRun::AcquireFailed("e".into())),
        "DuckDB pool acquire failed: e"
    );
    assert_eq!(
        message(EngineRun::AcquireTimedOut),
        "DuckDB pool acquire timed out"
    );
    assert_eq!(
        message(EngineRun::WorkerFailed("e".into())),
        "DuckDB worker task failed: e"
    );
    assert_eq!(message(EngineRun::TimedOut), "DuckDB call timed out");
    assert_eq!(message(EngineRun::Finished(Err("e".into()))), "e");
    assert_eq!(
        settle(EngineRun::Finished(Ok(rows(&[])))).unwrap().row_count,
        0
    );
}

#[test]
fn list_resources_empty_when_unconfigured() {
    let mut plugin = DuckDbBackendPlugin::new();
    register(&mut plugin, "q", minimal_spec()).expect("register");
    let plan = plan_listing(plugin.profile("q").unwrap(), None).expect("plan");
    assert!(plan.is_none());
}

fn listing(mode: ListQueryMode) -> DuckDbBackendPlugin {
    let mut spec = minimal_spec();
    spec.surface = Surface::Resource;
    spec.list_query = Some(ListQueryConfig {
        sql: "SELECT * FROM items WHERE i > ? LIMIT ?".into(),
        mode,
        cursor_column: Some(" id ".into()),
        page_size: 2,
    });
    let mut plugin = DuckDbBackendPlugin::new();
    register(&mut plugin, "r", spec).expect("register");
    plugin
}

#[test]
fn keyset_pages_follow_the_cursor_column() {
    let plugin = listing(ListQueryMode::Keyset);
    let profile = plugin.profile("r").unwrap();
    let cfg = profile.list_query.as_ref().unwrap();

    let plan = plan_listing(profile, None).unwrap().unwrap();
    assert_eq!(plan.binds, vec![DuckBind::Null, DuckBind::Int(2)]);
    assert_eq!(plan.max_rows, 2);
    assert_eq!(plan.sql, "SELECT * FROM items WHERE i > ? LIMIT ?");

    let page = listing_page(
        cfg,
        plan.prior_offset,
        Ok(rows(&[
            r#"{"uri":"duckdb://item/0","name":"Item 0","id":0}"#,
            r#"{"uri":"duckdb://item/1","name":"Item 1","id":1,"description":"d","mime_type":"m"}"#,
        ])),
    )
    .unwrap();
    assert_eq!(page.resources.len(), 2);
    assert_eq!(page.resources[0].uri, "duckdb://item/0");
    assert_eq!(page.resources[0].name.as_deref(), Some("Item 0"));
    assert_eq!(page.resources[0].description, None);
    assert_eq!(page.resources[1].description.as_deref(), Some("d"));
    assert_eq!(page.resources[1].mime_type.as_deref(), Some("m"));
    assert_eq!(page.next_cursor.as_deref(), Some("1"));

    let plan = plan_listing(profile, page.next_cursor.as_deref())
        .unwrap()
        .unwrap();
    assert_eq!(
        plan.binds,
        vec![DuckBind::Str("1".into()), DuckBind::Int(2)]
    );

    let page = listing_page(
        cfg,
        0,
        Ok(rows(&[r#"{"uri":"duckdb://item/4","id":4}"#])),
    )
    .unwrap();
    assert_eq!(page.resources.len(), 1);
    assert!(page.next_cursor.is_none());
}

#[test]
fn offset_pages_follow_the_count() {
    let plugin = listing(ListQueryMode::Offset);
    let profile = plugin.profile("r").unwrap();
    let cfg = profile.list_query.as_ref().unwrap();
    let plan = plan_listing(profile, None).unwrap().unwrap();
    assert_eq!(plan.binds, vec![DuckBind::Int(2), DuckBind::Int(0)]);

    let full = rows(&[r#"{"uri":"a"}"#, r#"{"name":"no uri"}"#]);
    let page = rows_to_resource_page(&full.rows, cfg, 40);
    assert_eq!(page.resources.len(), 1);
    assert_eq!(page.next_cursor.as_deref(), Some("42"));
    let plan = plan_listing(profile, Some("42")).unwrap().unwrap();
    assert_eq!(plan.prior_offset, 42);
    assert_eq!(plan.binds, vec![DuckBind::Int(2), DuckBind::Int(42)]);

    assert_eq!(
        plan_listing(profile, Some("-1")).expect_err("cursor"),
        BackendError::InvalidSpec {
            message: "offset-mode cursor '-1' is not a non-negative integer".into()
        }
    );
    assert!(rows_to_resource_page(&full.rows, cfg, u64::MAX)
        .next_cursor
        .is_none());
    assert_eq!(
        listing_page(cfg, 0, Err("e".into())),
        Err(BackendError::Transport {
            message: "e".into()
        })
    );
}

#[test]
fn complete_template_variable_empty_when_unconfigured() {
    let mut plugin = DuckDbBackendPlugin::new();
    register(&mut plugin, "q", minimal_spec()).expect("register");
    assert!(plan_completion(plugin.profile("q").unwrap(), "v", "x").is_none());
}

#[test]
fn complete_template_variable_returns_prefix_matches() {
    let mut spec = memory();
    spec.statement = "SELECT 1 AS one".into();
    spec.surface = Surface::Resource;
    spec.variable_completions = NameMap::new()
        .with(
            "name",
            CompletionConfig {
                sql: "SELECT name FROM (VALUES ('alpha'), ('alphabet'), ('beta')) AS t(name) \
                      WHERE name LIKE ? || '%' ORDER BY name"
                    .into(),
                max_results: Some(10),
            },
        )
        .with(
            "open",
            CompletionConfig {
                sql: "SELECT ?".into(),
                max_results: None,
            },
        );
    let mut plugin = DuckDbBackendPlugin::new();
    register(&mut plugin, "c", spec).expect("register");
    let profile = plugin.profile("c").unwrap();
    let plan = plan_completion(profile, "name", "alph").expect("plan");
    assert_eq!(plan.binds, vec![DuckBind::Str("alph".into())]);
    assert_eq!(plan.max, 10);
    assert!(plan.sql.starts_with("SELECT name FROM"));
    let got = completion_values(
        Ok(rows(&[r#"{"name":"alpha"}"#, r#"{"name":"alphabet"}"#])),
        plan.max,
    )
    .expect("complete");
    assert_eq!(got, vec!["alpha".to_owned(), "alphabet".to_owned()]);
    assert_eq!(plan_completion(profile, "open", "").unwrap().max, 100);
    assert!(plan_completion(profile, "other", "x").is_none());
}

#[test]
fn candidates_come_from_the_first_column() {
    let list = rows(&[
        r#"{"b":"x","a":"no"}"#,
        r#"{"b":null}"#,
        r#"{"b":7}"#,
        r#"{"a":"no"}"#,
        r#"{"b":true}"#,
    ]);
    assert_eq!(
        completion_values(Ok(list), 2).unwrap(),
        vec!["x".to_owned(), "7".to_owned()]
    );
    let list = rows(&[r#"{"b":"x"}"#]);
    assert!(rows_to_completion_values(&list.rows, None, 5).is_empty());
    assert!(completion_values(Ok(rows(&[])), 5).unwrap().is_empty());
    assert_eq!(
        completion_values(Err("e".into()), 5),
        Err(BackendError::Transport {
            message: "e".into()
        })
    );
}

#[test]
fn register_list_tables_needs_no_statement() {
    let mut plugin = DuckDbBackendPlugin::new();
    let mut spec = memory();
    spec.operation = DuckDbOperation::ListTables;
    register(&mut plugin, "lt", spec).expect("list_tables needs no statement");
    assert_eq!(
        plugin.profile("lt").unwrap().operation,
        DuckDbOperation::ListTables
    );
}

#[test]
fn register_list_columns_requires_table() {
    let mut spec = memory();
    spec.operation = DuckDbOperation::ListColumns;
    assert_eq!(
        refused(spec),
        "operation: list_columns requires a catalog_filters.table or .table_arg (the table whose columns to list)"
    );

    let mut plugin = DuckDbBackendPlugin::new();
    let mut spec = memory();
    spec.operation = DuckDbOperation::ListColumns;
    spec.catalog_filters.table_arg = Some("t".into());
    register(&mut plugin, "lc2", spec).expect("table_arg satisfies list_columns");
}

#[test]
fn list_tables_output_schema_is_typed() {
    let mut plugin = DuckDbBackendPlugin::new();
    let mut spec = memory();
    spec.operation = DuckDbOperation::ListTables;
    register(&mut plugin, "lt", spec).expect("register");
    let schema = plugin.output_schema("lt").unwrap();
    let items = at(
        &schema,
        &["properties", "response", "properties", "rows", "items"],
    );
    assert!(matches!(
        at(items, &["properties", "table_name"]),
        Json::Object(_)
    ));
    assert!(items.get("properties").unwrap().get("column_name").is_none());
}

#[test]
fn list_columns_input_schema_lists_filter_args() {
    let mut plugin = DuckDbBackendPlugin::new();
    let mut spec = memory();
    spec.operation = DuckDbOperation::ListColumns;
    spec.catalog_filters.table_arg = Some("tbl".into());
    spec.catalog_filters.schema_arg = Some("sch".into());
    register(&mut plugin, "lc", spec).expect("register");
    let schema = plugin.input_schema("lc").unwrap();
    assert!(matches!(
        at(&schema, &["properties", "tbl"]),
        Json::Object(_)
    ));
    assert!(matches!(
        at(&schema, &["properties", "sch"]),
        Json::Object(_)
    ));
    let columns = plugin.output_schema("lc").unwrap();
    assert!(at(
        &columns,
        &["properties", "response", "properties", "rows", "items", "properties"]
    )
    .get("ordinal_position")
    .is_some());
}

#[test]
fn list_columns_table_arg_binds_caller_value() {
    let mut plugin = DuckDbBackendPlugin::new();
    let mut spec = memory();
    spec.operation = DuckDbOperation::ListColumns;
    spec.catalog_filters.table_arg = Some("table".into());
    register(&mut plugin, "lc", spec).expect("lc");
    let profile = plugin.profile("lc").unwrap();
    let step = first_step(profile, "lc", "lc", &parse(r#"{ "table": "b" }"#));
    match step {
        CallStep::Run {
            statement,
            binds,
            max_rows,
        } => {
            assert!(statement.contains("WHERE table_name = ? ORDER BY"));
            assert_eq!(binds, vec![DuckBind::Str("b".into())]);
            assert_eq!(max_rows, 100_000);
        }
        other => panic!("{other:?}"),
    }
}

#[test]
fn an_empty_argument_does_not_lift_a_filter() {
    let mut plugin = DuckDbBackendPlugin::new();
    let mut spec = memory();
    spec.operation = DuckDbOperation::ListTables;
    spec.catalog_filters.schema = Some("nosuch".into());
    spec.catalog_filters.schema_arg = Some("s".into());
    register(&mut plugin, "lt", spec).expect("lt");
    let profile = plugin.profile("lt").unwrap();
    match first_step(profile, "lt", "lt", &parse(r#"{ "s": "" }"#)) {
        CallStep::Run {
            statement, binds, ..
        } => {
            assert!(statement.contains("WHERE table_schema = ? ORDER BY"));
            assert_eq!(binds, vec![DuckBind::Str("nosuch".into())]);
        }
        other => panic!("{other:?}"),
    }
    let configured = Some("pin".to_owned());
    let argument = Some("s".to_owned());
    assert_eq!(
        resolve_one(&configured, &argument, &parse(r#"{ "s": "x" }"#)).as_deref(),
        Some("x")
    );
    assert_eq!(
        resolve_one(&configured, &argument, &parse(r#"{ "s": 1 }"#)).as_deref(),
        Some("pin")
    );
    assert_eq!(resolve_one(&None, &None, &parse(r#"{ "s": "x" }"#)), None);
}

#[test]
fn list_columns_without_a_table_is_an_error() {
    let mut plugin = DuckDbBackendPlugin::new();
    let mut spec = memory();
    spec.operation = DuckDbOperation::ListColumns;
    spec.catalog_filters.table_arg = Some("table".into());
    register(&mut plugin, "lc", spec).expect("lc");
    let profile = plugin.profile("lc").unwrap();
    for args in ["{}", r#"{ "table": "" }"#, r#"{ "table": 7 }"#, "null"] {
        match first_step(profile, "lc", "t", &parse(args)) {
            CallStep::Done(reply) => {
                let message =
                    "list_columns requires a table: give the table argument as a non-empty string";
                assert_eq!(reply.label, "invalid_spec");
                assert_eq!(reply.reason.as_deref(), Some(message));
                assert_eq!(at(&reply.body, &["response"]), &Json::Null);
                assert_eq!(
                    at(&reply.body, &["downstreamError", "retryable"]),
                    &Json::Bool(false)
                );
            }
            other => panic!("{other:?}"),
        }
    }
}

#[test]
fn string_arguments_override_configured_filters() {
    let mut spec = memory();
    spec.catalog_filters.schema = Some("main".into());
    spec.catalog_filters.schema_arg = Some("s".into());
    spec.catalog_filters.table = Some("t".into());
    spec.catalog_filters.catalog_arg = Some("c".into());
    let filters = resolve_catalog_filters(
        &spec.catalog_filters,
        &parse(r#"{ "s": "other", "c": 7, "t": "unused" }"#),
    );
    assert_eq!(filters.schema.as_deref(), Some("other"));
    assert_eq!(filters.table.as_deref(), Some("t"));
    assert_eq!(filters.catalog, None);
    let filters = resolve_catalog_filters(&spec.catalog_filters, &parse("[]"));
    assert_eq!(filters.schema.as_deref(), Some("main"));
}

fn read_file_spec() -> DuckDbBackendSpec {
    let mut spec = memory();
    spec.operation = DuckDbOperation::ReadFile;
    spec.allow_external_access = true;
    spec.read_file = Some(ReadFileConfig {
        path: "/data/sales.csv".into(),
        format: ReadFileFormat::Csv,
        columns: vec!["region".into(), "amount".into()],
        predicate: Some("amount >= ?".into()),
    });
    spec.params = vec!["arguments.min".into()];
    spec
}

#[test]
fn register_read_file_requires_external_access() {
    let mut spec = memory();
    spec.operation = DuckDbOperation::ReadFile;
    spec.read_file = Some(ReadFileConfig {
        path: "/data/x.parquet".into(),
        format: ReadFileFormat::default(),
        columns: vec![],
        predicate: None,
    });
    assert!(!spec.allow_external_access);
    let message = refused(spec);
    assert!(message.contains("allow_external_access"));
}

#[test]
fn register_read_file_requires_config_block() {
    let mut spec = memory();
    spec.operation = DuckDbOperation::ReadFile;
    spec.allow_external_access = true;
    assert_eq!(
        refused(spec),
        "operation: read_file requires a `read_file` config block"
    );
}

#[test]
fn read_file_ignores_caller_supplied_path() {
    let mut plugin = DuckDbBackendPlugin::new();
    let mut spec = memory();
    spec.operation = DuckDbOperation::ReadFile;
    spec.allow_external_access = true;
    spec.read_file = Some(ReadFileConfig {
        path: "/data/allowed.csv".into(),
        format: ReadFileFormat::Csv,
        columns: vec![],
        predicate: None,
    });
    register(&mut plugin, "rf", spec).expect("register");
    let profile = plugin.profile("rf").unwrap();
    let args = parse(r#"{ "path": "/data/secret.csv" }"#);
    assert!(matches!(
        first_step(profile, "rf", "rf", &args),
        CallStep::Evaluate
    ));
    match step_after_values(profile, "rf", "rf", &args, Ok(vec![])) {
        CallStep::Run {
            statement, binds, ..
        } => {
            assert_eq!(
                statement,
                "SELECT * FROM read_csv_auto('/data/allowed.csv')"
            );
            assert!(binds.is_empty());
        }
        other => panic!("{other:?}"),
    }
    let schema = plugin.input_schema("rf").unwrap();
    assert!(at(&schema, &["properties"]).get("path").is_none());
    let run = EngineRun::Finished(Ok(rows(&[r#"{"region":"emea","amount":100}"#])));
    let env = step_after_run(profile, "rf", "rf", &args, run, 5).body;
    assert_eq!(at(&env, &["downstreamError"]), &Json::Null);
    let list = at(&env, &["response", "rows"]);
    assert_eq!(items(list), 1);
    assert_eq!(item(list, 0).get("region"), Some(&string("emea")));
}

#[test]
fn bound_parameter_round_trips() {
    let mut plugin = DuckDbBackendPlugin::new();
    let mut spec = memory();
    spec.statement = "SELECT id, name FROM people WHERE id = ?".into();
    spec.params = vec!["arguments.id".into()];
    register(&mut plugin, "people", spec).expect("register");
    let profile = plugin.profile("people").unwrap();
    let args = parse(r#"{ "id": 2 }"#);
    let value = args.get("id").unwrap().clone();
    match step_after_values(profile, "people", "people", &args, Ok(vec![value])) {
        CallStep::Run {
            statement, binds, ..
        } => {
            assert_eq!(statement, "SELECT id, name FROM people WHERE id = ?");
            assert_eq!(binds, vec![DuckBind::Int(2)]);
        }
        other => panic!("{other:?}"),
    }
    let mut taken = RowCollector::new(vec!["id".into(), "name".into()], profile.max_rows);
    taken.push(&vec![
        Some(DuckCell::Int(2)),
        Some(DuckCell::Text(b"bob".to_vec())),
    ]);
    let run = EngineRun::Finished(Ok(taken.finish()));
    let env = step_after_run(profile, "people", "people", &args, run, 5).body;
    let list = at(&env, &["response", "rows"]);
    assert_eq!(items(list), 1);
    assert_eq!(item(list, 0), &parse(r#"{ "id": 2, "name": "bob" }"#));
}

#[test]
fn read_file_predicate_binds_caller_param() {
    let mut plugin = DuckDbBackendPlugin::new();
    register(&mut plugin, "rf", read_file_spec()).expect("register");
    let profile = plugin.profile("rf").unwrap();
    let args = parse(r#"{ "min": 100 }"#);
    match step_after_values(profile, "rf", "rf", &args, Ok(vec![integer(100)])) {
        CallStep::Run {
            statement, binds, ..
        } => {
            assert_eq!(
                statement,
                "SELECT region, amount FROM read_csv_auto('/data/sales.csv') WHERE amount >= ?"
            );
            assert_eq!(binds, vec![DuckBind::Int(100)]);
        }
        other => panic!("{other:?}"),
    }
    let schema = plugin.input_schema("rf").unwrap();
    assert!(at(&schema, &["properties"]).get("min").is_some());
}

#[test]
fn parameters_that_fail_become_an_error_reply() {
    let mut plugin = DuckDbBackendPlugin::new();
    register(&mut plugin, "b", minimal_spec()).expect("register");
    let profile = plugin.profile("b").unwrap();
    match step_after_values(profile, "b", "t", &parse("{}"), Err("no such key: id".into())) {
        CallStep::Done(reply) => {
            assert_eq!(reply.label, "invalid_spec");
            assert_eq!(
                reply.reason.as_deref(),
                Some("evaluating params: no such key: id")
            );
            assert_eq!(
                at(&reply.body, &["downstreamError", "kind"]),
                &string("duckdb_error")
            );
        }
        other => panic!("{other:?}"),
    }
}

#[test]
fn register_rejects_keyset_list_query_without_cursor() {
    let mut spec = minimal_spec();
    spec.surface = Surface::Resource;
    spec.list_query = Some(ListQueryConfig {
        sql: "SELECT id AS uri FROM t".into(),
        mode: ListQueryMode::Keyset,
        cursor_column: None,
        page_size: 100,
    });
    assert_eq!(
        refused(spec),
        "list_query.cursor_column is required for mode: keyset"
    );
}

fn template_spec(read_query: &str) -> DuckDbBackendSpec {
    let mut spec = memory();
    spec.surface = Surface::Resource;
    spec.read_query = Some(read_query.into());
    spec.params = vec!["arguments.id".into()];
    spec
}

#[test]
fn register_resource_template_read_query() {
    let mut plugin = DuckDbBackendPlugin::new();
    register(
        &mut plugin,
        "rt",
        template_spec("SELECT * FROM orders WHERE id = ?"),
    )
    .expect("read_query registers without a statement");
    let p = plugin.profile("rt").unwrap();
    assert_eq!(
        p.read_query.as_deref(),
        Some("SELECT * FROM orders WHERE id = ?")
    );
    assert!(p.statement.is_empty());
    assert_eq!(p.surface, Surface::Resource);
    assert_eq!(p.compiled_params.len(), 1);
}

#[test]
fn a_template_read_takes_the_place_of_the_statement() {
    let mut spec = template_spec("SELECT * FROM orders WHERE id = ?");
    spec.statement = "SELECT * FROM orders".into();
    let mut plugin = DuckDbBackendPlugin::new();
    register(&mut plugin, "rt", spec).expect("register");
    let profile = plugin.profile("rt").unwrap();
    let args = parse(r#"{ "id": "3; DROP TABLE foo" }"#);
    match step_after_values(profile, "rt", "rt", &args, Ok(vec![string("3; DROP TABLE foo")])) {
        CallStep::Run {
            statement, binds, ..
        } => {
            assert_eq!(statement, "SELECT * FROM orders WHERE id = ?");
            assert_eq!(binds, vec![DuckBind::Str("3; DROP TABLE foo".into())]);
        }
        other => panic!("{other:?}"),
    }
}

#[test]
fn register_rejects_read_query_on_tool_surface() {
    let mut spec = minimal_spec();
    spec.read_query = Some("SELECT * FROM t WHERE id = ?".into());
    let message = refused(spec);
    assert!(message.contains("read_query"), "{message}");
    assert!(message.contains("surface: resource"), "{message}");
}

#[test]
fn register_rejects_non_read_only_read_query() {
    assert_eq!(
        refused(template_spec("DELETE FROM orders WHERE id = ?")),
        "read-only guard: not a SELECT"
    );
}

#[test]
fn register_rejects_bare_cred_read_query() {
    let mut spec = template_spec("SELECT * FROM t WHERE k = 'cred://aws/x#id'");
    spec.params = vec![];
    assert!(refused(spec).starts_with("read_query must not contain a bare cred:// URI"));
}

#[test]
fn template_var_binds_as_param_not_interpolated() {
    let injection = "1 OR 1=1; DROP TABLE orders";
    let bind = json_to_duck_bind(&string(injection)).unwrap();
    assert_eq!(bind, DuckBind::Str(injection.to_owned()));
}

#[test]
fn resource_template_read_shapes_single_row_contents() {
    let uri = "duckdb://orders/42";
    let row = parse(r#"{ "id": 42, "total": 19.99 }"#);
    let body = resource_contents_body(uri, vec![row.clone()]);
    let contents = at(&body, &["contents"]);
    assert_eq!(items(contents), 1);
    let first = item(contents, 0);
    assert_eq!(first.get("uri"), Some(&string(uri)));
    assert_eq!(first.get("mimeType"), Some(&string("application/json")));
    match first.get("text") {
        Some(Json::Str(text)) => assert_eq!(parse(text), Json::Array(vec![row])),
        other => panic!("{other:?}"),
    }
}

#[test]
fn audit_metadata_names_the_transport() {
    let metadata = DuckDbBackendPlugin::new().audit_metadata();
    assert_eq!(metadata.len(), 1);
    assert_eq!(metadata.get("duckdb.transport"), Some(&string("plugin")));
}

#[test]
fn failures_have_an_audit_action() {
    assert_eq!(
        audit_action_for_outcome("timeout"),
        Some("dev.mcpg.backend.duckdb.request_timeout")
    );
    assert_eq!(
        audit_action_for_outcome("transport_error"),
        Some("dev.mcpg.backend.duckdb.request_failed")
    );
    assert_eq!(
        audit_action_for_outcome("duckdb_error"),
        Some("dev.mcpg.backend.duckdb.query_rejected")
    );
    assert_eq!(
        audit_action_for_outcome("invalid_spec"),
        Some("dev.mcpg.backend.duckdb.request_failed")
    );
    assert_eq!(audit_action_for_outcome("ok"), None);
    assert_eq!(audit_action_for_outcome("profile_not_found"), None);
}

#[test]
fn audit_records_hold_the_failure() {
    let record = audit_record(
        "an",
        "timeout",
        Some("DuckDB call timed out"),
        None,
        "rq-1",
        1_500,
        1_500_000_123,
        "main",
        "2026-06-23T10:00:00.000Z".into(),
    )
    .expect("record");
    assert_eq!(record.event_id, "duckdb-rq-1-1500000123");
    assert_eq!(record.occurred_at, "2026-06-23T10:00:00.000Z");
    assert_eq!(record.action, "dev.mcpg.backend.duckdb.request_timeout");
    assert_eq!(record.resource, "duckdb-binding://an");
    assert_eq!(record.request_id, "rq-1");
    assert_eq!(record.actor.kind, "system");
    assert_eq!(
        record.details.to_text(),
        r#"{"backend":"an","duration_ms":1500,"outcome":"timeout","alias":"main","reason":"DuckDB call timed out"}"#
    );
    let mut caller = synthetic_system_identity();
    caller.kind = "user".into();
    let record = audit_record("an", "duckdb_error", None, Some(caller), "r", 0, 0, "m", "t".into())
        .expect("record");
    assert_eq!(record.actor.kind, "user");
    assert!(record.details.get("reason").is_none());
    assert!(audit_record("an", "ok", None, None, "r", 0, 0, "m", "t".into()).is_none());
}
