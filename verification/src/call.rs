//! One call to a registered binding: what is sent to the engine, and what its
//! answer becomes.

use vstd::prelude::*;
use vstd::utf8::{
    decode_utf8, encode_utf8, encode_utf8_decode_utf8, encode_utf8_valid_utf8, valid_utf8,
};

use crate::duckdb::{
    build_list_columns_sql, build_list_tables_sql, build_read_file_sql, column_filters,
    filter_binds, list_columns_text, list_tables_text, read_file_text, restricts, table_filters,
    CatalogFilters, FiltersView, QueryOutcome,
};
use crate::envelope::{
    build_result_envelope, classified, classify_error, envelope_tree, is_retryable, response_tree,
    retryable,
};
use crate::json::{rendered, str_field, trees, Json, JsonTree};
use crate::params::{
    bind_views, bound_in_order, eval_param_binds, param_failure, BindView, DuckBind,
};
use crate::plugin::{BackendError, DuckDbProfile, ErrorView};
use crate::surface::{
    candidates, contents_tree, first_column, first_column_of, listed_resources, messages_tree,
    next_cursor, prompt_messages_body, resolve_resource_uri, resource_contents_body, resource_uri,
    resource_views, rows_to_completion_values, rows_to_resource_page, ResourcePage, Surface,
};
use crate::text::{
    contains, contains_text, lower, opt_str, opt_text, parse_u64, same_ignoring_case, texts,
    to_lower, unsigned_of,
};
use crate::types::{
    CatalogFilterConfig, CompletionConfig, DuckDbOperation, ListQueryConfig, ListQueryMode,
};

verus! {

// ----------------------------------------------------------------- the request

/// The value of the first header with a name, whatever the case of its letters.
pub open spec fn header_value(headers: Seq<(String, String)>, name: Seq<char>) -> Option<Seq<char>>
    decreases headers.len(),
{
    if headers.len() == 0 {
        None
    } else if lower(headers[0].0@) == lower(name) {
        Some(headers[0].1@)
    } else {
        header_value(headers.drop_first(), name)
    }
}

/// The name of the tool of a call: from the header, or else the binding's name.
pub open spec fn tool_name_of(headers: Seq<(String, String)>, backend_name: Seq<char>) -> Seq<char> {
    match header_value(headers, "mcpg-tool-name"@) {
        Some(name) => name,
        None => backend_name,
    }
}

/// The name of the tool of a call: from the header `mcpg-tool-name`, or else the
/// binding's name.
pub fn tool_name(headers: &Vec<(String, String)>, backend_name: &str) -> (name: String)
    ensures
        name@ == tool_name_of(headers@, backend_name@),
{
    let mut i: usize = 0;
    assert(headers@.skip(0) =~= headers@);
    while i < headers.len()
        invariant
            i <= headers@.len(),
            header_value(headers@.skip(i as int), "mcpg-tool-name"@) == header_value(
                headers@,
                "mcpg-tool-name"@,
            ),
        decreases headers@.len() - i,
    {
        assert(headers@.skip(i as int)[0] == headers@[i as int]);
        if same_ignoring_case(headers[i].0.as_str(), "mcpg-tool-name") {
            return headers[i].1.clone();
        }
        assert(headers@.skip(i as int).drop_first() =~= headers@.skip(i + 1));
        i += 1;
    }
    backend_name.to_owned()
}

/// The arguments of a call, once its payload has been read.
pub fn accept_arguments(read: Result<Json, String>) -> (r: Result<Json, BackendError>)
    ensures
        match read {
            Ok(arguments) => r == Ok::<Json, BackendError>(arguments),
            Err(e) => r matches Err(error) && error@ == ErrorView::InvalidSpec(
                "DuckDB plugin payload is not valid JSON: "@ + e@,
            ),
        },
{
    match read {
        Ok(arguments) => Ok(arguments),
        Err(e) => {
            let mut message = "DuckDB plugin payload is not valid JSON: ".to_owned();
            message.append(e.as_str());
            Err(BackendError::InvalidSpec { message })
        },
    }
}

// --------------------------------------------------------------- the statement

/// The value of one filter: the argument of the call where one is named and
/// given as a string, or else the configured value.
pub open spec fn resolved(
    configured: Option<Seq<char>>,
    argument: Option<Seq<char>>,
    arguments: JsonTree,
) -> Option<Seq<char>> {
    match argument {
        Some(name) => match str_field(arguments, name) {
            Some(value) => Some(value),
            None => configured,
        },
        None => configured,
    }
}

/// The value that a filter takes: one that restricts, or else the configured
/// one, so that no call can lift a filter that the operator set.
pub open spec fn narrowed(configured: Option<Seq<char>>, value: Option<Seq<char>>) -> Option<
    Seq<char>,
> {
    if restricts(value) {
        value
    } else {
        configured
    }
}

/// The value of one filter in a call: the argument where it is named and given
/// as a string that is not empty, or else the configured value.
pub open spec fn filter_value(
    configured: Option<String>,
    argument: Option<String>,
    arguments: JsonTree,
) -> Option<Seq<char>> {
    narrowed(
        opt_text(configured),
        resolved(opt_text(configured), opt_text(argument), arguments),
    )
}

/// The filters of one call.
pub open spec fn resolved_filters(cfg: CatalogFilterConfig, arguments: JsonTree) -> FiltersView {
    FiltersView {
        catalog: filter_value(cfg.catalog, cfg.catalog_arg, arguments),
        schema: filter_value(cfg.schema, cfg.schema_arg, arguments),
        table: filter_value(cfg.table, cfg.table_arg, arguments),
        table_type: filter_value(cfg.table_type, cfg.table_type_arg, arguments),
    }
}

/// The value of one filter.
pub fn resolve_one(configured: &Option<String>, argument: &Option<String>, arguments: &Json) -> (value:
    Option<String>)
    ensures
        opt_text(value) == resolved(opt_text(*configured), opt_text(*argument), arguments.tree()),
{
    match argument {
        Some(name) => match arguments.get_str(name.as_str()) {
            Some(value) => {
                return Some(value.clone());
            },
            None => {},
        },
        None => {},
    }
    match configured {
        Some(value) => Some(value.clone()),
        None => None,
    }
}

/// Whether a filter restricts: its value is given and not empty.
fn is_restricting(value: &Option<String>) -> (r: bool)
    ensures
        r == restricts(opt_text(*value)),
{
    match value {
        Some(v) => !v.as_str().is_empty(),
        None => false,
    }
}

/// The value of one filter in a call.
fn filter_value_of(configured: &Option<String>, argument: &Option<String>, arguments: &Json) -> (
value: Option<String>)
    ensures
        opt_text(value) == filter_value(*configured, *argument, arguments.tree()),
{
    let value = resolve_one(configured, argument, arguments);
    if is_restricting(&value) {
        return value;
    }
    match configured {
        Some(value) => Some(value.clone()),
        None => None,
    }
}

/// The filters of one call: for each, the argument of the call where one is
/// named and given as a string that is not empty, or else the configured value.
pub fn resolve_catalog_filters(cfg: &CatalogFilterConfig, arguments: &Json) -> (filters:
    CatalogFilters)
    ensures
        filters@ == resolved_filters(*cfg, arguments.tree()),
        opt_text(filters.catalog) == resolved_filters(*cfg, arguments.tree()).catalog,
        opt_text(filters.schema) == resolved_filters(*cfg, arguments.tree()).schema,
        opt_text(filters.table) == resolved_filters(*cfg, arguments.tree()).table,
        opt_text(filters.table_type) == resolved_filters(*cfg, arguments.tree()).table_type,
{
    CatalogFilters {
        catalog: filter_value_of(&cfg.catalog, &cfg.catalog_arg, arguments),
        schema: filter_value_of(&cfg.schema, &cfg.schema_arg, arguments),
        table: filter_value_of(&cfg.table, &cfg.table_arg, arguments),
        table_type: filter_value_of(&cfg.table_type, &cfg.table_type_arg, arguments),
    }
}

/// The statement of a query or of a file: it depends on the binding alone.
pub open spec fn fixed_statement(profile: DuckDbProfile) -> Seq<char> {
    match profile.operation {
        DuckDbOperation::ReadFile => {
            let cfg = profile.read_file->0;
            read_file_text(
                cfg.format.function_name(),
                cfg.path@,
                texts(cfg.columns@),
                opt_text(cfg.predicate),
            )
        },
        _ => if profile.surface == Surface::Resource && profile.read_query is Some {
            profile.read_query->0@
        } else {
            profile.statement@
        },
    }
}

/// The statement of a query or of a file: the read of a resource template on
/// the resource surface, the read of the configured file, or the binding's
/// statement.
fn statement_of(profile: &DuckDbProfile) -> (statement: String)
    requires
        profile.operation == DuckDbOperation::ReadFile ==> profile.read_file is Some,
    ensures
        statement@ == fixed_statement(*profile),
{
    if profile.operation == DuckDbOperation::ReadFile {
        if let Some(cfg) = &profile.read_file {
            let predicate = match &cfg.predicate {
                Some(p) => Some(p.as_str()),
                None => None,
            };
            return build_read_file_sql(
                cfg.format.table_function(),
                cfg.path.as_str(),
                &cfg.columns,
                predicate,
            );
        }
    }
    if profile.surface == Surface::Resource {
        if let Some(rq) = &profile.read_query {
            return rq.clone();
        }
    }
    profile.statement.clone()
}

/// What is said of a listing of columns without a table.
pub open spec fn missing_table_message() -> Seq<char> {
    "list_columns requires a table: give the table argument as a non-empty string"@
}

/// Why a call sends nothing to the engine, if it does not: a listing of columns
/// has no table, or the parameters of a query or of a file cannot be bound.
pub open spec fn plan_failure(
    profile: DuckDbProfile,
    arguments: JsonTree,
    values: Result<Vec<Json>, String>,
) -> Option<Seq<char>> {
    match profile.operation {
        DuckDbOperation::ListTables => None,
        DuckDbOperation::ListColumns => if restricts(
            resolved_filters(profile.catalog_filters, arguments).table,
        ) {
            None
        } else {
            Some(missing_table_message())
        },
        _ => param_failure(values),
    }
}

/// This statement with these binds is what a call sends to the engine.
pub open spec fn is_plan(
    profile: DuckDbProfile,
    arguments: JsonTree,
    values: Result<Vec<Json>, String>,
    statement: Seq<char>,
    binds: Seq<DuckBind>,
) -> bool {
    let filters = resolved_filters(profile.catalog_filters, arguments);
    match profile.operation {
        DuckDbOperation::ListTables => {
            &&& statement == list_tables_text(filters)
            &&& bind_views(binds) == filter_binds(table_filters(filters))
        },
        DuckDbOperation::ListColumns => {
            &&& statement == list_columns_text(filters)
            &&& bind_views(binds) == filter_binds(column_filters(filters))
        },
        _ => {
            &&& statement == fixed_statement(profile)
            &&& values is Ok
            &&& bound_in_order(values->Ok_0@, binds)
        },
    }
}

/// What a call sends to the engine: the statement with its binds. A listing of
/// the catalog binds its filters, and one of columns fails without a table; a
/// query or a file binds the values that the
/// parameters evaluated to, and fails where they could not be evaluated or
/// bound.
pub fn plan_call(profile: &DuckDbProfile, arguments: &Json, values: Result<Vec<Json>, String>) -> (r:
    Result<(String, Vec<DuckBind>), String>)
    requires
        profile.operation == DuckDbOperation::ReadFile ==> profile.read_file is Some,
    ensures
        match r {
            Ok(plan) => {
                &&& plan_failure(*profile, arguments.tree(), values) is None
                &&& is_plan(*profile, arguments.tree(), values, plan.0@, plan.1@)
            },
            Err(message) => plan_failure(*profile, arguments.tree(), values) == Some(message@),
        },
{
    match profile.operation {
        DuckDbOperation::ListTables => {
            let filters = resolve_catalog_filters(&profile.catalog_filters, arguments);
            Ok(build_list_tables_sql(&filters))
        },
        DuckDbOperation::ListColumns => {
            let filters = resolve_catalog_filters(&profile.catalog_filters, arguments);
            if !is_restricting(&filters.table) {
                return Err(
                    "list_columns requires a table: give the table argument as a non-empty string".to_owned(),
                );
            }
            Ok(build_list_columns_sql(&filters))
        },
        _ => match eval_param_binds(values) {
            Ok(binds) => Ok((statement_of(profile), binds)),
            Err(message) => Err(message),
        },
    }
}

// -------------------------------------------------------------------- the run

/// How the run of a statement went.
#[derive(Debug)]
pub enum EngineRun {
    /// No pooled connection could be had.
    AcquireFailed(String),
    /// No pooled connection came in time.
    AcquireTimedOut,
    /// The statement ran to its end.
    Finished(Result<QueryOutcome, String>),
    /// The worker that ran the statement broke down.
    WorkerFailed(String),
    /// The statement did not end in time.
    TimedOut,
}

impl EngineRun {
    /// The message of a run that did not come to its end.
    pub open spec fn failure(self) -> Seq<char> {
        match self {
            EngineRun::AcquireFailed(e) => "DuckDB pool acquire failed: "@ + e@,
            EngineRun::AcquireTimedOut => "DuckDB pool acquire timed out"@,
            EngineRun::Finished(_) => Seq::empty(),
            EngineRun::WorkerFailed(e) => "DuckDB worker task failed: "@ + e@,
            EngineRun::TimedOut => "DuckDB call timed out"@,
        }
    }
}

/// What a run gave, or the message of its failure.
pub fn settle(run: EngineRun) -> (r: Result<QueryOutcome, String>)
    ensures
        match run {
            EngineRun::Finished(result) => r == result,
            _ => r matches Err(message) && message@ == run.failure(),
        },
{
    match run {
        EngineRun::AcquireFailed(e) => {
            let mut message = "DuckDB pool acquire failed: ".to_owned();
            message.append(e.as_str());
            Err(message)
        },
        EngineRun::AcquireTimedOut => Err("DuckDB pool acquire timed out".to_owned()),
        EngineRun::Finished(result) => result,
        EngineRun::WorkerFailed(e) => {
            let mut message = "DuckDB worker task failed: ".to_owned();
            message.append(e.as_str());
            Err(message)
        },
        EngineRun::TimedOut => Err("DuckDB call timed out".to_owned()),
    }
}

// ------------------------------------------------------------------- the reply

/// The reply to a call, with how the call is counted and audited.
#[derive(Debug)]
pub struct Reply {
    /// What is sent back.
    pub body: Json,
    /// The outcome that the call is counted under.
    pub label: &'static str,
    /// Why the call failed, where it did.
    pub reason: Option<String>,
}

/// The model of a reply.
pub struct ReplyView {
    pub body: JsonTree,
    pub label: Seq<char>,
    pub reason: Option<Seq<char>>,
}

impl View for Reply {
    type V = ReplyView;

    open spec fn view(&self) -> ReplyView {
        ReplyView { body: self.body.tree(), label: self.label@, reason: opt_text(self.reason) }
    }
}

/// The envelope of a failure.
pub open spec fn error_envelope(
    profile: DuckDbProfile,
    backend_name: Seq<char>,
    tool_name: Seq<char>,
    message: Seq<char>,
) -> JsonTree {
    envelope_tree(
        tool_name,
        backend_name,
        profile.database@,
        JsonTree::Null,
        Some(classified(message)),
        Some(message),
    )
}

/// The reply to a call that failed with a message.
pub open spec fn error_reply(
    profile: DuckDbProfile,
    backend_name: Seq<char>,
    tool_name: Seq<char>,
    message: Seq<char>,
    label: Seq<char>,
) -> ReplyView {
    ReplyView {
        body: error_envelope(profile, backend_name, tool_name, message),
        label,
        reason: Some(message),
    }
}

/// The reply to a call that failed with a message: an envelope that holds the
/// classified error.
pub fn finish_error(
    profile: &DuckDbProfile,
    backend_name: &str,
    tool_name: &str,
    message: String,
    label: &'static str,
) -> (reply: Reply)
    ensures
        reply@ == error_reply(*profile, backend_name@, tool_name@, message@, label@),
{
    let downstream = classify_error(message.as_str());
    let body = build_result_envelope(
        tool_name,
        backend_name,
        profile.database.as_str(),
        None,
        None,
        false,
        0,
        Some(&downstream),
        Some(message.as_str()),
    );
    Reply { body, label, reason: Some(message) }
}

/// What is said of a read of a resource without a URI.
pub open spec fn missing_uri_message() -> Seq<char> {
    "resource surface requires a `uri` (set a static `uri` on the binding or invoke via a resources/read request)"@
}

/// What a failed query is counted under.
pub open spec fn failure_label(message: Seq<char>) -> Seq<char> {
    if contains_text(lower(message), "timed out"@) || contains_text(lower(message), "timeout"@) {
        "timeout"@
    } else if is_retryable(message) {
        "transport_error"@
    } else {
        "duckdb_error"@
    }
}

/// What a failed query is counted under: a lapse of time, a failure that is
/// worth another try, or an error of the statement.
pub fn label_of_failure(message: &str) -> (label: &'static str)
    ensures
        label@ == failure_label(message@),
{
    let lowered = to_lower(message);
    if contains(lowered.as_str(), "timed out") || contains(lowered.as_str(), "timeout") {
        "timeout"
    } else if retryable(message) {
        "transport_error"
    } else {
        "duckdb_error"
    }
}

/// The body of a successful call on the tool surface.
pub open spec fn rows_envelope(
    profile: DuckDbProfile,
    backend_name: Seq<char>,
    tool_name: Seq<char>,
    outcome: QueryOutcome,
    duration_ms: int,
) -> JsonTree {
    envelope_tree(
        tool_name,
        backend_name,
        profile.database@,
        response_tree(
            Some(trees(outcome.rows@)),
            Some(outcome.row_count as int),
            outcome.truncated,
            duration_ms,
            None,
        ),
        None,
        None,
    )
}

/// The reply to a call, from what the engine gave.
pub open spec fn reply_to(
    profile: DuckDbProfile,
    backend_name: Seq<char>,
    tool_name: Seq<char>,
    arguments: JsonTree,
    result: Result<QueryOutcome, String>,
    duration_ms: int,
) -> ReplyView {
    match result {
        Ok(outcome) => match profile.surface {
            Surface::Tool => ReplyView {
                body: rows_envelope(profile, backend_name, tool_name, outcome, duration_ms),
                label: "ok"@,
                reason: None,
            },
            Surface::Resource => match resource_uri(opt_text(profile.surface_uri), arguments) {
                Some(uri) => ReplyView {
                    body: contents_tree(uri, trees(outcome.rows@)),
                    label: "ok"@,
                    reason: None,
                },
                None => error_reply(
                    profile,
                    backend_name,
                    tool_name,
                    missing_uri_message(),
                    "duckdb_error"@,
                ),
            },
            Surface::Prompt => ReplyView {
                body: messages_tree(trees(outcome.rows@)),
                label: "ok"@,
                reason: None,
            },
        },
        Err(message) => error_reply(
            profile,
            backend_name,
            tool_name,
            message@,
            failure_label(message@),
        ),
    }
}

/// The reply to a call, from what the engine gave: rows in the shape of the
/// binding's surface, or an envelope with the classified error. A read of a
/// resource without a URI is an error.
pub fn shape_outcome(
    profile: &DuckDbProfile,
    backend_name: &str,
    tool_name: &str,
    arguments: &Json,
    result: Result<QueryOutcome, String>,
    duration_ms: u128,
) -> (reply: Reply)
    requires
        result is Ok && profile.surface == Surface::Tool ==> duration_ms <= u64::MAX,
    ensures
        reply@ == reply_to(
            *profile,
            backend_name@,
            tool_name@,
            arguments.tree(),
            result,
            duration_ms as int,
        ),
{
    match result {
        Ok(outcome) => match profile.surface {
            Surface::Tool => {
                let body = build_result_envelope(
                    tool_name,
                    backend_name,
                    profile.database.as_str(),
                    Some(&outcome.rows),
                    Some(outcome.row_count),
                    outcome.truncated,
                    duration_ms,
                    None,
                    None,
                );
                Reply { body, label: "ok", reason: None }
            },
            Surface::Resource => match resolve_resource_uri(&profile.surface_uri, arguments) {
                Some(uri) => Reply {
                    body: resource_contents_body(uri.as_str(), outcome.rows),
                    label: "ok",
                    reason: None,
                },
                None => finish_error(
                    profile,
                    backend_name,
                    tool_name,
                    "resource surface requires a `uri` (set a static `uri` on the binding or invoke via a resources/read request)".to_owned(),
                    "duckdb_error",
                ),
            },
            Surface::Prompt => Reply {
                body: prompt_messages_body(outcome.rows),
                label: "ok",
                reason: None,
            },
        },
        Err(message) => {
            let label = label_of_failure(message.as_str());
            finish_error(profile, backend_name, tool_name, message, label)
        },
    }
}

// ------------------------------------------------------------------- the steps

/// What a call does next.
#[derive(Debug)]
pub enum CallStep {
    /// Evaluate the parameters of the binding against the arguments.
    Evaluate,
    /// Run the statement with its binds, and keep this many rows.
    Run { statement: String, binds: Vec<DuckBind>, max_rows: usize },
    /// Send the reply.
    Done(Reply),
}

/// `step` is what a call does next, once the parameters have been evaluated.
pub open spec fn is_step(
    profile: DuckDbProfile,
    backend_name: Seq<char>,
    tool_name: Seq<char>,
    arguments: JsonTree,
    values: Result<Vec<Json>, String>,
    step: CallStep,
) -> bool {
    match step {
        CallStep::Evaluate => false,
        CallStep::Run { statement, binds, max_rows } => {
            &&& plan_failure(profile, arguments, values) is None
            &&& is_plan(profile, arguments, values, statement@, binds@)
            &&& max_rows == profile.max_rows
        },
        CallStep::Done(reply) => {
            &&& plan_failure(profile, arguments, values) matches Some(message)
            &&& reply@ == error_reply(
                profile,
                backend_name,
                tool_name,
                message,
                "invalid_spec"@,
            )
        },
    }
}

/// What a call does once the parameters have been evaluated: it runs the planned
/// statement under the binding's cap, or replies with the error.
pub fn step_after_values(
    profile: &DuckDbProfile,
    backend_name: &str,
    tool_name: &str,
    arguments: &Json,
    values: Result<Vec<Json>, String>,
) -> (step: CallStep)
    requires
        profile.operation == DuckDbOperation::ReadFile ==> profile.read_file is Some,
    ensures
        is_step(*profile, backend_name@, tool_name@, arguments.tree(), values, step),
{
    match plan_call(profile, arguments, values) {
        Ok(plan) => CallStep::Run { statement: plan.0, binds: plan.1, max_rows: profile.max_rows },
        Err(message) => {
            CallStep::Done(finish_error(profile, backend_name, tool_name, message, "invalid_spec"))
        },
    }
}

/// The first step of a call: a listing of the catalog has no parameters, and
/// runs, or fails for want of a table, at once; a query or a file evaluates its
/// parameters first.
pub fn first_step(
    profile: &DuckDbProfile,
    backend_name: &str,
    tool_name: &str,
    arguments: &Json,
) -> (step: CallStep)
    requires
        profile.is_sound(),
    ensures
        if profile.operation == DuckDbOperation::ListTables || profile.operation
            == DuckDbOperation::ListColumns {
            forall|values: Result<Vec<Json>, String>| #[trigger]
                is_step(*profile, backend_name@, tool_name@, arguments.tree(), values, step)
        } else {
            step is Evaluate
        },
{
    if profile.operation.is_catalog() {
        step_after_values(profile, backend_name, tool_name, arguments, Ok(Vec::new()))
    } else {
        CallStep::Evaluate
    }
}

/// The reply of a call, once the engine has answered.
pub open spec fn run_reply(
    profile: DuckDbProfile,
    backend_name: Seq<char>,
    tool_name: Seq<char>,
    arguments: JsonTree,
    run: EngineRun,
    duration_ms: int,
) -> ReplyView {
    match run {
        EngineRun::Finished(result) => reply_to(
            profile,
            backend_name,
            tool_name,
            arguments,
            result,
            duration_ms,
        ),
        _ => error_reply(
            profile,
            backend_name,
            tool_name,
            run.failure(),
            failure_label(run.failure()),
        ),
    }
}

/// The reply of a call, once the engine has answered.
pub fn step_after_run(
    profile: &DuckDbProfile,
    backend_name: &str,
    tool_name: &str,
    arguments: &Json,
    run: EngineRun,
    duration_ms: u128,
) -> (reply: Reply)
    requires
        run matches EngineRun::Finished(Ok(_)) && profile.surface == Surface::Tool ==> duration_ms
            <= u64::MAX,
    ensures
        match run {
            EngineRun::Finished(result) => reply@ == reply_to(
                *profile,
                backend_name@,
                tool_name@,
                arguments.tree(),
                result,
                duration_ms as int,
            ),
            _ => reply@ == error_reply(
                *profile,
                backend_name@,
                tool_name@,
                run.failure(),
                failure_label(run.failure()),
            ),
        },
        reply@ == run_reply(
            *profile,
            backend_name@,
            tool_name@,
            arguments.tree(),
            run,
            duration_ms as int,
        ),
{
    shape_outcome(profile, backend_name, tool_name, arguments, settle(run), duration_ms)
}

/// The bytes of a reply. Every document has them.
pub fn finalize_payload(body: &Json) -> (r: Result<Vec<u8>, BackendError>)
    ensures
        r matches Ok(bytes) && bytes@ == encode_utf8(rendered(body.tree())),
        r matches Ok(bytes) && valid_utf8(bytes@) && decode_utf8(bytes@) == rendered(body.tree()),
{
    proof {
        encode_utf8_valid_utf8(rendered(body.tree()));
        encode_utf8_decode_utf8(rendered(body.tree()));
    }
    match body.to_bytes() {
        Ok(bytes) => Ok(bytes),
        Err(e) => {
            let mut message = "DuckDB plugin envelope serialization failed: ".to_owned();
            message.append(e.as_str());
            Err(BackendError::Transport { message })
        },
    }
}

// --------------------------------------------------------------------- listing

/// What a listing sends to the engine.
#[derive(Debug)]
pub struct ListingPlan {
    pub sql: String,
    pub binds: Vec<DuckBind>,
    pub max_rows: usize,
    /// The offset of this page, where the listing is paged by offset.
    pub prior_offset: u64,
}

/// The offset that a cursor stands for; none where it is not a number.
pub open spec fn cursor_offset(mode: ListQueryMode, cursor: Option<Seq<char>>) -> Option<int> {
    match mode {
        ListQueryMode::Offset => match cursor {
            Some(c) => unsigned_of(c),
            None => Some(0),
        },
        ListQueryMode::Keyset => Some(0),
    }
}

/// The binds of a listing: the cursor and the page size, or the page size and
/// the offset.
pub open spec fn listing_binds(
    cfg: ListQueryConfig,
    cursor: Option<Seq<char>>,
    offset: u64,
) -> Seq<BindView> {
    match cfg.mode {
        ListQueryMode::Keyset => Seq::empty().push(
            match cursor {
                Some(c) => BindView::Str(c),
                None => BindView::Null,
            },
        ).push(BindView::Int(cfg.page_size as i64)),
        ListQueryMode::Offset => Seq::empty().push(BindView::Int(cfg.page_size as i64)).push(
            BindView::Int(offset as i64),
        ),
    }
}

/// What is said of a cursor that is no offset.
pub open spec fn bad_cursor_message(cursor: Seq<char>) -> Seq<char> {
    "offset-mode cursor '"@ + cursor + "' is not a non-negative integer"@
}

/// `r` is what a listing sends to the engine from the page on that `cursor`
/// stands for, or why it sends nothing.
pub open spec fn is_listing_plan(
    list_query: Option<ListQueryConfig>,
    cursor: Option<Seq<char>>,
    r: Result<Option<ListingPlan>, BackendError>,
) -> bool {
    match list_query {
        None => r matches Ok(None),
        Some(cfg) => match cursor_offset(cfg.mode, cursor) {
            Some(offset) => {
                &&& r matches Ok(Some(plan))
                &&& plan.prior_offset == offset
                &&& plan.sql@ == cfg.sql@
                &&& plan.max_rows == cfg.page_size
                &&& bind_views(plan.binds@) == listing_binds(cfg, cursor, plan.prior_offset)
            },
            None => r matches Err(e) && e@ == ErrorView::InvalidSpec(bad_cursor_message(cursor->0)),
        },
    }
}

/// What a listing sends to the engine: nothing where none is configured.
pub fn plan_listing(profile: &DuckDbProfile, cursor: Option<&str>) -> (r: Result<
    Option<ListingPlan>,
    BackendError,
>)
    requires
        profile.is_sound(),
    ensures
        match profile.list_query {
            None => r matches Ok(None),
            Some(cfg) => match cursor_offset(cfg.mode, opt_str(cursor)) {
                Some(offset) => {
                    &&& r matches Ok(Some(plan))
                    &&& plan.prior_offset == offset
                    &&& plan.sql@ == cfg.sql@
                    &&& plan.max_rows == cfg.page_size
                    &&& bind_views(plan.binds@) == listing_binds(
                        cfg,
                        opt_str(cursor),
                        plan.prior_offset,
                    )
                },
                None => r matches Err(e) && e@ == ErrorView::InvalidSpec(
                    bad_cursor_message(opt_str(cursor)->0),
                ),
            },
        },
        is_listing_plan(profile.list_query, opt_str(cursor), r),
{
    let cfg = match &profile.list_query {
        Some(cfg) => cfg,
        None => {
            return Ok(None);
        },
    };
    let mut prior_offset: u64 = 0;
    if cfg.mode == ListQueryMode::Offset {
        if let Some(c) = cursor {
            match parse_u64(c) {
                Some(n) => {
                    prior_offset = n;
                },
                None => {
                    let mut message = "offset-mode cursor '".to_owned();
                    message.append(c);
                    message.append("' is not a non-negative integer");
                    return Err(BackendError::InvalidSpec { message });
                },
            }
        }
    }
    let mut binds: Vec<DuckBind> = Vec::new();
    match cfg.mode {
        ListQueryMode::Keyset => {
            match cursor {
                Some(c) => {
                    binds.push(DuckBind::Str(c.to_owned()));
                },
                None => {
                    binds.push(DuckBind::Null);
                },
            }
            binds.push(DuckBind::Int(cfg.page_size as i64));
        },
        ListQueryMode::Offset => {
            binds.push(DuckBind::Int(cfg.page_size as i64));
            binds.push(
                DuckBind::Int(
                    #[verifier::truncate]
                    (prior_offset as i64),
                ),
            );
        },
    }
    assert(bind_views(binds@) =~= listing_binds(*cfg, opt_str(cursor), prior_offset));
    Ok(
        Some(
            ListingPlan {
                sql: cfg.sql.clone(),
                binds,
                max_rows: cfg.page_size as usize,
                prior_offset,
            },
        ),
    )
}

/// `r` is the page of a listing that the engine's answer gives.
pub open spec fn is_listing_page(
    cfg: ListQueryConfig,
    prior_offset: int,
    result: Result<QueryOutcome, String>,
    r: Result<ResourcePage, BackendError>,
) -> bool {
    match result {
        Ok(outcome) => {
            &&& r matches Ok(page)
            &&& resource_views(page.resources@) == listed_resources(trees(outcome.rows@))
            &&& opt_text(page.next_cursor) == next_cursor(trees(outcome.rows@), cfg, prior_offset)
        },
        Err(message) => r matches Err(e) && e@ == ErrorView::Transport(message@),
    }
}

/// One page of a listing, from what the engine gave.
pub fn listing_page(
    cfg: &ListQueryConfig,
    prior_offset: u64,
    result: Result<QueryOutcome, String>,
) -> (r: Result<ResourcePage, BackendError>)
    ensures
        match result {
            Ok(outcome) => {
                &&& r matches Ok(page)
                &&& resource_views(page.resources@) == listed_resources(trees(outcome.rows@))
                &&& opt_text(page.next_cursor) == next_cursor(
                    trees(outcome.rows@),
                    *cfg,
                    prior_offset as int,
                )
            },
            Err(message) => r matches Err(e) && e@ == ErrorView::Transport(message@),
        },
        is_listing_page(*cfg, prior_offset as int, result, r),
{
    match result {
        Ok(outcome) => Ok(rows_to_resource_page(&outcome.rows, cfg, prior_offset)),
        Err(message) => Err(BackendError::Transport { message }),
    }
}

// ------------------------------------------------------------------ completion

/// What a completion sends to the engine.
#[derive(Debug)]
pub struct CompletionPlan {
    pub sql: String,
    pub binds: Vec<DuckBind>,
    /// The number of candidates, and of rows.
    pub max: usize,
}

/// The number of candidates of a completion: a hundred where it is left out.
pub open spec fn candidate_limit(max_results: Option<u32>) -> int {
    match max_results {
        Some(n) => n as int,
        None => 100,
    }
}

/// `plan` is what a completion of a variable sends to the engine.
pub open spec fn is_completion_plan(
    completions: Map<Seq<char>, CompletionConfig>,
    variable: Seq<char>,
    prefix: Seq<char>,
    plan: Option<CompletionPlan>,
) -> bool {
    match plan {
        Some(plan) => {
            &&& completions.dom().contains(variable)
            &&& plan.sql@ == completions[variable].sql@
            &&& plan.max == candidate_limit(completions[variable].max_results)
            &&& bind_views(plan.binds@) == Seq::empty().push(BindView::Str(prefix))
        },
        None => !completions.dom().contains(variable),
    }
}

/// What a completion of a variable sends to the engine: nothing where none is
/// configured, and else the configured statement with the prefix bound.
pub fn plan_completion(profile: &DuckDbProfile, variable: &str, prefix: &str) -> (plan: Option<
    CompletionPlan,
>)
    ensures
        match plan {
            Some(plan) => {
                &&& profile.variable_completions@.dom().contains(variable@)
                &&& plan.sql@ == profile.variable_completions@[variable@].sql@
                &&& plan.max == candidate_limit(
                    profile.variable_completions@[variable@].max_results,
                )
                &&& bind_views(plan.binds@) == Seq::empty().push(BindView::Str(prefix@))
            },
            None => !profile.variable_completions@.dom().contains(variable@),
        },
        is_completion_plan(profile.variable_completions@, variable@, prefix@, plan),
{
    match profile.variable_completions.get(variable) {
        Some(cfg) => {
            let max: usize = match cfg.max_results {
                Some(n) => n as usize,
                None => 100,
            };
            let mut binds: Vec<DuckBind> = Vec::new();
            binds.push(DuckBind::Str(prefix.to_owned()));
            assert(bind_views(binds@) =~= Seq::empty().push(BindView::Str(prefix@)));
            Some(CompletionPlan { sql: cfg.sql.clone(), binds, max })
        },
        None => None,
    }
}

/// `r` is what a completion makes of the engine's answer.
pub open spec fn is_completion(
    result: Result<QueryOutcome, String>,
    max: int,
    r: Result<Vec<String>, BackendError>,
) -> bool {
    match result {
        Ok(outcome) => r matches Ok(values) && texts(values@) == candidates(
            trees(outcome.rows@),
            first_column_of(trees(outcome.rows@)),
            max,
        ),
        Err(message) => r matches Err(e) && e@ == ErrorView::Transport(message@),
    }
}

/// The candidates of a completion, from what the engine gave: the first column
/// of the rows.
pub fn completion_values(result: Result<QueryOutcome, String>, max: usize) -> (r: Result<
    Vec<String>,
    BackendError,
>)
    ensures
        match result {
            Ok(outcome) => r matches Ok(values) && texts(values@) == candidates(
                trees(outcome.rows@),
                first_column_of(trees(outcome.rows@)),
                max as int,
            ),
            Err(message) => r matches Err(e) && e@ == ErrorView::Transport(message@),
        },
        is_completion(result, max as int, r),
{
    match result {
        Ok(outcome) => {
            let column = first_column(&outcome.rows);
            let name = match &column {
                Some(name) => Some(name.as_str()),
                None => None,
            };
            Ok(rows_to_completion_values(&outcome.rows, name, max))
        },
        Err(message) => Err(BackendError::Transport { message }),
    }
}

} // verus!
