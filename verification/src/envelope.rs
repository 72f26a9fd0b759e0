//! The reply to a call: the envelope that carries rows or an error, and the
//! schemas that describe it.
//!
//! A `downstreamError` that is not null is the sign of a failed call.

use vstd::prelude::*;

use crate::json::{
    object, object_push, object_tree, string, trees, unsigned, Json, JsonObject, JsonTree, Members,
};
use crate::text::{contains, contains_text, decimal, lower, opt_str, to_lower};

verus! {

// ---------------------------------------------------------------------- errors

/// What an error becomes in the envelope.
pub open spec fn downstream_error(kind: Seq<char>, message: Seq<char>, retryable: bool) -> JsonTree {
    object_tree(
        Members::empty().push(("kind"@, JsonTree::Str(kind))).push(
            ("code"@, JsonTree::Str("mcpg.downstream_duckdb."@ + kind)),
        ).push(("message"@, JsonTree::Str(message))).push(
            ("retryable"@, JsonTree::Bool(retryable)),
        ).push(
            (
                "retryClass"@,
                JsonTree::Str(
                    if retryable {
                        "with_backoff"@
                    } else {
                        "do_not_retry"@
                    },
                ),
            ),
        ).push(
            (
                "suggestedAction"@,
                JsonTree::Str(
                    if retryable {
                        "check_storage_and_retry"@
                    } else {
                        "inspect_sql_error"@
                    },
                ),
            ),
        ),
    )
}

/// The error of a failed call.
pub fn duckdb_downstream_error(kind: &str, message: &str, retryable: bool) -> (e: Json)
    ensures
        e.tree() == downstream_error(kind@, message@, retryable),
{
    broadcast use object_push;

    let mut code = "mcpg.downstream_duckdb.".to_owned();
    code.append(kind);
    let retry_class = if retryable {
        "with_backoff"
    } else {
        "do_not_retry"
    };
    let action = if retryable {
        "check_storage_and_retry"
    } else {
        "inspect_sql_error"
    };
    Json::Object(
        JsonObject::new().with("kind", string(kind)).with("code", Json::Str(code)).with(
            "message",
            string(message),
        ).with("retryable", Json::Bool(retryable)).with("retryClass", string(retry_class)).with(
            "suggestedAction",
            string(action),
        ),
    )
}

/// The message, in lower case, tells of a statement or a setting that is wrong.
pub open spec fn tells_of_rejection(lower: Seq<char>) -> bool {
    ||| contains_text(lower, "parser error"@)
    ||| contains_text(lower, "binder error"@)
    ||| contains_text(lower, "catalog error"@)
    ||| contains_text(lower, "syntax error"@)
    ||| contains_text(lower, "permission"@)
    ||| contains_text(lower, "not allowed"@)
    ||| contains_text(lower, "read-only guard"@)
    ||| contains_text(lower, "external access"@)
    ||| contains_text(lower, "conversion error"@)
    ||| contains_text(lower, "invalid input"@)
}

/// The message, in lower case, tells of storage, a lock or a lapse of time.
pub open spec fn tells_of_transport(lower: Seq<char>) -> bool {
    ||| contains_text(lower, "io error"@)
    ||| contains_text(lower, "i/o error"@)
    ||| contains_text(lower, "disk"@)
    ||| contains_text(lower, "lock"@)
    ||| contains_text(lower, "could not set lock"@)
    ||| contains_text(lower, "timed out"@)
    ||| contains_text(lower, "timeout"@)
    ||| contains_text(lower, "connection"@)
    ||| contains_text(lower, "interrupt"@)
}

/// A failure is worth another try where its message tells of transport and of
/// no rejection.
pub open spec fn is_retryable(message: Seq<char>) -> bool {
    !tells_of_rejection(lower(message)) && tells_of_transport(lower(message))
}

/// The kind of a failure.
pub open spec fn error_kind(retryable: bool) -> Seq<char> {
    if retryable {
        "transport_error"@
    } else {
        "duckdb_error"@
    }
}

/// What a failed query with this message becomes.
pub open spec fn classified(message: Seq<char>) -> JsonTree {
    downstream_error(error_kind(is_retryable(message)), message, is_retryable(message))
}

/// Whether a failure with this message is worth another try.
pub fn retryable(message: &str) -> (r: bool)
    ensures
        r == is_retryable(message@),
{
    let lowered = to_lower(message);
    let l = lowered.as_str();
    let rejected = contains(l, "parser error") || contains(l, "binder error") || contains(
        l,
        "catalog error",
    ) || contains(l, "syntax error") || contains(l, "permission") || contains(l, "not allowed")
        || contains(l, "read-only guard") || contains(l, "external access") || contains(
        l,
        "conversion error",
    ) || contains(l, "invalid input");
    !rejected && (contains(l, "io error") || contains(l, "i/o error") || contains(l, "disk")
        || contains(l, "lock") || contains(l, "could not set lock") || contains(l, "timed out")
        || contains(l, "timeout") || contains(l, "connection") || contains(l, "interrupt"))
}

/// Classifies the message of a failed query. Rejections of the statement come
/// first, whatever else the message mentions; failures of storage, locks and
/// time are worth another try; everything else is not.
pub fn classify_error(message: &str) -> (e: Json)
    ensures
        e.tree() == classified(message@),
{
    if retryable(message) {
        duckdb_downstream_error("transport_error", message, true)
    } else {
        duckdb_downstream_error("duckdb_error", message, false)
    }
}

// -------------------------------------------------------------------- envelope

/// A number, or null where there is none.
pub open spec fn count_tree(n: Option<int>) -> JsonTree {
    match n {
        Some(n) => JsonTree::Number(decimal(n)),
        None => JsonTree::Null,
    }
}

/// A string, or null where there is none.
pub open spec fn text_tree(s: Option<Seq<char>>) -> JsonTree {
    match s {
        Some(s) => JsonTree::Str(s),
        None => JsonTree::Null,
    }
}

/// A list, or null where there is none.
pub open spec fn rows_tree(rows: Option<Seq<JsonTree>>) -> JsonTree {
    match rows {
        Some(rows) => JsonTree::Array(rows),
        None => JsonTree::Null,
    }
}

/// The count of a reply: as given, or else the number of rows.
pub open spec fn reply_count(rows: Option<Seq<JsonTree>>, row_count: Option<int>) -> Option<int> {
    match row_count {
        Some(n) => Some(n),
        None => match rows {
            Some(rows) => Some(rows.len() as int),
            None => None,
        },
    }
}

/// The `response` of an envelope: null beside an error.
pub open spec fn response_tree(
    rows: Option<Seq<JsonTree>>,
    row_count: Option<int>,
    truncated: bool,
    duration_ms: int,
    error: Option<JsonTree>,
) -> JsonTree {
    if error is Some {
        JsonTree::Null
    } else {
        object_tree(
            Members::empty().push(("rows"@, rows_tree(rows))).push(
                ("count"@, count_tree(reply_count(rows, row_count))),
            ).push(("truncated"@, JsonTree::Bool(truncated))).push(
                ("durationMs"@, JsonTree::Number(decimal(duration_ms))),
            ),
        )
    }
}

/// The envelope of a reply.
pub open spec fn envelope_tree(
    tool_name: Seq<char>,
    profile_name: Seq<char>,
    database: Seq<char>,
    response: JsonTree,
    downstream: Option<JsonTree>,
    error: Option<Seq<char>>,
) -> JsonTree {
    object_tree(envelope_pairs(tool_name, profile_name, database, response, downstream, error))
}

/// The members of an envelope.
pub open spec fn envelope_pairs(
    tool_name: Seq<char>,
    profile_name: Seq<char>,
    database: Seq<char>,
    response: JsonTree,
    downstream: Option<JsonTree>,
    error: Option<Seq<char>>,
) -> Members {
    Members::empty().push(("toolName"@, JsonTree::Str(tool_name))).push(
        ("profile"@, JsonTree::Str(profile_name)),
    ).push(
        ("request"@, object_tree(Members::empty().push(("database"@, JsonTree::Str(database))))),
    ).push(("response"@, response)).push(
        (
            "downstreamError"@,
            match downstream {
                Some(e) => e,
                None => JsonTree::Null,
            },
        ),
    ).push(
        (
            "downstreamErrors"@,
            JsonTree::Array(
                match downstream {
                    Some(e) => Seq::empty().push(e),
                    None => Seq::empty(),
                },
            ),
        ),
    ).push(("error"@, text_tree(error)))
}

/// The models of rows, where there are any.
pub open spec fn opt_trees(rows: Option<&Vec<Json>>) -> Option<Seq<JsonTree>> {
    match rows {
        Some(rows) => Some(trees(rows@)),
        None => None,
    }
}

/// A number, where there is one.
pub open spec fn opt_int(n: Option<usize>) -> Option<int> {
    match n {
        Some(n) => Some(n as int),
        None => None,
    }
}

/// The model of a document, where there is one.
pub open spec fn opt_tree(j: Option<&Json>) -> Option<JsonTree> {
    match j {
        Some(j) => Some(j.tree()),
        None => None,
    }
}

/// Copies a list of documents.
fn copied(items: &Vec<Json>) -> (copy: Vec<Json>)
    ensures
        trees(copy@) == trees(items@),
{
    let mut copy: Vec<Json> = Vec::new();
    let mut i: usize = 0;
    while i < items.len()
        invariant
            i <= items@.len(),
            copy@.len() == i,
            forall|k: int| 0 <= k < i ==> (#[trigger] copy@[k]).tree() == items@[k].tree(),
        decreases items@.len() - i,
    {
        copy.push(items[i].clone());
        i += 1;
    }
    assert(trees(copy@) =~= trees(items@));
    copy
}

/// The envelope of a reply. Beside an error there is no response.
pub fn build_result_envelope(
    tool_name: &str,
    profile_name: &str,
    database: &str,
    rows: Option<&Vec<Json>>,
    row_count: Option<usize>,
    truncated: bool,
    duration_ms: u128,
    downstream_error: Option<&Json>,
    error: Option<&str>,
) -> (envelope: Json)
    requires
        downstream_error is None ==> duration_ms <= u64::MAX,
    ensures
        envelope.tree() == envelope_tree(
            tool_name@,
            profile_name@,
            database@,
            response_tree(
                opt_trees(rows),
                opt_int(row_count),
                truncated,
                duration_ms as int,
                opt_tree(downstream_error),
            ),
            opt_tree(downstream_error),
            opt_str(error),
        ),
{
    broadcast use object_push;

    let response = match downstream_error {
        Some(_) => Json::Null,
        None => {
            let count = match row_count {
                Some(n) => unsigned(n as u64),
                None => match rows {
                    Some(rows) => unsigned(rows.len() as u64),
                    None => Json::Null,
                },
            };
            let rows = match rows {
                Some(rows) => Json::Array(copied(rows)),
                None => Json::Null,
            };
            Json::Object(
                JsonObject::new().with("rows", rows).with("count", count).with(
                    "truncated",
                    Json::Bool(truncated),
                ).with("durationMs", unsigned(duration_ms as u64)),
            )
        },
    };
    let mut errors: Vec<Json> = Vec::new();
    let downstream = match downstream_error {
        Some(e) => {
            errors.push(e.clone());
            assert(trees(errors@) =~= Seq::empty().push(e.tree()));
            e.clone()
        },
        None => {
            assert(trees(errors@) =~= Seq::empty());
            Json::Null
        },
    };
    let error = match error {
        Some(e) => string(e),
        None => Json::Null,
    };
    let request = JsonObject::new().with("database", string(database));
    Json::Object(
        JsonObject::new().with("toolName", string(tool_name)).with(
            "profile",
            string(profile_name),
        ).with("request", Json::Object(request)).with("response", response).with(
            "downstreamError",
            downstream,
        ).with("downstreamErrors", Json::Array(errors)).with("error", error),
    )
}

// --------------------------------------------------------------------- schemas

/// A schema that asks for one type.
pub open spec fn typed(name: Seq<char>) -> JsonTree {
    object_tree(Members::empty().push(("type"@, JsonTree::Str(name))))
}

/// Two type names.
pub open spec fn either(a: Seq<char>, b: Seq<char>) -> JsonTree {
    JsonTree::Array(Seq::empty().push(JsonTree::Str(a)).push(JsonTree::Str(b)))
}

/// A schema that asks for one of two types.
pub open spec fn typed_either(a: Seq<char>, b: Seq<char>) -> JsonTree {
    object_tree(Members::empty().push(("type"@, either(a, b))))
}

/// The schema of the `request` of an envelope.
pub open spec fn request_schema() -> JsonTree {
    object_tree(
        Members::empty().push(("type"@, JsonTree::Str("object"@))).push(
            ("properties"@, object_tree(Members::empty().push(("database"@, typed("string"@))))),
        ).push(("additionalProperties"@, JsonTree::Bool(true))),
    )
}

/// The schema of the `response` of an envelope whose rows have the schema
/// `items`.
pub open spec fn response_schema(items: JsonTree) -> JsonTree {
    object_tree(
        Members::empty().push(("type"@, either("object"@, "null"@))).push(
            (
                "properties"@,
                object_tree(
                    Members::empty().push(
                        (
                            "rows"@,
                            object_tree(
                                Members::empty().push(("type"@, either("array"@, "null"@))).push(
                                    ("items"@, items),
                                ),
                            ),
                        ),
                    ).push(("count"@, typed_either("integer"@, "null"@))).push(
                        ("truncated"@, typed("boolean"@)),
                    ).push(("durationMs"@, typed("integer"@))),
                ),
            ),
        ).push(("additionalProperties"@, JsonTree::Bool(true))),
    )
}

/// The members of an envelope with their schemas.
pub open spec fn envelope_properties(items: JsonTree) -> Members {
    Members::empty().push(("toolName"@, typed("string"@))).push(
        ("profile"@, typed("string"@)),
    ).push(("request"@, request_schema())).push(("response"@, response_schema(items))).push(
        ("downstreamError"@, typed_either("object"@, "null"@)),
    ).push(
        (
            "downstreamErrors"@,
            object_tree(
                Members::empty().push(("type"@, JsonTree::Str("array"@))).push(
                    ("items"@, object_tree(Members::empty())),
                ),
            ),
        ),
    ).push(("error"@, typed_either("string"@, "null"@)))
}

/// The schema of an envelope whose rows have the schema `items`.
pub open spec fn envelope_schema(items: JsonTree) -> JsonTree {
    object_tree(
        Members::empty().push(
            ("$schema"@, JsonTree::Str("https://json-schema.org/draft/2020-12/schema"@)),
        ).push(("type"@, JsonTree::Str("object"@))).push(
            ("properties"@, object_tree(envelope_properties(items))),
        ).push(("additionalProperties"@, JsonTree::Bool(true))),
    )
}

/// A schema that asks for one type.
fn one_type(name: &str) -> (schema: Json)
    ensures
        schema.tree() == typed(name@),
{
    broadcast use object_push;

    Json::Object(JsonObject::new().with("type", string(name)))
}

/// Two type names.
fn two_names(a: &str, b: &str) -> (names: Json)
    ensures
        names.tree() == either(a@, b@),
{
    let mut names: Vec<Json> = Vec::new();
    names.push(string(a));
    names.push(string(b));
    assert(trees(names@) =~= Seq::empty().push(JsonTree::Str(a@)).push(JsonTree::Str(b@)));
    Json::Array(names)
}

/// A schema that asks for one of two types.
fn one_of_two(a: &str, b: &str) -> (schema: Json)
    ensures
        schema.tree() == typed_either(a@, b@),
{
    broadcast use object_push;

    Json::Object(JsonObject::new().with("type", two_names(a, b)))
}

/// The schema of the `request` of an envelope.
fn schema_of_request() -> (schema: Json)
    ensures
        schema.tree() == request_schema(),
{
    broadcast use object_push;

    Json::Object(
        JsonObject::new().with("type", string("object")).with(
            "properties",
            Json::Object(JsonObject::new().with("database", one_type("string"))),
        ).with("additionalProperties", Json::Bool(true)),
    )
}

/// The schema of the `response` of an envelope.
fn schema_of_response(items: Json) -> (schema: Json)
    ensures
        schema.tree() == response_schema(items.tree()),
{
    broadcast use object_push;

    let rows = JsonObject::new().with("type", two_names("array", "null")).with("items", items);
    let properties = JsonObject::new().with("rows", Json::Object(rows)).with(
        "count",
        one_of_two("integer", "null"),
    ).with("truncated", one_type("boolean")).with("durationMs", one_type("integer"));
    Json::Object(
        JsonObject::new().with("type", two_names("object", "null")).with(
            "properties",
            Json::Object(properties),
        ).with("additionalProperties", Json::Bool(true)),
    )
}

/// The schema of an envelope whose rows have the schema `items`.
fn schema_with(items: Json) -> (schema: Json)
    ensures
        schema.tree() == envelope_schema(items.tree()),
{
    broadcast use object_push;

    let errors = JsonObject::new().with("type", string("array")).with(
        "items",
        Json::Object(JsonObject::new()),
    );
    let properties = JsonObject::new().with("toolName", one_type("string")).with(
        "profile",
        one_type("string"),
    ).with("request", schema_of_request()).with("response", schema_of_response(items)).with(
        "downstreamError",
        one_of_two("object", "null"),
    ).with("downstreamErrors", Json::Object(errors)).with("error", one_of_two("string", "null"));
    Json::Object(
        JsonObject::new().with(
            "$schema",
            string("https://json-schema.org/draft/2020-12/schema"),
        ).with("type", string("object")).with("properties", Json::Object(properties)).with(
            "additionalProperties",
            Json::Bool(true),
        ),
    )
}

/// The schema of an envelope. Its rows are left untyped.
pub fn result_envelope_schema() -> (schema: Json)
    ensures
        schema.tree() == envelope_schema(object_tree(Members::empty())),
{
    schema_with(Json::Object(JsonObject::new()))
}

/// A column of a catalog: a string, an integer or null.
pub open spec fn catalog_column() -> JsonTree {
    object_tree(
        Members::empty().push(
            (
                "type"@,
                JsonTree::Array(
                    Seq::empty().push(JsonTree::Str("string"@)).push(
                        JsonTree::Str("integer"@),
                    ).push(JsonTree::Str("null"@)),
                ),
            ),
        ),
    )
}

/// The characters of a list of texts.
pub open spec fn strs(list: Seq<&str>) -> Seq<Seq<char>> {
    list.map_values(|s: &str| s@)
}

/// The columns of a catalog with their schemas.
pub open spec fn catalog_columns(columns: Seq<Seq<char>>) -> Members {
    columns.map_values(|c: Seq<char>| (c, catalog_column()))
}

/// The schema of a row of a catalog.
pub open spec fn catalog_row_schema(columns: Seq<Seq<char>>) -> JsonTree {
    object_tree(
        Members::empty().push(("type"@, JsonTree::Str("object"@))).push(
            ("properties"@, object_tree(catalog_columns(columns))),
        ).push(("additionalProperties"@, JsonTree::Bool(true))),
    )
}

/// The schema of a column of a catalog.
fn schema_of_column() -> (schema: Json)
    ensures
        schema.tree() == catalog_column(),
{
    broadcast use object_push;

    let mut names: Vec<Json> = Vec::new();
    names.push(string("string"));
    names.push(string("integer"));
    names.push(string("null"));
    assert(trees(names@) =~= Seq::empty().push(JsonTree::Str("string"@)).push(
        JsonTree::Str("integer"@),
    ).push(JsonTree::Str("null"@)));
    Json::Object(JsonObject::new().with("type", Json::Array(names)))
}

/// The schema of an envelope whose rows have the given columns. Rows may hold
/// more than these.
pub fn catalog_envelope_schema(columns: &[&str]) -> (schema: Json)
    ensures
        schema.tree() == envelope_schema(catalog_row_schema(strs(columns@))),
{
    broadcast use object_push;

    let ghost pairs = catalog_columns(strs(columns@));
    let mut properties = JsonObject::new();
    let mut i: usize = 0;
    assert(pairs.take(0) =~= Members::empty());
    while i < columns.len()
        invariant
            i <= columns@.len(),
            pairs == catalog_columns(strs(columns@)),
            properties.entries() == object(pairs.take(i as int)),
        decreases columns@.len() - i,
    {
        proof {
            assert(pairs.take(i + 1) =~= pairs.take(i as int).push(pairs[i as int]));
            object_push(pairs.take(i as int), pairs[i as int]);
        }
        properties = properties.with(columns[i], schema_of_column());
        i += 1;
    }
    assert(pairs.take(i as int) =~= pairs);
    let items = Json::Object(
        JsonObject::new().with("type", string("object")).with(
            "properties",
            Json::Object(properties),
        ).with("additionalProperties", Json::Bool(true)),
    );
    schema_with(items)
}

/// The columns of a listing of tables.
pub open spec fn list_tables_names() -> Seq<Seq<char>> {
    Seq::empty().push("table_catalog"@).push("table_schema"@).push("table_name"@).push(
        "table_type"@,
    )
}

/// The columns of a listing of columns.
pub open spec fn list_columns_names() -> Seq<Seq<char>> {
    Seq::empty().push("table_name"@).push("column_name"@).push("data_type"@).push(
        "is_nullable"@,
    ).push("ordinal_position"@)
}

/// The columns of a listing of tables.
pub fn list_tables_columns() -> (columns: Vec<&'static str>)
    ensures
        strs(columns@) == list_tables_names(),
{
    let mut columns: Vec<&'static str> = Vec::new();
    columns.push("table_catalog");
    columns.push("table_schema");
    columns.push("table_name");
    columns.push("table_type");
    assert(strs(columns@) =~= list_tables_names());
    columns
}

/// The columns of a listing of columns.
pub fn list_columns_columns() -> (columns: Vec<&'static str>)
    ensures
        strs(columns@) == list_columns_names(),
{
    let mut columns: Vec<&'static str> = Vec::new();
    columns.push("table_name");
    columns.push("column_name");
    columns.push("data_type");
    columns.push("is_nullable");
    columns.push("ordinal_position");
    assert(strs(columns@) =~= list_columns_names());
    columns
}

} // verus!
