//! What holds of replies: rows and errors are carried whole, under the names that
//! the schemas give them, and every failure is told as it is.

use vstd::prelude::*;

use crate::audit::{action_for, is_entry, AuditRecord, Identity};
use crate::call::{
    error_reply, failure_label, is_step, missing_uri_message, reply_to, run_reply, CallStep,
    EngineRun,
};
use crate::duckdb::QueryOutcome;
use crate::envelope::{
    catalog_columns, catalog_row_schema, classified, downstream_error, envelope_properties,
    envelope_schema, envelope_tree, error_kind, is_retryable, list_columns_names, list_tables_names,
    request_schema, response_schema, response_tree,
};
use crate::json::{
    field, has_key, member, object, object_member, object_tree, rendered, trees, Json, JsonTree,
    Members,
};
use crate::laws::object_has_the_keys_of_its_pairs;
use crate::params::{open_properties, open_schema};
use crate::plugin::{reply_schema, DuckDbProfile};
use crate::surface::{contents_tree, messages_tree, resource_uri, Surface};
use crate::text::{contains_text, decimal, lower, lower_char, occurs_at, opt_text};
use crate::types::DuckDbOperation;

verus! {

/// The value under one key, and within it under another.
pub open spec fn at(tree: JsonTree, outer: Seq<char>, inner: Seq<char>) -> Option<JsonTree> {
    match field(tree, outer) {
        Some(part) => field(part, inner),
        None => None,
    }
}

/// The members of an envelope have different names.
proof fn envelope_members_differ()
    ensures
        "toolName"@ != "profile"@,
        "toolName"@ != "request"@,
        "toolName"@ != "response"@,
        "toolName"@ != "downstreamError"@,
        "toolName"@ != "downstreamErrors"@,
        "toolName"@ != "error"@,
        "profile"@ != "request"@,
        "profile"@ != "response"@,
        "profile"@ != "downstreamError"@,
        "profile"@ != "downstreamErrors"@,
        "profile"@ != "error"@,
        "request"@ != "response"@,
        "request"@ != "downstreamError"@,
        "request"@ != "downstreamErrors"@,
        "request"@ != "error"@,
        "response"@ != "downstreamError"@,
        "response"@ != "downstreamErrors"@,
        "response"@ != "error"@,
        "downstreamError"@ != "downstreamErrors"@,
        "downstreamError"@ != "error"@,
        "downstreamErrors"@ != "error"@,
{
    reveal_strlit("toolName");
    assert("toolName"@.len() == 8);
    reveal_strlit("profile");
    assert("profile"@.len() == 7);
    reveal_strlit("request");
    assert("request"@.len() == 7);
    reveal_strlit("response");
    assert("response"@.len() == 8);
    reveal_strlit("downstreamError");
    assert("downstreamError"@.len() == 15);
    reveal_strlit("downstreamErrors");
    assert("downstreamErrors"@.len() == 16);
    reveal_strlit("error");
    assert("error"@.len() == 5);
    assert("toolName"@[0] == 't' && "response"@[0] == 'r');
    assert("profile"@[0] == 'p' && "request"@[0] == 'r');
}

/// The members of a response have different names.
proof fn response_members_differ()
    ensures
        "rows"@ != "count"@,
        "rows"@ != "truncated"@,
        "rows"@ != "durationMs"@,
        "count"@ != "truncated"@,
        "count"@ != "durationMs"@,
        "truncated"@ != "durationMs"@,
{
    reveal_strlit("rows");
    assert("rows"@.len() == 4);
    reveal_strlit("count");
    assert("count"@.len() == 5);
    reveal_strlit("truncated");
    assert("truncated"@.len() == 9);
    reveal_strlit("durationMs");
    assert("durationMs"@.len() == 10);
}

/// The members of an error have different names.
proof fn error_members_differ()
    ensures
        "kind"@ != "code"@,
        "kind"@ != "message"@,
        "kind"@ != "retryable"@,
        "kind"@ != "retryClass"@,
        "kind"@ != "suggestedAction"@,
        "code"@ != "message"@,
        "code"@ != "retryable"@,
        "code"@ != "retryClass"@,
        "code"@ != "suggestedAction"@,
        "message"@ != "retryable"@,
        "message"@ != "retryClass"@,
        "message"@ != "suggestedAction"@,
        "retryable"@ != "retryClass"@,
        "retryable"@ != "suggestedAction"@,
        "retryClass"@ != "suggestedAction"@,
{
    reveal_strlit("kind");
    assert("kind"@.len() == 4);
    reveal_strlit("code");
    assert("code"@.len() == 4);
    reveal_strlit("message");
    assert("message"@.len() == 7);
    reveal_strlit("retryable");
    assert("retryable"@.len() == 9);
    reveal_strlit("retryClass");
    assert("retryClass"@.len() == 10);
    reveal_strlit("suggestedAction");
    assert("suggestedAction"@.len() == 15);
    assert("kind"@[0] == 'k' && "code"@[0] == 'c');
}

/// The members of contents and messages have different names.
proof fn content_members_differ()
    ensures
        "uri"@ != "text"@,
        "uri"@ != "mimeType"@,
        "uri"@ != "type"@,
        "uri"@ != "role"@,
        "uri"@ != "content"@,
        "uri"@ != "blob"@,
        "text"@ != "mimeType"@,
        "text"@ != "type"@,
        "text"@ != "role"@,
        "text"@ != "content"@,
        "text"@ != "blob"@,
        "mimeType"@ != "type"@,
        "mimeType"@ != "role"@,
        "mimeType"@ != "content"@,
        "mimeType"@ != "blob"@,
        "type"@ != "role"@,
        "type"@ != "content"@,
        "type"@ != "blob"@,
        "role"@ != "content"@,
        "role"@ != "blob"@,
        "content"@ != "blob"@,
{
    reveal_strlit("uri");
    assert("uri"@.len() == 3);
    reveal_strlit("text");
    assert("text"@.len() == 4);
    reveal_strlit("mimeType");
    assert("mimeType"@.len() == 8);
    reveal_strlit("type");
    assert("type"@.len() == 4);
    reveal_strlit("role");
    assert("role"@.len() == 4);
    reveal_strlit("content");
    assert("content"@.len() == 7);
    reveal_strlit("blob");
    assert("blob"@.len() == 4);
    assert("text"@[1] == 'e' && "type"@[1] == 'y');
    assert("text"@[0] == 't' && "role"@[0] == 'r');
    assert("text"@[0] == 't' && "blob"@[0] == 'b');
    assert("type"@[0] == 't' && "role"@[0] == 'r');
    assert("type"@[0] == 't' && "blob"@[0] == 'b');
    assert("role"@[0] == 'r' && "blob"@[0] == 'b');
}

/// The details of an entry have different names.
proof fn detail_members_differ()
    ensures
        "backend"@ != "duration_ms"@,
        "backend"@ != "outcome"@,
        "backend"@ != "alias"@,
        "backend"@ != "reason"@,
        "duration_ms"@ != "outcome"@,
        "duration_ms"@ != "alias"@,
        "duration_ms"@ != "reason"@,
        "outcome"@ != "alias"@,
        "outcome"@ != "reason"@,
        "alias"@ != "reason"@,
{
    reveal_strlit("backend");
    assert("backend"@.len() == 7);
    reveal_strlit("duration_ms");
    assert("duration_ms"@.len() == 11);
    reveal_strlit("outcome");
    assert("outcome"@.len() == 7);
    reveal_strlit("alias");
    assert("alias"@.len() == 5);
    reveal_strlit("reason");
    assert("reason"@.len() == 6);
    assert("backend"@[0] == 'b' && "outcome"@[0] == 'o');
}

/// The members of a schema have different names.
proof fn schema_members_differ()
    ensures
        "$schema"@ != "type"@,
        "$schema"@ != "properties"@,
        "$schema"@ != "additionalProperties"@,
        "$schema"@ != "items"@,
        "$schema"@ != "required"@,
        "type"@ != "properties"@,
        "type"@ != "additionalProperties"@,
        "type"@ != "items"@,
        "type"@ != "required"@,
        "properties"@ != "additionalProperties"@,
        "properties"@ != "items"@,
        "properties"@ != "required"@,
        "additionalProperties"@ != "items"@,
        "additionalProperties"@ != "required"@,
        "items"@ != "required"@,
{
    reveal_strlit("$schema");
    assert("$schema"@.len() == 7);
    reveal_strlit("type");
    assert("type"@.len() == 4);
    reveal_strlit("properties");
    assert("properties"@.len() == 10);
    reveal_strlit("additionalProperties");
    assert("additionalProperties"@.len() == 20);
    reveal_strlit("items");
    assert("items"@.len() == 5);
    reveal_strlit("required");
    assert("required"@.len() == 8);
}

/// The outcomes have different names.
proof fn labels_differ()
    ensures
        "timeout"@ != "duckdb_error"@,
        "timeout"@ != "transport_error"@,
        "timeout"@ != "invalid_spec"@,
        "timeout"@ != "ok"@,
        "duckdb_error"@ != "transport_error"@,
        "duckdb_error"@ != "invalid_spec"@,
        "duckdb_error"@ != "ok"@,
        "transport_error"@ != "invalid_spec"@,
        "transport_error"@ != "ok"@,
        "invalid_spec"@ != "ok"@,
{
    reveal_strlit("timeout");
    assert("timeout"@.len() == 7);
    reveal_strlit("duckdb_error");
    assert("duckdb_error"@.len() == 12);
    reveal_strlit("transport_error");
    assert("transport_error"@.len() == 15);
    reveal_strlit("invalid_spec");
    assert("invalid_spec"@.len() == 12);
    reveal_strlit("ok");
    assert("ok"@.len() == 2);
    assert("duckdb_error"@[0] == 'd' && "invalid_spec"@[0] == 'i');
}

// -------------------------------------------------------------------- envelopes

/// A successful envelope carries exactly the rows that it is given, all of them
/// and in order, with their count, the flag and the duration, and no error. The
/// count is that of the rows where none is given.
pub proof fn envelopes_carry_their_rows(
    tool_name: Seq<char>,
    profile_name: Seq<char>,
    database: Seq<char>,
    rows: Option<Seq<JsonTree>>,
    row_count: Option<int>,
    truncated: bool,
    duration_ms: int,
    error: Option<Seq<char>>,
)
    ensures
        ({
            let envelope = envelope_tree(
                tool_name,
                profile_name,
                database,
                response_tree(rows, row_count, truncated, duration_ms, None),
                None,
                error,
            );
            &&& rows matches Some(list) ==> at(envelope, "response"@, "rows"@) == Some(
                JsonTree::Array(list),
            )
            &&& rows is None ==> at(envelope, "response"@, "rows"@) == Some(JsonTree::Null)
            &&& row_count matches Some(n) ==> at(envelope, "response"@, "count"@) == Some(
                JsonTree::Number(decimal(n)),
            )
            &&& row_count is None ==> (rows matches Some(list) ==> at(
                envelope,
                "response"@,
                "count"@,
            ) == Some(JsonTree::Number(decimal(list.len() as int))))
            &&& row_count is None && rows is None ==> at(envelope, "response"@, "count"@) == Some(
                JsonTree::Null,
            )
            &&& at(envelope, "response"@, "truncated"@) == Some(JsonTree::Bool(truncated))
            &&& at(envelope, "response"@, "durationMs"@) == Some(
                JsonTree::Number(decimal(duration_ms)),
            )
            &&& field(envelope, "downstreamError"@) == Some(JsonTree::Null)
            &&& field(envelope, "downstreamErrors"@) == Some(JsonTree::Array(Seq::empty()))
        }),
{
    broadcast use object_member;

    envelope_members_differ();
    response_members_differ();
}

/// Every envelope names its tool, its binding and its database.
pub proof fn envelopes_name_their_origin(
    tool_name: Seq<char>,
    profile_name: Seq<char>,
    database: Seq<char>,
    response: JsonTree,
    downstream: Option<JsonTree>,
    error: Option<Seq<char>>,
)
    ensures
        ({
            let envelope = envelope_tree(
                tool_name,
                profile_name,
                database,
                response,
                downstream,
                error,
            );
            &&& field(envelope, "toolName"@) == Some(JsonTree::Str(tool_name))
            &&& field(envelope, "profile"@) == Some(JsonTree::Str(profile_name))
            &&& at(envelope, "request"@, "database"@) == Some(JsonTree::Str(database))
            &&& error matches Some(text) ==> field(envelope, "error"@) == Some(JsonTree::Str(text))
            &&& error is None ==> field(envelope, "error"@) == Some(JsonTree::Null)
        }),
{
    broadcast use object_member;

    envelope_members_differ();
}

/// An envelope of an error carries that error, alone and in its list, and no
/// response, whatever rows it is given.
pub proof fn envelopes_carry_their_error(
    tool_name: Seq<char>,
    profile_name: Seq<char>,
    database: Seq<char>,
    rows: Option<Seq<JsonTree>>,
    row_count: Option<int>,
    truncated: bool,
    duration_ms: int,
    downstream: JsonTree,
    error: Option<Seq<char>>,
)
    ensures
        ({
            let envelope = envelope_tree(
                tool_name,
                profile_name,
                database,
                response_tree(rows, row_count, truncated, duration_ms, Some(downstream)),
                Some(downstream),
                error,
            );
            &&& field(envelope, "response"@) == Some(JsonTree::Null)
            &&& field(envelope, "downstreamError"@) == Some(downstream)
            &&& field(envelope, "downstreamErrors"@) == Some(JsonTree::Array(seq![downstream]))
        }),
{
    broadcast use object_member;

    envelope_members_differ();
    assert(Seq::empty().push(downstream) =~= seq![downstream]);
}

/// The reply to a successful call of a tool holds exactly the rows of the outcome,
/// all of them and in order, with the outcome's count and flag.
pub proof fn replies_hold_the_rows_of_the_outcome(
    profile: DuckDbProfile,
    backend_name: Seq<char>,
    tool_name: Seq<char>,
    arguments: JsonTree,
    outcome: QueryOutcome,
    duration_ms: int,
)
    requires
        profile.surface == Surface::Tool,
    ensures
        ({
            let reply = reply_to(
                profile,
                backend_name,
                tool_name,
                arguments,
                Ok(outcome),
                duration_ms,
            );
            &&& at(reply.body, "response"@, "rows"@) == Some(
                JsonTree::Array(trees(outcome.rows@)),
            )
            &&& at(reply.body, "response"@, "count"@) == Some(
                JsonTree::Number(decimal(outcome.row_count as int)),
            )
            &&& at(reply.body, "response"@, "truncated"@) == Some(JsonTree::Bool(outcome.truncated))
            &&& at(reply.body, "response"@, "durationMs"@) == Some(
                JsonTree::Number(decimal(duration_ms)),
            )
            &&& field(reply.body, "toolName"@) == Some(JsonTree::Str(tool_name))
            &&& field(reply.body, "profile"@) == Some(JsonTree::Str(backend_name))
            &&& at(reply.body, "request"@, "database"@) == Some(JsonTree::Str(profile.database@))
            &&& field(reply.body, "downstreamError"@) == Some(JsonTree::Null)
            &&& field(reply.body, "downstreamErrors"@) == Some(JsonTree::Array(Seq::empty()))
            &&& field(reply.body, "error"@) == Some(JsonTree::Null)
            &&& reply.label == "ok"@
            &&& reply.reason is None
        }),
{
    let rows = Some(trees(outcome.rows@));
    let count = Some(outcome.row_count as int);
    envelopes_carry_their_rows(
        tool_name,
        backend_name,
        profile.database@,
        rows,
        count,
        outcome.truncated,
        duration_ms,
        None,
    );
    envelopes_name_their_origin(
        tool_name,
        backend_name,
        profile.database@,
        response_tree(rows, count, outcome.truncated, duration_ms, None),
        None,
        None,
    );
}

// ----------------------------------------------------------------------- errors

/// An error tells its kind, a code that ends with the kind, its message as it is,
/// and whether and how to try again, all in agreement.
pub proof fn errors_are_told_whole(message: Seq<char>)
    ensures
        ({
            let error = classified(message);
            let again = is_retryable(message);
            let kind = if again {
                "transport_error"@
            } else {
                "duckdb_error"@
            };
            &&& field(error, "kind"@) == Some(JsonTree::Str(kind))
            &&& field(error, "code"@) == Some(JsonTree::Str("mcpg.downstream_duckdb."@ + kind))
            &&& field(error, "message"@) == Some(JsonTree::Str(message))
            &&& field(error, "retryable"@) == Some(JsonTree::Bool(again))
            &&& again ==> field(error, "retryClass"@) == Some(JsonTree::Str("with_backoff"@))
            &&& !again ==> field(error, "retryClass"@) == Some(JsonTree::Str("do_not_retry"@))
            &&& again ==> field(error, "suggestedAction"@) == Some(
                JsonTree::Str("check_storage_and_retry"@),
            )
            &&& !again ==> field(error, "suggestedAction"@) == Some(
                JsonTree::Str("inspect_sql_error"@),
            )
        }),
{
    broadcast use object_member;

    error_members_differ();
}

/// An error of any kind tells that kind, a code that ends with it, its message,
/// and whether and how to try again.
pub proof fn errors_of_any_kind_are_told_whole(kind: Seq<char>, message: Seq<char>, again: bool)
    ensures
        ({
            let error = downstream_error(kind, message, again);
            &&& field(error, "kind"@) == Some(JsonTree::Str(kind))
            &&& field(error, "code"@) == Some(JsonTree::Str("mcpg.downstream_duckdb."@ + kind))
            &&& field(error, "message"@) == Some(JsonTree::Str(message))
            &&& field(error, "retryable"@) == Some(JsonTree::Bool(again))
            &&& again ==> field(error, "retryClass"@) == Some(JsonTree::Str("with_backoff"@))
            &&& !again ==> field(error, "retryClass"@) == Some(JsonTree::Str("do_not_retry"@))
            &&& again ==> field(error, "suggestedAction"@) == Some(
                JsonTree::Str("check_storage_and_retry"@),
            )
            &&& !again ==> field(error, "suggestedAction"@) == Some(
                JsonTree::Str("inspect_sql_error"@),
            )
        }),
{
    broadcast use object_member;

    error_members_differ();
}

/// The words that tell of a statement or a setting that is wrong.
pub open spec fn rejection_words() -> Seq<Seq<char>> {
    seq![
        "parser error"@,
        "binder error"@,
        "catalog error"@,
        "syntax error"@,
        "permission"@,
        "not allowed"@,
        "read-only guard"@,
        "external access"@,
        "conversion error"@,
        "invalid input"@,
    ]
}

/// The words that tell of storage, a lock or a lapse of time.
pub open spec fn transport_words() -> Seq<Seq<char>> {
    seq![
        "io error"@,
        "i/o error"@,
        "disk"@,
        "lock"@,
        "could not set lock"@,
        "timed out"@,
        "timeout"@,
        "connection"@,
        "interrupt"@,
    ]
}

/// One of the words stands in a text, whatever the case of its letters.
pub open spec fn speaks_of(message: Seq<char>, words: Seq<Seq<char>>) -> bool {
    exists|i: int| 0 <= i < words.len() && contains_text(lower(message), #[trigger] words[i])
}

/// A failure is worth another try exactly where its message speaks of storage, a
/// lock or a lapse of time and of nothing that is wrong with the statement.
pub proof fn retries_follow_the_words(message: Seq<char>)
    ensures
        is_retryable(message) <==> speaks_of(message, transport_words()) && !speaks_of(
            message,
            rejection_words(),
        ),
{
    let l = lower(message);
    let r = rejection_words();
    let t = transport_words();
    assert(contains_text(l, r[0]) || contains_text(l, r[1]) || contains_text(l, r[2])
        || contains_text(l, r[3]) || contains_text(l, r[4]) || contains_text(l, r[5])
        || contains_text(l, r[6]) || contains_text(l, r[7]) || contains_text(l, r[8])
        || contains_text(l, r[9]) <==> speaks_of(message, r));
    assert(contains_text(l, t[0]) || contains_text(l, t[1]) || contains_text(l, t[2])
        || contains_text(l, t[3]) || contains_text(l, t[4]) || contains_text(l, t[5])
        || contains_text(l, t[6]) || contains_text(l, t[7]) || contains_text(l, t[8]) <==> speaks_of(
        message,
        t,
    ));
}

/// The case of letters does not matter to how a failure is classified and counted.
pub proof fn letter_case_does_not_matter(a: Seq<char>, b: Seq<char>)
    requires
        lower(a) == lower(b),
    ensures
        is_retryable(a) == is_retryable(b),
        failure_label(a) == failure_label(b),
{
}

/// Lowering the case touches nothing but ASCII capitals, and leaves none.
pub proof fn lower_case_has_no_capitals(s: Seq<char>)
    ensures
        lower(s).len() == s.len(),
        forall|i: int|
            0 <= i < s.len() ==> !('A' <= #[trigger] lower(s)[i] <= 'Z'),
        forall|i: int|
            0 <= i < s.len() && !('A' <= s[i] <= 'Z') ==> #[trigger] lower(s)[i] == s[i],
        forall|i: int|
            0 <= i < s.len() && 'A' <= s[i] <= 'Z' ==> #[trigger] lower(s)[i] as int == s[i] as int + 32,
        lower(lower(s)) == lower(s),
{
    assert forall|i: int| 0 <= i < s.len() implies lower_char(#[trigger] lower(s)[i])
        == lower(s)[i] by {
        assert(lower(s)[i] == lower_char(s[i]));
    }
    assert(lower(lower(s)) =~= lower(s));
}

/// A text stands in what it stands between.
pub proof fn parts_are_contained(a: Seq<char>, part: Seq<char>, b: Seq<char>)
    ensures
        contains_text(a + part + b, part),
{
    let all = a + part + b;
    assert(all.subrange(a.len() as int, (a.len() + part.len()) as int) =~= part);
    assert(occurs_at(all, part, a.len() as int));
}

/// A failed query is counted as a lapse of time where its message speaks of one,
/// and else by whether it is worth another try.
pub proof fn failures_are_counted_by_their_words(message: Seq<char>)
    ensures
        contains_text(lower(message), "timed out"@) || contains_text(lower(message), "timeout"@)
            ==> failure_label(message) == "timeout"@,
        !contains_text(lower(message), "timed out"@) && !contains_text(lower(message), "timeout"@)
            ==> failure_label(message) == error_kind(is_retryable(message)),
        error_kind(true) == "transport_error"@,
        error_kind(false) == "duckdb_error"@,
{
}

/// A call that fails is replied to with the error, whole: the message is the
/// reason, the error and the message of the downstream error, and there is no
/// response.
pub proof fn failures_are_replied_with_their_message(
    profile: DuckDbProfile,
    backend_name: Seq<char>,
    tool_name: Seq<char>,
    message: Seq<char>,
    label: Seq<char>,
)
    ensures
        ({
            let reply = error_reply(profile, backend_name, tool_name, message, label);
            &&& reply.label == label
            &&& reply.reason == Some(message)
            &&& field(reply.body, "response"@) == Some(JsonTree::Null)
            &&& field(reply.body, "error"@) == Some(JsonTree::Str(message))
            &&& field(reply.body, "downstreamError"@) == Some(classified(message))
            &&& field(reply.body, "downstreamErrors"@) == Some(
                JsonTree::Array(seq![classified(message)]),
            )
            &&& at(reply.body, "downstreamError"@, "message"@) == Some(JsonTree::Str(message))
            &&& field(reply.body, "toolName"@) == Some(JsonTree::Str(tool_name))
            &&& field(reply.body, "profile"@) == Some(JsonTree::Str(backend_name))
            &&& at(reply.body, "request"@, "database"@) == Some(JsonTree::Str(profile.database@))
        }),
{
    envelopes_carry_their_error(
        tool_name,
        backend_name,
        profile.database@,
        None,
        None,
        false,
        0,
        classified(message),
        Some(message),
    );
    envelopes_name_their_origin(
        tool_name,
        backend_name,
        profile.database@,
        JsonTree::Null,
        Some(classified(message)),
        Some(message),
    );
    errors_are_told_whole(message);
}

/// The message that the run of a statement failed with, where it failed.
pub open spec fn run_message(run: EngineRun) -> Option<Seq<char>> {
    match run {
        EngineRun::Finished(Ok(_)) => None,
        EngineRun::Finished(Err(message)) => Some(message@),
        _ => Some(run.failure()),
    }
}

/// On every surface a run that failed is replied to as an error with its message,
/// counted by its words; one that gave rows goes by the surface.
pub proof fn failed_runs_are_replied_as_errors(
    profile: DuckDbProfile,
    backend_name: Seq<char>,
    tool_name: Seq<char>,
    arguments: JsonTree,
    run: EngineRun,
    duration_ms: int,
)
    ensures
        ({
            let reply = run_reply(profile, backend_name, tool_name, arguments, run, duration_ms);
            &&& run_message(run) matches Some(message) ==> {
                &&& reply.label == failure_label(message)
                &&& reply.reason == Some(message)
                &&& field(reply.body, "response"@) == Some(JsonTree::Null)
                &&& at(reply.body, "downstreamError"@, "message"@) == Some(JsonTree::Str(message))
            }
            &&& run matches EngineRun::Finished(Ok(outcome)) ==> reply == reply_to(
                profile,
                backend_name,
                tool_name,
                arguments,
                Ok(outcome),
                duration_ms,
            )
        }),
{
    if let Some(message) = run_message(run) {
        failures_are_replied_with_their_message(
            profile,
            backend_name,
            tool_name,
            message,
            failure_label(message),
        );
    }
}

/// A run that did not come to its end says what broke, with the text of the error,
/// and a lapse of time is counted as one.
pub proof fn broken_runs_say_why(run: EngineRun)
    ensures
        run matches EngineRun::AcquireFailed(e) ==> e@.is_suffix_of(run.failure()) && e@.len()
            < run.failure().len(),
        run matches EngineRun::WorkerFailed(e) ==> e@.is_suffix_of(run.failure()) && e@.len()
            < run.failure().len(),
        run is TimedOut ==> failure_label(run.failure()) == "timeout"@,
        run is AcquireTimedOut ==> failure_label(run.failure()) == "timeout"@,
{
    reveal_strlit("DuckDB pool acquire failed: ");
    reveal_strlit("DuckDB worker task failed: ");
    reveal_strlit("DuckDB call timed out");
    reveal_strlit("DuckDB pool acquire timed out");
    reveal_strlit("timed out");
    let m = run.failure();
    match run {
        EngineRun::AcquireFailed(e) => {
            assert(m.subrange(m.len() - e@.len(), m.len() as int) =~= e@);
        },
        EngineRun::WorkerFailed(e) => {
            assert(m.subrange(m.len() - e@.len(), m.len() as int) =~= e@);
        },
        EngineRun::TimedOut => {
            assert(lower(m).subrange(12, 21) =~= "timed out"@);
            assert(occurs_at(lower(m), "timed out"@, 12));
        },
        EngineRun::AcquireTimedOut => {
            assert(lower(m).subrange(20, 29) =~= "timed out"@);
            assert(occurs_at(lower(m), "timed out"@, 20));
        },
        _ => {},
    }
}

/// A call that runs nothing is replied to with an error, on every surface.
pub proof fn refused_calls_are_replied_as_errors(
    profile: DuckDbProfile,
    backend_name: Seq<char>,
    tool_name: Seq<char>,
    arguments: JsonTree,
    values: Result<Vec<Json>, String>,
    step: CallStep,
)
    requires
        is_step(profile, backend_name, tool_name, arguments, values, step),
        step is Done,
    ensures
        ({
            let reply = step->Done_0@;
            &&& reply.label == "invalid_spec"@
            &&& reply.reason is Some
            &&& field(reply.body, "response"@) == Some(JsonTree::Null)
            &&& field(reply.body, "error"@) == Some(JsonTree::Str(reply.reason->0))
            &&& at(reply.body, "downstreamError"@, "message"@) == Some(
                JsonTree::Str(reply.reason->0),
            )
        }),
{
    let reply = step->Done_0@;
    failures_are_replied_with_their_message(
        profile,
        backend_name,
        tool_name,
        reply.reason->0,
        "invalid_spec"@,
    );
}

// --------------------------------------------------------------------- surfaces

/// The one item of the list under a key.
pub open spec fn only_item(tree: JsonTree, key: Seq<char>) -> Option<JsonTree> {
    match field(tree, key) {
        Some(JsonTree::Array(items)) => if items.len() == 1 {
            Some(items[0])
        } else {
            None
        },
        _ => None,
    }
}

/// The URI of a resource is the configured one, where there is one, and else the
/// one that the call asks for, where that is a string and not empty.
pub proof fn resources_are_read_under_their_uri(configured: Option<Seq<char>>, arguments: JsonTree)
    ensures
        configured is Some ==> resource_uri(configured, arguments) == configured,
        configured is None ==> match field(arguments, "uri"@) {
            Some(JsonTree::Str(uri)) => resource_uri(configured, arguments) == (if uri.len() > 0 {
                Some(uri)
            } else {
                None
            }),
            _ => resource_uri(configured, arguments) is None,
        },
{
}

/// A read of a resource gives one item of contents: under its URI, with all rows
/// of the outcome rendered as JSON.
pub proof fn contents_hold_the_rows(uri: Seq<char>, rows: Seq<JsonTree>)
    ensures
        ({
            let item = only_item(contents_tree(uri, rows), "contents"@);
            &&& item is Some
            &&& field(item->0, "uri"@) == Some(JsonTree::Str(uri))
            &&& field(item->0, "text"@) == Some(JsonTree::Str(rendered(JsonTree::Array(rows))))
            &&& field(item->0, "mimeType"@) == Some(JsonTree::Str("application/json"@))
            &&& field(item->0, "blob"@) is None
        }),
{
    broadcast use object_member;

    content_members_differ();
    assert(object(Members::empty()) =~= Members::empty());
}

/// A prompt gives one message, from the user, with all rows of the outcome
/// rendered as JSON.
pub proof fn messages_hold_the_rows(rows: Seq<JsonTree>)
    ensures
        ({
            let item = only_item(messages_tree(rows), "messages"@);
            &&& item is Some
            &&& field(item->0, "role"@) == Some(JsonTree::Str("user"@))
            &&& at(item->0, "content"@, "type"@) == Some(JsonTree::Str("text"@))
            &&& at(item->0, "content"@, "text"@) == Some(
                JsonTree::Str(rendered(JsonTree::Array(rows))),
            )
        }),
{
    broadcast use object_member;

    content_members_differ();
}

/// What a successful call of a resource or a prompt is replied with: contents or
/// messages of the outcome's rows, or an error where the resource has no URI.
pub proof fn surfaces_hold_the_rows_of_the_outcome(
    profile: DuckDbProfile,
    backend_name: Seq<char>,
    tool_name: Seq<char>,
    arguments: JsonTree,
    outcome: QueryOutcome,
    duration_ms: int,
)
    ensures
        ({
            let reply = reply_to(
                profile,
                backend_name,
                tool_name,
                arguments,
                Ok(outcome),
                duration_ms,
            );
            let text = JsonTree::Str(rendered(JsonTree::Array(trees(outcome.rows@))));
            let uri = resource_uri(opt_text(profile.surface_uri), arguments);
            &&& profile.surface == Surface::Prompt ==> {
                let item = only_item(reply.body, "messages"@);
                &&& item is Some
                &&& at(item->0, "content"@, "text"@) == Some(text)
                &&& reply.label == "ok"@
                &&& reply.reason is None
            }
            &&& profile.surface == Surface::Resource && uri is Some ==> {
                let item = only_item(reply.body, "contents"@);
                &&& item is Some
                &&& field(item->0, "uri"@) == Some(JsonTree::Str(uri->0))
                &&& field(item->0, "text"@) == Some(text)
                &&& reply.label == "ok"@
                &&& reply.reason is None
            }
            &&& profile.surface == Surface::Resource && uri is None ==> {
                &&& field(reply.body, "response"@) == Some(JsonTree::Null)
                &&& at(reply.body, "downstreamError"@, "message"@) == Some(
                    JsonTree::Str(missing_uri_message()),
                )
                &&& reply.label == "duckdb_error"@
                &&& reply.reason == Some(missing_uri_message())
            }
        }),
{
    let rows = trees(outcome.rows@);
    messages_hold_the_rows(rows);
    match resource_uri(opt_text(profile.surface_uri), arguments) {
        Some(uri) => {
            contents_hold_the_rows(uri, rows);
        },
        None => {
            failures_are_replied_with_their_message(
                profile,
                backend_name,
                tool_name,
                missing_uri_message(),
                "duckdb_error"@,
            );
        },
    }
}

// ---------------------------------------------------------------------- schemas

/// The schema of an envelope asks for an object, and places the schema of a row
/// where the rows of an envelope stand.
pub proof fn schema_types_the_rows(items: JsonTree)
    ensures
        field(envelope_schema(items), "type"@) == Some(JsonTree::Str("object"@)),
        field(envelope_schema(items), "properties"@) == Some(
            object_tree(envelope_properties(items)),
        ),
        field(envelope_schema(items), "additionalProperties"@) == Some(JsonTree::Bool(true)),
        field(object_tree(envelope_properties(items)), "response"@) == Some(response_schema(items)),
        at(response_schema(items), "properties"@, "rows"@) is Some,
        field(at(response_schema(items), "properties"@, "rows"@)->0, "items"@) == Some(items),
{
    broadcast use object_member;

    schema_members_differ();
    envelope_members_differ();
    response_members_differ();
}

/// Every scalar member of an envelope has the type that the schema gives it.
pub proof fn schema_types_the_members(items: JsonTree)
    ensures
        ({
            let members = object_tree(envelope_properties(items));
            let response = at(response_schema(items), "properties"@, "truncated"@);
            let count = at(response_schema(items), "properties"@, "count"@);
            let duration = at(response_schema(items), "properties"@, "durationMs"@);
            let rows = at(response_schema(items), "properties"@, "rows"@);
            let database = at(request_schema(), "properties"@, "database"@);
            &&& at(members, "toolName"@, "type"@) == Some(JsonTree::Str("string"@))
            &&& at(members, "profile"@, "type"@) == Some(JsonTree::Str("string"@))
            &&& at(members, "request"@, "type"@) == Some(JsonTree::Str("object"@))
            &&& at(members, "downstreamErrors"@, "type"@) == Some(JsonTree::Str("array"@))
            &&& at(members, "downstreamError"@, "type"@) == Some(
                JsonTree::Array(seq![JsonTree::Str("object"@), JsonTree::Str("null"@)]),
            )
            &&& at(members, "error"@, "type"@) == Some(
                JsonTree::Array(seq![JsonTree::Str("string"@), JsonTree::Str("null"@)]),
            )
            &&& at(members, "response"@, "type"@) == Some(
                JsonTree::Array(seq![JsonTree::Str("object"@), JsonTree::Str("null"@)]),
            )
            &&& response is Some
            &&& field(response->0, "type"@) == Some(JsonTree::Str("boolean"@))
            &&& count is Some && field(count->0, "type"@) == Some(
                JsonTree::Array(seq![JsonTree::Str("integer"@), JsonTree::Str("null"@)]),
            )
            &&& duration is Some && field(duration->0, "type"@) == Some(
                JsonTree::Str("integer"@),
            )
            &&& rows is Some && field(rows->0, "type"@) == Some(
                JsonTree::Array(seq![JsonTree::Str("array"@), JsonTree::Str("null"@)]),
            )
            &&& field(members, "request"@) == Some(request_schema())
            &&& database is Some && field(database->0, "type"@) == Some(JsonTree::Str("string"@))
        }),
{
    broadcast use object_member;

    schema_members_differ();
    envelope_members_differ();
    response_members_differ();
    let object_word = JsonTree::Str("object"@);
    let string_word = JsonTree::Str("string"@);
    let null_word = JsonTree::Str("null"@);
    assert(Seq::empty().push(object_word).push(null_word) =~= seq![object_word, null_word]);
    assert(Seq::empty().push(string_word).push(null_word) =~= seq![string_word, null_word]);
    let integer_word = JsonTree::Str("integer"@);
    let array_word = JsonTree::Str("array"@);
    assert(Seq::empty().push(integer_word).push(null_word) =~= seq![integer_word, null_word]);
    assert(Seq::empty().push(array_word).push(null_word) =~= seq![array_word, null_word]);
}

/// An object of pairs that all have the same value holds that value under each of
/// their keys.
proof fn pairs_of_one_value(pairs: Members, value: JsonTree, i: int)
    requires
        forall|k: int| 0 <= k < pairs.len() ==> (#[trigger] pairs[k]).1 == value,
        0 <= i < pairs.len(),
    ensures
        member(object(pairs), pairs[i].0) == Some(value),
    decreases pairs.len(),
{
    let shorter = pairs.drop_last();
    let last = pairs.last();
    assert(pairs =~= shorter.push(last));
    object_member(shorter, last, pairs[i].0);
    if last.0 != pairs[i].0 {
        assert(i < shorter.len());
        assert forall|k: int| 0 <= k < shorter.len() implies (#[trigger] shorter[k]).1 == value by {
            assert(pairs[k].1 == value);
        }
        pairs_of_one_value(shorter, value, i);
    } else {
        assert(pairs[pairs.len() - 1].1 == value);
    }
}

/// The schema of a listing types each of its columns and no other.
pub proof fn listing_schemas_type_their_columns(columns: Seq<Seq<char>>, name: Seq<char>)
    ensures
        at(catalog_row_schema(columns), "properties"@, name) is Some <==> columns.contains(name),
        columns.contains(name) ==> field(
            at(catalog_row_schema(columns), "properties"@, name)->0,
            "type"@,
        ) == Some(
            JsonTree::Array(
                seq![
                    JsonTree::Str("string"@),
                    JsonTree::Str("integer"@),
                    JsonTree::Str("null"@),
                ],
            ),
        ),
        field(catalog_row_schema(columns), "type"@) == Some(JsonTree::Str("object"@)),
        field(catalog_row_schema(columns), "additionalProperties"@) == Some(JsonTree::Bool(true)),
        reply_schema(DuckDbOperation::ListTables) == envelope_schema(
            catalog_row_schema(list_tables_names()),
        ),
        reply_schema(DuckDbOperation::ListColumns) == envelope_schema(
            catalog_row_schema(list_columns_names()),
        ),
        reply_schema(DuckDbOperation::Query) == reply_schema(DuckDbOperation::ReadFile),
        reply_schema(DuckDbOperation::Query) == envelope_schema(object_tree(Members::empty())),
{
    broadcast use object_member;

    schema_members_differ();
    let a = JsonTree::Str("string"@);
    let b = JsonTree::Str("integer"@);
    let c = JsonTree::Str("null"@);
    assert(Seq::empty().push(a).push(b).push(c) =~= seq![a, b, c]);
    let pairs = catalog_columns(columns);
    object_has_the_keys_of_its_pairs(pairs, name);
    if columns.contains(name) {
        let i = choose|i: int| 0 <= i < columns.len() && columns[i] == name;
        assert(pairs[i].0 == name);
        pairs_of_one_value(pairs, crate::envelope::catalog_column(), i);
    } else {
        assert(!has_key(pairs, name)) by {
            if has_key(pairs, name) {
                let i = choose|i: int| 0 <= i < pairs.len() && (#[trigger] pairs[i]).0 == name;
                assert(columns[i] == name);
            }
        }
        crate::json::member_absent(object(pairs), name);
    }
}

/// The schema of the arguments is an open object that names each argument, without
/// a type, and requires none.
pub proof fn argument_schemas_name_the_arguments(names: Seq<Seq<char>>, name: Seq<char>)
    ensures
        field(open_schema(names), "type"@) == Some(JsonTree::Str("object"@)),
        field(open_schema(names), "additionalProperties"@) == Some(JsonTree::Bool(true)),
        field(open_schema(names), "required"@) is None,
        names.contains(name) ==> at(open_schema(names), "properties"@, name) == Some(
            object_tree(Members::empty()),
        ),
        !names.contains(name) ==> at(open_schema(names), "properties"@, name) is None,
{
    broadcast use object_member;

    schema_members_differ();
    assert(object(Members::empty()) =~= Members::empty());
    let pairs = open_properties(names);
    object_has_the_keys_of_its_pairs(pairs, name);
    if names.contains(name) {
        let i = choose|i: int| 0 <= i < names.len() && names[i] == name;
        assert(pairs[i].0 == name);
        pairs_of_one_value(pairs, object_tree(Members::empty()), i);
    } else {
        assert(!has_key(pairs, name)) by {
            if has_key(pairs, name) {
                let i = choose|i: int| 0 <= i < pairs.len() && (#[trigger] pairs[i]).0 == name;
                assert(names[i] == name);
            }
        }
        crate::json::member_absent(object(pairs), name);
    }
}

// ------------------------------------------------------------------------ audit

/// A lapse of time, a rejected statement and every other failure are audited under
/// actions of their own, and nothing else is audited.
pub proof fn outcomes_are_audited_by_their_kind(label: Seq<char>)
    ensures
        label == "timeout"@ ==> action_for(label) == Some(
            "dev.mcpg.backend.duckdb.request_timeout"@,
        ),
        label == "duckdb_error"@ ==> action_for(label) == Some(
            "dev.mcpg.backend.duckdb.query_rejected"@,
        ),
        label == "transport_error"@ || label == "invalid_spec"@ ==> action_for(label) == Some(
            "dev.mcpg.backend.duckdb.request_failed"@,
        ),
        action_for(label) is Some <==> label == "timeout"@ || label == "duckdb_error"@ || label
            == "transport_error"@ || label == "invalid_spec"@,
{
    labels_differ();
}

/// An entry of the audit trail tells of the call that failed, as it was: whose it
/// was, what it was, how long it took and why it failed.
pub proof fn entries_tell_of_the_call(
    backend_name: Seq<char>,
    label: Seq<char>,
    reason: Option<Seq<char>>,
    identity: Option<Identity>,
    request_id: Seq<char>,
    duration_ms: u128,
    duration_ns: u128,
    alias: Seq<char>,
    occurred_at: Seq<char>,
    record: Option<AuditRecord>,
)
    requires
        is_entry(
            backend_name,
            label,
            reason,
            identity,
            request_id,
            duration_ms,
            duration_ns,
            alias,
            occurred_at,
            record,
        ),
    ensures
        record is Some <==> action_for(label) is Some,
        record matches Some(entry) ==> {
            &&& action_for(label) == Some(entry.action@)
            &&& entry.request_id@ == request_id
            &&& entry.occurred_at@ == occurred_at
            &&& contains_text(entry.event_id@, request_id)
            &&& decimal(duration_ns as int).is_suffix_of(entry.event_id@)
            &&& backend_name.is_suffix_of(entry.resource@)
            &&& identity matches Some(caller) ==> entry.actor == caller
            &&& identity is None ==> entry.actor.kind@ == "system"@ && entry.actor.trust_level@
                == "verified"@ && opt_text(entry.actor.subject_id) == Some(
                "dev.mcpg.backend.duckdb"@,
            ) && entry.actor.roles@.len() == 0 && entry.actor.groups@.len() == 0
                && entry.actor.scopes@.len() == 0
            &&& field(entry.details.tree(), "backend"@) == Some(JsonTree::Str(backend_name))
            &&& field(entry.details.tree(), "outcome"@) == Some(JsonTree::Str(label))
            &&& field(entry.details.tree(), "alias"@) == Some(JsonTree::Str(alias))
            &&& duration_ms <= u64::MAX ==> field(entry.details.tree(), "duration_ms"@) == Some(
                JsonTree::Number(decimal(duration_ms as int)),
            )
            &&& reason matches Some(text) ==> field(entry.details.tree(), "reason"@) == Some(
                JsonTree::Str(text),
            )
            &&& reason is None ==> field(entry.details.tree(), "reason"@) is None
        },
{
    broadcast use object_member;

    detail_members_differ();
    assert(object(Members::empty()) =~= Members::empty());
    if let Some(entry) = record {
        let id = entry.event_id@;
        let ns = decimal(duration_ns as int);
        parts_are_contained("duckdb-"@, request_id, "-"@ + ns);
        assert(id =~= "duckdb-"@ + request_id + ("-"@ + ns));
        assert(id.subrange(id.len() - ns.len(), id.len() as int) =~= ns);
        let resource = entry.resource@;
        assert(resource.subrange(resource.len() - backend_name.len(), resource.len() as int)
            =~= backend_name);
    }
}

} // verus!
