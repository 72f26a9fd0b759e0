//! What holds of registering and calling bindings: which descriptions are
//! accepted, what becomes of them, and how a call is looked up and read.

use vstd::prelude::*;

use crate::call::{header_value, tool_name_of};
use crate::json::{field, parsed};
use crate::laws::is_free_of_credentials;
use crate::laws::replies::{argument_schemas_name_the_arguments, at, parts_are_contained};
use crate::params::{all_argument_idents, argument_idents, open_schema, sources};
use crate::plugin::{
    argument_names_of, argument_schema, described_operation, is_begun, is_registration,
    payload_tree, registration_rejection, BackendError, Call, DuckDbProfile, ErrorView, Refusal,
};
use crate::register::{
    attach_rejection, bare_cred_rejection, bounds_rejection, completion_statements,
    completions_rejection, file_cred_rejection, filters_cred_rejection, guarded, guarded_listing,
    guarded_read, guarded_statement, list_cred_rejection, listing_rejection,
    one_completion_rejection, operation_rejection, other_cred_rejection, read_query_rejection,
    spec_rejection, statement_rejection, target_rejection, uri_rejection, verdict,
};
use crate::sql::placeholders;
use crate::surface::Surface;
use crate::text::{
    contains_text, decimal, each_once, each_once_keeps_every_name_once, is_blank, is_identifier,
    is_white_space, lower, opt_text, texts, trimmed, trimmed_is_empty_iff_blank,
};
use crate::types::{
    completion_rejection, first_unsafe, given, list_query_rejection, read_file_rejection,
    CatalogFilterConfig, CompletionConfig, DuckDbAttach, DuckDbBackendSpec, DuckDbOperation,
    ListQueryConfig, ListQueryMode, ReadFileConfig,
};
use crate::watch::{has_no_change_source, watch_rejection, WatchSpec};

verus! {

// ------------------------------------------------------- accepted descriptions

/// A text that is given and not blank.
pub open spec fn is_given(text: Option<String>) -> bool {
    text is Some && !is_blank(text->0@)
}

/// The operation of a binding has what it needs.
pub open spec fn operation_is_complete(spec: DuckDbBackendSpec) -> bool {
    &&& spec.operation == DuckDbOperation::Query ==> !is_blank(spec.statement@) || is_given(
        spec.read_query,
    )
    &&& spec.operation == DuckDbOperation::ListColumns ==> is_given(spec.catalog_filters.table)
        || is_given(spec.catalog_filters.table_arg)
    &&& spec.operation == DuckDbOperation::ReadFile ==> {
        &&& spec.allow_external_access
        &&& spec.read_file is Some
        &&& !is_blank(spec.read_file->0.path@)
        &&& forall|i: int|
            0 <= i < spec.read_file->0.columns@.len() ==> is_identifier(
                #[trigger] texts(spec.read_file->0.columns@)[i],
            )
        &&& spec.read_file->0.predicate is Some ==> is_given(spec.read_file->0.predicate)
    }
}

/// A field is left out or holds no bare credential reference.
pub open spec fn is_free(text: Option<String>) -> bool {
    text is Some ==> is_free_of_credentials(text->0@)
}

/// No text of a list holds a bare credential reference.
pub open spec fn all_free(list: Seq<Seq<char>>) -> bool {
    forall|i: int| 0 <= i < list.len() ==> is_free_of_credentials(#[trigger] list[i])
}

/// No filter of the catalog holds a bare credential reference.
pub open spec fn filters_are_free(cfg: CatalogFilterConfig) -> bool {
    &&& is_free(cfg.catalog)
    &&& is_free(cfg.schema)
    &&& is_free(cfg.table)
    &&& is_free(cfg.table_type)
    &&& is_free(cfg.catalog_arg)
    &&& is_free(cfg.schema_arg)
    &&& is_free(cfg.table_arg)
    &&& is_free(cfg.table_type_arg)
}

/// No field of a binding holds a bare credential reference.
pub open spec fn fields_are_free(spec: DuckDbBackendSpec) -> bool {
    &&& is_free_of_credentials(spec.database@)
    &&& is_free_of_credentials(spec.statement@)
    &&& all_free(texts(spec.init_sql@))
    &&& all_free(texts(spec.params@))
    &&& is_free(spec.read_query)
    &&& is_free(spec.uri)
    &&& filters_are_free(spec.catalog_filters)
    &&& spec.list_query is Some ==> is_free_of_credentials(spec.list_query->0.sql@) && is_free(
        spec.list_query->0.cursor_column,
    )
    &&& spec.read_file is Some ==> {
        &&& is_free_of_credentials(spec.read_file->0.path@)
        &&& all_free(texts(spec.read_file->0.columns@))
        &&& is_free(spec.read_file->0.predicate)
    }
}

/// A database to attach has a safe alias and no bare credential reference.
pub open spec fn target_is_safe(a: DuckDbAttach) -> bool {
    is_identifier(a.alias@) && is_free_of_credentials(a.source@)
}

/// A listing has a statement, a page size from 1 to 1000 and, by keyset, a column
/// that is an identifier.
pub open spec fn listing_is_complete(cfg: ListQueryConfig) -> bool {
    &&& !is_blank(cfg.sql@)
    &&& 1 <= cfg.page_size <= 1_000
    &&& cfg.mode == ListQueryMode::Keyset ==> cfg.cursor_column is Some && is_identifier(
        trimmed(cfg.cursor_column->0@),
    )
}

/// A completion has a statement with one placeholder and without a bare
/// credential reference.
pub open spec fn completion_is_complete(cfg: CompletionConfig) -> bool {
    !is_blank(cfg.sql@) && placeholders(cfg.sql@) == 1 && is_free_of_credentials(cfg.sql@)
}

/// The guard has nothing against the statements of a binding.
pub open spec fn passes_the_guard(
    spec: DuckDbBackendSpec,
    guard: Map<Seq<char>, Option<String>>,
) -> bool {
    &&& spec.operation == DuckDbOperation::Query && !is_blank(spec.statement@) ==> verdict(
        guard,
        spec.statement@,
    ) is None
    &&& spec.read_query is Some ==> verdict(guard, spec.read_query->0@) is None
    &&& spec.list_query is Some ==> verdict(guard, spec.list_query->0.sql@) is None
    &&& forall|i: int|
        0 <= i < spec.variable_completions.listing().len() ==> verdict(
            guard,
            (#[trigger] spec.variable_completions.listing()[i]).1.sql@,
        ) is None
}

/// What a description has to meet.
pub open spec fn is_acceptable(
    spec: DuckDbBackendSpec,
    guard: Map<Seq<char>, Option<String>>,
) -> bool {
    &&& !is_blank(spec.database@)
    &&& operation_is_complete(spec)
    &&& spec.query.statement_timeout_ms > 0
    &&& spec.query.max_rows > 0
    &&& spec.pool_max_size > 0
    &&& fields_are_free(spec)
    &&& forall|i: int| 0 <= i < spec.attach@.len() ==> target_is_safe(#[trigger] spec.attach@[i])
    &&& spec.uri is Some ==> spec.surface == Surface::Resource && is_given(spec.uri)
    &&& spec.read_query is Some ==> spec.surface == Surface::Resource && is_given(spec.read_query)
    &&& spec.list_query is Some ==> listing_is_complete(spec.list_query->0)
    &&& forall|i: int|
        0 <= i < spec.variable_completions.listing().len() ==> completion_is_complete(
            (#[trigger] spec.variable_completions.listing()[i]).1,
        )
    &&& spec.read_only ==> passes_the_guard(spec, guard)
}

/// A list is accepted exactly where none of its texts holds a bare reference.
proof fn free_lists_are_accepted(name: Seq<char>, list: Seq<Seq<char>>)
    ensures
        list_cred_rejection(name, list) is None <==> all_free(list),
    decreases list.len(),
{
    if list.len() > 0 {
        let shorter = list.drop_last();
        free_lists_are_accepted(name, shorter);
        if list_cred_rejection(name, list) is None {
            assert forall|i: int| 0 <= i < list.len() implies is_free_of_credentials(
                #[trigger] list[i],
            ) by {
                if i < shorter.len() {
                    assert(shorter[i] == list[i]);
                }
            }
        }
        if all_free(list) {
            assert forall|i: int| 0 <= i < shorter.len() implies is_free_of_credentials(
                #[trigger] shorter[i],
            ) by {
                assert(list[i] == shorter[i]);
            }
            assert(is_free_of_credentials(list[list.len() - 1]));
        }
    }
}

/// Databases are accepted exactly where each of them is safe.
proof fn safe_targets_are_accepted(attach: Seq<DuckDbAttach>)
    ensures
        attach_rejection(attach) is None <==> forall|i: int|
            0 <= i < attach.len() ==> target_is_safe(#[trigger] attach[i]),
    decreases attach.len(),
{
    if attach.len() > 0 {
        let shorter = attach.drop_last();
        safe_targets_are_accepted(shorter);
        if attach_rejection(attach) is None {
            assert forall|i: int| 0 <= i < attach.len() implies target_is_safe(
                #[trigger] attach[i],
            ) by {
                if i < shorter.len() {
                    assert(shorter[i] == attach[i]);
                } else {
                    assert(target_rejection(attach[i]) is None);
                }
            }
        }
        if forall|i: int| 0 <= i < attach.len() ==> target_is_safe(#[trigger] attach[i]) {
            assert forall|i: int| 0 <= i < shorter.len() implies target_is_safe(
                #[trigger] shorter[i],
            ) by {
                assert(attach[i] == shorter[i]);
            }
            assert(target_is_safe(attach[attach.len() - 1]));
        }
    }
}

/// A completion of a binding is accepted under the guard.
pub open spec fn completion_is_accepted(
    cfg: CompletionConfig,
    read_only: bool,
    guard: Map<Seq<char>, Option<String>>,
) -> bool {
    completion_is_complete(cfg) && (read_only ==> verdict(guard, cfg.sql@) is None)
}

/// Completions are accepted exactly where each of them is.
proof fn complete_completions_are_accepted(
    listing: Seq<(Seq<char>, CompletionConfig)>,
    read_only: bool,
    guard: Map<Seq<char>, Option<String>>,
)
    ensures
        completions_rejection(listing, read_only, guard) is None <==> forall|i: int|
            0 <= i < listing.len() ==> completion_is_accepted(
                (#[trigger] listing[i]).1,
                read_only,
                guard,
            ),
    decreases listing.len(),
{
    if listing.len() > 0 {
        let shorter = listing.drop_last();
        complete_completions_are_accepted(shorter, read_only, guard);
        assert(one_completion_rejection(listing.last(), read_only, guard) is None
            <==> completion_is_accepted(listing.last().1, read_only, guard));
        if completions_rejection(listing, read_only, guard) is None {
            assert forall|i: int| 0 <= i < listing.len() implies completion_is_accepted(
                (#[trigger] listing[i]).1,
                read_only,
                guard,
            ) by {
                if i < shorter.len() {
                    assert(shorter[i] == listing[i]);
                }
            }
        }
        if forall|i: int|
            0 <= i < listing.len() ==> completion_is_accepted(
                (#[trigger] listing[i]).1,
                read_only,
                guard,
            ) {
            assert forall|i: int| 0 <= i < shorter.len() implies completion_is_accepted(
                (#[trigger] shorter[i]).1,
                read_only,
                guard,
            ) by {
                assert(listing[i] == shorter[i]);
            }
            assert(completion_is_accepted(listing[listing.len() - 1].1, read_only, guard));
        }
    }
}

/// Columns are accepted exactly where each of them is an identifier.
proof fn safe_columns_are_accepted(names: Seq<Seq<char>>)
    ensures
        first_unsafe(names) is None <==> forall|i: int|
            0 <= i < names.len() ==> is_identifier(#[trigger] names[i]),
    decreases names.len(),
{
    if names.len() > 0 {
        let rest = names.drop_first();
        safe_columns_are_accepted(rest);
        if first_unsafe(names) is None {
            assert forall|i: int| 0 <= i < names.len() implies is_identifier(#[trigger] names[i]) by {
                if i > 0 {
                    assert(rest[i - 1] == names[i]);
                }
            }
        }
        if forall|i: int| 0 <= i < names.len() ==> is_identifier(#[trigger] names[i]) {
            assert(is_identifier(names[0]));
            assert forall|i: int| 0 <= i < rest.len() implies is_identifier(#[trigger] rest[i]) by {
                assert(names[i + 1] == rest[i]);
            }
        }
    }
}

/// A description is accepted exactly where it meets all that it has to.
#[verifier::rlimit(60)]
pub proof fn acceptable_descriptions_are_accepted(
    spec: DuckDbBackendSpec,
    guard: Map<Seq<char>, Option<String>>,
)
    ensures
        spec_rejection(spec, guard) is None <==> is_acceptable(spec, guard),
{
    let listing = spec.variable_completions.listing();
    free_lists_are_accepted("init_sql"@, texts(spec.init_sql@));
    free_lists_are_accepted("params"@, texts(spec.params@));
    safe_targets_are_accepted(spec.attach@);
    complete_completions_are_accepted(listing, spec.read_only, guard);
    if let Some(cfg) = spec.read_file {
        free_lists_are_accepted("read_file.columns"@, texts(cfg.columns@));
        safe_columns_are_accepted(texts(cfg.columns@));
        assert(texts(cfg.columns@).len() == cfg.columns@.len());
        assert(file_cred_rejection(spec.read_file) is None <==> {
            &&& is_free_of_credentials(cfg.path@)
            &&& all_free(texts(cfg.columns@))
            &&& is_free(cfg.predicate)
        });
    }
    if let Some(cfg) = spec.list_query {
        assert(list_query_rejection(cfg) is None <==> listing_is_complete(cfg));
    }
    assert(filters_cred_rejection(spec.catalog_filters) is None
        <==> filters_are_free(spec.catalog_filters));
    assert((operation_rejection(spec) is None && file_cred_rejection(
        spec.read_file,
    ) is None) <==> (operation_is_complete(spec) && file_cred_rejection(spec.read_file) is None));
    if spec_rejection(spec, guard) is None {
        assert forall|i: int| 0 <= i < listing.len() implies completion_is_complete(
            (#[trigger] listing[i]).1,
        ) && (spec.read_only ==> verdict(guard, listing[i].1.sql@) is None) by {
            assert(completion_is_accepted(listing[i].1, spec.read_only, guard));
        }
    }
    if is_acceptable(spec, guard) {
        assert forall|i: int| 0 <= i < listing.len() implies completion_is_accepted(
            (#[trigger] listing[i]).1,
            spec.read_only,
            guard,
        ) by {
            assert(completion_is_complete(listing[i].1));
        }
    }
}

/// A bare credential reference is refused with a message that begins with the
/// name of its field, and nothing else is refused for one.
pub proof fn bare_references_are_refused_by_name(name: Seq<char>, value: Seq<char>)
    ensures
        bare_cred_rejection(name, value) is None <==> is_free_of_credentials(value),
        bare_cred_rejection(name, value) matches Some(message) ==> name.is_prefix_of(message),
{
    if let Some(message) = bare_cred_rejection(name, value) {
        assert(message.subrange(0, name.len() as int) =~= name);
    }
}

// --------------------------------------------------------------------- refusals

/// The checks of a description, in the order in which they are made.
pub open spec fn checks(
    spec: DuckDbBackendSpec,
    guard: Map<Seq<char>, Option<String>>,
) -> Seq<Option<Seq<char>>> {
    seq![
        if is_blank(spec.database@) {
            Some("database must not be empty"@)
        } else {
            None
        },
        operation_rejection(spec),
        bounds_rejection(spec),
        bare_cred_rejection("database"@, spec.database@),
        bare_cred_rejection("statement"@, spec.statement@),
        list_cred_rejection("init_sql"@, texts(spec.init_sql@)),
        attach_rejection(spec.attach@),
        statement_rejection(spec, guard),
        uri_rejection(spec),
        read_query_rejection(spec, guard),
        listing_rejection(spec, guard),
        completions_rejection(spec.variable_completions.listing(), spec.read_only, guard),
        other_cred_rejection(spec),
    ]
}

/// The first check that fails decides what a description is refused with.
pub proof fn the_first_failed_check_decides(
    spec: DuckDbBackendSpec,
    guard: Map<Seq<char>, Option<String>>,
    i: int,
)
    requires
        0 <= i < checks(spec, guard).len(),
        checks(spec, guard)[i] is Some,
        forall|k: int| 0 <= k < i ==> (#[trigger] checks(spec, guard)[k]) is None,
    ensures
        spec_rejection(spec, guard) == checks(spec, guard)[i],
{
    let all = checks(spec, guard);
    assert(i > 0 ==> all[0] is None);
    assert(i > 1 ==> all[1] is None);
    assert(i > 2 ==> all[2] is None);
    assert(i > 3 ==> all[3] is None);
    assert(i > 4 ==> all[4] is None);
    assert(i > 5 ==> all[5] is None);
    assert(i > 6 ==> all[6] is None);
    assert(i > 7 ==> all[7] is None);
    assert(i > 8 ==> all[8] is None);
    assert(i > 9 ==> all[9] is None);
    assert(i > 10 ==> all[10] is None);
    assert(i > 11 ==> all[11] is None);
}

/// Of a list the first text that holds a bare credential reference is refused, by
/// the name of the list and its place.
pub proof fn the_first_bare_reference_is_named(name: Seq<char>, list: Seq<Seq<char>>, i: int)
    requires
        0 <= i < list.len(),
        !is_free_of_credentials(list[i]),
        forall|k: int| 0 <= k < i ==> is_free_of_credentials(#[trigger] list[k]),
    ensures
        list_cred_rejection(name, list) == bare_cred_rejection(
            name + "["@ + decimal(i) + "]"@,
            list[i],
        ),
    decreases list.len(),
{
    let shorter = list.drop_last();
    if i < shorter.len() {
        the_first_bare_reference_is_named(name, shorter, i);
    } else {
        free_lists_are_accepted(name, shorter);
    }
}

/// Of the databases to attach the first that is not safe is refused.
pub proof fn the_first_unsafe_database_is_refused(attach: Seq<DuckDbAttach>, i: int)
    requires
        0 <= i < attach.len(),
        !target_is_safe(attach[i]),
        forall|k: int| 0 <= k < i ==> target_is_safe(#[trigger] attach[k]),
    ensures
        attach_rejection(attach) == target_rejection(attach[i]),
    decreases attach.len(),
{
    let shorter = attach.drop_last();
    if i < shorter.len() {
        the_first_unsafe_database_is_refused(shorter, i);
    } else {
        safe_targets_are_accepted(shorter);
    }
}

/// Of the completions the first by name that is not accepted is refused.
pub proof fn the_first_bad_completion_is_refused(
    listing: Seq<(Seq<char>, CompletionConfig)>,
    read_only: bool,
    guard: Map<Seq<char>, Option<String>>,
    i: int,
)
    requires
        0 <= i < listing.len(),
        !completion_is_accepted(listing[i].1, read_only, guard),
        forall|k: int|
            0 <= k < i ==> completion_is_accepted((#[trigger] listing[k]).1, read_only, guard),
    ensures
        completions_rejection(listing, read_only, guard) == one_completion_rejection(
            listing[i],
            read_only,
            guard,
        ),
        one_completion_rejection(listing[i], read_only, guard) is Some,
    decreases listing.len(),
{
    let shorter = listing.drop_last();
    if i < shorter.len() {
        the_first_bad_completion_is_refused(shorter, read_only, guard, i);
    } else {
        complete_completions_are_accepted(shorter, read_only, guard);
    }
}

/// A completion is refused for its statement first, by the name of its variable,
/// and then with what the guard says of it.
pub proof fn completions_are_refused_by_name(
    entry: (Seq<char>, CompletionConfig),
    read_only: bool,
    guard: Map<Seq<char>, Option<String>>,
)
    ensures
        !completion_is_complete(entry.1) ==> one_completion_rejection(entry, read_only, guard) is Some
            && ("variable_completions."@ + entry.0 + ".sql"@).is_prefix_of(
            one_completion_rejection(entry, read_only, guard)->0,
        ),
        completion_is_complete(entry.1) && read_only ==> one_completion_rejection(
            entry,
            read_only,
            guard,
        ) == verdict(guard, entry.1.sql@),
        completion_is_complete(entry.1) && !read_only ==> one_completion_rejection(
            entry,
            read_only,
            guard,
        ) is None,
{
    refused_completions_name_the_variable(entry.0, entry.1.sql@);
    bare_references_are_refused_by_name(
        "variable_completions."@ + entry.0 + ".sql"@,
        entry.1.sql@,
    );
}

/// Of the parts of a listing the statement is checked first, then the page size,
/// then the column; what is refused is named, and shown where it has a value.
pub proof fn refused_listings_name_the_field(cfg: ListQueryConfig)
    ensures
        list_query_rejection(cfg) is None <==> listing_is_complete(cfg),
        is_blank(cfg.sql@) ==> "list_query.sql"@.is_prefix_of(list_query_rejection(cfg)->0),
        !is_blank(cfg.sql@) && !(1 <= cfg.page_size <= 1_000) ==> "list_query.page_size"@.is_prefix_of(
            list_query_rejection(cfg)->0,
        ) && contains_text(list_query_rejection(cfg)->0, decimal(cfg.page_size as int)),
        !is_blank(cfg.sql@) && 1 <= cfg.page_size <= 1_000 && !listing_is_complete(cfg)
            ==> "list_query.cursor_column"@.is_prefix_of(list_query_rejection(cfg)->0),
        !is_blank(cfg.sql@) && 1 <= cfg.page_size <= 1_000 && !listing_is_complete(cfg)
            && is_given(cfg.cursor_column) ==> contains_text(
            list_query_rejection(cfg)->0,
            trimmed(cfg.cursor_column->0@),
        ),
{
    reveal_strlit("list_query.sql");
    reveal_strlit("list_query.sql must not be empty");
    reveal_strlit("list_query.page_size");
    reveal_strlit("list_query.page_size (");
    reveal_strlit("list_query.cursor_column");
    reveal_strlit("list_query.cursor_column is required for mode: keyset");
    reveal_strlit("list_query.cursor_column '");
    if let Some(message) = list_query_rejection(cfg) {
        if is_blank(cfg.sql@) {
            assert(message.subrange(0, 14) =~= "list_query.sql"@);
        } else if !(1 <= cfg.page_size <= 1_000) {
            assert(message.subrange(0, 20) =~= "list_query.page_size"@);
            parts_are_contained(
                "list_query.page_size ("@,
                decimal(cfg.page_size as int),
                ") must be in 1..=1000"@,
            );
        } else {
            assert(message.subrange(0, 24) =~= "list_query.cursor_column"@);
            if is_given(cfg.cursor_column) {
                let column = trimmed(cfg.cursor_column->0@);
                trimmed_is_empty_iff_blank(cfg.cursor_column->0@);
                parts_are_contained(
                    "list_query.cursor_column '"@,
                    column,
                    "' is not a safe SQL identifier"@,
                );
            }
        }
    }
}

/// A completion that is refused is named by its variable.
pub proof fn refused_completions_name_the_variable(name: Seq<char>, sql: Seq<char>)
    ensures
        completion_rejection(name, sql) is None <==> !is_blank(sql) && placeholders(sql) == 1,
        completion_rejection(name, sql) matches Some(message) ==> ("variable_completions."@ + name
            + ".sql"@).is_prefix_of(message),
{
    reveal_strlit(".sql");
    reveal_strlit(".sql must not be empty");
    reveal_strlit(
        ".sql must reference exactly one `?` placeholder (bound to the typed prefix)",
    );
    if let Some(message) = completion_rejection(name, sql) {
        let head = "variable_completions."@ + name + ".sql"@;
        assert(message.subrange(0, head.len() as int) =~= head);
    }
}

/// A file that is refused is refused by the name of the field: its path, its
/// columns with the first that is no identifier, or its condition.
pub proof fn refused_files_name_the_field(cfg: ReadFileConfig)
    ensures
        read_file_rejection(cfg) is None <==> {
            &&& !is_blank(cfg.path@)
            &&& is_free_of_credentials(cfg.path@)
            &&& forall|i: int|
                0 <= i < cfg.columns@.len() ==> is_identifier(#[trigger] texts(cfg.columns@)[i])
            &&& cfg.predicate is Some ==> is_given(cfg.predicate)
        },
        is_blank(cfg.path@) || !is_free_of_credentials(cfg.path@) ==> "read_file.path"@.is_prefix_of(
            read_file_rejection(cfg)->0,
        ),
        !is_blank(cfg.path@) && is_free_of_credentials(cfg.path@) ==> (first_unsafe(
            texts(cfg.columns@),
        ) matches Some(column) ==> contains_text(read_file_rejection(cfg)->0, column)),
        first_unsafe(texts(cfg.columns@)) matches Some(column) ==> texts(cfg.columns@).contains(
            column,
        ) && !is_identifier(column),
{
    reveal_strlit("read_file.path");
    reveal_strlit("read_file.path must not be empty");
    reveal_strlit(
        "read_file.path must not contain a bare cred:// URI — use ${cred://…} (resolved at config load)",
    );
    safe_columns_are_accepted(texts(cfg.columns@));
    assert(texts(cfg.columns@).len() == cfg.columns@.len());
    first_unsafe_stands_in_the_list(texts(cfg.columns@));
    if let Some(message) = read_file_rejection(cfg) {
        if is_blank(cfg.path@) || !is_free_of_credentials(cfg.path@) {
            assert(message.subrange(0, 14) =~= "read_file.path"@);
        } else if let Some(column) = first_unsafe(texts(cfg.columns@)) {
            parts_are_contained(
                "read_file.columns entry '"@,
                column,
                "' is not a safe SQL identifier"@,
            );
        }
    }
}

/// The first name that is no identifier is one of the names.
proof fn first_unsafe_stands_in_the_list(names: Seq<Seq<char>>)
    ensures
        first_unsafe(names) matches Some(name) ==> names.contains(name) && !is_identifier(name),
    decreases names.len(),
{
    if names.len() > 0 && is_identifier(names[0]) {
        let rest = names.drop_first();
        first_unsafe_stands_in_the_list(rest);
        if let Some(name) = first_unsafe(rest) {
            let k = choose|k: int| 0 <= k < rest.len() && rest[k] == name;
            assert(names[k + 1] == name);
        }
    } else if names.len() > 0 {
        assert(names[0] == first_unsafe(names)->0);
    }
}

/// A bound that is zero is refused by its name, and the time limit first.
pub proof fn refused_bounds_are_named(spec: DuckDbBackendSpec)
    ensures
        bounds_rejection(spec) is None <==> spec.query.statement_timeout_ms > 0
            && spec.query.max_rows > 0 && spec.pool_max_size > 0,
        spec.query.statement_timeout_ms == 0 ==> "query.statement_timeout_ms"@.is_prefix_of(
            bounds_rejection(spec)->0,
        ),
        spec.query.statement_timeout_ms > 0 && spec.query.max_rows == 0
            ==> "query.max_rows"@.is_prefix_of(bounds_rejection(spec)->0),
        spec.query.statement_timeout_ms > 0 && spec.query.max_rows > 0 && spec.pool_max_size == 0
            ==> "pool_max_size"@.is_prefix_of(bounds_rejection(spec)->0),
{
    reveal_strlit("query.statement_timeout_ms");
    reveal_strlit("query.statement_timeout_ms must be greater than 0");
    reveal_strlit("query.max_rows");
    reveal_strlit("query.max_rows must be greater than 0");
    reveal_strlit("pool_max_size");
    reveal_strlit("pool_max_size must be greater than 0");
    assert("query.statement_timeout_ms must be greater than 0"@.subrange(0, 26)
        =~= "query.statement_timeout_ms"@);
    assert("query.max_rows must be greater than 0"@.subrange(0, 14) =~= "query.max_rows"@);
    assert("pool_max_size must be greater than 0"@.subrange(0, 13) =~= "pool_max_size"@);
}

/// A database to attach is refused for its alias first, which the message shows,
/// and then for its source, which the message names by the alias.
pub proof fn refused_databases_are_named_by_their_alias(a: DuckDbAttach)
    ensures
        target_rejection(a) is None <==> target_is_safe(a),
        target_rejection(a) matches Some(message) ==> contains_text(message, a.alias@),
{
    if let Some(message) = target_rejection(a) {
        if !is_identifier(a.alias@) {
            parts_are_contained(
                "attach alias `"@,
                a.alias@,
                "` must match [A-Za-z_][A-Za-z0-9_]*"@,
            );
        } else {
            let tail = "].source"@
                + " must not contain a bare cred:// URI — use ${cred://…} (resolved at config load)"@;
            parts_are_contained("attach["@, a.alias@, tail);
            assert(message =~= "attach["@ + a.alias@ + tail);
        }
    }
}

/// A URI and a read of a template belong to the resource surface: elsewhere they
/// are refused with a message that names the surface, and a blank one is refused
/// there too.
pub proof fn resource_fields_belong_to_resources(
    spec: DuckDbBackendSpec,
    guard: Map<Seq<char>, Option<String>>,
)
    ensures
        uri_rejection(spec) is None <==> (spec.uri is Some ==> spec.surface == Surface::Resource
            && is_given(spec.uri)),
        spec.uri is Some && spec.surface != Surface::Resource ==> contains_text(
            uri_rejection(spec)->0,
            spec.surface.word(),
        ),
        spec.read_query is Some && (spec.surface != Surface::Resource || !is_given(spec.read_query))
            ==> read_query_rejection(spec, guard) is Some,
        is_given(spec.read_query) && spec.surface != Surface::Resource ==> contains_text(
            read_query_rejection(spec, guard)->0,
            spec.surface.word(),
        ),
        is_given(spec.read_query) && spec.surface == Surface::Resource && is_free(spec.read_query)
            && spec.read_only ==> read_query_rejection(spec, guard) == verdict(
            guard,
            spec.read_query->0@,
        ),
        is_given(spec.read_query) && spec.surface == Surface::Resource && is_free(spec.read_query)
            && !spec.read_only ==> read_query_rejection(spec, guard) is None,
{
    parts_are_contained(
        "`uri` is only valid with `surface: resource` (this binding is `surface: "@,
        spec.surface.word(),
        "`)"@,
    );
    parts_are_contained(
        "`read_query` is only valid with `surface: resource` (this binding is `surface: "@,
        spec.surface.word(),
        "`)"@,
    );
}

/// The words for surfaces and operations tell them apart.
pub proof fn words_tell_surfaces_and_operations_apart(
    a: Surface,
    b: Surface,
    x: DuckDbOperation,
    y: DuckDbOperation,
)
    ensures
        a.word() == b.word() ==> a == b,
        x.word() == y.word() ==> x == y,
{
    reveal_strlit("tool");
    assert("tool"@.len() == 4);
    reveal_strlit("resource");
    assert("resource"@.len() == 8);
    reveal_strlit("prompt");
    assert("prompt"@.len() == 6);
    reveal_strlit("query");
    assert("query"@.len() == 5);
    reveal_strlit("list_tables");
    assert("list_tables"@.len() == 11);
    reveal_strlit("list_columns");
    assert("list_columns"@.len() == 12);
    reveal_strlit("read_file");
    assert("read_file"@.len() == 9);
}

/// What the guard says of a statement is told as it is, and only of a read-only
/// binding.
pub proof fn the_verdict_of_the_guard_is_told(
    spec: DuckDbBackendSpec,
    guard: Map<Seq<char>, Option<String>>,
)
    ensures
        !spec.read_only ==> statement_rejection(spec, guard) is None,
        spec.read_only && spec.operation == DuckDbOperation::Query && !is_blank(spec.statement@)
            ==> statement_rejection(spec, guard) == verdict(guard, spec.statement@),
        spec.operation != DuckDbOperation::Query ==> statement_rejection(spec, guard) is None,
        spec.list_query is Some && listing_is_complete(spec.list_query->0)
            && is_free_of_credentials(spec.list_query->0.sql@) && spec.read_only
            ==> listing_rejection(spec, guard) == verdict(guard, spec.list_query->0.sql@),
        forall|statement: Seq<char>| #[trigger]
            verdict(guard, statement) == opt_text(guard[statement]),
{
}

/// The guard judges every statement of a read-only binding that can be sent, and
/// nothing else; of a binding that may write it judges none.
pub proof fn the_guard_judges_what_can_be_sent(spec: DuckDbBackendSpec, statement: Seq<char>)
    ensures
        !spec.read_only ==> guarded(spec).len() == 0,
        spec.read_only ==> (guarded(spec).contains(statement) <==> {
            ||| spec.operation == DuckDbOperation::Query && !is_blank(spec.statement@) && statement
                == spec.statement@
            ||| opt_text(spec.read_query) == Some(statement)
            ||| spec.list_query is Some && spec.list_query->0.sql@ == statement
            ||| exists|i: int|
                0 <= i < spec.variable_completions.listing().len() && (
                #[trigger] spec.variable_completions.listing()[i]).1.sql@ == statement
        }),
{
    if spec.read_only {
        let listing = spec.variable_completions.listing();
        let a = guarded_statement(spec);
        let b = guarded_read(spec);
        let c = guarded_listing(spec);
        let d = completion_statements(listing);
        let all = guarded(spec);
        if all.contains(statement) {
            let k = choose|k: int| 0 <= k < all.len() && all[k] == statement;
            if k < a.len() {
                assert(all[k] == a[k]);
            } else if k < a.len() + b.len() {
                assert(all[k] == b[k - a.len()]);
            } else if k < a.len() + b.len() + c.len() {
                assert(all[k] == c[k - a.len() - b.len()]);
            } else {
                let i = k - a.len() - b.len() - c.len();
                assert(all[k] == d[i]);
                assert(listing[i].1.sql@ == statement);
            }
        }
        if spec.operation == DuckDbOperation::Query && !is_blank(spec.statement@) && statement
            == spec.statement@ {
            assert(all[0] == a[0]);
        }
        if opt_text(spec.read_query) == Some(statement) {
            assert(all[a.len() as int] == b[0]);
        }
        if spec.list_query is Some && spec.list_query->0.sql@ == statement {
            assert(all[(a.len() + b.len()) as int] == c[0]);
        }
        if exists|i: int| 0 <= i < listing.len() && (#[trigger] listing[i]).1.sql@ == statement {
            let i = choose|i: int| 0 <= i < listing.len() && (#[trigger] listing[i]).1.sql@ == statement;
            assert(all[a.len() + b.len() + c.len() + i] == d[i]);
        }
    }
}

// ----------------------------------------------------------------- registration

/// A binding is registered exactly where its description is acceptable, its
/// parameters compile and, for a file, its pool was built; what failed is told as
/// it is.
pub proof fn registration_needs_all_three(
    spec: DuckDbBackendSpec,
    guard: Map<Seq<char>, Option<String>>,
    compiled: Result<(), String>,
    pool: Result<(), String>,
)
    ensures
        registration_rejection(spec, guard, compiled, pool) is None <==> is_acceptable(spec, guard)
            && compiled is Ok && (spec.database@ == ":memory:"@ || pool is Ok),
        is_acceptable(spec, guard) ==> (compiled matches Err(e) ==> registration_rejection(
            spec,
            guard,
            compiled,
            pool,
        ) == Some(e@)),
        is_acceptable(spec, guard) && compiled is Ok && spec.database@ != ":memory:"@ ==> (
        pool matches Err(e) ==> registration_rejection(spec, guard, compiled, pool) == Some(e@)),
        !is_acceptable(spec, guard) ==> registration_rejection(spec, guard, compiled, pool)
            == spec_rejection(spec, guard),
{
    acceptable_descriptions_are_accepted(spec, guard);
}

/// A refused registration changes nothing, and tells why. An accepted one leaves
/// every other name as it was, and what stands under its own name is what was
/// described.
pub proof fn registration_keeps_the_description(
    before: Map<Seq<char>, DuckDbProfile>,
    name: Seq<char>,
    spec: DuckDbBackendSpec,
    rejected: Option<Seq<char>>,
    after: Map<Seq<char>, DuckDbProfile>,
    r: Result<(), BackendError>,
    other: Seq<char>,
)
    requires
        is_registration(before, name, spec, rejected, after, r),
    ensures
        r is Ok <==> rejected is None,
        rejected matches Some(message) ==> after == before && r->Err_0@ == ErrorView::InvalidSpec(
            message,
        ),
        other != name ==> (after.dom().contains(other) <==> before.dom().contains(other)),
        other != name && before.dom().contains(other) ==> after[other] == before[other],
        rejected is None ==> {
            let profile = after[name];
            &&& after.dom().contains(name)
            &&& profile.database@ == spec.database@
            &&& profile.pooled <==> spec.database@ != ":memory:"@
            &&& profile.read_only == spec.read_only
            &&& profile.allow_external_access == spec.allow_external_access
            &&& texts(profile.init_sql@) == texts(spec.init_sql@)
            &&& profile.attach@ == spec.attach@
            &&& profile.operation == spec.operation
            &&& profile.statement@ == spec.statement@
            &&& profile.catalog_filters == spec.catalog_filters
            &&& profile.read_file == spec.read_file
            &&& sources(profile.compiled_params@) == texts(spec.params@)
            &&& profile.max_rows == spec.query.max_rows
            &&& profile.timeout_ms == spec.query.statement_timeout_ms
            &&& profile.surface == spec.surface
            &&& opt_text(profile.surface_uri) == opt_text(spec.uri)
            &&& profile.list_query == spec.list_query
            &&& opt_text(profile.read_query) == opt_text(spec.read_query)
            &&& profile.variable_completions == spec.variable_completions
        },
{
}

// ------------------------------------------------------------------------ calls

/// An empty payload stands for an object without members; any other is read as
/// the document that it is.
pub proof fn payloads_are_read_as_they_are(payload: Seq<u8>, key: Seq<char>)
    ensures
        payload.len() == 0 ==> payload_tree(payload) is Ok && payload_tree(payload)->Ok_0 is Object
            && field(payload_tree(payload)->Ok_0, key) is None,
        payload.len() > 0 ==> payload_tree(payload) == parsed(payload),
{
    assert(crate::json::object(crate::json::Members::empty()) =~= crate::json::Members::empty());
}

/// A call begins exactly where its binding is registered and its payload can be
/// read; it has the arguments of the payload and the name of its tool. One to an
/// unknown binding, and one whose payload cannot be read, are refused as such.
pub proof fn calls_begin_with_their_arguments(
    profiles: Map<Seq<char>, DuckDbProfile>,
    name: Seq<char>,
    payload: Seq<u8>,
    headers: Seq<(String, String)>,
    r: Result<Call, Refusal>,
)
    requires
        is_begun(profiles, name, payload, headers, r),
    ensures
        r is Ok <==> profiles.dom().contains(name) && payload_tree(payload) is Ok,
        r matches Ok(call) ==> {
            &&& payload_tree(payload)->Ok_0 == call.arguments.tree()
            &&& call.tool_name@ == tool_name_of(headers, name)
        },
        !profiles.dom().contains(name) ==> {
            &&& r->Err_0.error@ == ErrorView::ProfileNotFound(name)
            &&& r->Err_0.label@ == "profile_not_found"@
        },
        profiles.dom().contains(name) ==> (payload_tree(payload) matches Err(e) ==> {
            &&& r->Err_0.error@ is InvalidSpec
            &&& e.is_suffix_of(r->Err_0.error@->InvalidSpec_0)
            &&& r->Err_0.label@ == "invalid_spec"@
        }),
{
    if let Err(refusal) = r {
        if profiles.dom().contains(name) {
            let e = payload_tree(payload)->Err_0;
            let m = refusal.error@->InvalidSpec_0;
            assert(m.subrange(m.len() - e.len(), m.len() as int) =~= e);
        }
    }
}

/// A header has a name, whatever the case of its letters.
pub open spec fn is_header(header: (String, String), name: Seq<char>) -> bool {
    lower(header.0@) == lower(name)
}

/// The first header with a name gives the value under it.
proof fn first_header_counts(headers: Seq<(String, String)>, name: Seq<char>, i: int)
    requires
        0 <= i < headers.len(),
        is_header(headers[i], name),
        forall|k: int| 0 <= k < i ==> !is_header(#[trigger] headers[k], name),
    ensures
        header_value(headers, name) == Some(headers[i].1@),
    decreases i,
{
    if i > 0 {
        assert(!is_header(headers[0], name));
        let rest = headers.drop_first();
        assert forall|k: int| 0 <= k < i - 1 implies !is_header(#[trigger] rest[k], name) by {
            assert(!is_header(headers[k + 1], name));
        }
        first_header_counts(rest, name, i - 1);
    }
}

/// No header with a name gives no value under it.
proof fn missing_header_gives_nothing(headers: Seq<(String, String)>, name: Seq<char>)
    requires
        forall|k: int| 0 <= k < headers.len() ==> !is_header(#[trigger] headers[k], name),
    ensures
        header_value(headers, name) is None,
    decreases headers.len(),
{
    if headers.len() > 0 {
        assert(!is_header(headers[0], name));
        let rest = headers.drop_first();
        assert forall|k: int| 0 <= k < rest.len() implies !is_header(#[trigger] rest[k], name) by {
            assert(!is_header(headers[k + 1], name));
        }
        missing_header_gives_nothing(rest, name);
    }
}

/// The tool of a call is named by the first header that names one, as it stands
/// there, and else by the binding.
pub proof fn tools_are_named_by_the_first_header(
    headers: Seq<(String, String)>,
    backend_name: Seq<char>,
    i: int,
)
    requires
        forall|k: int| 0 <= k < i ==> !is_header(#[trigger] headers[k], "mcpg-tool-name"@),
        0 <= i <= headers.len(),
        i < headers.len() ==> is_header(headers[i], "mcpg-tool-name"@),
    ensures
        i < headers.len() ==> tool_name_of(headers, backend_name) == headers[i].1@,
        i == headers.len() ==> tool_name_of(headers, backend_name) == backend_name,
{
    if i < headers.len() {
        first_header_counts(headers, "mcpg-tool-name"@, i);
    } else {
        missing_header_gives_nothing(headers, "mcpg-tool-name"@);
    }
}

// -------------------------------------------------------------------- arguments

/// Reading on adds names only behind those that were read before: names stand in
/// the order in which they first come.
pub proof fn names_stand_in_order_of_appearance(a: Seq<Seq<char>>, b: Seq<Seq<char>>)
    ensures
        each_once(a).is_prefix_of(each_once(a + b)),
    decreases b.len(),
{
    if b.len() == 0 {
        assert(a + b =~= a);
    } else {
        names_stand_in_order_of_appearance(a, b.drop_last());
        assert((a + b).drop_last() =~= a + b.drop_last());
        let before = each_once(a + b.drop_last());
        let after = each_once(a + b);
        assert(before.is_prefix_of(after)) by {
            assert(after.subrange(0, before.len() as int) =~= before);
        }
        assert(after.subrange(0, each_once(a).len() as int) =~= each_once(a));
    }
}

/// The names of a list of expressions are those of each of them.
proof fn names_of_all_expressions(list: Seq<Seq<char>>, name: Seq<char>)
    ensures
        all_argument_idents(list).contains(name) <==> exists|i: int|
            0 <= i < list.len() && argument_idents(#[trigger] list[i]).contains(name),
    decreases list.len(),
{
    if list.len() > 0 {
        let shorter = list.drop_last();
        names_of_all_expressions(shorter, name);
        let before = all_argument_idents(shorter);
        let here = argument_idents(list.last());
        let all = all_argument_idents(list);
        if all.contains(name) {
            let k = choose|k: int| 0 <= k < all.len() && all[k] == name;
            if k < before.len() {
                assert(before[k] == name);
                let i = choose|i: int|
                    0 <= i < shorter.len() && argument_idents(#[trigger] shorter[i]).contains(name);
                assert(argument_idents(list[i]).contains(name));
            } else {
                assert(here[k - before.len()] == name);
                assert(argument_idents(list[list.len() - 1]).contains(name));
            }
        }
        if exists|i: int| 0 <= i < list.len() && argument_idents(#[trigger] list[i]).contains(name) {
            let i = choose|i: int|
                0 <= i < list.len() && argument_idents(#[trigger] list[i]).contains(name);
            if i < shorter.len() {
                assert(argument_idents(shorter[i]).contains(name));
                let k = choose|k: int| 0 <= k < before.len() && before[k] == name;
                assert(all[k] == name);
            } else {
                let k = choose|k: int| 0 <= k < here.len() && here[k] == name;
                assert(all[before.len() + k] == name);
            }
        }
    }
}

/// The arguments that a query or a file is said to take are those that its
/// parameters read, each once.
pub proof fn queries_take_what_their_parameters_read(profile: DuckDbProfile, name: Seq<char>)
    requires
        profile.operation == DuckDbOperation::Query || profile.operation
            == DuckDbOperation::ReadFile,
    ensures
        argument_names_of(profile).no_duplicates(),
        argument_names_of(profile).contains(name) <==> exists|i: int|
            0 <= i < sources(profile.compiled_params@).len() && argument_idents(
                #[trigger] sources(profile.compiled_params@)[i],
            ).contains(name),
{
    let all = all_argument_idents(sources(profile.compiled_params@));
    each_once_keeps_every_name_once(all);
    names_of_all_expressions(sources(profile.compiled_params@), name);
    assert(argument_names_of(profile).contains(name) <==> all.contains(name));
}

/// Expressions are read one after the other.
pub proof fn parameters_are_read_in_order(a: Seq<Seq<char>>, source: Seq<char>)
    ensures
        all_argument_idents(a.push(source)) == all_argument_idents(a) + argument_idents(source),
        all_argument_idents(Seq::<Seq<char>>::empty()).len() == 0,
{
    assert(a.push(source).drop_last() =~= a);
}

/// The arguments of a listing stand in the order of the filters: catalog, schema,
/// table and type of table.
pub proof fn filters_are_named_in_order(
    cfg: CatalogFilterConfig,
    catalog: String,
    schema: String,
    table: String,
    table_type: String,
)
    requires
        cfg.catalog_arg == Some(catalog),
        cfg.schema_arg == Some(schema),
        cfg.table_arg == Some(table),
        cfg.table_type_arg == Some(table_type),
    ensures
        given(cfg.args()) == seq![catalog@, schema@, table@, table_type@],
{
    let list = cfg.args();
    let one = seq![Some(catalog@)];
    let two = one.push(Some(schema@));
    let three = two.push(Some(table@));
    assert(list =~= three.push(Some(table_type@)));
    assert(list.drop_last() =~= three);
    assert(three.drop_last() =~= two);
    assert(two.drop_last() =~= one);
    assert(one.drop_last() =~= Seq::<Option<Seq<char>>>::empty());
    reveal_with_fuel(given, 5);
    assert(given(list) =~= seq![catalog@, schema@, table@, table_type@]);
}

/// The names that are given stand in their list.
proof fn given_names_stand_in_the_list(list: Seq<Option<Seq<char>>>, name: Seq<char>)
    ensures
        given(list).contains(name) <==> list.contains(Some(name)),
    decreases list.len(),
{
    if list.len() > 0 {
        let shorter = list.drop_last();
        given_names_stand_in_the_list(shorter, name);
        let before = given(shorter);
        let all = given(list);
        if all.contains(name) {
            let k = choose|k: int| 0 <= k < all.len() && all[k] == name;
            if k < before.len() {
                assert(before[k] == name);
                let i = choose|i: int| 0 <= i < shorter.len() && shorter[i] == Some(name);
                assert(list[i] == Some(name));
            } else {
                assert(list[list.len() - 1] == Some(name));
            }
        }
        if list.contains(Some(name)) {
            let i = choose|i: int| 0 <= i < list.len() && list[i] == Some(name);
            if i < shorter.len() {
                assert(shorter[i] == Some(name));
                let k = choose|k: int| 0 <= k < before.len() && before[k] == name;
                assert(all[k] == name);
            } else {
                assert(all[before.len() as int] == name);
            }
        }
    }
}

/// The arguments that a listing of the catalog is said to take are those that are
/// named for its filters, each once.
pub proof fn listings_take_what_their_filters_name(profile: DuckDbProfile, name: Seq<char>)
    requires
        profile.operation == DuckDbOperation::ListTables || profile.operation
            == DuckDbOperation::ListColumns,
    ensures
        argument_names_of(profile).no_duplicates(),
        ({
            let cfg = profile.catalog_filters;
            argument_names_of(profile).contains(name) <==> opt_text(cfg.catalog_arg) == Some(name)
                || opt_text(cfg.schema_arg) == Some(name) || opt_text(cfg.table_arg) == Some(name)
                || opt_text(cfg.table_type_arg) == Some(name)
        }),
{
    let cfg = profile.catalog_filters;
    let list = cfg.args();
    each_once_keeps_every_name_once(given(list));
    given_names_stand_in_the_list(list, name);
    assert(argument_names_of(profile).contains(name) <==> given(list).contains(name));
    assert(list[0] == opt_text(cfg.catalog_arg) && list[1] == opt_text(cfg.schema_arg) && list[2]
        == opt_text(cfg.table_arg) && list[3] == opt_text(cfg.table_type_arg));
}

/// A name without a binding takes no arguments and is described as a query; one
/// with a binding is described by it.
pub proof fn schemas_describe_the_binding(
    profiles: Map<Seq<char>, DuckDbProfile>,
    name: Seq<char>,
    argument: Seq<char>,
)
    ensures
        profiles.dom().contains(name) ==> described_operation(profiles, name)
            == profiles[name].operation,
        !profiles.dom().contains(name) ==> described_operation(profiles, name)
            == DuckDbOperation::Query,
        profiles.dom().contains(name) ==> argument_schema(profiles, name) == open_schema(
            argument_names_of(profiles[name]),
        ),
        !profiles.dom().contains(name) ==> at(
            argument_schema(profiles, name),
            "properties"@,
            argument,
        ) is None,
{
    if !profiles.dom().contains(name) {
        argument_schemas_name_the_arguments(Seq::empty(), argument);
    }
}

// -------------------------------------------------------------------- the watch

/// What is left of a text without the white space at its ends: it stands in the
/// text between two blank parts, and begins and ends with something else.
pub proof fn trimming_takes_white_space_alone(s: Seq<char>) -> (parts: (Seq<char>, Seq<char>))
    ensures
        s == parts.0 + trimmed(s) + parts.1,
        is_blank(parts.0),
        is_blank(parts.1),
        trimmed(s).len() > 0 ==> !is_white_space(trimmed(s)[0]) && !is_white_space(
            trimmed(s).last(),
        ),
    decreases s.len(),
{
    if s.len() == 0 {
        assert(s =~= s + trimmed(s) + s);
        (s, s)
    } else if is_white_space(s[0]) {
        let rest = s.drop_first();
        let parts = trimming_takes_white_space_alone(rest);
        let before = seq![s[0]] + parts.0;
        assert(s =~= seq![s[0]] + rest);
        assert(seq![s[0]] + (parts.0 + trimmed(rest) + parts.1) =~= before + trimmed(rest)
            + parts.1);
        assert(s =~= before + trimmed(s) + parts.1);
        (before, parts.1)
    } else if is_white_space(s.last()) {
        let rest = s.drop_last();
        let parts = trimming_takes_white_space_alone(rest);
        let after = parts.1.push(s.last());
        assert(s =~= rest.push(s.last()));
        assert((parts.0 + trimmed(rest) + parts.1).push(s.last()) =~= parts.0 + trimmed(rest)
            + after);
        assert(s =~= parts.0 + trimmed(s) + after);
        (parts.0, after)
    } else {
        assert(s =~= Seq::<char>::empty() + s + Seq::<char>::empty());
        (Seq::empty(), Seq::empty())
    }
}

/// A watch is accepted exactly on a file, with a tracking query that is not blank
/// and that the guard accepts; whatever begins as a database in memory does, and a
/// blank name, are none. The guard's reason is told as it is.
pub proof fn watches_need_a_file(spec: WatchSpec, reason: Option<Seq<char>>)
    ensures
        has_no_change_source(spec.database@) <==> trimmed(spec.database@).len() == 0 || ":memory:"@.is_prefix_of(
            trimmed(spec.database@),
        ),
        watch_rejection(spec, reason) is None <==> trimmed(spec.database@).len() > 0
            && !":memory:"@.is_prefix_of(trimmed(spec.database@)) && trimmed(
            spec.tracking_query@,
        ).len() > 0 && reason is None,
        !has_no_change_source(spec.database@) && !is_blank(spec.tracking_query@)
            ==> watch_rejection(spec, reason) == reason,
{
    trimmed_is_empty_iff_blank(spec.database@);
    trimmed_is_empty_iff_blank(spec.tracking_query@);
}

} // verus!
