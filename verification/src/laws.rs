//! What holds of the library as a whole: how statements, binds, checks, rows and
//! replies relate, for every input.
//!
//! - [`binds`] and [`statements`]: what is sent to the engine.
//! - [`rows`] and [`replies`]: what becomes of its answer.
//! - [`pages`]: listings, completions and watches.
//! - [`registry`]: which descriptions are accepted, and how calls are read.
//! - [`words`]: the texts that all of these are made of.

use vstd::prelude::*;

use crate::audit::action_for;
use crate::call::{
    cursor_offset, error_envelope, failure_label, fixed_statement, is_plan, is_step,
    resolved_filters, rows_envelope, CallStep,
};
use crate::duckdb::{
    attach_step, attach_steps, attach_text, column_filters, column_tree, conditions, filter_binds,
    init_steps, kept_rows, list_columns_text, list_tables_text, projection_text, read_file_text,
    restricts, row_pairs, row_tree, setup_steps, table_filters, with_conditions, Filter,
    FiltersView, QueryOutcome, Row,
};
use crate::envelope::{classified, envelope_pairs, envelope_properties, error_kind, is_retryable};
use crate::json::{
    field, has_key, member, object, object_member, put, trees, Json, JsonTree, Members,
};
use crate::params::{
    argument_idents, argument_idents_from, bind_views, first_from, found_not_before, run_end,
    sources, BindView, DuckBind,
};
use crate::plugin::{argument_names_of, DuckDbProfile};
use crate::register::{
    attach_rejection, completions_rejection, guarded, guarded_listing, guarded_read,
    guarded_statement, is_filled, list_cred_rejection, one_completion_rejection, spec_rejection,
    target_rejection, verdict,
};
use crate::sql::{
    is_plain, no_mark, placeholders, placeholders_are_marks, plain_marks_are_placeholders,
};
use crate::surface::{candidates, column_texts, next_cursor};
use crate::text::{
    apostrophes_doubled, contains_text, count_of, decimal_reads_back, is_blank, is_ident_char,
    is_identifier, is_white_space, joined, opt_text, texts, trimmed,
};
use crate::types::{
    completion_rejection, read_file_rejection, CatalogFilterConfig, CompletionConfig, DuckDbAttach,
    DuckDbBackendSpec, DuckDbOperation, ListQueryConfig, ListQueryMode,
};
use crate::watch::{has_no_change_source, watch_rejection, WatchSpec};

pub mod binds;
pub mod pages;
pub mod registry;
pub mod replies;
pub mod rows;
pub mod statements;
pub mod words;

verus! {

// ---------------------------------------------------------- statements and binds

/// No caller can alter the statement of a query or of a file: whatever the
/// arguments of two calls are and whatever their parameters evaluate to, both
/// send the same statement.
pub proof fn caller_cannot_alter_statement(
    profile: DuckDbProfile,
    arguments: JsonTree,
    values: Result<Vec<Json>, String>,
    statement: Seq<char>,
    binds: Seq<DuckBind>,
    other_arguments: JsonTree,
    other_values: Result<Vec<Json>, String>,
    other_statement: Seq<char>,
    other_binds: Seq<DuckBind>,
)
    requires
        profile.operation == DuckDbOperation::Query || profile.operation
            == DuckDbOperation::ReadFile,
        is_plan(profile, arguments, values, statement, binds),
        is_plan(profile, other_arguments, other_values, other_statement, other_binds),
    ensures
        statement == other_statement,
{
}

/// The path of a file is no argument: the arguments that a binding reading a
/// file is said to take come from its parameters alone, whatever it reads.
pub proof fn file_is_no_argument(profile: DuckDbProfile, other: DuckDbProfile)
    requires
        profile.operation == DuckDbOperation::ReadFile,
        other.operation == DuckDbOperation::ReadFile,
        sources(profile.compiled_params@) == sources(other.compiled_params@),
    ensures
        argument_names_of(profile) == argument_names_of(other),
{
}

/// Two calls restrict the same columns.
pub open spec fn same_restrictions(f: FiltersView, g: FiltersView) -> bool {
    &&& restricts(f.catalog) == restricts(g.catalog)
    &&& restricts(f.schema) == restricts(g.schema)
    &&& restricts(f.table) == restricts(g.table)
    &&& restricts(f.table_type) == restricts(g.table_type)
}

/// The value of a filter never becomes part of a statement: two calls that
/// restrict the same columns send the same statement.
pub proof fn filter_values_stay_out_of_statements(f: FiltersView, g: FiltersView)
    requires
        same_restrictions(f, g),
    ensures
        list_tables_text(f) == list_tables_text(g),
        list_columns_text(f) == list_columns_text(g),
{
    let a = table_filters(f);
    let b = table_filters(g);
    let c = column_filters(f);
    let d = column_filters(g);
    same_conditions(a, b);
    same_conditions(c, d);
}

/// Lists of filters on the same columns that restrict alike have the same
/// conditions.
proof fn same_conditions(a: Seq<Filter>, b: Seq<Filter>)
    requires
        a.len() == b.len(),
        forall|i: int| 0 <= i < a.len() ==> (#[trigger] a[i]).0 == b[i].0,
        forall|i: int| 0 <= i < a.len() ==> restricts((#[trigger] a[i]).1) == restricts(b[i].1),
    ensures
        conditions(a) == conditions(b),
    decreases a.len(),
{
    if a.len() > 0 {
        let x = a.drop_last();
        let y = b.drop_last();
        assert forall|i: int| 0 <= i < x.len() implies (#[trigger] x[i]).0 == y[i].0 by {
            assert(a[i].0 == b[i].0);
        }
        assert forall|i: int| 0 <= i < x.len() implies restricts((#[trigger] x[i]).1) == restricts(
            y[i].1,
        ) by {
            assert(restricts(a[i].1) == restricts(b[i].1));
        }
        same_conditions(x, y);
        assert(a[a.len() - 1].0 == b[a.len() - 1].0);
    }
}

/// A caller can narrow a listing of the catalog and never widen it: a filter
/// that the operator set restricts every call, whatever its arguments are.
pub proof fn set_filters_are_never_lifted(cfg: CatalogFilterConfig, arguments: JsonTree)
    ensures
        restricts(opt_text(cfg.catalog)) ==> restricts(resolved_filters(cfg, arguments).catalog),
        restricts(opt_text(cfg.schema)) ==> restricts(resolved_filters(cfg, arguments).schema),
        restricts(opt_text(cfg.table)) ==> restricts(resolved_filters(cfg, arguments).table),
        restricts(opt_text(cfg.table_type)) ==> restricts(
            resolved_filters(cfg, arguments).table_type,
        ),
{
}

/// A listing of columns is scoped to one table: where it runs, its conditions
/// hold one on the name of the table, and the last bind is that name.
pub proof fn columns_are_listed_of_one_table(
    profile: DuckDbProfile,
    backend_name: Seq<char>,
    tool_name: Seq<char>,
    arguments: JsonTree,
    values: Result<Vec<Json>, String>,
    step: CallStep,
)
    requires
        profile.operation == DuckDbOperation::ListColumns,
        is_step(profile, backend_name, tool_name, arguments, values, step),
        step is Run,
    ensures
        ({
            let filters = resolved_filters(profile.catalog_filters, arguments);
            let binds = bind_views(step->binds@);
            &&& restricts(filters.table)
            &&& step->statement@ == list_columns_text(filters)
            &&& conditions(column_filters(filters)).len() > 0
            &&& conditions(column_filters(filters)).last() == "table_name"@ + " = ?"@
            &&& binds.len() > 0
            &&& binds.last() == BindView::Str(filters.table->0)
        }),
{
}

/// Placeholders add up.
proof fn placeholders_add_up(a: Seq<char>, b: Seq<char>)
    ensures
        count_of(a + b, '?') == count_of(a, '?') + count_of(b, '?'),
{
    Seq::filter_distributes_over_add(a, b, |x: char| x == '?');
}

/// Conditions on columns without a `?` in their names hold one placeholder each.
proof fn one_placeholder_each(filters: Seq<Filter>)
    requires
        forall|i: int| 0 <= i < filters.len() ==> count_of((#[trigger] filters[i]).0, '?') == 0,
    ensures
        count_of(joined(conditions(filters), " AND "@), '?') == conditions(filters).len(),
        conditions(filters).len() == filter_binds(filters).len(),
    decreases filters.len(),
{
    if filters.len() == 0 {
        assert(joined(conditions(filters), " AND "@).len() == 0);
        no_mark(joined(conditions(filters), " AND "@));
    } else {
        let shorter = filters.drop_last();
        assert forall|i: int| 0 <= i < shorter.len() implies count_of((#[trigger] shorter[i]).0, '?')
            == 0 by {
            assert(shorter[i] == filters[i]);
        }
        one_placeholder_each(shorter);
        if restricts(filters.last().1) {
            let parts = conditions(shorter);
            let part = filters.last().0 + " = ?"@;
            let longer = parts.push(part);
            assert(count_of(part, '?') == 1) by {
                reveal_strlit(" = ?");
                let head = " = ?"@.drop_last();
                no_mark(head);
                assert(" = ?"@ =~= head.push('?'));
                reveal_with_fuel(Seq::<_>::filter, 1);
                assert(count_of(" = ?"@, '?') == 1);
                placeholders_add_up(filters.last().0, " = ?"@);
                assert(count_of((filters[filters.len() - 1]).0, '?') == 0);
            }
            assert(longer.drop_last() =~= parts);
            if parts.len() > 0 {
                let sep = " AND "@;
                assert(count_of(sep, '?') == 0) by {
                    reveal_strlit(" AND ");
                    no_mark(sep);
                }
                placeholders_add_up(joined(parts, sep), sep);
                placeholders_add_up(joined(parts, sep) + sep, part);
            }
        }
    }
}

/// Placeholders of a statement are those of its conditions.
proof fn placeholders_of_statement(head: Seq<char>, parts: Seq<Seq<char>>, tail: Seq<char>)
    requires
        count_of(head, '?') == 0,
        count_of(tail, '?') == 0,
        count_of(joined(parts, " AND "@), '?') == parts.len(),
    ensures
        count_of(with_conditions(head, parts, tail), '?') == parts.len(),
{
    let all = joined(parts, " AND "@);
    assert(count_of(" WHERE "@, '?') == 0) by {
        reveal_strlit(" WHERE ");
        no_mark(" WHERE "@);
    }
    placeholders_add_up(head, tail);
    placeholders_add_up(head, " WHERE "@);
    placeholders_add_up(head + " WHERE "@, all);
    placeholders_add_up(head + " WHERE "@ + all, tail);
}

/// Conditions on columns with plain names are plain.
proof fn conditions_are_plain(filters: Seq<Filter>)
    requires
        forall|i: int| 0 <= i < filters.len() ==> is_plain((#[trigger] filters[i]).0),
    ensures
        is_plain(joined(conditions(filters), " AND "@)),
    decreases filters.len(),
{
    if filters.len() > 0 {
        let shorter = filters.drop_last();
        assert forall|i: int| 0 <= i < shorter.len() implies is_plain((#[trigger] shorter[i]).0) by {
            assert(shorter[i] == filters[i]);
        }
        conditions_are_plain(shorter);
        assert(is_plain(filters[filters.len() - 1].0));
        assert(is_plain(" = ?"@)) by {
            reveal_strlit(" = ?");
        }
        assert(is_plain(" AND "@)) by {
            reveal_strlit(" AND ");
        }
        if restricts(filters.last().1) {
            let parts = conditions(shorter);
            assert(parts.push(filters.last().0 + " = ?"@).drop_last() =~= parts);
        }
    }
}

/// A statement of plain parts is plain.
proof fn statement_is_plain(head: Seq<char>, parts: Seq<Seq<char>>, tail: Seq<char>)
    requires
        is_plain(head),
        is_plain(tail),
        is_plain(joined(parts, " AND "@)),
    ensures
        is_plain(with_conditions(head, parts, tail)),
{
    assert(is_plain(" WHERE "@)) by {
        reveal_strlit(" WHERE ");
    }
}

/// A catalog statement holds exactly one placeholder for each of its binds.
pub proof fn every_placeholder_has_its_bind(f: FiltersView)
    ensures
        placeholders(list_tables_text(f)) == filter_binds(table_filters(f)).len(),
        placeholders(list_columns_text(f)) == filter_binds(column_filters(f)).len(),
{
    assert(count_of("table_catalog"@, '?') == 0 && is_plain("table_catalog"@)) by {
        reveal_strlit("table_catalog");
        no_mark("table_catalog"@);
    }
    assert(count_of("table_schema"@, '?') == 0 && is_plain("table_schema"@)) by {
        reveal_strlit("table_schema");
        no_mark("table_schema"@);
    }
    assert(count_of("table_name"@, '?') == 0 && is_plain("table_name"@)) by {
        reveal_strlit("table_name");
        no_mark("table_name"@);
    }
    assert(count_of("table_type"@, '?') == 0 && is_plain("table_type"@)) by {
        reveal_strlit("table_type");
        no_mark("table_type"@);
    }
    let tables =
        "SELECT table_catalog, table_schema, table_name, table_type FROM information_schema.tables"@;
    assert(count_of(tables, '?') == 0 && is_plain(tables)) by {
        reveal_strlit(
            "SELECT table_catalog, table_schema, table_name, table_type FROM information_schema.tables",
        );
        no_mark(tables);
    }
    let by_table = " ORDER BY table_schema, table_name"@;
    assert(count_of(by_table, '?') == 0 && is_plain(by_table)) by {
        reveal_strlit(" ORDER BY table_schema, table_name");
        no_mark(by_table);
    }
    let columns =
        "SELECT table_name, column_name, data_type, is_nullable, ordinal_position FROM information_schema.columns"@;
    assert(count_of(columns, '?') == 0 && is_plain(columns)) by {
        reveal_strlit(
            "SELECT table_name, column_name, data_type, is_nullable, ordinal_position FROM information_schema.columns",
        );
        no_mark(columns);
    }
    let by_position = " ORDER BY table_name, ordinal_position"@;
    assert(count_of(by_position, '?') == 0 && is_plain(by_position)) by {
        reveal_strlit(" ORDER BY table_name, ordinal_position");
        no_mark(by_position);
    }
    one_placeholder_each(table_filters(f));
    one_placeholder_each(column_filters(f));
    placeholders_of_statement(tables, conditions(table_filters(f)), by_table);
    placeholders_of_statement(columns, conditions(column_filters(f)), by_position);
    conditions_are_plain(table_filters(f));
    conditions_are_plain(column_filters(f));
    statement_is_plain(tables, conditions(table_filters(f)), by_table);
    statement_is_plain(columns, conditions(column_filters(f)), by_position);
    plain_marks_are_placeholders(list_tables_text(f));
    plain_marks_are_placeholders(list_columns_text(f));
}

// --------------------------------------------------------------------- quoting

/// What an SQL string literal holds, read from behind its opening apostrophe,
/// with what follows its closing one. Two apostrophes stand for one.
pub open spec fn read_literal(s: Seq<char>) -> Option<(Seq<char>, Seq<char>)>
    decreases s.len(),
{
    if s.len() == 0 {
        None
    } else if s[0] != '\'' {
        match read_literal(s.skip(1)) {
            Some((held, rest)) => Some((seq![s[0]] + held, rest)),
            None => None,
        }
    } else if s.len() > 1 && s[1] == '\'' {
        match read_literal(s.skip(2)) {
            Some((held, rest)) => Some((seq!['\''] + held, rest)),
            None => None,
        }
    } else {
        Some((Seq::empty(), s.skip(1)))
    }
}

/// One character of a quoted text.
pub open spec fn quoted_char(c: char) -> Seq<char> {
    if c == '\'' {
        seq!['\'', '\'']
    } else {
        seq![c]
    }
}

/// Doubling goes character by character.
proof fn doubled_from_front(c: char, s: Seq<char>)
    ensures
        apostrophes_doubled(seq![c] + s) == quoted_char(c) + apostrophes_doubled(s),
    decreases s.len(),
{
    let all = seq![c] + s;
    if s.len() == 0 {
        assert(all.drop_last() =~= Seq::<char>::empty());
        assert(all.last() == c);
        assert(apostrophes_doubled(all.drop_last()) =~= Seq::<char>::empty());
        assert(apostrophes_doubled(all) =~= quoted_char(c) + apostrophes_doubled(s));
    } else {
        assert(all.drop_last() =~= seq![c] + s.drop_last());
        assert(all.last() == s.last());
        doubled_from_front(c, s.drop_last());
        assert(apostrophes_doubled(all) =~= quoted_char(c) + apostrophes_doubled(s));
    }
}

/// A quoted text is read back as itself, and the literal ends where it should:
/// no character of the text can end it.
pub proof fn quoted_text_reads_back(text: Seq<char>, rest: Seq<char>)
    requires
        rest.len() == 0 || rest[0] != '\'',
    ensures
        read_literal(apostrophes_doubled(text) + seq!['\''] + rest) == Some((text, rest)),
    decreases text.len(),
{
    let all = apostrophes_doubled(text) + seq!['\''] + rest;
    if text.len() == 0 {
        assert(all =~= seq!['\''] + rest);
        assert(all.skip(1) =~= rest);
    } else {
        let c = text[0];
        let tail = text.skip(1);
        assert(text =~= seq![c] + tail);
        doubled_from_front(c, tail);
        quoted_text_reads_back(tail, rest);
        let inner = apostrophes_doubled(tail) + seq!['\''] + rest;
        assert(all =~= quoted_char(c) + inner);
        if c == '\'' {
            assert(all[0] == '\'' && all[1] == '\'');
            assert(all.skip(2) =~= inner);
            assert(seq!['\''] + tail =~= text);
        } else {
            assert(all[0] == c);
            assert(all.skip(1) =~= inner);
        }
    }
}

/// What stands before the path in a statement that reads a file.
pub open spec fn before_path(table_function: Seq<char>, columns: Seq<Seq<char>>) -> Seq<char> {
    "SELECT "@ + projection_text(columns) + " FROM "@ + table_function + "('"@
}

/// What stands behind the path in a statement that reads a file.
pub open spec fn behind_path(predicate: Option<Seq<char>>) -> Seq<char> {
    match predicate {
        Some(p) => if is_blank(p) {
            seq![')']
        } else {
            seq![')'] + " WHERE "@ + p
        },
        None => seq![')'],
    }
}

/// The path of a file is one string literal of the statement that reads it,
/// whatever apostrophes it holds.
pub proof fn path_is_one_literal(
    table_function: Seq<char>,
    path: Seq<char>,
    columns: Seq<Seq<char>>,
    predicate: Option<Seq<char>>,
)
    ensures
        ({
            let statement = read_file_text(table_function, path, columns, predicate);
            let head = before_path(table_function, columns);
            &&& head.len() <= statement.len()
            &&& statement.take(head.len() as int) == head
            &&& read_literal(statement.skip(head.len() as int)) == Some(
                (path, behind_path(predicate)),
            )
        }),
{
    reveal_strlit("')");
    let statement = read_file_text(table_function, path, columns, predicate);
    let head = before_path(table_function, columns);
    let rest = behind_path(predicate);
    let body = apostrophes_doubled(path) + seq!['\''] + rest;
    assert("')"@ =~= seq!['\''] + seq![')']);
    assert(statement =~= head + body);
    assert(statement.take(head.len() as int) =~= head);
    assert(statement.skip(head.len() as int) =~= body);
    quoted_text_reads_back(path, rest);
}

/// What stands behind the source in a statement that attaches a database.
pub open spec fn behind_source(a: DuckDbAttach) -> Seq<char> {
    " AS "@ + a.alias@ + (if a.read_only {
        " (READ_ONLY)"@
    } else {
        ""@
    })
}

/// The source of a database is one string literal of the statement that
/// attaches it, whatever apostrophes it holds.
pub proof fn source_is_one_literal(a: DuckDbAttach)
    ensures
        ({
            let head = "ATTACH '"@;
            &&& head.len() <= attach_text(a).len()
            &&& attach_text(a).take(head.len() as int) == head
            &&& read_literal(attach_text(a).skip(head.len() as int)) == Some(
                (a.source@, behind_source(a)),
            )
        }),
{
    reveal_strlit("' AS ");
    reveal_strlit(" AS ");
    let head = "ATTACH '"@;
    let rest = behind_source(a);
    let body = apostrophes_doubled(a.source@) + seq!['\''] + rest;
    assert("' AS "@ =~= seq!['\''] + " AS "@);
    assert(attach_text(a) =~= head + body);
    assert(attach_text(a).take(head.len() as int) =~= head);
    assert(attach_text(a).skip(head.len() as int) =~= body);
    assert(rest[0] == ' ');
    quoted_text_reads_back(a.source@, rest);
}

// --------------------------------------------------------------------- opening

/// Nothing follows a refusal, so a refused database ends the opening; and where
/// every alias is safe, every database is attached and nothing is refused.
pub proof fn only_the_last_step_refuses(attach: Seq<DuckDbAttach>)
    ensures
        attach_steps(attach).len() <= attach.len(),
        forall|i: int|
            0 <= i < attach_steps(attach).len() ==> (#[trigger] attach_steps(attach)[i])
                == attach_step(attach[i]),
        forall|i: int|
            0 <= i < attach_steps(attach).len() - 1 ==> !((#[trigger] attach_steps(attach)[i]) is Refuse),
        attach_steps(attach).len() < attach.len() ==> attach_steps(attach).len() > 0
            && attach_steps(attach).last() is Refuse,
    decreases attach.len(),
{
    if attach.len() > 0 {
        let shorter = attach.drop_last();
        only_the_last_step_refuses(shorter);
        let before = attach_steps(shorter);
        let all = attach_steps(attach);
        assert forall|i: int| 0 <= i < all.len() implies (#[trigger] all[i]) == attach_step(
            attach[i],
        ) by {
            if i < before.len() {
                assert(before[i] == attach_step(shorter[i]));
            }
        }
        assert forall|i: int| 0 <= i < all.len() - 1 implies !((#[trigger] all[i]) is Refuse) by {
            assert(all[i] == before[i]);
            if i == before.len() - 1 {
                assert(before.last() == before[i]);
            }
        }
    }
}

/// Opening a registered binding refuses nothing: every statement of `init_sql`
/// runs, in order, and then every database is attached, in order.
pub proof fn registered_setup_is_complete(profile: DuckDbProfile)
    requires
        profile.is_sound(),
    ensures
        ({
            let steps = setup_steps(texts(profile.init_sql@), profile.attach@);
            &&& steps.len() == profile.init_sql@.len() + profile.attach@.len()
            &&& forall|i: int|
                0 <= i < steps.len() ==> (#[trigger] steps[i]) is Run
            &&& forall|i: int|
                0 <= i < profile.attach@.len() ==> steps[#[trigger] (profile.init_sql@.len() + i)]
                    == attach_step(profile.attach@[i])
        }),
{
    let attach = profile.attach@;
    only_the_last_step_refuses(attach);
    let made = attach_steps(attach);
    assert forall|i: int| 0 <= i < made.len() implies (#[trigger] made[i]) is Run by {
        assert(is_identifier(attach[i].alias@));
    }
    let steps = setup_steps(texts(profile.init_sql@), attach);
    let inits = init_steps(texts(profile.init_sql@));
    assert(inits.len() == profile.init_sql@.len());
    assert forall|i: int| 0 <= i < steps.len() implies (#[trigger] steps[i]) is Run by {
        if i < inits.len() {
            assert(steps[i] == inits[i]);
        } else {
            assert(steps[i] == made[i - inits.len()]);
        }
    }
    assert forall|i: int| 0 <= i < attach.len() implies steps[#[trigger] (
    profile.init_sql@.len() + i)] == attach_step(attach[i]) by {
        assert(made[i] == attach_step(attach[i]));
    }
}

// ---------------------------------------------------------------- registration

/// A list of completions that is accepted holds only completions that are.
proof fn each_completion_is_accepted(
    listing: Seq<(Seq<char>, CompletionConfig)>,
    read_only: bool,
    guard: Map<Seq<char>, Option<String>>,
)
    requires
        completions_rejection(listing, read_only, guard) is None,
    ensures
        forall|i: int|
            0 <= i < listing.len() ==> one_completion_rejection(
                #[trigger] listing[i],
                read_only,
                guard,
            ) is None,
    decreases listing.len(),
{
    if listing.len() > 0 {
        let shorter = listing.drop_last();
        each_completion_is_accepted(shorter, read_only, guard);
        assert forall|i: int| 0 <= i < listing.len() implies one_completion_rejection(
            #[trigger] listing[i],
            read_only,
            guard,
        ) is None by {
            if i < shorter.len() {
                assert(shorter[i] == listing[i]);
            }
        }
    }
}

/// Every statement of an accepted read-only binding has passed the read-only
/// guard: the query, the read of a template, the listing and the completions.
pub proof fn accepted_statements_are_read_only(
    spec: DuckDbBackendSpec,
    guard: Map<Seq<char>, Option<String>>,
)
    requires
        spec_rejection(spec, guard) is None,
        spec.read_only,
    ensures
        forall|i: int|
            0 <= i < guarded(spec).len() ==> verdict(guard, #[trigger] guarded(spec)[i]) is None,
        spec.operation == DuckDbOperation::Query && !is_blank(spec.statement@) ==> guarded(
            spec,
        ).contains(spec.statement@),
        spec.read_query matches Some(rq) ==> guarded(spec).contains(rq@),
        spec.list_query matches Some(lq) ==> guarded(spec).contains(lq.sql@),
{
    let listing = spec.variable_completions.listing();
    each_completion_is_accepted(listing, true, guard);
    let all = guarded(spec);
    let a = guarded_statement(spec);
    let b = guarded_read(spec);
    let c = guarded_listing(spec);
    assert forall|i: int| 0 <= i < all.len() implies verdict(guard, #[trigger] all[i]) is None by {
        if i < a.len() {
            assert(all[i] == spec.statement@);
        } else if i < a.len() + b.len() {
            assert(all[i] == b[i - a.len()]);
        } else if i < a.len() + b.len() + c.len() {
            assert(all[i] == c[i - a.len() - b.len()]);
        } else {
            let k = i - a.len() - b.len() - c.len();
            assert(all[i] == listing[k].1.sql@);
            assert(one_completion_rejection(listing[k], true, guard) is None);
        }
    }
    if a.len() > 0 {
        assert(all[0] == spec.statement@);
    }
    if b.len() > 0 {
        assert(all[a.len() as int] == b[0]);
    }
    if c.len() > 0 {
        assert(all[(a.len() + b.len()) as int] == c[0]);
    }
}

/// Every statement that a read-only query binding can send has passed the
/// read-only guard: that of a call, that of a listing and those of completions.
pub proof fn sent_statements_have_passed_the_guard(
    spec: DuckDbBackendSpec,
    guard: Map<Seq<char>, Option<String>>,
    profile: DuckDbProfile,
)
    requires
        spec_rejection(spec, guard) is None,
        spec.read_only,
        profile.is_of(spec),
    ensures
        profile.operation == DuckDbOperation::Query ==> verdict(guard, fixed_statement(profile)) is None,
        profile.list_query matches Some(cfg) ==> verdict(guard, cfg.sql@) is None,
        forall|i: int|
            0 <= i < profile.variable_completions.listing().len() ==> verdict(
                guard,
                (#[trigger] profile.variable_completions.listing()[i]).1.sql@,
            ) is None,
{
    let listing = spec.variable_completions.listing();
    each_completion_is_accepted(listing, true, guard);
    assert forall|i: int| 0 <= i < listing.len() implies verdict(
        guard,
        (#[trigger] listing[i]).1.sql@,
    ) is None by {
        assert(one_completion_rejection(listing[i], true, guard) is None);
    }
}

/// No bare credential reference.
pub open spec fn is_free_of_credentials(text: Seq<char>) -> bool {
    !contains_text(text, "cred://"@)
}

/// An accepted list holds no bare credential reference.
proof fn list_is_free_of_credentials(name: Seq<char>, list: Seq<Seq<char>>)
    requires
        list_cred_rejection(name, list) is None,
    ensures
        forall|i: int| 0 <= i < list.len() ==> is_free_of_credentials(#[trigger] list[i]),
    decreases list.len(),
{
    if list.len() > 0 {
        let shorter = list.drop_last();
        list_is_free_of_credentials(name, shorter);
        assert forall|i: int| 0 <= i < list.len() implies is_free_of_credentials(
            #[trigger] list[i],
        ) by {
            if i < shorter.len() {
                assert(shorter[i] == list[i]);
            }
        }
    }
}

/// Databases to attach that are accepted hold no bare credential reference.
proof fn sources_are_free_of_credentials(attach: Seq<DuckDbAttach>)
    requires
        attach_rejection(attach) is None,
    ensures
        forall|i: int|
            0 <= i < attach.len() ==> is_free_of_credentials((#[trigger] attach[i]).source@),
    decreases attach.len(),
{
    if attach.len() > 0 {
        let shorter = attach.drop_last();
        sources_are_free_of_credentials(shorter);
        assert forall|i: int| 0 <= i < attach.len() implies is_free_of_credentials(
            (#[trigger] attach[i]).source@,
        ) by {
            if i < shorter.len() {
                assert(shorter[i] == attach[i]);
            } else {
                assert(target_rejection(attach[i]) is None);
            }
        }
    }
}

/// A field that is left out, or that holds no bare credential reference.
pub open spec fn is_free_where_given(text: Option<String>) -> bool {
    text matches Some(t) ==> is_free_of_credentials(t@)
}

/// No field of an accepted binding holds a bare credential reference. (An alias
/// is an identifier, and so holds none either.)
pub proof fn accepted_binding_holds_no_bare_credential(
    spec: DuckDbBackendSpec,
    guard: Map<Seq<char>, Option<String>>,
)
    requires
        spec_rejection(spec, guard) is None,
    ensures
        is_free_of_credentials(spec.database@),
        is_free_of_credentials(spec.statement@),
        forall|i: int|
            0 <= i < spec.init_sql@.len() ==> is_free_of_credentials(
                #[trigger] texts(spec.init_sql@)[i],
            ),
        forall|i: int|
            0 <= i < spec.attach@.len() ==> is_free_of_credentials(
                (#[trigger] spec.attach@[i]).source@,
            ),
        is_free_where_given(spec.read_query),
        is_free_where_given(spec.uri),
        forall|i: int|
            0 <= i < spec.params@.len() ==> is_free_of_credentials(
                #[trigger] texts(spec.params@)[i],
            ),
        spec.list_query matches Some(lq) ==> is_free_of_credentials(lq.sql@)
            && is_free_where_given(lq.cursor_column),
        is_free_where_given(spec.catalog_filters.catalog),
        is_free_where_given(spec.catalog_filters.schema),
        is_free_where_given(spec.catalog_filters.table),
        is_free_where_given(spec.catalog_filters.table_type),
        is_free_where_given(spec.catalog_filters.catalog_arg),
        is_free_where_given(spec.catalog_filters.schema_arg),
        is_free_where_given(spec.catalog_filters.table_arg),
        is_free_where_given(spec.catalog_filters.table_type_arg),
        forall|i: int|
            0 <= i < spec.variable_completions.listing().len() ==> is_free_of_credentials(
                (#[trigger] spec.variable_completions.listing()[i]).1.sql@,
            ),
        spec.read_file matches Some(cfg) ==> {
            &&& is_free_of_credentials(cfg.path@)
            &&& is_free_where_given(cfg.predicate)
            &&& forall|i: int|
                0 <= i < cfg.columns@.len() ==> is_free_of_credentials(
                    #[trigger] texts(cfg.columns@)[i],
                )
        },
{
    list_is_free_of_credentials("init_sql"@, texts(spec.init_sql@));
    list_is_free_of_credentials("params"@, texts(spec.params@));
    if let Some(cfg) = spec.read_file {
        list_is_free_of_credentials("read_file.columns"@, texts(cfg.columns@));
    }
    sources_are_free_of_credentials(spec.attach@);
    let listing = spec.variable_completions.listing();
    each_completion_is_accepted(listing, spec.read_only, guard);
    assert forall|i: int| 0 <= i < listing.len() implies is_free_of_credentials(
        (#[trigger] listing[i]).1.sql@,
    ) by {
        assert(one_completion_rejection(listing[i], spec.read_only, guard) is None);
    }
}

/// What an accepted binding owes to its operation: a file is read only with
/// external access, columns are listed only of a named table, and a query has a
/// statement.
pub proof fn accepted_operation_is_complete(
    spec: DuckDbBackendSpec,
    guard: Map<Seq<char>, Option<String>>,
)
    requires
        spec_rejection(spec, guard) is None,
    ensures
        spec.operation == DuckDbOperation::ReadFile ==> spec.allow_external_access
            && spec.read_file is Some && read_file_rejection(spec.read_file->0) is None,
        spec.operation == DuckDbOperation::ListColumns ==> is_filled(spec.catalog_filters.table)
            || is_filled(spec.catalog_filters.table_arg),
        spec.operation == DuckDbOperation::Query ==> !is_blank(spec.statement@) || is_filled(
            spec.read_query,
        ),
{
}

/// Every completion of an accepted binding has exactly one placeholder, for the
/// prefix.
pub proof fn accepted_completions_bind_one_prefix(
    spec: DuckDbBackendSpec,
    guard: Map<Seq<char>, Option<String>>,
)
    requires
        spec_rejection(spec, guard) is None,
    ensures
        forall|i: int|
            0 <= i < spec.variable_completions.listing().len() ==> placeholders(
                (#[trigger] spec.variable_completions.listing()[i]).1.sql@,
            ) == 1,
{
    let listing = spec.variable_completions.listing();
    each_completion_is_accepted(listing, spec.read_only, guard);
    assert forall|i: int| 0 <= i < listing.len() implies placeholders(
        (#[trigger] listing[i]).1.sql@,
    ) == 1 by {
        assert(one_completion_rejection(listing[i], spec.read_only, guard) is None);
    }
}

/// A completion in which every `?` is a placeholder is accepted exactly where it
/// has one `?`; one without a `?` never is.
pub proof fn one_mark_makes_a_completion(name: Seq<char>, sql: Seq<char>)
    ensures
        placeholders(sql) == count_of(sql, '?') ==> (completion_rejection(name, sql) is None
            <==> count_of(sql, '?') == 1),
        count_of(sql, '?') == 0 ==> completion_rejection(name, sql) is Some,
{
    placeholders_are_marks(sql);
    if is_blank(sql) {
        assert forall|i: int| 0 <= i < sql.len() implies sql[i] != '?' by {
            assert(is_white_space(sql[i]));
        }
        no_mark(sql);
    }
}

// ------------------------------------------------------------------------ rows

/// A key of an object reads the value of the last pair that has it.
pub proof fn object_reads_last(pairs: Members, i: int)
    requires
        0 <= i < pairs.len(),
        forall|j: int| i < j < pairs.len() ==> (#[trigger] pairs[j]).0 != pairs[i].0,
    ensures
        member(object(pairs), pairs[i].0) == Some(pairs[i].1),
    decreases pairs.len(),
{
    let shorter = pairs.drop_last();
    let key = pairs[i].0;
    assert(pairs =~= shorter.push(pairs.last()));
    object_member(shorter, pairs.last(), key);
    if i < pairs.len() - 1 {
        assert(pairs[pairs.len() - 1].0 != key);
        assert forall|j: int| i < j < shorter.len() implies (#[trigger] shorter[j]).0
            != shorter[i].0 by {
            assert(pairs[j].0 != key);
        }
        object_reads_last(shorter, i);
    }
}

/// An object has the keys of its pairs and no others.
pub proof fn object_has_the_keys_of_its_pairs(pairs: Members, key: Seq<char>)
    ensures
        has_key(object(pairs), key) <==> has_key(pairs, key),
    decreases pairs.len(),
{
    if pairs.len() > 0 {
        let shorter = pairs.drop_last();
        let last = pairs.last();
        object_has_the_keys_of_its_pairs(shorter, key);
        let before = object(shorter);
        let after = object(pairs);
        assert(after == put(before, last.0, last.1));
        if has_key(pairs, key) {
            let i = choose|i: int| 0 <= i < pairs.len() && (#[trigger] pairs[i]).0 == key;
            if i < shorter.len() {
                assert(shorter[i].0 == key);
                let k = choose|k: int| 0 <= k < before.len() && (#[trigger] before[k]).0 == key;
                assert(after[k].0 == key);
            } else if has_key(before, key) {
                let k = choose|k: int| 0 <= k < before.len() && (#[trigger] before[k]).0 == key;
                assert(after[k].0 == key);
            } else {
                assert(after[before.len() as int].0 == key);
            }
        }
        if has_key(after, key) {
            let k = choose|k: int| 0 <= k < after.len() && (#[trigger] after[k]).0 == key;
            if k < before.len() {
                assert(before[k].0 == key);
                let i = choose|i: int| 0 <= i < shorter.len() && (#[trigger] shorter[i]).0 == key;
                assert(pairs[i].0 == key);
            } else {
                assert(pairs[pairs.len() - 1].0 == key);
            }
        }
    }
}

/// A row reads, under the name of a column, the value of that column; of columns
/// with one name, the last counts.
pub proof fn row_holds_its_columns(columns: Seq<Seq<char>>, cells: Row, i: int)
    requires
        0 <= i < columns.len(),
        forall|j: int| i < j < columns.len() ==> (#[trigger] columns[j]) != columns[i],
    ensures
        field(row_tree(columns, cells), columns[i]) == Some(column_tree(cells, i)),
{
    let pairs = row_pairs(columns, cells);
    assert forall|j: int| i < j < pairs.len() implies (#[trigger] pairs[j]).0 != pairs[i].0 by {
        assert(columns[j] != columns[i]);
    }
    object_reads_last(pairs, i);
}

/// A row has a member for each of its columns and no other.
pub proof fn row_holds_nothing_else(columns: Seq<Seq<char>>, cells: Row, name: Seq<char>)
    ensures
        has_key(object(row_pairs(columns, cells)), name) <==> columns.contains(name),
{
    let pairs = row_pairs(columns, cells);
    object_has_the_keys_of_its_pairs(pairs, name);
    if columns.contains(name) {
        let i = choose|i: int| 0 <= i < columns.len() && columns[i] == name;
        assert(pairs[i].0 == name);
    }
    if has_key(pairs, name) {
        let i = choose|i: int| 0 <= i < pairs.len() && (#[trigger] pairs[i]).0 == name;
        assert(columns[i] == name);
    }
}

/// The rows that are kept stay under the cap, the count is that of all rows, and
/// the outcome is truncated exactly where rows are missing from it.
pub proof fn outcome_stays_under_the_cap(
    outcome: QueryOutcome,
    columns: Seq<Seq<char>>,
    max_rows: int,
    all: Seq<Row>,
)
    requires
        0 <= max_rows,
        outcome.is_of(columns, max_rows, all),
    ensures
        outcome.rows@.len() <= max_rows,
        outcome.rows@.len() <= outcome.row_count == all.len(),
        outcome.truncated <==> outcome.rows@.len() < outcome.row_count,
        forall|i: int|
            0 <= i < outcome.rows@.len() ==> (#[trigger] outcome.rows@[i]).tree() == row_tree(
                columns,
                all[i],
            ),
{
    let kept = kept_rows(columns, max_rows, all);
    assert(trees(outcome.rows@).len() == outcome.rows@.len());
    assert forall|i: int| 0 <= i < outcome.rows@.len() implies (#[trigger] outcome.rows@[i]).tree()
        == row_tree(columns, all[i]) by {
        assert(trees(outcome.rows@)[i] == kept[i]);
    }
}

// --------------------------------------------------------------------- replies

/// The keys of an envelope are different texts.
proof fn envelope_keys_differ()
    ensures
        "response"@ != "downstreamError"@,
        "response"@ != "downstreamErrors"@,
        "response"@ != "error"@,
        "downstreamError"@ != "downstreamErrors"@,
        "downstreamError"@ != "error"@,
        "kind"@ != "code"@,
        "kind"@ != "message"@,
        "kind"@ != "retryable"@,
        "kind"@ != "retryClass"@,
        "kind"@ != "suggestedAction"@,
        "message"@ != "retryable"@,
        "message"@ != "retryClass"@,
        "message"@ != "suggestedAction"@,
        "retryable"@ != "retryClass"@,
        "retryable"@ != "suggestedAction"@,
        "transport_error"@ != "duckdb_error"@,
{
    reveal_strlit("response");
    assert("response"@.len() == 8);
    reveal_strlit("downstreamError");
    assert("downstreamError"@.len() == 15);
    reveal_strlit("downstreamErrors");
    assert("downstreamErrors"@.len() == 16);
    reveal_strlit("error");
    assert("error"@.len() == 5);
    reveal_strlit("kind");
    assert("kind"@.len() == 4);
    reveal_strlit("code");
    assert("code"@.len() == 4);
    reveal_strlit("message");
    assert("message"@.len() == 7);
    reveal_strlit("retryable");
    assert("retryable"@.len() == 9);
    reveal_strlit("retryClass");
    assert("retryClass"@.len() == 10);
    reveal_strlit("suggestedAction");
    assert("suggestedAction"@.len() == 15);
    reveal_strlit("transport_error");
    assert("transport_error"@.len() == 15);
    reveal_strlit("duckdb_error");
    assert("duckdb_error"@.len() == 12);
    assert("kind"@[0] == 'k' && "code"@[0] == 'c');
}

/// A reply carries rows or an error, never both: an envelope of rows has a
/// response and a null `downstreamError`, and an envelope of a failure has a null
/// response and the classified error.
pub proof fn a_reply_has_rows_or_an_error(
    profile: DuckDbProfile,
    backend_name: Seq<char>,
    tool_name: Seq<char>,
    outcome: QueryOutcome,
    duration_ms: int,
    message: Seq<char>,
)
    ensures
        ({
            let ok = rows_envelope(profile, backend_name, tool_name, outcome, duration_ms);
            &&& field(ok, "response"@) matches Some(response) && response is Object
            &&& field(ok, "downstreamError"@) == Some(JsonTree::Null)
        }),
        ({
            let failed = error_envelope(profile, backend_name, tool_name, message);
            &&& field(failed, "response"@) == Some(JsonTree::Null)
            &&& field(failed, "downstreamError"@) == Some(classified(message))
            &&& classified(message) is Object
        }),
{
    broadcast use object_member;

    envelope_keys_differ();
}

/// An error is marked as worth another try exactly where it is of the kind
/// `transport_error`, and it carries its message as it is.
pub proof fn retryable_means_transport(message: Seq<char>)
    ensures
        field(classified(message), "retryable"@) == Some(JsonTree::Bool(is_retryable(message))),
        field(classified(message), "kind"@) == Some(
            JsonTree::Str(error_kind(is_retryable(message))),
        ),
        field(classified(message), "kind"@) == Some(JsonTree::Str("transport_error"@)) <==> field(
            classified(message),
            "retryable"@,
        ) == Some(JsonTree::Bool(true)),
        field(classified(message), "message"@) == Some(JsonTree::Str(message)),
{
    broadcast use object_member;

    envelope_keys_differ();
}

/// The schema of an envelope describes every member of an envelope, and no
/// other.
pub proof fn schema_describes_the_envelope(
    tool_name: Seq<char>,
    profile_name: Seq<char>,
    database: Seq<char>,
    response: JsonTree,
    downstream: Option<JsonTree>,
    error: Option<Seq<char>>,
    items: JsonTree,
    key: Seq<char>,
)
    ensures
        has_key(
            object(
                envelope_pairs(tool_name, profile_name, database, response, downstream, error),
            ),
            key,
        ) <==> has_key(object(envelope_properties(items)), key),
{
    let pairs = envelope_pairs(tool_name, profile_name, database, response, downstream, error);
    let properties = envelope_properties(items);
    object_has_the_keys_of_its_pairs(pairs, key);
    object_has_the_keys_of_its_pairs(properties, key);
    assert(pairs.len() == properties.len());
    assert forall|i: int| 0 <= i < pairs.len() implies (#[trigger] pairs[i]).0
        == properties[i].0 by {}
    if has_key(pairs, key) {
        let i = choose|i: int| 0 <= i < pairs.len() && (#[trigger] pairs[i]).0 == key;
        assert(properties[i].0 == key);
    }
    if has_key(properties, key) {
        let i = choose|i: int| 0 <= i < properties.len() && (#[trigger] properties[i]).0 == key;
        assert(pairs[i].0 == key);
    }
}

/// Every failed query is audited, and a successful call or one to an unknown
/// binding is not.
pub proof fn failures_are_audited(message: Seq<char>)
    ensures
        action_for(failure_label(message)) is Some,
        action_for("invalid_spec"@) is Some,
        action_for("ok"@) is None,
        action_for("profile_not_found"@) is None,
{
    reveal_strlit("timeout");
    assert("timeout"@.len() == 7);
    reveal_strlit("transport_error");
    assert("transport_error"@.len() == 15);
    reveal_strlit("duckdb_error");
    assert("duckdb_error"@.len() == 12);
    reveal_strlit("invalid_spec");
    assert("invalid_spec"@.len() == 12);
    reveal_strlit("ok");
    assert("ok"@.len() == 2);
    reveal_strlit("profile_not_found");
    assert("profile_not_found"@.len() == 17);
}

// --------------------------------------------------------- listing, completion

/// A short page is the last one. After a full page of a listing by offset, the
/// next page begins right behind it, as far as an offset can reach.
pub proof fn pages_follow_each_other(rows: Seq<JsonTree>, cfg: ListQueryConfig, prior_offset: nat)
    ensures
        rows.len() < cfg.page_size ==> next_cursor(rows, cfg, prior_offset as int) is None,
        cfg.mode == ListQueryMode::Offset && rows.len() >= cfg.page_size && prior_offset
            + rows.len() <= u64::MAX ==> {
            let cursor = next_cursor(rows, cfg, prior_offset as int);
            &&& cursor is Some
            &&& cursor_offset(cfg.mode, cursor) == Some((prior_offset + rows.len()) as int)
        },
{
    decimal_reads_back(prior_offset + rows.len());
}

/// A completion gives at most as many candidates as it may.
pub proof fn candidates_stay_under_the_limit(
    rows: Seq<JsonTree>,
    column: Option<Seq<char>>,
    max: int,
)
    requires
        0 <= max,
    ensures
        candidates(rows, column, max).len() <= max,
        candidates(rows, column, max).len() <= rows.len(),
{
    if let Some(column) = column {
        no_more_texts_than_rows(rows, column);
    }
}

/// A column gives at most one text for each row.
proof fn no_more_texts_than_rows(rows: Seq<JsonTree>, column: Seq<char>)
    ensures
        column_texts(rows, column).len() <= rows.len(),
    decreases rows.len(),
{
    if rows.len() > 0 {
        no_more_texts_than_rows(rows.drop_last(), column);
    }
}

// ------------------------------------------------------------------- arguments

/// A run of identifier characters is made of them.
proof fn run_is_of_ident_chars(s: Seq<char>, i: int)
    requires
        0 <= i <= s.len(),
    ensures
        i <= run_end(s, i) <= s.len(),
        forall|k: int| i <= k < run_end(s, i) ==> is_ident_char(#[trigger] s[k]),
    decreases s.len() - i,
{
    if i < s.len() && is_ident_char(s[i]) {
        run_is_of_ident_chars(s, i + 1);
    }
}

/// A word of identifier characters.
pub open spec fn is_word(name: Seq<char>) -> bool {
    name.len() > 0 && forall|k: int| 0 <= k < name.len() ==> is_ident_char(#[trigger] name[k])
}

/// The names found from a place on are words.
proof fn names_from_are_words(source: Seq<char>, from: int)
    requires
        0 <= from,
    ensures
        forall|i: int|
            0 <= i < argument_idents_from(source, from).len() ==> is_word(
                #[trigger] argument_idents_from(source, from)[i],
            ),
    decreases source.len() - from,
{
    found_not_before(source, "arguments."@, from);
    if let Some(at) = first_from(source, "arguments."@, from) {
        let start = at + "arguments."@.len();
        let end = run_end(source, start);
        run_is_of_ident_chars(source, start);
        if from < end {
            names_from_are_words(source, end);
            let rest = argument_idents_from(source, end);
            let all = argument_idents_from(source, from);
            if start < end {
                let name = source.subrange(start, end);
                assert(is_word(name)) by {
                    assert forall|k: int| 0 <= k < name.len() implies is_ident_char(
                        #[trigger] name[k],
                    ) by {
                        assert(name[k] == source[start + k]);
                    }
                }
                assert forall|i: int| 0 <= i < all.len() implies is_word(#[trigger] all[i]) by {
                    if i > 0 {
                        assert(all[i] == rest[i - 1]);
                    }
                }
            }
        }
    }
}

/// The names that an expression is found to read are words.
pub proof fn argument_names_are_words(source: Seq<char>)
    ensures
        forall|i: int|
            0 <= i < argument_idents(source).len() ==> is_word(#[trigger] argument_idents(source)[i]),
{
    names_from_are_words(source, 0);
}

// ----------------------------------------------------------------------- watch

/// No watch on a database in memory, or on none, is ever accepted; a file with a
/// tracking query that the guard accepts always is.
pub proof fn only_files_are_watched(spec: WatchSpec, verdict: Option<Seq<char>>)
    ensures
        has_no_change_source(spec.database@) ==> watch_rejection(spec, verdict) is Some,
        !has_no_change_source(spec.database@) && !is_blank(spec.tracking_query@)
            && verdict is None <==> watch_rejection(spec, verdict) is None,
        spec.database@ == ":memory:"@ ==> watch_rejection(spec, verdict) is Some,
{
    if spec.database@ == ":memory:"@ {
        let name = ":memory:"@;
        reveal_strlit(":memory:");
        assert(!is_white_space(name[0]));
        assert(!is_white_space(name[7]));
        assert(trimmed(name) == name);
    }
}

} // verus!
