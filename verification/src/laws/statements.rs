//! What holds of the statements that the library writes: which filters a call
//! has, where each stands in the statement and among the binds, and how a file is
//! read and a connection opened.

use vstd::prelude::*;

use crate::call::{fixed_statement, is_step, resolved, resolved_filters, CallStep};
use crate::duckdb::{
    attach_step, attach_text, column_filters, conditions, filter_binds, init_steps,
    list_columns_text, list_tables_text, read_file_text, restricts, setup_steps, step_views,
    table_filters, with_conditions, EngineFault, Filter, FiltersView, OpenPlan, SetupStep, StepView,
};
use crate::envelope::{list_columns_names, list_tables_names};
use crate::json::{field, Json, JsonTree};
use crate::laws::{
    before_path, behind_path, behind_source, path_is_one_literal, read_literal,
    source_is_one_literal,
};
use crate::laws::replies::parts_are_contained;
use crate::params::{bind_views, bound_tree, BindView, DuckBind};
use crate::plugin::DuckDbProfile;
use crate::text::{contains_text, decimal, is_blank, is_identifier, joined, opt_text, texts};
use crate::types::{CatalogFilterConfig, DuckDbAttach, DuckDbOperation, ReadFileFormat};

verus! {

// --------------------------------------------------------------------- filters

/// The text that a call gives under the name of an argument: none where no
/// argument is named, or where the call gives no string, or an empty one.
pub open spec fn given_text(argument: Option<String>, arguments: JsonTree) -> Option<Seq<char>> {
    match argument {
        Some(name) => match field(arguments, name@) {
            Some(JsonTree::Str(value)) => if value.len() > 0 {
                Some(value)
            } else {
                None
            },
            _ => None,
        },
        None => None,
    }
}

/// A filter has the value `value`: the text that the call gives under the
/// argument named for it, or else what the operator configured.
pub open spec fn is_filter_value(
    configured: Option<String>,
    argument: Option<String>,
    arguments: JsonTree,
    value: Option<Seq<char>>,
) -> bool {
    match given_text(argument, arguments) {
        Some(text) => value == Some(text),
        None => value == opt_text(configured),
    }
}

/// Each filter of a call has the value of the argument that is named for it,
/// where the call gives that as a string that is not empty, and else the value
/// that the operator configured for it.
pub proof fn named_arguments_set_their_filters(cfg: CatalogFilterConfig, arguments: JsonTree)
    ensures
        ({
            let filters = resolved_filters(cfg, arguments);
            &&& is_filter_value(cfg.catalog, cfg.catalog_arg, arguments, filters.catalog)
            &&& is_filter_value(cfg.schema, cfg.schema_arg, arguments, filters.schema)
            &&& is_filter_value(cfg.table, cfg.table_arg, arguments, filters.table)
            &&& is_filter_value(cfg.table_type, cfg.table_type_arg, arguments, filters.table_type)
        }),
{
}

/// One filter by itself is the argument that is named for it, where the call gives
/// that as a string, be it empty, and else the configured value.
pub proof fn one_filter_is_its_argument_or_its_value(
    configured: Option<Seq<char>>,
    argument: Option<Seq<char>>,
    arguments: JsonTree,
)
    ensures
        argument is None ==> resolved(configured, argument, arguments) == configured,
        argument matches Some(name) ==> match field(arguments, name) {
            Some(JsonTree::Str(value)) => resolved(configured, argument, arguments) == Some(value),
            _ => resolved(configured, argument, arguments) == configured,
        },
{
}

/// Two calls give the same under the name of an argument.
pub open spec fn agree_on(argument: Option<String>, a: JsonTree, b: JsonTree) -> bool {
    argument matches Some(name) ==> field(a, name@) == field(b, name@)
}

/// A filter depends on no argument but the one named for it: calls that agree on
/// that one have the same value for the filter, whatever else they hold.
pub proof fn filters_read_their_own_argument(cfg: CatalogFilterConfig, a: JsonTree, b: JsonTree)
    ensures
        agree_on(cfg.catalog_arg, a, b) ==> resolved_filters(cfg, a).catalog == resolved_filters(
            cfg,
            b,
        ).catalog,
        agree_on(cfg.schema_arg, a, b) ==> resolved_filters(cfg, a).schema == resolved_filters(
            cfg,
            b,
        ).schema,
        agree_on(cfg.table_arg, a, b) ==> resolved_filters(cfg, a).table == resolved_filters(
            cfg,
            b,
        ).table,
        agree_on(cfg.table_type_arg, a, b) ==> resolved_filters(cfg, a).table_type
            == resolved_filters(cfg, b).table_type,
{
}

// ---------------------------------------------------------- catalog statements

/// A filter restricts exactly where it has a value that is not empty.
pub proof fn only_empty_filters_do_not_restrict(value: Option<Seq<char>>)
    ensures
        restricts(value) <==> value is Some && value != Some(Seq::<char>::empty()),
{
    if let Some(v) = value {
        if v.len() == 0 {
            assert(v =~= Seq::<char>::empty());
        }
    }
}

/// One where a filter restricts, and none where it does not.
pub open spec fn one_if(value: Option<Seq<char>>) -> int {
    if restricts(value) {
        1
    } else {
        0
    }
}

/// At place `k` stand the condition on a column and, as its bind, a value.
pub open spec fn stands_at(
    conditions: Seq<Seq<char>>,
    binds: Seq<BindView>,
    k: int,
    column: Seq<char>,
    value: Option<Seq<char>>,
) -> bool {
    &&& 0 <= k < conditions.len()
    &&& k < binds.len()
    &&& conditions[k] == column + " = ?"@
    &&& binds[k] == BindView::Str(value->0)
}

/// One more filter adds one condition and one bind where it restricts.
proof fn filter_adds(filters: Seq<Filter>, filter: Filter)
    ensures
        conditions(filters.push(filter)) == (if restricts(filter.1) {
            conditions(filters).push(filter.0 + " = ?"@)
        } else {
            conditions(filters)
        }),
        filter_binds(filters.push(filter)) == (if restricts(filter.1) {
            filter_binds(filters).push(BindView::Str(filter.1->0))
        } else {
            filter_binds(filters)
        }),
{
    assert(filters.push(filter).drop_last() =~= filters);
}

/// Every filter of a listing of columns that restricts stands in the statement as
/// the condition on its own column, with its own value as the bind at the same
/// place: catalog, schema and table, in this order, and nothing else.
pub proof fn column_filters_are_bound_in_order(f: FiltersView)
    ensures
        ({
            let all = conditions(column_filters(f));
            let binds = filter_binds(column_filters(f));
            let schema = one_if(f.catalog);
            let table = schema + one_if(f.schema);
            &&& all.len() == table + one_if(f.table)
            &&& binds.len() == all.len()
            &&& restricts(f.catalog) ==> stands_at(all, binds, 0, "table_catalog"@, f.catalog)
            &&& restricts(f.schema) ==> stands_at(all, binds, schema, "table_schema"@, f.schema)
            &&& restricts(f.table) ==> stands_at(all, binds, table, "table_name"@, f.table)
        }),
{
    let none = Seq::<Filter>::empty();
    let one = none.push(("table_catalog"@, f.catalog));
    let two = one.push(("table_schema"@, f.schema));
    filter_adds(none, ("table_catalog"@, f.catalog));
    filter_adds(one, ("table_schema"@, f.schema));
    filter_adds(two, ("table_name"@, f.table));
    assert(column_filters(f) =~= two.push(("table_name"@, f.table)));
}

/// A listing of tables has the filters of a listing of columns and, behind them,
/// the one on the type of the table.
pub proof fn table_filters_are_bound_in_order(f: FiltersView)
    ensures
        ({
            let all = conditions(table_filters(f));
            let binds = filter_binds(table_filters(f));
            let schema = one_if(f.catalog);
            let table = schema + one_if(f.schema);
            let table_type = table + one_if(f.table);
            &&& all.len() == table_type + one_if(f.table_type)
            &&& binds.len() == all.len()
            &&& restricts(f.catalog) ==> stands_at(all, binds, 0, "table_catalog"@, f.catalog)
            &&& restricts(f.schema) ==> stands_at(all, binds, schema, "table_schema"@, f.schema)
            &&& restricts(f.table) ==> stands_at(all, binds, table, "table_name"@, f.table)
            &&& restricts(f.table_type) ==> stands_at(
                all,
                binds,
                table_type,
                "table_type"@,
                f.table_type,
            )
        }),
{
    column_filters_are_bound_in_order(f);
    filter_adds(column_filters(f), ("table_type"@, f.table_type));
    assert(table_filters(f) =~= column_filters(f).push(("table_type"@, f.table_type)));
}

/// What stands between the head and the tail of a statement with conditions.
pub open spec fn where_clause(conditions: Seq<Seq<char>>) -> Seq<char> {
    if conditions.len() == 0 {
        Seq::empty()
    } else {
        " WHERE "@ + joined(conditions, " AND "@)
    }
}

/// One more part stands behind those there are, with the separator between.
pub proof fn parts_are_joined_in_order(parts: Seq<Seq<char>>, part: Seq<char>, sep: Seq<char>)
    ensures
        joined(Seq::empty(), sep) == Seq::<char>::empty(),
        joined(Seq::empty().push(part), sep) == part,
        parts.len() > 0 ==> joined(parts.push(part), sep) == joined(parts, sep) + sep + part,
{
    assert(parts.push(part).drop_last() =~= parts);
}

/// The columns of a listing of tables, as they are selected.
proof fn selected_of_tables()
    ensures
        "SELECT table_catalog, table_schema, table_name, table_type FROM information_schema.tables"@
            == "SELECT "@ + joined(list_tables_names(), ", "@)
            + " FROM information_schema.tables"@,
{
    reveal_strlit(
        "SELECT table_catalog, table_schema, table_name, table_type FROM information_schema.tables",
    );
    reveal_strlit("SELECT ");
    reveal_strlit(", ");
    reveal_strlit("table_catalog");
    reveal_strlit("table_schema");
    reveal_strlit("table_name");
    reveal_strlit("table_type");
    reveal_strlit(" FROM information_schema.tables");
    let none = Seq::<Seq<char>>::empty();
    let one = none.push("table_catalog"@);
    let two = one.push("table_schema"@);
    let three = two.push("table_name"@);
    parts_are_joined_in_order(none, "table_catalog"@, ", "@);
    parts_are_joined_in_order(one, "table_schema"@, ", "@);
    parts_are_joined_in_order(two, "table_name"@, ", "@);
    parts_are_joined_in_order(three, "table_type"@, ", "@);
    assert(list_tables_names() =~= three.push("table_type"@));
    assert("SELECT table_catalog, table_schema, table_name, table_type FROM information_schema.tables"@
        =~= "SELECT "@ + ("table_catalog"@ + ", "@ + "table_schema"@ + ", "@ + "table_name"@ + ", "@
        + "table_type"@) + " FROM information_schema.tables"@);
}

/// The columns of a listing of columns, as they are selected.
proof fn selected_of_columns()
    ensures
        "SELECT table_name, column_name, data_type, is_nullable, ordinal_position FROM information_schema.columns"@
            == "SELECT "@ + joined(list_columns_names(), ", "@)
            + " FROM information_schema.columns"@,
{
    reveal_strlit(
        "SELECT table_name, column_name, data_type, is_nullable, ordinal_position FROM information_schema.columns",
    );
    reveal_strlit("SELECT ");
    reveal_strlit(", ");
    reveal_strlit("table_name");
    reveal_strlit("column_name");
    reveal_strlit("data_type");
    reveal_strlit("is_nullable");
    reveal_strlit("ordinal_position");
    reveal_strlit(" FROM information_schema.columns");
    let none = Seq::<Seq<char>>::empty();
    let one = none.push("table_name"@);
    let two = one.push("column_name"@);
    let three = two.push("data_type"@);
    let four = three.push("is_nullable"@);
    parts_are_joined_in_order(none, "table_name"@, ", "@);
    parts_are_joined_in_order(one, "column_name"@, ", "@);
    parts_are_joined_in_order(two, "data_type"@, ", "@);
    parts_are_joined_in_order(three, "is_nullable"@, ", "@);
    parts_are_joined_in_order(four, "ordinal_position"@, ", "@);
    assert(list_columns_names() =~= four.push("ordinal_position"@));
    assert("SELECT table_name, column_name, data_type, is_nullable, ordinal_position FROM information_schema.columns"@
        =~= "SELECT "@ + ("table_name"@ + ", "@ + "column_name"@ + ", "@ + "data_type"@ + ", "@
        + "is_nullable"@ + ", "@ + "ordinal_position"@) + " FROM information_schema.columns"@);
}

/// A listing selects exactly the columns that the schema of its replies
/// describes, from the view of the engine that holds them, under its conditions,
/// all of which have to hold, in a fixed order.
pub proof fn listings_select_the_described_columns(f: FiltersView)
    ensures
        list_tables_text(f) == "SELECT "@ + joined(list_tables_names(), ", "@)
            + " FROM information_schema.tables"@ + where_clause(conditions(table_filters(f)))
            + " ORDER BY table_schema, table_name"@,
        list_columns_text(f) == "SELECT "@ + joined(list_columns_names(), ", "@)
            + " FROM information_schema.columns"@ + where_clause(conditions(column_filters(f)))
            + " ORDER BY table_name, ordinal_position"@,
{
    selected_of_tables();
    selected_of_columns();
    let tables =
        "SELECT table_catalog, table_schema, table_name, table_type FROM information_schema.tables"@;
    let columns =
        "SELECT table_name, column_name, data_type, is_nullable, ordinal_position FROM information_schema.columns"@;
    clause_stands_between(
        tables,
        conditions(table_filters(f)),
        " ORDER BY table_schema, table_name"@,
    );
    clause_stands_between(
        columns,
        conditions(column_filters(f)),
        " ORDER BY table_name, ordinal_position"@,
    );
}

/// The conditions stand between head and tail.
proof fn clause_stands_between(head: Seq<char>, all: Seq<Seq<char>>, tail: Seq<char>)
    ensures
        with_conditions(head, all, tail) == head + where_clause(all) + tail,
{
    assert(with_conditions(head, all, tail) =~= head + where_clause(all) + tail);
}

/// What a list of binds says, by place.
proof fn binds_say_their_views(binds: Seq<DuckBind>, k: int, text: Seq<char>)
    requires
        0 <= k < binds.len(),
        bind_views(binds)[k] == BindView::Str(text),
    ensures
        bound_tree(binds[k]) == JsonTree::Str(text),
{
    assert(bind_views(binds)[k] == binds[k]@);
}

/// A listing of tables always runs, and its binds are the values of the filters
/// that restrict, in order.
pub proof fn tables_are_listed_under_the_filters(
    profile: DuckDbProfile,
    backend_name: Seq<char>,
    tool_name: Seq<char>,
    arguments: JsonTree,
    values: Result<Vec<Json>, String>,
    step: CallStep,
)
    requires
        profile.operation == DuckDbOperation::ListTables,
        is_step(profile, backend_name, tool_name, arguments, values, step),
    ensures
        step is Run,
        step->max_rows == profile.max_rows,
        ({
            let f = resolved_filters(profile.catalog_filters, arguments);
            let binds = step->binds@;
            let schema = one_if(f.catalog);
            let table = schema + one_if(f.schema);
            let table_type = table + one_if(f.table);
            &&& step->statement@ == list_tables_text(f)
            &&& binds.len() == table_type + one_if(f.table_type)
            &&& restricts(f.catalog) ==> bound_tree(binds[0]) == JsonTree::Str(f.catalog->0)
            &&& restricts(f.schema) ==> bound_tree(binds[schema]) == JsonTree::Str(f.schema->0)
            &&& restricts(f.table) ==> bound_tree(binds[table]) == JsonTree::Str(f.table->0)
            &&& restricts(f.table_type) ==> bound_tree(binds[table_type]) == JsonTree::Str(
                f.table_type->0,
            )
        }),
{
    let f = resolved_filters(profile.catalog_filters, arguments);
    let binds = step->binds@;
    table_filters_are_bound_in_order(f);
    assert(bind_views(binds).len() == binds.len());
    if restricts(f.catalog) {
        binds_say_their_views(binds, 0, f.catalog->0);
    }
    if restricts(f.schema) {
        binds_say_their_views(binds, one_if(f.catalog), f.schema->0);
    }
    if restricts(f.table) {
        binds_say_their_views(binds, one_if(f.catalog) + one_if(f.schema), f.table->0);
    }
    if restricts(f.table_type) {
        binds_say_their_views(
            binds,
            one_if(f.catalog) + one_if(f.schema) + one_if(f.table),
            f.table_type->0,
        );
    }
}

/// A listing of columns runs exactly where the call has a table, and its binds are
/// the values of the filters that restrict, in order.
pub proof fn columns_are_listed_under_the_filters(
    profile: DuckDbProfile,
    backend_name: Seq<char>,
    tool_name: Seq<char>,
    arguments: JsonTree,
    values: Result<Vec<Json>, String>,
    step: CallStep,
)
    requires
        profile.operation == DuckDbOperation::ListColumns,
        is_step(profile, backend_name, tool_name, arguments, values, step),
    ensures
        step is Run || step is Done,
        step is Run <==> restricts(resolved_filters(profile.catalog_filters, arguments).table),
        step is Run ==> {
            let f = resolved_filters(profile.catalog_filters, arguments);
            let binds = step->binds@;
            let schema = one_if(f.catalog);
            let table = schema + one_if(f.schema);
            &&& step->max_rows == profile.max_rows
            &&& step->statement@ == list_columns_text(f)
            &&& binds.len() == table + 1
            &&& restricts(f.catalog) ==> bound_tree(binds[0]) == JsonTree::Str(f.catalog->0)
            &&& restricts(f.schema) ==> bound_tree(binds[schema]) == JsonTree::Str(f.schema->0)
            &&& bound_tree(binds[table]) == JsonTree::Str(f.table->0)
        },
        step matches CallStep::Done(reply) ==> reply.label@ == "invalid_spec"@,
{
    if step is Run {
        let f = resolved_filters(profile.catalog_filters, arguments);
        let binds = step->binds@;
        column_filters_are_bound_in_order(f);
        assert(bind_views(binds).len() == binds.len());
        if restricts(f.catalog) {
            binds_say_their_views(binds, 0, f.catalog->0);
        }
        if restricts(f.schema) {
            binds_say_their_views(binds, one_if(f.catalog), f.schema->0);
        }
        binds_say_their_views(binds, one_if(f.catalog) + one_if(f.schema), f.table->0);
    }
}

// ------------------------------------------------------------------------ files

/// The columns that a read of a file selects: those that are named, or all.
pub proof fn file_columns_are_selected(
    table_function: Seq<char>,
    path: Seq<char>,
    columns: Seq<Seq<char>>,
    predicate: Option<Seq<char>>,
)
    ensures
        ({
            let statement = read_file_text(table_function, path, columns, predicate);
            let what = if columns.len() == 0 {
                "*"@
            } else {
                joined(columns, ", "@)
            };
            ("SELECT "@ + what + " FROM "@ + table_function + "('"@).is_prefix_of(statement)
        }),
{
    let statement = read_file_text(table_function, path, columns, predicate);
    let head = before_path(table_function, columns);
    path_is_one_literal(table_function, path, columns, predicate);
    assert(statement.take(head.len() as int) == head);
}

/// A read of a file has the operator's condition at its end, where it is not
/// blank, and else ends behind the path.
pub proof fn file_condition_comes_last(
    table_function: Seq<char>,
    path: Seq<char>,
    columns: Seq<Seq<char>>,
    predicate: Option<Seq<char>>,
)
    ensures
        ({
            let statement = read_file_text(table_function, path, columns, predicate);
            &&& predicate is Some && !is_blank(predicate->0) ==> (")"@ + " WHERE "@
                + predicate->0).is_suffix_of(statement)
            &&& predicate is None || is_blank(predicate->0) ==> "')"@.is_suffix_of(statement)
        }),
{
    reveal_strlit("')");
    reveal_strlit(")");
    let statement = read_file_text(table_function, path, columns, predicate);
    let n = statement.len() as int;
    if predicate is None || is_blank(predicate->0) {
        assert(statement.subrange(n - 2, n) =~= "')"@);
    } else {
        let tail = ")"@ + " WHERE "@ + predicate->0;
        assert(statement.subrange(n - tail.len(), n) =~= tail);
    }
}

/// A binding that reads a file reads the file of its configuration, with the
/// function for its format, and nothing of a call changes that.
pub proof fn files_are_read_as_configured(profile: DuckDbProfile)
    requires
        profile.operation == DuckDbOperation::ReadFile,
        profile.read_file is Some,
    ensures
        ({
            let cfg = profile.read_file->0;
            let function = match cfg.format {
                ReadFileFormat::Parquet => "read_parquet"@,
                ReadFileFormat::Csv => "read_csv_auto"@,
            };
            let head = before_path(function, texts(cfg.columns@));
            let statement = fixed_statement(profile);
            &&& head.is_prefix_of(statement)
            &&& read_literal(statement.skip(head.len() as int)) == Some(
                (cfg.path@, behind_path(opt_text(cfg.predicate))),
            )
        }),
{
    let cfg = profile.read_file->0;
    let statement = fixed_statement(profile);
    path_is_one_literal(
        cfg.format.function_name(),
        cfg.path@,
        texts(cfg.columns@),
        opt_text(cfg.predicate),
    );
    let head = before_path(cfg.format.function_name(), texts(cfg.columns@));
    assert(statement.take(head.len() as int) == head);
}

// ---------------------------------------------------------------------- opening

/// A connection is opened as configured: with external access exactly where it is
/// allowed, and read-only exactly where the database is a file and has to be.
pub proof fn connections_open_as_configured(
    plan: OpenPlan,
    database: Seq<char>,
    read_only: bool,
    allow_external_access: bool,
    init_sql: Seq<Seq<char>>,
    attach: Seq<DuckDbAttach>,
)
    requires
        plan.is_of(database, read_only, allow_external_access, init_sql, attach),
    ensures
        allow_external_access ==> plan.external_access,
        !allow_external_access ==> !plan.external_access,
        !read_only ==> !plan.open_read_only,
        database == ":memory:"@ ==> !plan.open_read_only,
        read_only && database != ":memory:"@ ==> plan.open_read_only,
        plan.steps@.len() >= init_sql.len(),
        forall|i: int|
            0 <= i < init_sql.len() ==> (#[trigger] plan.steps@[i] matches SetupStep::Run {
                sql,
                failure,
            } && sql@ == init_sql[i]),
        attach.len() == 0 ==> plan.steps@.len() == init_sql.len(),
        attach.len() > 0 ==> plan.steps@.len() > init_sql.len() && plan.steps@[init_sql.len() as int]@
            == attach_step(attach[0]),
{
    let views = step_views(plan.steps@);
    let inits = init_steps(init_sql);
    assert(views == setup_steps(init_sql, attach));
    assert(views.len() == plan.steps@.len());
    assert forall|i: int| 0 <= i < init_sql.len() implies (#[trigger] plan.steps@[i] matches SetupStep::Run {
        sql,
        failure,
    } && sql@ == init_sql[i]) by {
        assert(views[i] == plan.steps@[i]@);
        assert(views[i] == inits[i]);
    }
    if attach.len() > 0 {
        crate::laws::only_the_last_step_refuses(attach);
        let made = crate::duckdb::attach_steps(attach);
        assert(made.len() > 0);
        assert(views[init_sql.len() as int] == made[0]);
        assert(made[0] == attach_step(attach[0]));
    }
}

/// A database is attached exactly where its alias is safe: from its source, as one
/// literal, under its alias, and read-only where it has to be.
pub proof fn databases_are_attached_as_configured(a: DuckDbAttach)
    ensures
        attach_step(a) is Refuse <==> !is_identifier(a.alias@),
        attach_step(a) matches StepView::Run(sql, failure) ==> {
            let head = "ATTACH '"@;
            &&& head.is_prefix_of(sql)
            &&& read_literal(sql.skip(head.len() as int)) == Some((a.source@, behind_source(a)))
        },
{
    source_is_one_literal(a);
    assert(attach_text(a).take("ATTACH '"@.len() as int) == "ATTACH '"@);
}

/// Where setting up a connection fails, the message tells which statement of the
/// operator's it was, or which alias.
pub proof fn failed_steps_are_told_apart(init_sql: Seq<Seq<char>>, i: int, a: DuckDbAttach)
    requires
        0 <= i < init_sql.len(),
    ensures
        init_steps(init_sql).len() == init_sql.len(),
        init_steps(init_sql)[i] matches StepView::Run(sql, failure) && sql == init_sql[i]
            && contains_text(failure, decimal(i)),
        attach_step(a) matches StepView::Run(sql, failure) ==> contains_text(failure, a.alias@),
        attach_step(a) matches StepView::Refuse(message) ==> contains_text(message, a.alias@),
{
    parts_are_contained("DuckDB init_sql["@, decimal(i), "] failed: "@);
    parts_are_contained("DuckDB attach `"@, a.alias@, "` failed: "@);
    parts_are_contained("DuckDB attach alias `"@, a.alias@, "` is not a safe identifier"@);
}

/// The text of the error that a fault carries.
pub open spec fn fault_text(fault: EngineFault) -> Seq<char> {
    match fault {
        EngineFault::ExternalAccess(e) => e@,
        EngineFault::ReadOnly(e) => e@,
        EngineFault::Open(e) => e@,
        EngineFault::OpenWorker(e) => e@,
        EngineFault::PoolBuild(e) => e@,
        EngineFault::Recycle(e) => e@,
        EngineFault::Prepare(e) => e@,
        EngineFault::Query(e) => e@,
        EngineFault::RowRead(e) => e@,
    }
}

/// What is reported of a fault ends with the text of the engine's error, whole.
pub proof fn faults_are_reported_with_their_text(fault: EngineFault)
    ensures
        fault_text(fault).is_suffix_of(fault.report()),
        fault_text(fault).len() < fault.report().len(),
{
    reveal_strlit("DuckDB config (external access) failed: ");
    reveal_strlit("DuckDB config (read-only) failed: ");
    reveal_strlit("DuckDB open failed: ");
    reveal_strlit("DuckDB open worker task failed: ");
    reveal_strlit("DuckDB pool build failed: ");
    reveal_strlit("recycle ping failed: ");
    reveal_strlit("DuckDB prepare failed: ");
    reveal_strlit("DuckDB query failed: ");
    reveal_strlit("DuckDB row read failed: ");
    let text = fault_text(fault);
    let report = fault.report();
    assert(report.subrange(report.len() - text.len(), report.len() as int) =~= text);
}

} // verus!
