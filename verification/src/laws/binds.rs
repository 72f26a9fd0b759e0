//! What holds of the values that a caller supplies: each is bound as it is, at
//! its place, and nothing else of the caller reaches the statement.

use vstd::prelude::*;

use crate::call::{fixed_statement, is_step, CallStep};
use crate::json::{trees, Json, JsonTree};
use crate::laws::rows::decimal_is_injective;
use crate::params::{
    argument_idents, argument_idents_from, binds_as, bound_in_order, bound_tree, bound_trees,
    first_from, found_not_before, param_failure, run_end, DuckBind,
};
use crate::plugin::DuckDbProfile;
use crate::surface::Surface;
use crate::text::{decimal, is_ident_char, occurs_at};
use crate::types::DuckDbOperation;

verus! {

// ---------------------------------------------------------------------- values

/// Binding loses nothing: a bind that carries a value reads back as that value.
pub proof fn bind_reads_back(value: Json, bind: DuckBind)
    requires
        binds_as(value, bind@),
    ensures
        bound_tree(bind) == value.tree(),
{
}

/// Values that are bound alike are alike.
pub proof fn equal_binds_carry_equal_values(a: Json, b: Json, x: DuckBind, y: DuckBind)
    requires
        binds_as(a, x@),
        binds_as(b, y@),
        x@ == y@,
    ensures
        a.tree() == b.tree(),
{
    bind_reads_back(a, x);
    bind_reads_back(b, y);
}

/// A truth value is bound as a truth value, a string as a string, null as null,
/// and a number as a number: no value changes its kind.
pub proof fn binds_keep_their_kind(value: Json, bind: DuckBind)
    requires
        binds_as(value, bind@),
    ensures
        value is Null <==> bind is Null,
        value is Bool <==> bind is Bool,
        value is Str <==> bind is Str,
        value is Number <==> bind is Int || bind is Real,
        value matches Json::Bool(b) ==> bind == DuckBind::Bool(b),
        value matches Json::Str(s) ==> bind matches DuckBind::Str(t) && t@ == s@,
        !(value is Array),
        !(value is Object),
{
}

/// An integer of 64 bits is bound as that integer, and no other number is bound as
/// an integer.
pub proof fn integers_are_bound_as_integers(value: Json, bind: DuckBind, i: i64)
    requires
        binds_as(value, bind@),
    ensures
        value.tree() == JsonTree::Number(decimal(i as int)) <==> bind == DuckBind::Int(i),
{
    if bind == DuckBind::Int(i) {
        bind_reads_back(value, bind);
    }
    if value.tree() == JsonTree::Number(decimal(i as int)) {
        if let DuckBind::Int(n) = bind {
            decimal_is_injective(n as int, i as int);
        }
    }
}

/// A list of values is bound value by value, in order.
pub proof fn values_are_bound_in_order(values: Seq<Json>, binds: Seq<DuckBind>)
    requires
        bound_in_order(values, binds),
    ensures
        binds.len() == values.len(),
        bound_trees(binds) == trees(values),
{
    assert forall|i: int| 0 <= i < values.len() implies bound_trees(binds)[i] == trees(
        values,
    )[i] by {
        assert(binds_as(values[i], binds[i]@));
        bind_reads_back(values[i], binds[i]);
    }
    assert(bound_trees(binds) =~= trees(values));
}

/// A document that is a list or an object, and so cannot be bound.
pub open spec fn is_composite(tree: JsonTree) -> bool {
    tree is Array || tree is Object
}

/// Parameters can be bound exactly where they could be evaluated and none of
/// their values is a list or an object; a failure to evaluate them is told as it
/// is.
pub proof fn only_scalars_are_bound(values: Result<Vec<Json>, String>)
    ensures
        param_failure(values) is None <==> (values is Ok && forall|i: int|
            0 <= i < trees(values->Ok_0@).len() ==> !is_composite(
                #[trigger] trees(values->Ok_0@)[i],
            )),
        values matches Err(e) ==> e@.is_suffix_of(param_failure(values)->0),
{
    match values {
        Ok(list) => {
            let all = trees(list@);
            assert forall|i: int| 0 <= i < list@.len() implies ((list@[i] is Array || list@[i] is Object)
                <==> is_composite(#[trigger] all[i])) by {
                assert(all[i] == list@[i].tree());
            }
            if param_failure(values) is None {
                assert forall|i: int| 0 <= i < all.len() implies !is_composite(
                    #[trigger] all[i],
                ) by {
                    assert(crate::params::is_scalar(list@[i]));
                }
            } else {
                let k = choose|k: int|
                    0 <= k < list@.len() && !crate::params::is_scalar(#[trigger] list@[k]);
                assert(is_composite(all[k]));
            }
        },
        Err(e) => {
            let message = param_failure(values)->0;
            assert(message.subrange(message.len() - e@.len(), message.len() as int) =~= e@);
        },
    }
}

// ------------------------------------------------------------------- statements

/// A query or a read of a file that runs sends the operator's statement, with
/// exactly the values of its parameters bound, in order, and keeps as many rows
/// as the binding does.
pub proof fn parameters_are_bound_to_the_statement(
    profile: DuckDbProfile,
    backend_name: Seq<char>,
    tool_name: Seq<char>,
    arguments: JsonTree,
    values: Result<Vec<Json>, String>,
    step: CallStep,
)
    requires
        profile.operation == DuckDbOperation::Query || profile.operation
            == DuckDbOperation::ReadFile,
        is_step(profile, backend_name, tool_name, arguments, values, step),
        step is Run,
    ensures
        values is Ok,
        bound_trees(step->binds@) == trees(values->Ok_0@),
        step->max_rows == profile.max_rows,
        step->statement@ == fixed_statement(profile),
{
    values_are_bound_in_order(values->Ok_0@, step->binds@);
}

/// The statement of a query binding: the read of a resource template where the
/// binding serves resources and has one, and else the binding's own.
pub proof fn queries_send_the_operators_statement(profile: DuckDbProfile)
    requires
        profile.operation == DuckDbOperation::Query,
    ensures
        profile.surface == Surface::Tool ==> fixed_statement(profile) == profile.statement@,
        profile.surface == Surface::Prompt ==> fixed_statement(profile) == profile.statement@,
        profile.read_query is None ==> fixed_statement(profile) == profile.statement@,
        profile.surface == Surface::Resource ==> (profile.read_query matches Some(read)
            ==> fixed_statement(profile) == read@),
{
}

/// Where the parameters cannot be evaluated or bound nothing is run: the call
/// ends with an error that is counted as an invalid request.
pub proof fn unbound_calls_do_not_run(
    profile: DuckDbProfile,
    backend_name: Seq<char>,
    tool_name: Seq<char>,
    arguments: JsonTree,
    values: Result<Vec<Json>, String>,
    step: CallStep,
)
    requires
        profile.operation == DuckDbOperation::Query || profile.operation
            == DuckDbOperation::ReadFile,
        is_step(profile, backend_name, tool_name, arguments, values, step),
    ensures
        values is Err ==> step is Done,
        values matches Ok(list) ==> (step is Run <==> forall|i: int|
            0 <= i < trees(list@).len() ==> !is_composite(#[trigger] trees(list@)[i])),
        step matches CallStep::Done(reply) ==> {
            &&& reply.label@ == "invalid_spec"@
            &&& reply@.reason is Some
            &&& values matches Err(e) ==> e@.is_suffix_of(reply@.reason->0)
        },
{
    only_scalars_are_bound(values);
}

// -------------------------------------------------------------- argument names

/// The marker stands at `i` with `name` behind it, and the name ends there.
pub open spec fn names_argument_at(source: Seq<char>, name: Seq<char>, i: int) -> bool {
    let end = i + "arguments."@.len() + name.len();
    &&& occurs_at(source, "arguments."@ + name, i)
    &&& end < source.len() ==> !is_ident_char(source[end])
}

/// `name` stands somewhere in the text, whole, behind the marker.
pub open spec fn names_argument(source: Seq<char>, name: Seq<char>) -> bool {
    exists|i: int| names_argument_at(source, name, i)
}

/// A run ends where no identifier character follows.
proof fn run_ends(s: Seq<char>, i: int)
    requires
        0 <= i <= s.len(),
    ensures
        i <= run_end(s, i) <= s.len(),
        run_end(s, i) < s.len() ==> !is_ident_char(s[run_end(s, i)]),
    decreases s.len() - i,
{
    if i < s.len() && is_ident_char(s[i]) {
        run_ends(s, i + 1);
    }
}

/// What is found stands where it is found.
proof fn found_stands(hay: Seq<char>, needle: Seq<char>, from: int)
    ensures
        first_from(hay, needle, from) matches Some(i) ==> occurs_at(hay, needle, i),
    decreases hay.len() - from,
{
    if !occurs_at(hay, needle, from) && from < hay.len() {
        found_stands(hay, needle, from + 1);
    }
}

/// Every name found from a place on stands in the text, whole, behind its marker.
proof fn names_from_stand_in_the_text(source: Seq<char>, from: int)
    requires
        0 <= from,
    ensures
        forall|k: int|
            0 <= k < argument_idents_from(source, from).len() ==> names_argument(
                source,
                #[trigger] argument_idents_from(source, from)[k],
            ),
    decreases source.len() - from,
{
    let marker = "arguments."@;
    found_not_before(source, marker, from);
    found_stands(source, marker, from);
    if let Some(at) = first_from(source, marker, from) {
        let start = at + marker.len();
        let end = run_end(source, start);
        run_ends(source, start);
        if from < end {
            names_from_stand_in_the_text(source, end);
            let rest = argument_idents_from(source, end);
            let all = argument_idents_from(source, from);
            assert forall|k: int| 0 <= k < all.len() implies names_argument(
                source,
                #[trigger] all[k],
            ) by {
                if start < end && k == 0 {
                    let name = source.subrange(start, end);
                    assert(all[0] == name);
                    assert(source.subrange(at, at + (marker + name).len()) =~= marker + name);
                    assert(names_argument_at(source, name, at));
                } else {
                    let j = if start < end { k - 1 } else { k };
                    assert(all[k] == rest[j]);
                    assert(names_argument(source, rest[j]));
                }
            }
        }
    }
}

/// Every argument that an expression is found to read stands in it, whole, behind
/// `arguments.`.
pub proof fn named_arguments_stand_in_the_expression(source: Seq<char>)
    ensures
        forall|k: int|
            0 <= k < argument_idents(source).len() ==> names_argument(
                source,
                #[trigger] argument_idents(source)[k],
            ),
{
    names_from_stand_in_the_text(source, 0);
}

/// A run of identifier characters is read to its end.
pub(crate) proof fn run_is_read(s: Seq<char>, i: int, end: int)
    requires
        0 <= i <= end <= s.len(),
        forall|k: int| i <= k < end ==> is_ident_char(#[trigger] s[k]),
        end < s.len() ==> !is_ident_char(s[end]),
    ensures
        run_end(s, i) == end,
    decreases end - i,
{
    if i < end {
        assert(is_ident_char(s[i]));
        run_is_read(s, i + 1, end);
    }
}

/// An expression that begins with an argument reads it first, and then what the
/// rest of it reads; one that is an argument alone reads nothing else.
pub proof fn leading_argument_is_found(name: Seq<char>, rest: Seq<char>)
    requires
        name.len() > 0,
        forall|k: int| 0 <= k < name.len() ==> is_ident_char(#[trigger] name[k]),
        rest.len() > 0 ==> !is_ident_char(rest[0]),
    ensures
        argument_idents("arguments."@ + name + rest).len() > 0,
        argument_idents("arguments."@ + name + rest)[0] == name,
        rest.len() == 0 ==> argument_idents("arguments."@ + name + rest) == seq![name],
{
    let marker = "arguments."@;
    reveal_strlit("arguments.");
    let source = marker + name + rest;
    let end = (marker.len() + name.len()) as int;
    assert(source.subrange(0, marker.len() as int) =~= marker);
    assert(occurs_at(source, marker, 0));
    assert forall|k: int| marker.len() <= k < end implies is_ident_char(#[trigger] source[k]) by {
        assert(source[k] == name[k - marker.len()]);
    }
    if rest.len() > 0 {
        assert(source[end] == rest[0]);
    }
    run_is_read(source, marker.len() as int, end);
    assert(source.subrange(marker.len() as int, end) =~= name);
    if rest.len() == 0 {
        assert(!occurs_at(source, marker, end));
        assert(argument_idents_from(source, end) =~= Seq::empty());
        assert(argument_idents(source) =~= seq![name]);
    }
}

} // verus!
