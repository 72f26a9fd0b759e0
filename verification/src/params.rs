//! Parameters: the values that a caller supplies, lowered to bound scalars.
//!
//! A parameter is an expression over the call arguments. Its value is bound to
//! a `?` of the statement and never becomes part of the statement's text.

use vstd::prelude::*;

use crate::json::{
    number_text, object, object_push, object_tree, string, trees, Json, JsonObject, JsonTree, Members,
};
use crate::text::{
    chars_of, decimal, each_once, found_at, ident_char, is_ident_char, occurs_at, push_once,
    text_of, texts,
};

verus! {

/// A scalar to bind.
#[derive(Debug, PartialEq)]
pub enum DuckBind {
    Null,
    Int(i64),
    /// A number that is no integer of 64 bits.
    Real(serde_json::Number),
    Bool(bool),
    Str(String),
}

/// The model of a scalar to bind.
pub enum BindView {
    Null,
    Int(i64),
    Real(serde_json::Number),
    Bool(bool),
    Str(Seq<char>),
}

impl View for DuckBind {
    type V = BindView;

    open spec fn view(&self) -> BindView {
        match *self {
            DuckBind::Null => BindView::Null,
            DuckBind::Int(i) => BindView::Int(i),
            DuckBind::Real(n) => BindView::Real(n),
            DuckBind::Bool(b) => BindView::Bool(b),
            DuckBind::Str(s) => BindView::Str(s@),
        }
    }
}

/// The models of a list of scalars.
pub open spec fn bind_views(binds: Seq<DuckBind>) -> Seq<BindView> {
    binds.map_values(|b: DuckBind| b@)
}

/// What a bound scalar says, read back as a document.
pub open spec fn bound_tree(bind: DuckBind) -> JsonTree {
    match bind {
        DuckBind::Null => JsonTree::Null,
        DuckBind::Int(i) => JsonTree::Number(decimal(i as int)),
        DuckBind::Real(n) => JsonTree::Number(number_text(n)),
        DuckBind::Bool(b) => JsonTree::Bool(b),
        DuckBind::Str(s) => JsonTree::Str(s@),
    }
}

/// What a list of bound scalars says, read back in order.
pub open spec fn bound_trees(binds: Seq<DuckBind>) -> Seq<JsonTree> {
    binds.map_values(|b: DuckBind| bound_tree(b))
}

/// A parameter whose expression has been accepted.
#[derive(Debug, Clone)]
pub struct CompiledParam {
    /// The expression.
    pub source: String,
}

/// The expressions of a list of parameters.
pub open spec fn sources(params: Seq<CompiledParam>) -> Seq<Seq<char>> {
    params.map_values(|p: CompiledParam| p.source@)
}

/// Whether a document is a scalar.
pub open spec fn is_scalar(j: Json) -> bool {
    !(j is Array) && !(j is Object)
}

/// `bind` carries the scalar `j`: an integer of 64 bits as an integer, any other
/// number as it is, and everything else as itself.
pub open spec fn binds_as(j: Json, bind: BindView) -> bool {
    match j {
        Json::Null => bind is Null,
        Json::Bool(b) => bind == BindView::Bool(b),
        Json::Str(s) => bind == BindView::Str(s@),
        Json::Number(n) => match bind {
            BindView::Int(i) => j.tree() == JsonTree::Number(decimal(i as int)),
            BindView::Real(m) => {
                &&& m == n
                &&& forall|i: i64|
                    j.tree() != JsonTree::Number(#[trigger] decimal(i as int))
            },
            _ => false,
        },
        _ => false,
    }
}

/// What is said of a value that cannot be bound.
pub open spec fn not_scalar_message() -> Seq<char> {
    "parameter value must be a scalar; arrays and objects cannot be bound"@
}

/// Lowers a value to a scalar to bind. Arrays and objects are rejected.
pub fn json_to_duck_bind(value: &Json) -> (r: Result<DuckBind, String>)
    ensures
        match r {
            Ok(bind) => is_scalar(*value) && binds_as(*value, bind@),
            Err(e) => !is_scalar(*value) && e@ == not_scalar_message(),
        },
        r is Ok <==> !(value.tree() is Array) && !(value.tree() is Object),
        r matches Ok(bind) ==> bound_tree(bind) == value.tree(),
{
    match value {
        Json::Null => Ok(DuckBind::Null),
        Json::Bool(b) => Ok(DuckBind::Bool(*b)),
        Json::Str(s) => Ok(DuckBind::Str(s.clone())),
        Json::Number(n) => match value.as_i64() {
            Some(i) => Ok(DuckBind::Int(i)),
            None => Ok(DuckBind::Real(n.clone())),
        },
        _ => Err("parameter value must be a scalar; arrays and objects cannot be bound".to_owned()),
    }
}

/// Every value is a scalar.
pub open spec fn all_scalars(values: Seq<Json>) -> bool {
    forall|i: int| 0 <= i < values.len() ==> is_scalar(#[trigger] values[i])
}

/// Each bind carries the value at its place.
pub open spec fn bound_in_order(values: Seq<Json>, binds: Seq<DuckBind>) -> bool {
    &&& binds.len() == values.len()
    &&& forall|i: int| 0 <= i < values.len() ==> binds_as(values[i], (#[trigger] binds[i])@)
}

/// Why the parameters of a call cannot be bound, if they cannot.
pub open spec fn param_failure(values: Result<Vec<Json>, String>) -> Option<Seq<char>> {
    match values {
        Err(e) => Some("evaluating params: "@ + e@),
        Ok(values) => if all_scalars(values@) {
            None
        } else {
            Some("binding params: "@ + not_scalar_message())
        },
    }
}

/// Lowers the values that the parameters evaluated to, one bind for each in
/// order, or says why they could not be evaluated or bound.
pub fn eval_param_binds(values: Result<Vec<Json>, String>) -> (r: Result<Vec<DuckBind>, String>)
    ensures
        match r {
            Ok(binds) => {
                &&& param_failure(values) is None
                &&& bound_in_order(values->Ok_0@, binds@)
            },
            Err(message) => param_failure(values) == Some(message@),
        },
        r matches Ok(binds) ==> values is Ok && bound_trees(binds@) == trees(values->Ok_0@),
{
    match values {
        Ok(list) => {
            let mut binds: Vec<DuckBind> = Vec::new();
            let mut i: usize = 0;
            while i < list.len()
                invariant
                    values == Ok::<Vec<Json>, String>(list),
                    i <= list@.len(),
                    binds@.len() == i,
                    forall|k: int|
                        0 <= k < i ==> binds_as(list@[k], (#[trigger] binds@[k])@) && bound_tree(
                            binds@[k],
                        ) == list@[k].tree(),
                decreases list@.len() - i,
            {
                match json_to_duck_bind(&list[i]) {
                    Ok(bind) => {
                        assert(binds_as(list@[i as int], bind@));
                        binds.push(bind);
                    },
                    Err(e) => {
                        let mut message = "binding params: ".to_owned();
                        message.append(e.as_str());
                        assert(!is_scalar(list@[i as int]));
                        return Err(message);
                    },
                }
                i += 1;
            }
            assert forall|k: int| 0 <= k < list@.len() implies is_scalar(#[trigger] list@[k]) by {
                assert(binds_as(list@[k], binds@[k]@));
            }
            assert(bound_trees(binds@) =~= trees(list@));
            Ok(binds)
        },
        Err(e) => {
            let mut message = "evaluating params: ".to_owned();
            message.append(e.as_str());
            Err(message)
        },
    }
}

// ------------------------------------------------------------ argument names

/// The first place at or after `from` where `needle` stands in `hay`.
pub open spec fn first_from(hay: Seq<char>, needle: Seq<char>, from: int) -> Option<int>
    decreases hay.len() - from,
{
    if occurs_at(hay, needle, from) {
        Some(from)
    } else if from >= hay.len() {
        None
    } else {
        first_from(hay, needle, from + 1)
    }
}

/// The end of the run of identifier characters that begins at `i`.
pub open spec fn run_end(s: Seq<char>, i: int) -> int
    decreases s.len() - i,
{
    if 0 <= i < s.len() && is_ident_char(s[i]) {
        run_end(s, i + 1)
    } else {
        i
    }
}

/// The place found does not lie before the start, and what is found lies within
/// the text.
pub proof fn found_not_before(hay: Seq<char>, needle: Seq<char>, from: int)
    ensures
        first_from(hay, needle, from) matches Some(i) ==> from <= i && i + needle.len() <= hay.len(),
    decreases hay.len() - from,
{
    if !occurs_at(hay, needle, from) && from < hay.len() {
        found_not_before(hay, needle, from + 1);
    }
}

/// The names that follow `arguments.` in `source`, in order, from the place
/// `from` on.
pub open spec fn argument_idents_from(source: Seq<char>, from: int) -> Seq<Seq<char>>
    decreases source.len() - from,
{
    match first_from(source, "arguments."@, from) {
        Some(i) => {
            let start = i + "arguments."@.len();
            let end = run_end(source, start);
            if from < end <= source.len() {
                let rest = argument_idents_from(source, end);
                if start < end {
                    seq![source.subrange(start, end)] + rest
                } else {
                    rest
                }
            } else {
                Seq::empty()
            }
        },
        None => Seq::empty(),
    }
}

/// The names that follow `arguments.` in `source`, in order.
pub open spec fn argument_idents(source: Seq<char>) -> Seq<Seq<char>> {
    argument_idents_from(source, 0)
}

/// The first place at or after `from` where `needle` stands in `hay`.
fn find_from(hay: &Vec<char>, needle: &Vec<char>, from: usize) -> (at: Option<usize>)
    requires
        from <= hay@.len(),
    ensures
        match at {
            Some(i) => first_from(hay@, needle@, from as int) == Some(i as int),
            None => first_from(hay@, needle@, from as int) is None,
        },
{
    let mut i: usize = from;
    while i < hay.len()
        invariant
            i <= hay@.len(),
            first_from(hay@, needle@, i as int) == first_from(hay@, needle@, from as int),
        decreases hay@.len() - i,
    {
        if found_at(hay, needle, i) {
            return Some(i);
        }
        i += 1;
    }
    if found_at(hay, needle, i) {
        Some(i)
    } else {
        None
    }
}

/// The names that an expression reads as `arguments.<name>`, in order of
/// appearance. A scan of the text: a hint for callers, and no check.
pub fn extract_argument_idents(source: &str) -> (names: Vec<String>)
    ensures
        texts(names@) == argument_idents(source@),
{
    let hay = chars_of(source);
    let marker = chars_of("arguments.");
    let length: usize = hay.len();
    let mut names: Vec<String> = Vec::new();
    let mut from: usize = 0;
    proof {
        reveal_strlit("arguments.");
        assert(texts(names@) + argument_idents_from(hay@, 0) =~= argument_idents(source@));
    }
    loop
        invariant_except_break
            from <= hay@.len(),
            texts(names@) + argument_idents_from(hay@, from as int) == argument_idents(source@),
        invariant
            hay@ == source@,
            marker@ == "arguments."@,
            marker@.len() == 10,
            length == hay@.len(),
        ensures
            texts(names@) == argument_idents(source@),
        decreases hay@.len() - from,
    {
        proof {
            found_not_before(hay@, marker@, from as int);
        }
        match find_from(&hay, &marker, from) {
            Some(i) => {
                let start: usize = i + marker.len();
                let mut end: usize = start;
                while end < hay.len() && ident_char(hay[end])
                    invariant
                        start <= end <= hay@.len(),
                        run_end(hay@, end as int) == run_end(hay@, start as int),
                    decreases hay@.len() - end,
                {
                    end += 1;
                }
                let ghost before = texts(names@);
                let ghost rest = argument_idents_from(hay@, end as int);
                if end > start {
                    names.push(text_of(&hay, start, end));
                    assert(texts(names@) =~= before.push(hay@.subrange(start as int, end as int)));
                    assert(texts(names@) + rest =~= before + (seq![
                        hay@.subrange(start as int, end as int),
                    ] + rest));
                }
                from = end;
            },
            None => {
                assert(texts(names@) + argument_idents_from(hay@, from as int) =~= texts(names@));
                break;
            },
        }
    }
    names
}

/// The names that a list of expressions reads, in order of appearance.
pub open spec fn all_argument_idents(sources: Seq<Seq<char>>) -> Seq<Seq<char>>
    decreases sources.len(),
{
    if sources.len() == 0 {
        Seq::empty()
    } else {
        all_argument_idents(sources.drop_last()) + argument_idents(sources.last())
    }
}

/// The call arguments that the parameters of a binding read, each once, in
/// order of first appearance.
pub fn arguments_referenced_by_params(params: &Vec<CompiledParam>) -> (names: Vec<String>)
    ensures
        texts(names@) == each_once(all_argument_idents(sources(params@))),
{
    let mut names: Vec<String> = Vec::new();
    let ghost all = sources(params@);
    assert(all.take(0) =~= Seq::empty());
    assert(texts(names@) =~= Seq::<Seq<char>>::empty());
    let mut i: usize = 0;
    while i < params.len()
        invariant
            i <= params@.len(),
            all == sources(params@),
            texts(names@) == each_once(all_argument_idents(all.take(i as int))),
        decreases params@.len() - i,
    {
        let found = extract_argument_idents(params[i].source.as_str());
        let ghost before = all_argument_idents(all.take(i as int));
        let ghost here = texts(found@);
        assert(before + here.take(0) =~= before);
        let mut k: usize = 0;
        while k < found.len()
            invariant
                k <= found@.len(),
                here == texts(found@),
                texts(names@) == each_once(before + here.take(k as int)),
            decreases found@.len() - k,
        {
            proof {
                let longer = before + here.take(k + 1);
                assert(longer.drop_last() =~= before + here.take(k as int));
                assert(longer.last() == found@[k as int]@);
            }
            push_once(&mut names, found[k].as_str());
            k += 1;
        }
        proof {
            assert(here.take(k as int) =~= here);
            let longer = all.take(i + 1);
            assert(longer.drop_last() =~= all.take(i as int));
            assert(longer.last() == params@[i as int].source@);
        }
        i += 1;
    }
    assert(all.take(i as int) =~= all);
    names
}

/// An open property for each name.
pub open spec fn open_properties(names: Seq<Seq<char>>) -> Members {
    names.map_values(|name: Seq<char>| (name, object_tree(Members::empty())))
}

/// An open object schema with an untyped, optional property for each name.
pub open spec fn open_schema(names: Seq<Seq<char>>) -> JsonTree {
    object_tree(
        Members::empty().push(("type"@, JsonTree::Str("object"@))).push(
            ("properties"@, object_tree(open_properties(names))),
        ).push(("additionalProperties"@, JsonTree::Bool(true))),
    )
}

/// The schema of the arguments of a call: an open object that lists the names
/// without typing or requiring any of them.
pub fn params_input_schema(names: &Vec<String>) -> (schema: Json)
    ensures
        schema.tree() == open_schema(texts(names@)),
{
    broadcast use object_push;

    let ghost pairs = open_properties(texts(names@));
    let mut properties = JsonObject::new();
    let mut i: usize = 0;
    assert(pairs.take(0) =~= Members::empty());
    while i < names.len()
        invariant
            i <= names@.len(),
            pairs == open_properties(texts(names@)),
            properties.entries() == object(pairs.take(i as int)),
        decreases names@.len() - i,
    {
        proof {
            assert(object(Members::empty()) =~= Members::empty());
            assert(pairs.take(i + 1) =~= pairs.take(i as int).push(pairs[i as int]));
            object_push(pairs.take(i as int), pairs[i as int]);
        }
        properties = properties.with(names[i].as_str(), Json::Object(JsonObject::new()));
        i += 1;
    }
    assert(pairs.take(i as int) =~= pairs);
    Json::Object(
        JsonObject::new().with("type", string("object")).with(
            "properties",
            Json::Object(properties),
        ).with("additionalProperties", Json::Bool(true)),
    )
}

} // verus!
