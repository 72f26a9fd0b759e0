//! JSON documents as plain data, and their bridge to `serde_json`.
//!
//! The rest of the library builds and reads [`Json`]. Parsing bytes and
//! rendering text are left to `serde_json`; what is believed of it stands in
//! the trusted items of this module and nowhere else.

use vstd::prelude::*;
use vstd::utf8::encode_utf8;

use crate::text::{decimal, same_text};

verus! {

/// A JSON number of `serde_json`. The library carries numbers through and
/// reads no more of them than their text.
#[verifier::external_type_specification]
#[verifier::external_body]
pub struct ExNumber(serde_json::Number);

/// A JSON document of `serde_json`.
#[verifier::external_type_specification]
#[verifier::external_body]
pub struct ExValue(serde_json::Value);

/// The text that `serde_json` prints for a number.
pub uninterp spec fn number_text(n: serde_json::Number) -> Seq<char>;

/// What a `serde_json` document holds.
pub uninterp spec fn value_tree(v: serde_json::Value) -> JsonTree;

/// The compact text that `serde_json` renders for a document.
pub uninterp spec fn rendered(tree: JsonTree) -> Seq<char>;

/// What `serde_json` makes of a byte string: the document that it reads, or
/// the text of its error.
pub uninterp spec fn parsed(bytes: Seq<u8>) -> Result<JsonTree, Seq<char>>;

/// A JSON document.
#[derive(Debug, PartialEq)]
pub enum Json {
    Null,
    Bool(bool),
    Number(serde_json::Number),
    Str(String),
    Array(Vec<Json>),
    Object(JsonObject),
}

/// The members of a JSON object, in the order in which their keys first came.
/// No key occurs twice.
#[derive(Debug, PartialEq)]
pub struct JsonObject {
    members: Vec<(String, Json)>,
}

/// The mathematical model of a JSON document.
#[verifier::ext_equal]
pub enum JsonTree {
    Null,
    Bool(bool),
    Number(Seq<char>),
    Str(Seq<char>),
    Array(Seq<JsonTree>),
    Object(Seq<(Seq<char>, JsonTree)>),
}

/// The members of an object: keys with their values, in order.
pub type Members = Seq<(Seq<char>, JsonTree)>;

/// Some member has the key `key`.
pub open spec fn has_key(members: Members, key: Seq<char>) -> bool {
    exists|i: int| 0 <= i < members.len() && (#[trigger] members[i]).0 == key
}

/// No key occurs twice.
pub open spec fn distinct_keys(members: Members) -> bool {
    forall|i: int, j: int|
        0 <= i < j < members.len() ==> (#[trigger] members[i]).0 != (#[trigger] members[j]).0
}

/// The members with `key` set to `value`: replaced where it stands, or added
/// at the end.
pub open spec fn put(members: Members, key: Seq<char>, value: JsonTree) -> Members {
    if has_key(members, key) {
        Seq::new(
            members.len(),
            |i: int|
                if members[i].0 == key {
                    (key, value)
                } else {
                    members[i]
                },
        )
    } else {
        members.push((key, value))
    }
}

/// The value of the first member with the key `key`.
pub open spec fn member(members: Members, key: Seq<char>) -> Option<JsonTree>
    decreases members.len(),
{
    if members.len() == 0 {
        None
    } else if members[0].0 == key {
        Some(members[0].1)
    } else {
        member(members.drop_first(), key)
    }
}

/// Setting a key keeps the keys distinct.
pub proof fn put_keeps_keys_distinct(members: Members, key: Seq<char>, value: JsonTree)
    requires
        distinct_keys(members),
    ensures
        distinct_keys(put(members, key, value)),
        has_key(put(members, key, value), key),
{
    let after = put(members, key, value);
    if has_key(members, key) {
        let i = choose|i: int| 0 <= i < members.len() && (#[trigger] members[i]).0 == key;
        assert(after[i].0 == key);
    } else {
        assert(after[members.len() as int].0 == key);
    }
}

/// The member found under a key is one that stands at some position.
pub proof fn member_at(members: Members, key: Seq<char>, i: int)
    requires
        distinct_keys(members),
        0 <= i < members.len(),
        members[i].0 == key,
    ensures
        member(members, key) == Some(members[i].1),
    decreases members.len(),
{
    if i > 0 {
        let rest = members.drop_first();
        assert(members[0].0 != members[i].0);
        assert(rest[i - 1] == members[i]);
        assert(distinct_keys(rest)) by {
            assert forall|a: int, b: int| 0 <= a < b < rest.len() implies (#[trigger] rest[a]).0 != (
            #[trigger] rest[b]).0 by {
                assert(members[a + 1].0 != members[b + 1].0);
            }
        }
        member_at(rest, key, i - 1);
    }
}

/// Nothing is found under a key that no member has.
pub proof fn member_absent(members: Members, key: Seq<char>)
    requires
        !has_key(members, key),
    ensures
        member(members, key) is None,
    decreases members.len(),
{
    if members.len() > 0 {
        let rest = members.drop_first();
        assert(members[0].0 != key);
        assert forall|i: int| 0 <= i < rest.len() implies (#[trigger] rest[i]).0 != key by {
            assert(rest[i] == members[i + 1]);
        }
        member_absent(rest, key);
    }
}

/// A set key reads back what was set, and every other key reads as before.
pub proof fn put_then_member(members: Members, key: Seq<char>, value: JsonTree, other: Seq<char>)
    requires
        distinct_keys(members),
    ensures
        member(put(members, key, value), key) == Some(value),
        other != key ==> member(put(members, key, value), other) == member(members, other),
{
    let after = put(members, key, value);
    put_keeps_keys_distinct(members, key, value);
    let k = choose|k: int| 0 <= k < after.len() && (#[trigger] after[k]).0 == key;
    member_at(after, key, k);
    if other != key {
        if has_key(members, other) {
            let i = choose|i: int| 0 <= i < members.len() && (#[trigger] members[i]).0 == other;
            member_at(members, other, i);
            assert(after[i] == members[i]);
            member_at(after, other, i);
        } else {
            assert forall|i: int| 0 <= i < after.len() implies (#[trigger] after[i]).0 != other by {
                if i < members.len() {
                    assert(members[i].0 != other);
                }
            }
            member_absent(after, other);
            member_absent(members, other);
        }
    }
}

/// The members that a list of keys with values gives: where a key comes again,
/// the later value takes the place of the earlier one.
pub open spec fn object(pairs: Members) -> Members
    decreases pairs.len(),
{
    if pairs.len() == 0 {
        Members::empty()
    } else {
        put(object(pairs.drop_last()), pairs.last().0, pairs.last().1)
    }
}

/// The object that a list of keys with values gives.
pub open spec fn object_tree(pairs: Members) -> JsonTree {
    JsonTree::Object(object(pairs))
}

/// One more pair sets one more key.
pub broadcast proof fn object_push(pairs: Members, pair: (Seq<char>, JsonTree))
    ensures
        #[trigger] object(pairs.push(pair)) == put(object(pairs), pair.0, pair.1),
{
    assert(pairs.push(pair).drop_last() =~= pairs);
}

/// The keys of an object are distinct.
pub proof fn object_keys_are_distinct(pairs: Members)
    ensures
        distinct_keys(object(pairs)),
    decreases pairs.len(),
{
    if pairs.len() > 0 {
        object_keys_are_distinct(pairs.drop_last());
        put_keeps_keys_distinct(object(pairs.drop_last()), pairs.last().0, pairs.last().1);
    }
}

/// A key of an object reads the value that it was given last.
pub broadcast proof fn object_member(pairs: Members, pair: (Seq<char>, JsonTree), key: Seq<char>)
    ensures
        #[trigger] member(object(pairs.push(pair)), key) == (if pair.0 == key {
            Some(pair.1)
        } else {
            member(object(pairs), key)
        }),
{
    object_push(pairs, pair);
    object_keys_are_distinct(pairs);
    put_then_member(object(pairs), pair.0, pair.1, key);
}

impl Json {
    /// The model of this document.
    pub open spec fn tree(self) -> JsonTree
        decreases self,
    {
        match self {
            Json::Null => JsonTree::Null,
            Json::Bool(b) => JsonTree::Bool(b),
            Json::Number(n) => JsonTree::Number(number_text(n)),
            Json::Str(s) => JsonTree::Str(s@),
            Json::Array(items) => JsonTree::Array(trees(items@)),
            Json::Object(object) => JsonTree::Object(object.entries()),
        }
    }
}

/// The models of a sequence of documents.
pub open spec fn trees(items: Seq<Json>) -> Seq<JsonTree>
    decreases items,
{
    Seq::new(
        items.len(),
        |i: int|
            if 0 <= i < items.len() {
                items[i].tree()
            } else {
                JsonTree::Null
            },
    )
}

impl JsonObject {
    /// The model of this object: its members in order.
    pub closed spec fn entries(self) -> Members
        decreases self,
    {
        Seq::new(
            self.members@.len(),
            |i: int|
                if 0 <= i < self.members@.len() {
                    (self.members@[i].0@, self.members@[i].1.tree())
                } else {
                    (Seq::empty(), JsonTree::Null)
                },
        )
    }

    #[verifier::type_invariant]
    spec fn well_formed(self) -> bool {
        distinct_keys(self.entries())
    }

    /// The object without members.
    pub fn new() -> (object: JsonObject)
        ensures
            object.entries() == Members::empty(),
    {
        let object = JsonObject { members: Vec::new() };
        assert(object.entries() =~= Members::empty());
        object
    }

    /// The number of members.
    pub fn len(&self) -> (n: usize)
        ensures
            n == self.entries().len(),
    {
        self.members.len()
    }

    /// The key of the member at position `i`.
    pub fn key(&self, i: usize) -> (key: &String)
        requires
            i < self.entries().len(),
        ensures
            key@ == self.entries()[i as int].0,
    {
        &self.members[i].0
    }

    /// The value of the member at position `i`.
    pub fn value(&self, i: usize) -> (value: &Json)
        requires
            i < self.entries().len(),
        ensures
            value.tree() == self.entries()[i as int].1,
    {
        &self.members[i].1
    }

    /// The value under `key`, where there is one.
    pub fn get(&self, key: &str) -> (value: Option<&Json>)
        ensures
            match value {
                Some(v) => member(self.entries(), key@) == Some(v.tree()),
                None => member(self.entries(), key@) is None,
            },
    {
        proof {
            use_type_invariant(self);
        }
        let mut i: usize = 0;
        while i < self.members.len()
            invariant
                i <= self.members@.len(),
                distinct_keys(self.entries()),
                self.entries().len() == self.members@.len(),
                forall|k: int| 0 <= k < i ==> (#[trigger] self.entries()[k]).0 != key@,
            decreases self.members@.len() - i,
        {
            if same_text(self.members[i].0.as_str(), key) {
                proof {
                    assert(self.entries()[i as int].0 == key@);
                    member_at(self.entries(), key@, i as int);
                }
                return Some(&self.members[i].1);
            }
            assert(self.entries()[i as int].0 != key@);
            i += 1;
        }
        proof {
            member_absent(self.entries(), key@);
        }
        None
    }

    /// This object with `key` set to `value`: replaced where it stands, or
    /// added at the end.
    pub fn with(self, key: &str, value: Json) -> (object: JsonObject)
        ensures
            object.entries() == put(self.entries(), key@, value.tree()),
    {
        proof {
            use_type_invariant(&self);
            put_keeps_keys_distinct(self.entries(), key@, value.tree());
        }
        let ghost before = self.entries();
        let mut members = self.members;
        let mut i: usize = 0;
        while i < members.len()
            invariant
                i <= members@.len(),
                members == self.members,
                before == self.entries(),
                distinct_keys(before),
                forall|k: int| 0 <= k < i ==> (#[trigger] before[k]).0 != key@,
            decreases members@.len() - i,
        {
            if same_text(members[i].0.as_str(), key) {
                assert(before[i as int].0 == key@);
                members[i] = (key.to_owned(), value);
                proof {
                    let after = (JsonObject { members }).entries();
                    assert forall|k: int| 0 <= k < after.len() implies after[k] == put(
                        before,
                        key@,
                        value.tree(),
                    )[k] by {
                        if k != i {
                            assert(before[k].0 != key@) by {
                                if k < i {
                                } else {
                                    assert(before[i as int].0 != before[k].0);
                                }
                            }
                        }
                    }
                    assert(after =~= put(before, key@, value.tree()));
                }
                return JsonObject { members };
            }
            assert(before[i as int].0 != key@);
            i += 1;
        }
        members.push((key.to_owned(), value));
        proof {
            let after = (JsonObject { members }).entries();
            assert(after =~= before.push((key@, value.tree())));
        }
        JsonObject { members }
    }
}

impl Clone for JsonObject {
    fn clone(&self) -> (copy: JsonObject)
        ensures
            copy.entries() == self.entries(),
        decreases self,
    {
        proof {
            use_type_invariant(self);
        }
        let mut members: Vec<(String, Json)> = Vec::new();
        let mut i: usize = 0;
        while i < self.members.len()
            invariant
                i <= self.members@.len(),
                members@.len() == i,
                forall|k: int|
                    0 <= k < i ==> {
                        &&& (#[trigger] members@[k]).0@ == self.members@[k].0@
                        &&& members@[k].1.tree() == self.members@[k].1.tree()
                    },
            decreases self.members@.len() - i,
        {
            let key = self.members[i].0.clone();
            let value = self.members[i].1.clone();
            members.push((key, value));
            i += 1;
        }
        proof {
            assert((JsonObject { members }).entries() =~= self.entries());
        }
        JsonObject { members }
    }
}

/// `Number::clone` of `serde_json`: an equal number.
pub assume_specification[ <serde_json::Number as Clone>::clone ](
    n: &serde_json::Number,
) -> (copy: serde_json::Number)
    ensures
        copy == *n,
;

impl Clone for Json {
    fn clone(&self) -> (copy: Json)
        ensures
            copy.tree() == self.tree(),
        decreases self,
    {
        match self {
            Json::Null => Json::Null,
            Json::Bool(b) => Json::Bool(*b),
            Json::Number(n) => Json::Number(n.clone()),
            Json::Str(s) => Json::Str(s.clone()),
            Json::Array(items) => {
                let mut copy: Vec<Json> = Vec::new();
                let mut i: usize = 0;
                while i < items.len()
                    invariant
                        *self == Json::Array(*items),
                        i <= items@.len(),
                        copy@.len() == i,
                        forall|k: int|
                            0 <= k < i ==> (#[trigger] copy@[k]).tree() == items@[k].tree(),
                    decreases items@.len() - i,
                {
                    assert(decreases_to!(*self => self->Array_0@[i as int]));
                    copy.push(items[i].clone());
                    i += 1;
                }
                assert(trees(copy@) =~= trees(items@));
                Json::Array(copy)
            },
            Json::Object(object) => Json::Object(object.clone()),
        }
    }
}

// -------------------------------------------------------- bridge to serde_json

/// The models of a sequence of `serde_json` documents.
pub open spec fn value_trees(values: Seq<serde_json::Value>) -> Seq<JsonTree> {
    values.map_values(|v: serde_json::Value| value_tree(v))
}

/// The model of a list of keys with `serde_json` documents.
pub open spec fn value_members(members: Seq<(String, serde_json::Value)>) -> Members {
    members.map_values(|m: (String, serde_json::Value)| (m.0@, value_tree(m.1)))
}

/// The model of a list of borrowed keys with `serde_json` documents.
pub open spec fn value_ref_members(members: Seq<(&String, &serde_json::Value)>) -> Members {
    members.map_values(|m: (&String, &serde_json::Value)| (m.0@, value_tree(*m.1)))
}

/// One layer of a `serde_json` document to be built.
enum Layer {
    Null,
    Bool(bool),
    Number(serde_json::Number),
    Str(String),
    Array(Vec<serde_json::Value>),
    Object(Vec<(String, serde_json::Value)>),
}

/// One layer of a `serde_json` document that is read.
enum LayerRef<'a> {
    Null,
    Bool(bool),
    Number(&'a serde_json::Number),
    Str(&'a String),
    Array(&'a Vec<serde_json::Value>),
    Object(Vec<(&'a String, &'a serde_json::Value)>),
}

impl Layer {
    spec fn tree(self) -> JsonTree {
        match self {
            Layer::Null => JsonTree::Null,
            Layer::Bool(b) => JsonTree::Bool(b),
            Layer::Number(n) => JsonTree::Number(number_text(n)),
            Layer::Str(s) => JsonTree::Str(s@),
            Layer::Array(items) => JsonTree::Array(value_trees(items@)),
            Layer::Object(members) => JsonTree::Object(value_members(members@)),
        }
    }
}

impl<'a> LayerRef<'a> {
    spec fn tree(self) -> JsonTree {
        match self {
            LayerRef::Null => JsonTree::Null,
            LayerRef::Bool(b) => JsonTree::Bool(b),
            LayerRef::Number(n) => JsonTree::Number(number_text(*n)),
            LayerRef::Str(s) => JsonTree::Str(s@),
            LayerRef::Array(items) => JsonTree::Array(value_trees(items@)),
            LayerRef::Object(members) => JsonTree::Object(value_ref_members(members@)),
        }
    }
}

/// The constructors of `serde_json::Value`: the value built from a layer holds
/// that layer. An object is collected into a `serde_json::Map`, which keeps the
/// order of insertion (feature `preserve_order`); its keys have to be distinct,
/// as a later member would otherwise take the place of an earlier one.
#[verifier::external_body]
fn value_of_layer(layer: Layer) -> (value: serde_json::Value)
    requires
        layer matches Layer::Object(members) ==> distinct_keys(value_members(members@)),
    ensures
        value_tree(value) == layer.tree(),
{
    match layer {
        Layer::Null => serde_json::Value::Null,
        Layer::Bool(b) => serde_json::Value::Bool(b),
        Layer::Number(n) => serde_json::Value::Number(n),
        Layer::Str(s) => serde_json::Value::String(s),
        Layer::Array(items) => serde_json::Value::Array(items),
        Layer::Object(members) => serde_json::Value::Object(members.into_iter().collect()),
    }
}

/// The variants of `serde_json::Value`, told apart: the layer holds what the
/// value holds. The keys of a `serde_json::Map` are distinct.
#[verifier::external_body]
fn layer_of_value<'a>(value: &'a serde_json::Value) -> (layer: LayerRef<'a>)
    ensures
        layer.tree() == value_tree(*value),
        layer matches LayerRef::Object(members) ==> distinct_keys(value_ref_members(members@)),
{
    match value {
        serde_json::Value::Null => LayerRef::Null,
        serde_json::Value::Bool(b) => LayerRef::Bool(*b),
        serde_json::Value::Number(n) => LayerRef::Number(n),
        serde_json::Value::String(s) => LayerRef::Str(s),
        serde_json::Value::Array(items) => LayerRef::Array(items),
        serde_json::Value::Object(members) => LayerRef::Object(members.iter().collect()),
    }
}

/// `Number::from(i64)` of `serde_json`: a number that prints as `i` in decimal.
#[verifier::external_body]
fn number_from_i64(i: i64) -> (n: serde_json::Number)
    ensures
        number_text(n) == decimal(i as int),
{
    serde_json::Number::from(i)
}

/// `Number::from(u64)` of `serde_json`: a number that prints as `u` in decimal.
#[verifier::external_body]
fn number_from_u64(u: u64) -> (n: serde_json::Number)
    ensures
        number_text(n) == decimal(u as int),
{
    serde_json::Number::from(u)
}

/// `Number::as_i64` of `serde_json`: the integer that the number is, where it
/// is one and an `i64` holds it. A number that is no integer prints with a point
/// or an exponent.
#[verifier::external_body]
fn number_as_i64(n: &serde_json::Number) -> (r: Option<i64>)
    ensures
        match r {
            Some(i) => number_text(*n) == decimal(i as int),
            None => forall|i: i64| number_text(*n) != #[trigger] decimal(i as int),
        },
{
    n.as_i64()
}

/// `Value::to_string` of `serde_json`: the compact rendering. A number renders
/// as its text, and a truth value or null as its word.
#[verifier::external_body]
fn text_of_value(value: &serde_json::Value) -> (text: String)
    ensures
        text@ == rendered(value_tree(*value)),
        value_tree(*value) is Null ==> text@ == "null"@,
        value_tree(*value) == JsonTree::Bool(true) ==> text@ == "true"@,
        value_tree(*value) == JsonTree::Bool(false) ==> text@ == "false"@,
        value_tree(*value) matches JsonTree::Number(t) ==> text@ == t,
{
    value.to_string()
}

/// `serde_json::to_vec`: the compact rendering in UTF-8. Every `Value` has one:
/// its keys are strings and its numbers are finite.
#[verifier::external_body]
fn bytes_of_value(value: &serde_json::Value) -> (bytes: Result<Vec<u8>, String>)
    ensures
        match bytes {
            Ok(b) => b@ == encode_utf8(rendered(value_tree(*value))),
            Err(_) => false,
        },
{
    match serde_json::to_vec(value) {
        Ok(bytes) => Ok(bytes),
        Err(e) => Err(e.to_string()),
    }
}

/// `serde_json::from_slice` at type `Value`: the document that the bytes hold,
/// or the text of the error.
#[verifier::external_body]
fn value_of_bytes(bytes: &[u8]) -> (value: Result<serde_json::Value, String>)
    ensures
        match value {
            Ok(v) => parsed(bytes@) == Ok::<JsonTree, Seq<char>>(value_tree(v)),
            Err(e) => parsed(bytes@) == Err::<JsonTree, Seq<char>>(e@),
        },
{
    match serde_json::from_slice(bytes) {
        Ok(value) => Ok(value),
        Err(e) => Err(e.to_string()),
    }
}

/// The number that prints as `i` in decimal.
pub fn integer(i: i64) -> (j: Json)
    ensures
        j.tree() == JsonTree::Number(decimal(i as int)),
{
    Json::Number(number_from_i64(i))
}

/// The number that prints as `u` in decimal.
pub fn unsigned(u: u64) -> (j: Json)
    ensures
        j.tree() == JsonTree::Number(decimal(u as int)),
{
    Json::Number(number_from_u64(u))
}

/// The string `s`.
pub fn string(s: &str) -> (j: Json)
    ensures
        j.tree() == JsonTree::Str(s@),
{
    Json::Str(s.to_owned())
}

impl Json {
    /// The integer that this number is, where it is one and an `i64` holds it.
    pub fn as_i64(&self) -> (i: Option<i64>)
        ensures
            match i {
                Some(i) => self.tree() == JsonTree::Number(decimal(i as int)),
                None => forall|i: i64| self.tree() != JsonTree::Number(#[trigger] decimal(i as int)),
            },
    {
        match self {
            Json::Number(n) => number_as_i64(n),
            _ => None,
        }
    }

    /// The value under `key`, where this is an object that has one.
    pub fn get(&self, key: &str) -> (value: Option<&Json>)
        ensures
            match value {
                Some(v) => field(self.tree(), key@) == Some(v.tree()),
                None => field(self.tree(), key@) is None,
            },
    {
        match self {
            Json::Object(object) => object.get(key),
            _ => None,
        }
    }

    /// The string under `key`, where this is an object that has one.
    pub fn get_str(&self, key: &str) -> (s: Option<&String>)
        ensures
            match s {
                Some(s) => str_field(self.tree(), key@) == Some(s@),
                None => str_field(self.tree(), key@) is None,
            },
    {
        match self.get(key) {
            Some(Json::Str(s)) => Some(s),
            _ => None,
        }
    }

    /// The `serde_json` document that holds what this one holds.
    pub fn to_value(&self) -> (value: serde_json::Value)
        ensures
            value_tree(value) == self.tree(),
        decreases self,
    {
        match self {
            Json::Null => value_of_layer(Layer::Null),
            Json::Bool(b) => value_of_layer(Layer::Bool(*b)),
            Json::Number(n) => value_of_layer(Layer::Number(n.clone())),
            Json::Str(s) => value_of_layer(Layer::Str(s.clone())),
            Json::Array(items) => {
                let mut values: Vec<serde_json::Value> = Vec::new();
                let mut i: usize = 0;
                while i < items.len()
                    invariant
                        *self == Json::Array(*items),
                        i <= items@.len(),
                        values@.len() == i,
                        forall|k: int|
                            0 <= k < i ==> value_tree(#[trigger] values@[k]) == items@[k].tree(),
                    decreases items@.len() - i,
                {
                    assert(decreases_to!(*self => self->Array_0@[i as int]));
                    values.push(items[i].to_value());
                    i += 1;
                }
                assert(value_trees(values@) =~= trees(items@));
                value_of_layer(Layer::Array(values))
            },
            Json::Object(object) => {
                let mut members: Vec<(String, serde_json::Value)> = Vec::new();
                let mut i: usize = 0;
                proof {
                    use_type_invariant(object);
                }
                while i < object.members.len()
                    invariant
                        *self == Json::Object(*object),
                        i <= object.members@.len(),
                        members@.len() == i,
                        forall|k: int|
                            0 <= k < i ==> {
                                &&& (#[trigger] members@[k]).0@ == object.members@[k].0@
                                &&& value_tree(members@[k].1) == object.members@[k].1.tree()
                            },
                    decreases object.members@.len() - i,
                {
                    let key = object.members[i].0.clone();
                    assert(decreases_to!(*self => self->Object_0.members@[i as int].1));
                    let value = object.members[i].1.to_value();
                    members.push((key, value));
                    i += 1;
                }
                assert(value_members(members@) =~= object.entries());
                value_of_layer(Layer::Object(members))
            },
        }
    }

    /// The document that holds what a `serde_json` document holds.
    pub fn from_value(value: &serde_json::Value) -> (j: Json)
        ensures
            j.tree() == value_tree(*value),
        decreases value_tree(*value),
    {
        match layer_of_value(value) {
            LayerRef::Null => Json::Null,
            LayerRef::Bool(b) => Json::Bool(b),
            LayerRef::Number(n) => Json::Number(n.clone()),
            LayerRef::Str(s) => Json::Str(s.clone()),
            LayerRef::Array(values) => {
                let mut items: Vec<Json> = Vec::new();
                let mut i: usize = 0;
                while i < values.len()
                    invariant
                        i <= values@.len(),
                        value_tree(*value) == JsonTree::Array(value_trees(values@)),
                        items@.len() == i,
                        forall|k: int|
                            0 <= k < i ==> (#[trigger] items@[k]).tree() == value_tree(values@[k]),
                    decreases values@.len() - i,
                {
                    assert(value_trees(values@)[i as int] == value_tree(values@[i as int]));
                    assert(decreases_to!(value_tree(*value) => value_tree(*value)->Array_0[i as int]));
                    items.push(Json::from_value(&values[i]));
                    i += 1;
                }
                assert(trees(items@) =~= value_trees(values@));
                Json::Array(items)
            },
            LayerRef::Object(values) => {
                let mut members: Vec<(String, Json)> = Vec::new();
                let mut i: usize = 0;
                while i < values.len()
                    invariant
                        i <= values@.len(),
                        value_tree(*value) == JsonTree::Object(value_ref_members(values@)),
                        members@.len() == i,
                        forall|k: int|
                            0 <= k < i ==> {
                                &&& (#[trigger] members@[k]).0@ == values@[k].0@
                                &&& members@[k].1.tree() == value_tree(*values@[k].1)
                            },
                    decreases values@.len() - i,
                {
                    let entry = &values[i];
                    let ghost m = value_ref_members(values@)[i as int];
                    assert(m == (values@[i as int].0@, value_tree(*values@[i as int].1)));
                    assert(decreases_to!(value_tree(*value) => value_tree(*value)->Object_0[i as int].1));
                    members.push((entry.0.clone(), Json::from_value(entry.1)));
                    i += 1;
                }
                proof {
                    assert((JsonObject { members }).entries() =~= value_ref_members(values@));
                }
                Json::Object(JsonObject { members })
            },
        }
    }

    /// The compact text of this document. A number renders as its text, and a
    /// truth value or null as its word.
    pub fn to_text(&self) -> (text: String)
        ensures
            text@ == rendered(self.tree()),
            self.tree() is Null ==> text@ == "null"@,
            self.tree() == JsonTree::Bool(true) ==> text@ == "true"@,
            self.tree() == JsonTree::Bool(false) ==> text@ == "false"@,
            self.tree() matches JsonTree::Number(t) ==> text@ == t,
    {
        let value = self.to_value();
        text_of_value(&value)
    }

    /// The compact text of this document in UTF-8.
    pub fn to_bytes(&self) -> (bytes: Result<Vec<u8>, String>)
        ensures
            bytes matches Ok(b) && b@ == encode_utf8(rendered(self.tree())),
    {
        let value = self.to_value();
        bytes_of_value(&value)
    }

    /// The document that `bytes` hold, or the text of the error.
    pub fn parse(bytes: &[u8]) -> (j: Result<Json, String>)
        ensures
            match j {
                Ok(j) => parsed(bytes@) == Ok::<JsonTree, Seq<char>>(j.tree()),
                Err(e) => parsed(bytes@) == Err::<JsonTree, Seq<char>>(e@),
            },
    {
        match value_of_bytes(bytes) {
            Ok(value) => Ok(Json::from_value(&value)),
            Err(e) => Err(e),
        }
    }
}

/// The value under `key`, where the document is an object that has one.
pub open spec fn field(tree: JsonTree, key: Seq<char>) -> Option<JsonTree> {
    match tree {
        JsonTree::Object(members) => member(members, key),
        _ => None,
    }
}

/// The string under `key`, where the document is an object that has one.
pub open spec fn str_field(tree: JsonTree, key: Seq<char>) -> Option<Seq<char>> {
    match field(tree, key) {
        Some(JsonTree::Str(s)) => Some(s),
        _ => None,
    }
}

} // verus!
