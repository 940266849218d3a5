//! Reading and writing JSON text, by way of `serde_json`.

use crate::variable::{put, Members, Object, RcVar, Datum, Variable};
use std::rc::Rc;
use vstd::prelude::*;

verus! {

/// Trusted: makes `serde_json::Value` known as a type whose inside is not
/// looked at.
#[verifier::external_type_specification]
#[verifier::external_body]
pub struct ExJsonValue(serde_json::Value);

/// The mathematical model of a JSON document. A number is known by its
/// value where it is an integer of 64 bits with sign; of any other number
/// only that it is one.
pub ghost enum Json {
    Null,
    Bool(bool),
    Number(Option<int>),
    String(Seq<char>),
    Array(Seq<Json>),
    Object(Seq<(Seq<char>, Json)>),
}

/// The document that a `serde_json::Value` holds.
pub uninterp spec fn json_tree(v: serde_json::Value) -> Json;

/// The document that `serde_json::from_str` reads from a text, where it
/// accepts the text.
pub uninterp spec fn json_parse(text: Seq<char>) -> Option<Json>;

/// The text that `serde_json::to_string` writes for a document.
pub uninterp spec fn json_text(tree: Json) -> Seq<char>;

/// One level of a JSON document: the kind of the node and, for an array or
/// an object, its parts still in `serde_json`'s form.
pub enum JsonNode {
    Null,
    Bool(bool),
    Number(Option<i64>),
    String(String),
    Array(Vec<serde_json::Value>),
    Object(Vec<(String, serde_json::Value)>),
}

/// The documents that a sequence of `serde_json::Value`s holds.
pub open spec fn trees_of(items: Seq<serde_json::Value>) -> Seq<Json> {
    Seq::new(items.len(), |i: int| json_tree(items[i]))
}

/// The keyed documents that a sequence of members holds.
pub open spec fn keyed_trees_of(members: Seq<(String, serde_json::Value)>) -> Seq<
    (Seq<char>, Json),
> {
    Seq::new(members.len(), |i: int| (members[i].0@, json_tree(members[i].1)))
}

/// The document that a node stands for.
pub open spec fn node_tree(node: JsonNode) -> Json {
    match node {
        JsonNode::Null => Json::Null,
        JsonNode::Bool(b) => Json::Bool(b),
        JsonNode::Number(Some(n)) => Json::Number(Some(n as int)),
        JsonNode::Number(None) => Json::Number(None),
        JsonNode::String(s) => Json::String(s@),
        JsonNode::Array(items) => Json::Array(trees_of(items@)),
        JsonNode::Object(members) => Json::Object(keyed_trees_of(members@)),
    }
}

/// Every number in the document is known by its value.
pub open spec fn exact(tree: Json) -> bool
    decreases tree,
{
    match tree {
        Json::Number(n) => n is Some,
        Json::Array(items) => forall|i: int| 0 <= i < items.len() ==> exact(#[trigger] items[i]),
        Json::Object(members) => forall|i: int|
            0 <= i < members.len() ==> exact((#[trigger] members[i]).1),
        _ => true,
    }
}

/// The keys of the members ascend strictly.
pub open spec fn keyed_ascend(members: Seq<(Seq<char>, Json)>) -> bool {
    forall|i: int, j: int|
        0 <= i < j < members.len() ==> crate::variable::text_lt(
            #[trigger] members[i].0,
            #[trigger] members[j].0,
        )
}

/// Reads a JSON text.
///
/// Trusted: states of `serde_json::from_str`, at the type
/// `serde_json::Value`, that what it returns depends on the text alone:
/// the document named `json_parse` where it accepts the text, nothing
/// where it does not.
#[verifier::external_body]
fn decode(text: &str) -> (r: Option<serde_json::Value>)
    ensures
        match r {
            Some(v) => json_parse(text@) == Some(json_tree(v)),
            None => json_parse(text@) is None,
        },
{
    serde_json::from_str::<serde_json::Value>(text).ok()
}

/// Takes a `serde_json::Value` apart, one level deep.
///
/// Trusted: states of the variants of `serde_json::Value`, of
/// `Number::as_i64` and of the iteration over a `serde_json::Map` that
/// the node holds the parts of the value, in their order; a number as an
/// `i64` where it is an integer in that range.
#[verifier::external_body]
fn unpack(v: &serde_json::Value) -> (node: JsonNode)
    ensures
        node_tree(node) == json_tree(*v),
{
    match v {
        serde_json::Value::Null => JsonNode::Null,
        serde_json::Value::Bool(b) => JsonNode::Bool(*b),
        serde_json::Value::Number(n) => JsonNode::Number(n.as_i64()),
        serde_json::Value::String(s) => JsonNode::String(s.clone()),
        serde_json::Value::Array(items) => JsonNode::Array(items.clone()),
        serde_json::Value::Object(members) => JsonNode::Object(
            members.clone().into_iter().collect(),
        ),
    }
}

/// Puts a `serde_json::Value` together from one level of parts.
///
/// Trusted: states of the variants of `serde_json::Value`, of its
/// conversion from an integer and of the collecting of a
/// `serde_json::Map` that the value holds the parts of the node; for an
/// object this is said only of members whose keys ascend strictly, which
/// a map keeps as they are.
#[verifier::external_body]
fn pack(node: JsonNode) -> (v: serde_json::Value)
    requires
        !(node matches JsonNode::Number(None)),
        node matches JsonNode::Object(members) ==> keyed_ascend(keyed_trees_of(members@)),
    ensures
        json_tree(v) == node_tree(node),
{
    match node {
        JsonNode::Null => serde_json::Value::Null,
        JsonNode::Bool(b) => serde_json::Value::Bool(b),
        JsonNode::Number(n) => serde_json::Value::from(n),
        JsonNode::String(s) => serde_json::Value::String(s),
        JsonNode::Array(items) => serde_json::Value::Array(items),
        JsonNode::Object(members) => serde_json::Value::Object(members.into_iter().collect()),
    }
}

/// Writes a document as JSON text.
///
/// Trusted: states of `serde_json::to_string`, at the type
/// `serde_json::Value`, that the text depends on the document alone, for
/// documents whose numbers are all integers of 64 bits with sign.
#[verifier::external_body]
fn encode(v: &serde_json::Value) -> (r: String)
    requires
        exact(json_tree(*v)),
    ensures
        r@ == json_text(json_tree(*v)),
{
    serde_json::to_string(v).unwrap_or_default()
}

/// Why a JSON text is not taken as a value.
#[derive(Clone, Copy, Debug, PartialEq, Eq, Structural)]
pub enum JsonError {
    /// The text is not a JSON document.
    Syntax,
    /// The document holds a number that is not an integer of 64 bits with
    /// sign.
    Number,
}

/// The values that the documents `items[..n]` stand for, where each of
/// them stands for one.
pub open spec fn values_upto(items: Seq<Json>, n: nat) -> Option<Seq<Datum>>
    decreases items, n,
{
    if n == 0 || n > items.len() {
        Some(Seq::empty())
    } else {
        match (values_upto(items, (n - 1) as nat), value_of(items[n - 1])) {
            (Some(before), Some(v)) => Some(before.push(v)),
            _ => None,
        }
    }
}

/// The members that the keyed documents `members[..n]` stand for, where
/// each of them stands for a value. Of two members with one key the later
/// one stays.
pub open spec fn members_upto(members: Seq<(Seq<char>, Json)>, n: nat) -> Option<Members>
    decreases members, n,
{
    if n == 0 || n > members.len() {
        Some(Seq::empty())
    } else {
        match (members_upto(members, (n - 1) as nat), value_of(members[n - 1].1)) {
            (Some(before), Some(v)) => Some(put(before, members[n - 1].0, v)),
            _ => None,
        }
    }
}

/// The value that a document stands for: none where the document holds a
/// number that is not an integer of 64 bits with sign.
pub open spec fn value_of(tree: Json) -> Option<Datum>
    decreases tree, 0nat,
{
    match tree {
        Json::Null => Some(Datum::Null),
        Json::Bool(b) => Some(Datum::Bool(b)),
        Json::Number(Some(n)) => Some(Datum::Number(n)),
        Json::Number(None) => None,
        Json::String(s) => Some(Datum::String(s)),
        Json::Array(items) => match values_upto(items, items.len()) {
            Some(values) => Some(Datum::Array(values)),
            None => None,
        },
        Json::Object(members) => match members_upto(members, members.len()) {
            Some(m) => Some(Datum::Object(m)),
            None => None,
        },
    }
}

/// The documents that a sequence of values is written as.
pub open spec fn json_of_each(items: Seq<Datum>) -> Seq<Json>
    decreases items,
{
    Seq::new(
        items.len(),
        |i: int|
            if 0 <= i < items.len() {
                json_of(items[i])
            } else {
                Json::Null
            },
    )
}

/// The keyed documents that a sequence of members is written as.
pub open spec fn json_of_members(members: Members) -> Seq<(Seq<char>, Json)>
    decreases members,
{
    Seq::new(
        members.len(),
        |i: int|
            if 0 <= i < members.len() {
                (members[i].0, json_of(members[i].1))
            } else {
                (Seq::empty(), Json::Null)
            },
    )
}

/// The document that a value is written as. An expression reference, which
/// JSON has no form for, is written as the string `<expression>`.
pub open spec fn json_of(v: Datum) -> Json
    decreases v,
{
    match v {
        Datum::Null => Json::Null,
        Datum::Bool(b) => Json::Bool(b),
        Datum::Number(n) => Json::Number(Some(n)),
        Datum::String(s) => Json::String(s),
        Datum::Array(items) => Json::Array(json_of_each(items)),
        Datum::Object(members) => Json::Object(json_of_members(members)),
        Datum::Expression(_) => Json::String("<expression>"@),
    }
}

/// Once a part stands for no value, no longer run of parts does.
proof fn lemma_values_upto_none(items: Seq<Json>, j: nat, k: nat)
    requires
        j <= k <= items.len(),
        values_upto(items, j) is None,
    ensures
        values_upto(items, k) is None,
    decreases k,
{
    if j < k {
        lemma_values_upto_none(items, j, (k - 1) as nat);
    }
}

/// Once a member stands for no value, no longer run of members does.
proof fn lemma_members_upto_none(members: Seq<(Seq<char>, Json)>, j: nat, k: nat)
    requires
        j <= k <= members.len(),
        members_upto(members, j) is None,
    ensures
        members_upto(members, k) is None,
    decreases k,
{
    if j < k {
        lemma_members_upto_none(members, j, (k - 1) as nat);
    }
}

/// The value that a `serde_json::Value` stands for.
fn build(v: &serde_json::Value) -> (r: Option<Variable>)
    ensures
        match r {
            Some(x) => value_of(json_tree(*v)) == Some(x@),
            None => value_of(json_tree(*v)) is None,
        },
    decreases json_tree(*v),
{
    match unpack(v) {
        JsonNode::Null => Some(Variable::Null),
        JsonNode::Bool(b) => Some(Variable::Bool(b)),
        JsonNode::Number(Some(n)) => Some(Variable::Number(n)),
        JsonNode::Number(None) => None,
        JsonNode::String(s) => Some(Variable::String(s)),
        JsonNode::Array(items) => {
            let ghost trees = trees_of(items@);
            let mut out: Vec<RcVar> = Vec::new();
            let mut i: usize = 0;
            while i < items.len()
                invariant
                    i <= items.len(),
                    trees == trees_of(items@),
                    json_tree(*v) == Json::Array(trees),
                    values_upto(trees, i as nat) == Some(crate::variable::values_view(out@)),
                decreases items.len() - i,
            {
                proof {
                    assert(json_tree(items@[i as int]) == trees[i as int]);
                    assert(decreases_to!(json_tree(*v) => trees[i as int]));
                }
                match build(&items[i]) {
                    Some(x) => {
                        let ghost before = crate::variable::values_view(out@);
                        out.push(Rc::new(x));
                        assert(crate::variable::values_view(out@) =~= before.push(x@));
                    },
                    None => {
                        proof {
                            lemma_values_upto_none(trees, (i + 1) as nat, trees.len());
                        }
                        return None;
                    },
                }
                i += 1;
            }
            Some(Variable::Array(out))
        },
        JsonNode::Object(members) => {
            let ghost trees = keyed_trees_of(members@);
            let mut out = Object::new();
            let mut i: usize = 0;
            while i < members.len()
                invariant
                    i <= members.len(),
                    trees == keyed_trees_of(members@),
                    json_tree(*v) == Json::Object(trees),
                    members_upto(trees, i as nat) == Some(out@),
                decreases members.len() - i,
            {
                proof {
                    assert(json_tree(members@[i as int].1) == trees[i as int].1);
                    assert(decreases_to!(trees => trees[i as int]));
                    assert(decreases_to!(json_tree(*v) => trees[i as int].1));
                }
                match build(&members[i].1) {
                    Some(x) => {
                        out.insert(members[i].0.clone(), Rc::new(x));
                    },
                    None => {
                        proof {
                            lemma_members_upto_none(trees, (i + 1) as nat, trees.len());
                        }
                        return None;
                    },
                }
                i += 1;
            }
            Some(Variable::Object(out))
        },
    }
}

/// The `serde_json::Value` that a value is written as.
fn unbuild(v: &Variable) -> (r: serde_json::Value)
    ensures
        json_tree(r) == json_of(v@),
        exact(json_tree(r)),
    decreases v@,
{
    match v {
        Variable::Null => pack(JsonNode::Null),
        Variable::Bool(b) => pack(JsonNode::Bool(*b)),
        Variable::Number(n) => pack(JsonNode::Number(Some(*n))),
        Variable::String(s) => pack(JsonNode::String(s.clone())),
        Variable::Array(items) => {
            let mut out: Vec<serde_json::Value> = Vec::new();
            let mut i: usize = 0;
            while i < items.len()
                invariant
                    i <= items.len(),
                    *v matches Variable::Array(a) && a == *items,
                    out.len() == i,
                    forall|j: int|
                        0 <= j < i ==> json_tree(#[trigger] out@[j]) == json_of(items@[j]@)
                            && exact(json_tree(out@[j])),
                decreases items.len() - i,
            {
                proof {
                    let elems = crate::variable::values_view(items@);
                    assert(elems[i as int] == items@[i as int]@);
                    let d = v@;
                    assert(d == Datum::Array(elems));
                    assert(decreases_to!(d => d->Array_0));
                    assert(decreases_to!(elems => elems[i as int]));
                    assert(decreases_to!(d => elems[i as int]));
                }
                let x = unbuild(&items[i]);
                out.push(x);
                i += 1;
            }
            assert(trees_of(out@) =~= json_of_each(crate::variable::values_view(items@)));
            pack(JsonNode::Array(out))
        },
        Variable::Object(o) => {
            o.note_ordered();
            let mut out: Vec<(String, serde_json::Value)> = Vec::new();
            let mut i: usize = 0;
            while i < o.len()
                invariant
                    i <= o@.len(),
                    *v matches Variable::Object(x) && x == *o,
                    out.len() == i,
                    forall|j: int|
                        0 <= j < i ==> (#[trigger] out@[j]).0@ == o@[j].0 && json_tree(out@[j].1)
                            == json_of(o@[j].1) && exact(json_tree(out@[j].1)),
                decreases o@.len() - i,
            {
                proof {
                    assert(decreases_to!(o@ => o@[i as int]));
                    let d = v@;
                    assert(d == Datum::Object(o@));
                    assert(decreases_to!(d => d->Object_0));
                    assert(decreases_to!(d => o@[i as int].1));
                }
                let x = unbuild(o.value_at(i));
                out.push((o.key_at(i).clone(), x));
                i += 1;
            }
            assert(keyed_trees_of(out@) =~= json_of_members(o@));
            pack(JsonNode::Object(out))
        },
        Variable::Expression(_) => pack(JsonNode::String(String::from_str("<expression>"))),
    }
}

impl Variable {
    /// The value that a JSON text describes.
    pub fn from_json(text: &str) -> (r: Result<Variable, JsonError>)
        ensures
            match r {
                Ok(v) => json_parse(text@) matches Some(tree) && value_of(tree) == Some(v@),
                Err(JsonError::Syntax) => json_parse(text@) is None,
                Err(JsonError::Number) => json_parse(text@) matches Some(tree) && value_of(tree)
                    is None,
            },
    {
        match decode(text) {
            None => Err(JsonError::Syntax),
            Some(tree) => match build(&tree) {
                Some(v) => Ok(v),
                None => Err(JsonError::Number),
            },
        }
    }

    /// This value as JSON text.
    pub fn to_string(&self) -> (r: String)
        ensures
            r@ == json_text(json_of(self@)),
    {
        let tree = unbuild(self);
        encode(&tree)
    }
}

} // verus!
