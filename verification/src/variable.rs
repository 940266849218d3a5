//! The values that expressions are evaluated against and evaluate to.

use crate::ast::{Ast, Expr};
use std::rc::Rc;
use vstd::prelude::*;

verus! {

/// A shared, immutable value.
pub type RcVar = Rc<Variable>;

/// An object: its members, ordered by key, no key twice.
#[derive(Debug, PartialEq)]
pub struct Object {
    entries: Vec<(String, RcVar)>,
}

/// A value: one of the six JSON types, or an expression reference.
#[derive(Debug, PartialEq)]
pub enum Variable {
    Null,
    Bool(bool),
    Number(i64),
    String(String),
    Array(Vec<RcVar>),
    Object(Object),
    Expression(Rc<Ast>),
}

/// The mathematical model of the members of an object.
pub type Members = Seq<(Seq<char>, Datum)>;

/// The mathematical model of a [`Variable`].
pub ghost enum Datum {
    Null,
    Bool(bool),
    Number(int),
    String(Seq<char>),
    Array(Seq<Datum>),
    Object(Members),
    Expression(Box<Expr>),
}

/// `a` comes before `b` in the order of strings: character by character,
/// by code point, a proper prefix before the longer string.
pub open spec fn text_lt(a: Seq<char>, b: Seq<char>) -> bool
    decreases a.len(),
{
    if b.len() == 0 {
        false
    } else if a.len() == 0 {
        true
    } else if a[0] != b[0] {
        a[0] < b[0]
    } else {
        text_lt(a.drop_first(), b.drop_first())
    }
}

/// The keys of `members` ascend strictly.
pub open spec fn keys_ascend(members: Members) -> bool {
    forall|i: int, j: int|
        0 <= i < j < members.len() ==> text_lt(#[trigger] members[i].0, #[trigger] members[j].0)
}

/// The models of a sequence of values.
pub open spec fn values_view(items: Seq<RcVar>) -> Seq<Datum>
    decreases items,
{
    Seq::new(
        items.len(),
        |i: int|
            if 0 <= i < items.len() {
                items[i].model()
            } else {
                Datum::Null
            },
    )
}

/// The models of a sequence of members.
pub open spec fn members_view(entries: Seq<(String, RcVar)>) -> Members
    decreases entries,
{
    Seq::new(
        entries.len(),
        |i: int|
            if 0 <= i < entries.len() {
                (entries[i].0@, entries[i].1.model())
            } else {
                (Seq::empty(), Datum::Null)
            },
    )
}

impl View for Object {
    type V = Members;

    open spec fn view(&self) -> Members {
        self.model()
    }
}

impl View for Variable {
    type V = Datum;

    open spec fn view(&self) -> Datum {
        self.model()
    }
}

impl Variable {
    /// The mathematical model of this value.
    pub open spec fn model(&self) -> Datum
        decreases self,
    {
        match self {
            Variable::Null => Datum::Null,
            Variable::Bool(b) => Datum::Bool(*b),
            Variable::Number(n) => Datum::Number(*n as int),
            Variable::String(s) => Datum::String(s@),
            Variable::Array(items) => Datum::Array(values_view(items@)),
            Variable::Object(o) => Datum::Object(o.model()),
            Variable::Expression(e) => Datum::Expression(Box::new(e.model())),
        }
    }
}

/// Another handle to the same shared value.
///
/// Trusted: states of `Rc::clone` that the new handle points to the value
/// that the old one points to.
#[verifier::external_body]
pub(crate) fn share<T>(v: &Rc<T>) -> (r: Rc<T>)
    ensures
        r == *v,
{
    v.clone()
}

/// The name of the type of a value.
pub open spec fn kind_name(v: Datum) -> Seq<char> {
    match v {
        Datum::Null => "null"@,
        Datum::Bool(_) => "boolean"@,
        Datum::Number(_) => "number"@,
        Datum::String(_) => "string"@,
        Datum::Array(_) => "array"@,
        Datum::Object(_) => "object"@,
        Datum::Expression(_) => "expref"@,
    }
}

/// Whether a value counts as true: every value does but null, `false`, the
/// empty string, the empty array and the empty object.
pub open spec fn truthy(v: Datum) -> bool {
    match v {
        Datum::Null => false,
        Datum::Bool(b) => b,
        Datum::Number(_) => true,
        Datum::String(s) => s.len() > 0,
        Datum::Array(a) => a.len() > 0,
        Datum::Object(m) => m.len() > 0,
        Datum::Expression(_) => true,
    }
}

/// The value stored under `key` in `members`, if there is one.
pub open spec fn lookup(members: Members, key: Seq<char>) -> Option<Datum>
    decreases members.len(),
{
    if members.len() == 0 {
        None
    } else if members[0].0 == key {
        Some(members[0].1)
    } else {
        lookup(members.drop_first(), key)
    }
}

/// The number of leading members whose key comes before `key`.
pub open spec fn rank(members: Members, key: Seq<char>) -> nat
    decreases members.len(),
{
    if members.len() > 0 && text_lt(members[0].0, key) {
        1 + rank(members.drop_first(), key)
    } else {
        0
    }
}

/// `members` with `value` stored under `key`: in place of the member with
/// that key where there is one, else at the place that keeps the keys in
/// order.
pub open spec fn put(members: Members, key: Seq<char>, value: Datum) -> Members {
    let r = rank(members, key) as int;
    if r < members.len() && members[r].0 == key {
        members.update(r, (key, value))
    } else {
        members.insert(r, (key, value))
    }
}

/// Of two different strings one comes before the other.
pub proof fn lemma_text_lt_total(a: Seq<char>, b: Seq<char>)
    ensures
        a == b || text_lt(a, b) || text_lt(b, a),
        !(text_lt(a, b) && text_lt(b, a)),
        !text_lt(a, a),
    decreases a.len(),
{
    if a.len() > 0 && b.len() > 0 {
        if a[0] == b[0] {
            lemma_text_lt_total(a.drop_first(), b.drop_first());
            if a.drop_first() == b.drop_first() {
                assert(a =~= seq![a[0]] + a.drop_first());
                assert(b =~= seq![b[0]] + b.drop_first());
            }
        }
    } else if a.len() == 0 && b.len() == 0 {
        assert(a =~= b);
    }
    if a.len() > 0 {
        lemma_text_lt_total(a.drop_first(), a.drop_first());
    }
}

/// The order of strings is transitive.
pub proof fn lemma_text_lt_transitive(a: Seq<char>, b: Seq<char>, c: Seq<char>)
    requires
        text_lt(a, b),
        text_lt(b, c),
    ensures
        text_lt(a, c),
    decreases a.len(),
{
    if a.len() > 0 && a[0] == b[0] && b[0] == c[0] {
        lemma_text_lt_transitive(a.drop_first(), b.drop_first(), c.drop_first());
    }
}

/// Whether `a` comes before `b` in the order of strings.
pub fn text_less(a: &str, b: &str) -> (r: bool)
    ensures
        r == text_lt(a@, b@),
{
    let x = crate::text::to_chars(a);
    let y = crate::text::to_chars(b);
    let mut i: usize = 0;
    assert(x@.skip(0) == x@ && y@.skip(0) == y@);
    loop
        invariant
            x@ == a@,
            y@ == b@,
            i <= x.len(),
            i <= y.len(),
            text_lt(a@, b@) == text_lt(x@.skip(i as int), y@.skip(i as int)),
        decreases x.len() - i,
    {
        if i >= y.len() {
            return false;
        }
        if i >= x.len() {
            return true;
        }
        let ca = x[i];
        let cb = y[i];
        if ca != cb {
            return ca < cb;
        }
        assert(x@.skip(i as int).drop_first() == x@.skip(i + 1));
        assert(y@.skip(i as int).drop_first() == y@.skip(i + 1));
        i += 1;
    }
}

fn members_equal(a: &Vec<(String, RcVar)>, b: &Vec<(String, RcVar)>) -> (r: bool)
    ensures
        r == (members_view(a@) == members_view(b@)),
    decreases a,
{
    if a.len() != b.len() {
        assert(members_view(a@).len() != members_view(b@).len());
        return false;
    }
    let mut i: usize = 0;
    while i < a.len()
        invariant
            a.len() == b.len(),
            i <= a.len(),
            forall|j: int| 0 <= j < i ==> a@[j].0@ == b@[j].0@ && a@[j].1@ == b@[j].1@,
        decreases a.len() - i,
    {
        if !(a[i].0 == b[i].0 && a[i].1.equals(&b[i].1)) {
            assert(members_view(a@)[i as int] != members_view(b@)[i as int]);
            return false;
        }
        i += 1;
    }
    assert(members_view(a@) =~= members_view(b@));
    true
}

fn values_equal(a: &Vec<RcVar>, b: &Vec<RcVar>) -> (r: bool)
    ensures
        r == (values_view(a@) == values_view(b@)),
    decreases a,
{
    if a.len() != b.len() {
        assert(values_view(a@).len() != values_view(b@).len());
        return false;
    }
    let mut i: usize = 0;
    while i < a.len()
        invariant
            a.len() == b.len(),
            i <= a.len(),
            forall|j: int| 0 <= j < i ==> a@[j]@ == b@[j]@,
        decreases a.len() - i,
    {
        if !a[i].equals(&b[i]) {
            assert(values_view(a@)[i as int] != values_view(b@)[i as int]);
            return false;
        }
        i += 1;
    }
    assert(values_view(a@) =~= values_view(b@));
    true
}

impl Variable {
    /// Whether two values are the same: of the same type and, part by part,
    /// of the same content.
    pub fn equals(&self, other: &Variable) -> (r: bool)
        ensures
            r == (self@ == other@),
        decreases self,
    {
        match (self, other) {
            (Variable::Null, Variable::Null) => true,
            (Variable::Bool(a), Variable::Bool(b)) => *a == *b,
            (Variable::Number(a), Variable::Number(b)) => *a == *b,
            (Variable::String(a), Variable::String(b)) => *a == *b,
            (Variable::Array(a), Variable::Array(b)) => values_equal(a, b),
            (Variable::Object(a), Variable::Object(b)) => members_equal(&a.entries, &b.entries),
            (Variable::Expression(a), Variable::Expression(b)) => a.equals(b),
            _ => false,
        }
    }

    /// The name of this value's type.
    pub fn get_type(&self) -> (r: &'static str)
        ensures
            r@ == kind_name(self@),
    {
        match self {
            Variable::Null => "null",
            Variable::Bool(_) => "boolean",
            Variable::Number(_) => "number",
            Variable::String(_) => "string",
            Variable::Array(_) => "array",
            Variable::Object(_) => "object",
            Variable::Expression(_) => "expref",
        }
    }

    /// Whether this value counts as true.
    pub fn is_truthy(&self) -> (r: bool)
        ensures
            r == truthy(self@),
    {
        match self {
            Variable::Null => false,
            Variable::Bool(b) => *b,
            Variable::Number(_) => true,
            Variable::String(s) => {
                let e = s.as_str().is_empty();
                !e
            },
            Variable::Array(a) => a.len() > 0,
            Variable::Object(o) => o.len() > 0,
            Variable::Expression(_) => true,
        }
    }

    /// Whether this value is null.
    pub fn is_null(&self) -> (r: bool)
        ensures
            r == (self@ == Datum::Null),
    {
        match self {
            Variable::Null => true,
            _ => false,
        }
    }

    /// The boolean that this value is, if it is one.
    pub fn as_boolean(&self) -> (r: Option<bool>)
        ensures
            r == (match self@ {
                Datum::Bool(b) => Some(b),
                _ => None,
            }),
    {
        match self {
            Variable::Bool(b) => Some(*b),
            _ => None,
        }
    }

    /// The number that this value is, if it is one.
    pub fn as_number(&self) -> (r: Option<i64>)
        ensures
            match self@ {
                Datum::Number(n) => r == Some(n as i64) && n == r->0,
                _ => r is None,
            },
    {
        match self {
            Variable::Number(n) => Some(*n),
            _ => None,
        }
    }

    /// The string that this value is, if it is one.
    pub fn as_string(&self) -> (r: Option<&String>)
        ensures
            match self@ {
                Datum::String(s) => r is Some && r->0@ == s,
                _ => r is None,
            },
    {
        match self {
            Variable::String(s) => Some(s),
            _ => None,
        }
    }

    /// The elements of the array that this value is, if it is one.
    pub fn as_array(&self) -> (r: Option<&Vec<RcVar>>)
        ensures
            match self@ {
                Datum::Array(a) => r is Some && values_view(r->0@) == a,
                _ => r is None,
            },
    {
        match self {
            Variable::Array(a) => Some(a),
            _ => None,
        }
    }

    /// The object that this value is, if it is one.
    pub fn as_object(&self) -> (r: Option<&Object>)
        ensures
            match self@ {
                Datum::Object(m) => r is Some && r->0@ == m,
                _ => r is None,
            },
    {
        match self {
            Variable::Object(o) => Some(o),
            _ => None,
        }
    }
}

impl Object {
    /// An object without members.
    pub fn new() -> (r: Object)
        ensures
            r@ == Seq::<(Seq<char>, Datum)>::empty(),
    {
        let r = Object { entries: Vec::new() };
        assert(r@ =~= Seq::<(Seq<char>, Datum)>::empty());
        r
    }

    /// The number of members.
    pub fn len(&self) -> (n: usize)
        ensures
            n == self@.len(),
    {
        self.entries.len()
    }

    /// The key of member `i`, in the order of the keys.
    pub fn key_at(&self, i: usize) -> (r: &String)
        requires
            i < self@.len(),
        ensures
            r@ == self@[i as int].0,
    {
        &self.entries[i].0
    }

    /// The value of member `i`, in the order of the keys.
    pub fn value_at(&self, i: usize) -> (r: &RcVar)
        requires
            i < self@.len(),
        ensures
            r@ == self@[i as int].1,
    {
        &self.entries[i].1
    }

    /// The value stored under `key`, if there is one.
    pub fn get(&self, key: &str) -> (r: Option<&RcVar>)
        ensures
            match r {
                Some(v) => lookup(self@, key@) == Some(v@),
                None => lookup(self@, key@) is None,
            },
    {
        let mut i: usize = 0;
        assert(self@.skip(0) == self@);
        while i < self.entries.len()
            invariant
                i <= self.entries.len(),
                lookup(self@, key@) == lookup(self@.skip(i as int), key@),
            decreases self.entries.len() - i,
        {
            assert(self@.skip(i as int).drop_first() == self@.skip(i + 1));
            assert(self@.skip(i as int)[0] == self@[i as int]);
            if crate::text::same_text(self.entries[i].0.as_str(), key) {
                return Some(&self.entries[i].1);
            }
            i += 1;
        }
        None
    }

    /// Stores `value` under `key`, in place of an earlier value under that
    /// key where there is one.
    pub fn insert(&mut self, key: String, value: RcVar)
        ensures
            final(self)@ == put(old(self)@, key@, value@),
    {
        proof {
            use_type_invariant(&*self);
        }
        let ghost before = self@;
        let mut taken = Object::new();
        std::mem::swap(self, &mut taken);
        let mut entries = taken.entries;
        let mut i: usize = 0;
        assert(before.skip(0) == before);
        while i < entries.len() && text_less(entries[i].0.as_str(), key.as_str())
            invariant
                members_view(entries@) == before,
                i <= entries.len(),
                rank(before, key@) == i + rank(before.skip(i as int), key@),
                forall|j: int| 0 <= j < i ==> text_lt(#[trigger] before[j].0, key@),
            decreases entries.len() - i,
        {
            assert(before.skip(i as int).drop_first() == before.skip(i + 1));
            i += 1;
        }
        assert(rank(before, key@) == i);
        if i < entries.len() && entries[i].0 == key {
            entries.set(i, (key, value));
            assert(members_view(entries@) =~= put(before, key@, value@));
        } else {
            proof {
                if i < before.len() {
                    lemma_text_lt_total(before[i as int].0, key@);
                    assert forall|j: int| i <= j < before.len() implies text_lt(
                        key@,
                        #[trigger] before[j].0,
                    ) by {
                        if j > i {
                            lemma_text_lt_transitive(key@, before[i as int].0, before[j].0);
                        }
                    }
                }
            }
            entries.insert(i, (key, value));
            assert(members_view(entries@) =~= put(before, key@, value@));
        }
        *self = Object { entries };
    }

    /// Brings to a caller's proof that the keys of this object, as those of
    /// every object, ascend strictly.
    pub fn note_ordered(&self)
        ensures
            keys_ascend(self@),
    {
        proof {
            use_type_invariant(self);
        }
    }

    /// The members of this object, in order.
    pub closed spec fn model(&self) -> Members
        decreases self,
    {
        members_view(self.entries@)
    }

    #[verifier::type_invariant]
    spec fn ordered(self) -> bool {
        keys_ascend(members_view(self.entries@))
    }
}

} // verus!
