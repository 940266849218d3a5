//! The abstract syntax tree of a compiled expression.

use crate::variable::{RcVar, Datum};
use std::rc::Rc;
use vstd::prelude::*;

verus! {

/// The comparison operators.
#[derive(Clone, Copy, Debug, PartialEq, Eq, Structural)]
pub enum Comparator {
    Eq,
    Ne,
    Lt,
    Lte,
    Gt,
    Gte,
}

/// One `key: expression` entry of a multi-select hash.
#[derive(Debug, PartialEq)]
pub struct KeyValuePair {
    /// The key under which the result is stored.
    pub key: String,
    /// The expression that computes the result.
    pub value: Ast,
}

/// A node of the syntax tree. Every node carries the character offset of
/// the token that it was built from.
#[derive(Debug, PartialEq)]
pub enum Ast {
    /// `@`: the current value.
    Identity { offset: usize },
    /// `name`: the member `name` of an object.
    Field { offset: usize, name: String },
    /// `[idx]`: the element at `idx` of an array, counted from the end where
    /// `idx` is negative.
    Index { offset: usize, idx: i32 },
    /// A constant.
    Literal { offset: usize, value: RcVar },
    /// `lhs.rhs`: `rhs` applied to the result of `lhs`.
    Subexpr { offset: usize, lhs: Box<Ast>, rhs: Box<Ast> },
    /// `lhs | rhs`: `rhs` applied to the result of `lhs`, which ends any
    /// projection on the left.
    Pipe { offset: usize, lhs: Box<Ast>, rhs: Box<Ast> },
    /// `lhs || rhs`.
    Or { offset: usize, lhs: Box<Ast>, rhs: Box<Ast> },
    /// `lhs && rhs`.
    And { offset: usize, lhs: Box<Ast>, rhs: Box<Ast> },
    /// `!node`.
    Not { offset: usize, node: Box<Ast> },
    /// `[a, b, ..]`: an array of the results of the elements.
    MultiList { offset: usize, elements: Vec<Ast> },
    /// `{k: a, ..}`: an object of the results of the elements.
    MultiHash { offset: usize, pairs: Vec<KeyValuePair> },
    /// `node[]`: the result of `node` with nested arrays merged one level.
    Flatten { offset: usize, node: Box<Ast> },
    /// `[start:stop:step]`: a slice of an array.
    Slice { offset: usize, start: Option<i32>, stop: Option<i32>, step: i32 },
    /// `rhs` applied to each element of the array that `lhs` yields.
    Projection { offset: usize, lhs: Box<Ast>, rhs: Box<Ast> },
    /// The values of the object that `node` yields, as an array.
    ObjectValues { offset: usize, node: Box<Ast> },
    /// `lhs <op> rhs`.
    Comparison { offset: usize, comparator: Comparator, lhs: Box<Ast>, rhs: Box<Ast> },
    /// The right-hand side of a filter projection: `then` where
    /// `predicate` holds of the element, null otherwise.
    Condition { offset: usize, predicate: Box<Ast>, then: Box<Ast> },
    /// `name(args)`.
    FunctionCall { offset: usize, name: String, args: Vec<Ast> },
    /// `&node`: the expression `node` itself, as a value.
    ExpressionReference { offset: usize, ast: Rc<Ast> },
}

/// The mathematical model of a [`KeyValuePair`] sequence.
pub type Pairs = Seq<(Seq<char>, Expr)>;

/// The mathematical model of an [`Ast`].
pub ghost enum Expr {
    Identity { offset: nat },
    Field { offset: nat, name: Seq<char> },
    Index { offset: nat, idx: int },
    Literal { offset: nat, value: Datum },
    Subexpr { offset: nat, lhs: Box<Expr>, rhs: Box<Expr> },
    Pipe { offset: nat, lhs: Box<Expr>, rhs: Box<Expr> },
    Or { offset: nat, lhs: Box<Expr>, rhs: Box<Expr> },
    And { offset: nat, lhs: Box<Expr>, rhs: Box<Expr> },
    Not { offset: nat, node: Box<Expr> },
    MultiList { offset: nat, elements: Seq<Expr> },
    MultiHash { offset: nat, pairs: Pairs },
    Flatten { offset: nat, node: Box<Expr> },
    Slice { offset: nat, start: Option<int>, stop: Option<int>, step: int },
    Projection { offset: nat, lhs: Box<Expr>, rhs: Box<Expr> },
    ObjectValues { offset: nat, node: Box<Expr> },
    Comparison { offset: nat, comparator: Comparator, lhs: Box<Expr>, rhs: Box<Expr> },
    Condition { offset: nat, predicate: Box<Expr>, then: Box<Expr> },
    FunctionCall { offset: nat, name: Seq<char>, args: Seq<Expr> },
    ExpressionReference { offset: nat, ast: Box<Expr> },
}

/// The model of an optional bound of a slice.
pub open spec fn bound_view(b: Option<i32>) -> Option<int> {
    match b {
        Some(v) => Some(v as int),
        None => None,
    }
}

/// The models of a sequence of nodes.
pub open spec fn nodes_view(nodes: Seq<Ast>) -> Seq<Expr>
    decreases nodes,
{
    Seq::new(
        nodes.len(),
        |i: int|
            if 0 <= i < nodes.len() {
                nodes[i].model()
            } else {
                Expr::Identity { offset: 0 }
            },
    )
}

/// The models of a sequence of key-value pairs.
pub open spec fn pairs_view(pairs: Seq<KeyValuePair>) -> Pairs
    decreases pairs,
{
    Seq::new(
        pairs.len(),
        |i: int|
            if 0 <= i < pairs.len() {
                (pairs[i].key@, pairs[i].value.model())
            } else {
                (Seq::empty(), Expr::Identity { offset: 0 })
            },
    )
}

impl Ast {
    /// The mathematical model of this node.
    pub open spec fn model(&self) -> Expr
        decreases self,
    {
        match self {
            Ast::Identity { offset } => Expr::Identity { offset: *offset as nat },
            Ast::Field { offset, name } => Expr::Field { offset: *offset as nat, name: name@ },
            Ast::Index { offset, idx } => Expr::Index { offset: *offset as nat, idx: *idx as int },
            Ast::Literal { offset, value } => Expr::Literal {
                offset: *offset as nat,
                value: value.model(),
            },
            Ast::Subexpr { offset, lhs, rhs } => Expr::Subexpr {
                offset: *offset as nat,
                lhs: Box::new(lhs.model()),
                rhs: Box::new(rhs.model()),
            },
            Ast::Pipe { offset, lhs, rhs } => Expr::Pipe {
                offset: *offset as nat,
                lhs: Box::new(lhs.model()),
                rhs: Box::new(rhs.model()),
            },
            Ast::Or { offset, lhs, rhs } => Expr::Or {
                offset: *offset as nat,
                lhs: Box::new(lhs.model()),
                rhs: Box::new(rhs.model()),
            },
            Ast::And { offset, lhs, rhs } => Expr::And {
                offset: *offset as nat,
                lhs: Box::new(lhs.model()),
                rhs: Box::new(rhs.model()),
            },
            Ast::Not { offset, node } => Expr::Not { offset: *offset as nat, node: Box::new(node.model()) },
            Ast::MultiList { offset, elements } => Expr::MultiList {
                offset: *offset as nat,
                elements: nodes_view(elements@),
            },
            Ast::MultiHash { offset, pairs } => Expr::MultiHash {
                offset: *offset as nat,
                pairs: pairs_view(pairs@),
            },
            Ast::Flatten { offset, node } => Expr::Flatten {
                offset: *offset as nat,
                node: Box::new(node.model()),
            },
            Ast::Slice { offset, start, stop, step } => Expr::Slice {
                offset: *offset as nat,
                start: bound_view(*start),
                stop: bound_view(*stop),
                step: *step as int,
            },
            Ast::Projection { offset, lhs, rhs } => Expr::Projection {
                offset: *offset as nat,
                lhs: Box::new(lhs.model()),
                rhs: Box::new(rhs.model()),
            },
            Ast::ObjectValues { offset, node } => Expr::ObjectValues {
                offset: *offset as nat,
                node: Box::new(node.model()),
            },
            Ast::Comparison { offset, comparator, lhs, rhs } => Expr::Comparison {
                offset: *offset as nat,
                comparator: *comparator,
                lhs: Box::new(lhs.model()),
                rhs: Box::new(rhs.model()),
            },
            Ast::Condition { offset, predicate, then } => Expr::Condition {
                offset: *offset as nat,
                predicate: Box::new(predicate.model()),
                then: Box::new(then.model()),
            },
            Ast::FunctionCall { offset, name, args } => Expr::FunctionCall {
                offset: *offset as nat,
                name: name@,
                args: nodes_view(args@),
            },
            Ast::ExpressionReference { offset, ast } => Expr::ExpressionReference {
                offset: *offset as nat,
                ast: Box::new(ast.model()),
            },
        }
    }
}

fn bounds_equal(a: &Option<i32>, b: &Option<i32>) -> (r: bool)
    ensures
        r == (bound_view(*a) == bound_view(*b)),
{
    match (a, b) {
        (Some(x), Some(y)) => *x == *y,
        (None, None) => true,
        _ => false,
    }
}

fn nodes_equal(a: &Vec<Ast>, b: &Vec<Ast>) -> (r: bool)
    ensures
        r == (nodes_view(a@) == nodes_view(b@)),
    decreases a,
{
    if a.len() != b.len() {
        assert(nodes_view(a@).len() != nodes_view(b@).len());
        return false;
    }
    let mut i: usize = 0;
    while i < a.len()
        invariant
            a.len() == b.len(),
            i <= a.len(),
            forall|j: int| 0 <= j < i ==> a@[j]@ == b@[j]@,
        decreases a.len() - i,
    {
        if !a[i].equals(&b[i]) {
            assert(nodes_view(a@)[i as int] != nodes_view(b@)[i as int]);
            return false;
        }
        i += 1;
    }
    assert(nodes_view(a@) =~= nodes_view(b@));
    true
}

fn pairs_equal(a: &Vec<KeyValuePair>, b: &Vec<KeyValuePair>) -> (r: bool)
    ensures
        r == (pairs_view(a@) == pairs_view(b@)),
    decreases a,
{
    if a.len() != b.len() {
        assert(pairs_view(a@).len() != pairs_view(b@).len());
        return false;
    }
    let mut i: usize = 0;
    while i < a.len()
        invariant
            a.len() == b.len(),
            i <= a.len(),
            forall|j: int| 0 <= j < i ==> a@[j].key@ == b@[j].key@ && a@[j].value@ == b@[j].value@,
        decreases a.len() - i,
    {
        if !(a[i].key == b[i].key && a[i].value.equals(&b[i].value)) {
            assert(pairs_view(a@)[i as int] != pairs_view(b@)[i as int]);
            return false;
        }
        i += 1;
    }
    assert(pairs_view(a@) =~= pairs_view(b@));
    true
}

impl Ast {
    /// The character offset of the token that this node was built from.
    pub fn offset(&self) -> (r: usize)
        ensures
            r == self@.offset(),
    {
        match self {
            Ast::Identity { offset } => *offset,
            Ast::Field { offset, .. } => *offset,
            Ast::Index { offset, .. } => *offset,
            Ast::Literal { offset, .. } => *offset,
            Ast::Subexpr { offset, .. } => *offset,
            Ast::Pipe { offset, .. } => *offset,
            Ast::Or { offset, .. } => *offset,
            Ast::And { offset, .. } => *offset,
            Ast::Not { offset, .. } => *offset,
            Ast::MultiList { offset, .. } => *offset,
            Ast::MultiHash { offset, .. } => *offset,
            Ast::Flatten { offset, .. } => *offset,
            Ast::Slice { offset, .. } => *offset,
            Ast::Projection { offset, .. } => *offset,
            Ast::ObjectValues { offset, .. } => *offset,
            Ast::Comparison { offset, .. } => *offset,
            Ast::Condition { offset, .. } => *offset,
            Ast::FunctionCall { offset, .. } => *offset,
            Ast::ExpressionReference { offset, .. } => *offset,
        }
    }

    /// Whether two trees are the same, node by node, offsets included.
    pub fn equals(&self, other: &Ast) -> (r: bool)
        ensures
            r == (self@ == other@),
        decreases self,
    {
        match (self, other) {
            (Ast::Identity { offset: o1 }, Ast::Identity { offset: o2 }) => *o1 == *o2,
            (Ast::Field { offset: o1, name: n1 }, Ast::Field { offset: o2, name: n2 }) => *o1 == *o2
                && *n1 == *n2,
            (Ast::Index { offset: o1, idx: i1 }, Ast::Index { offset: o2, idx: i2 }) => *o1 == *o2
                && *i1 == *i2,
            (Ast::Literal { offset: o1, value: v1 }, Ast::Literal { offset: o2, value: v2 }) => *o1
                == *o2 && v1.equals(v2),
            (
                Ast::Subexpr { offset: o1, lhs: l1, rhs: r1 },
                Ast::Subexpr { offset: o2, lhs: l2, rhs: r2 },
            ) => *o1 == *o2 && l1.equals(l2) && r1.equals(r2),
            (
                Ast::Pipe { offset: o1, lhs: l1, rhs: r1 },
                Ast::Pipe { offset: o2, lhs: l2, rhs: r2 },
            ) => *o1 == *o2 && l1.equals(l2) && r1.equals(r2),
            (Ast::Or { offset: o1, lhs: l1, rhs: r1 }, Ast::Or { offset: o2, lhs: l2, rhs: r2 }) => *o1
                == *o2 && l1.equals(l2) && r1.equals(r2),
            (
                Ast::And { offset: o1, lhs: l1, rhs: r1 },
                Ast::And { offset: o2, lhs: l2, rhs: r2 },
            ) => *o1 == *o2 && l1.equals(l2) && r1.equals(r2),
            (Ast::Not { offset: o1, node: n1 }, Ast::Not { offset: o2, node: n2 }) => *o1 == *o2
                && n1.equals(n2),
            (
                Ast::MultiList { offset: o1, elements: e1 },
                Ast::MultiList { offset: o2, elements: e2 },
            ) => *o1 == *o2 && nodes_equal(e1, e2),
            (
                Ast::MultiHash { offset: o1, pairs: mine },
                Ast::MultiHash { offset: o2, pairs: theirs },
            ) => *o1 == *o2 && pairs_equal(mine, theirs),
            (Ast::Flatten { offset: o1, node: n1 }, Ast::Flatten { offset: o2, node: n2 }) => *o1
                == *o2 && n1.equals(n2),
            (
                Ast::Slice { offset: o1, start: a1, stop: b1, step: s1 },
                Ast::Slice { offset: o2, start: a2, stop: b2, step: s2 },
            ) => *o1 == *o2 && bounds_equal(a1, a2) && bounds_equal(b1, b2) && *s1 == *s2,
            (
                Ast::Projection { offset: o1, lhs: l1, rhs: r1 },
                Ast::Projection { offset: o2, lhs: l2, rhs: r2 },
            ) => *o1 == *o2 && l1.equals(l2) && r1.equals(r2),
            (
                Ast::ObjectValues { offset: o1, node: n1 },
                Ast::ObjectValues { offset: o2, node: n2 },
            ) => *o1 == *o2 && n1.equals(n2),
            (
                Ast::Comparison { offset: o1, comparator: c1, lhs: l1, rhs: r1 },
                Ast::Comparison { offset: o2, comparator: c2, lhs: l2, rhs: r2 },
            ) => *o1 == *o2 && *c1 == *c2 && l1.equals(l2) && r1.equals(r2),
            (
                Ast::Condition { offset: o1, predicate: l1, then: r1 },
                Ast::Condition { offset: o2, predicate: l2, then: r2 },
            ) => *o1 == *o2 && l1.equals(l2) && r1.equals(r2),
            (
                Ast::FunctionCall { offset: o1, name: n1, args: a1 },
                Ast::FunctionCall { offset: o2, name: n2, args: a2 },
            ) => *o1 == *o2 && *n1 == *n2 && nodes_equal(a1, a2),
            (
                Ast::ExpressionReference { offset: o1, ast: n1 },
                Ast::ExpressionReference { offset: o2, ast: n2 },
            ) => *o1 == *o2 && n1.equals(n2),
            _ => false,
        }
    }
}

impl Expr {
    /// The character offset that the node carries.
    pub open spec fn offset(self) -> nat {
        match self {
            Expr::Identity { offset } => offset,
            Expr::Field { offset, .. } => offset,
            Expr::Index { offset, .. } => offset,
            Expr::Literal { offset, .. } => offset,
            Expr::Subexpr { offset, .. } => offset,
            Expr::Pipe { offset, .. } => offset,
            Expr::Or { offset, .. } => offset,
            Expr::And { offset, .. } => offset,
            Expr::Not { offset, .. } => offset,
            Expr::MultiList { offset, .. } => offset,
            Expr::MultiHash { offset, .. } => offset,
            Expr::Flatten { offset, .. } => offset,
            Expr::Slice { offset, .. } => offset,
            Expr::Projection { offset, .. } => offset,
            Expr::ObjectValues { offset, .. } => offset,
            Expr::Comparison { offset, .. } => offset,
            Expr::Condition { offset, .. } => offset,
            Expr::FunctionCall { offset, .. } => offset,
            Expr::ExpressionReference { offset, .. } => offset,
        }
    }
}

/// Every node of `e` carries an offset below `limit`.
pub open spec fn within(e: Expr, limit: nat) -> bool
    decreases e,
{
    &&& e.offset() < limit
    &&& match e {
        Expr::Subexpr { lhs, rhs, .. } => within(*lhs, limit) && within(*rhs, limit),
        Expr::Pipe { lhs, rhs, .. } => within(*lhs, limit) && within(*rhs, limit),
        Expr::Or { lhs, rhs, .. } => within(*lhs, limit) && within(*rhs, limit),
        Expr::And { lhs, rhs, .. } => within(*lhs, limit) && within(*rhs, limit),
        Expr::Projection { lhs, rhs, .. } => within(*lhs, limit) && within(*rhs, limit),
        Expr::Comparison { lhs, rhs, .. } => within(*lhs, limit) && within(*rhs, limit),
        Expr::Condition { predicate, then, .. } => within(*predicate, limit) && within(
            *then,
            limit,
        ),
        Expr::Not { node, .. } => within(*node, limit),
        Expr::Flatten { node, .. } => within(*node, limit),
        Expr::ObjectValues { node, .. } => within(*node, limit),
        Expr::ExpressionReference { ast, .. } => within(*ast, limit),
        Expr::MultiList { elements, .. } => forall|i: int|
            0 <= i < elements.len() ==> within(#[trigger] elements[i], limit),
        Expr::FunctionCall { args, .. } => forall|i: int|
            0 <= i < args.len() ==> within(#[trigger] args[i], limit),
        Expr::MultiHash { pairs, .. } => forall|i: int|
            0 <= i < pairs.len() ==> within((#[trigger] pairs[i]).1, limit),
        _ => true,
    }
}

impl View for Ast {
    type V = Expr;

    open spec fn view(&self) -> Expr {
        self.model()
    }
}

} // verus!
