//! Evaluation of a syntax tree against a value.

use crate::ast::{bound_view, nodes_view, pairs_view, Ast, Comparator, Expr, KeyValuePair};
use crate::builtins::{call, complete, member_values};
use crate::coordinates::{count_newlines, prefix, trailing_column, Coordinates};
use crate::errors::{Error, ErrorReason, Reason, RuntimeError};
use crate::functions::{check_call, lookup_builtin, Builtin};
use crate::semantics::{
    clamp_bound,
    compare,
    element_at,
    eval,
    eval_all,
    eval_each,
    eval_pairs,
    field_of,
    eval_call,
    flatten_upto,
    slice_of,
    slice_walk,
    without_nulls,
    written_references,
    Fault,
    Outcome,
};
use crate::variable::{share, values_view, Datum, Object, RcVar, Variable};
use std::rc::Rc;
use vstd::prelude::*;

verus! {

/// What an evaluation carries along: the expression that is evaluated,
/// and the offset of the node that an error was last raised at.
pub struct Context<'a> {
    /// The expression that is evaluated.
    pub expression: &'a str,
    /// The offset in the expression that an error is to be reported at.
    pub offset: usize,
}

impl<'a> Context<'a> {
    /// A context for evaluating `expression`, at offset 0.
    pub fn new(expression: &'a str) -> (ctx: Context<'a>)
        ensures
            ctx.expression@ == expression@,
            ctx.offset == 0,
    {
        Context { expression, offset: 0 }
    }

    /// The coordinates of the offset that this context is at.
    pub fn create_coordinates(&self) -> (c: Coordinates)
        ensures
            c.offset == self.offset,
            c.line == count_newlines(prefix(self.expression@, self.offset as nat)),
            c.column == trailing_column(prefix(self.expression@, self.offset as nat)),
    {
        Coordinates::from_offset(self.expression, self.offset)
    }
}

/// The value that a search yields, or the error that ends it.
pub type SearchResult = Result<RcVar, Error>;

/// The values that an evaluation of several nodes yields, or the error
/// that ends it.
pub type SearchResults = Result<Vec<RcVar>, Error>;

/// The result `r` of an evaluation of `expr` is the outcome `expected`.
pub open spec fn same_outcome(r: SearchResult, expected: Outcome, expr: Seq<char>) -> bool {
    match (r, expected) {
        (Ok(v), Ok(d)) => v@ == d,
        (Err(e), Err(f)) => e.is_at(expr, f.offset, Reason::Runtime(f.failure)),
        _ => false,
    }
}

/// The results `r` of an evaluation of `expr` are the outcomes `expected`.
pub open spec fn same_outcomes(r: SearchResults, expected: Result<Seq<Datum>, Fault>, expr: Seq<
    char,
>) -> bool {
    match (r, expected) {
        (Ok(vs), Ok(ds)) => values_view(vs@) == ds,
        (Err(e), Err(f)) => e.is_at(expr, f.offset, Reason::Runtime(f.failure)),
        _ => false,
    }
}

/// How an evaluation leaves its context: with the expression that it had;
/// at the offset that it had where the evaluation yields a value, at the
/// offset of the fault where it does not.
pub open spec fn context_after<T>(
    before: Context,
    after: Context,
    expected: Result<T, Fault>,
) -> bool {
    &&& after.expression@ == before.expression@
    &&& match expected {
        Ok(_) => after.offset == before.offset,
        Err(f) => after.offset == f.offset,
    }
}

fn raise(ctx: &mut Context, offset: usize, reason: RuntimeError) -> (e: Error)
    ensures
        e.is_at(old(ctx).expression@, offset as nat, Reason::Runtime(reason@)),
        final(ctx).expression@ == old(ctx).expression@,
        final(ctx).offset == offset,
{
    ctx.offset = offset;
    Error::from_ctx(ctx, ErrorReason::Runtime(reason))
}

fn null() -> (r: RcVar)
    ensures
        r@ == Datum::Null,
{
    Rc::new(Variable::Null)
}

fn field(data: &Variable, name: &str) -> (r: RcVar)
    ensures
        r@ == field_of(data@, name@),
{
    match data {
        Variable::Object(o) => match o.get(name) {
            Some(v) => share(v),
            None => null(),
        },
        _ => null(),
    }
}

fn element(data: &Variable, idx: i32) -> (r: RcVar)
    ensures
        r@ == element_at(data@, idx as int),
{
    match data {
        Variable::Array(items) => {
            let len = items.len() as i128;
            let wanted = idx as i128;
            let place = if wanted < 0 {
                len + wanted
            } else {
                wanted
            };
            if 0 <= place && place < len {
                let at = place as usize;
                assert(values_view(items@)[at as int] == items@[at as int]@);
                share(&items[at])
            } else {
                null()
            }
        },
        _ => null(),
    }
}

fn clamp(x: i128, len: i128, step: i128) -> (r: i128)
    requires
        -0x1_0000_0000 <= x <= 0x1_0000_0000,
        0 <= len <= 0x1_0000_0000_0000_0000,
    ensures
        r == clamp_bound(x as int, len as int, step as int),
        -1 <= r <= len,
        step >= 0 ==> 0 <= r,
        step < 0 ==> r <= len - 1,
{
    if x < 0 {
        if x + len < 0 {
            if step < 0 {
                -1
            } else {
                0
            }
        } else {
            x + len
        }
    } else if x >= len {
        if step < 0 {
            len - 1
        } else {
            len
        }
    } else {
        x
    }
}

fn slice(items: &Vec<RcVar>, start: Option<i32>, stop: Option<i32>, step: i32) -> (r: Vec<RcVar>)
    requires
        step != 0,
    ensures
        values_view(r@) == slice_of(
            values_view(items@),
            bound_view(start),
            bound_view(stop),
            step as int,
        ),
{
    let len = items.len() as i128;
    let by = step as i128;
    let mut at: i128 = match start {
        Some(x) => clamp(x as i128, len, by),
        None => if by < 0 {
            len - 1
        } else {
            0
        },
    };
    let end: i128 = match stop {
        Some(x) => clamp(x as i128, len, by),
        None => if by < 0 {
            -1
        } else {
            len
        },
    };
    let mut out: Vec<RcVar> = Vec::new();
    assert(values_view(out@) =~= Seq::<Datum>::empty());
    loop
        invariant
            len == items.len(),
            by == step,
            by != 0,
            -1 <= end <= len,
            by > 0 ==> 0 <= at,
            by < 0 ==> at <= len - 1,
            -0x1_0000_0000 <= at <= len + 0x1_0000_0000,
            slice_of(values_view(items@), bound_view(start), bound_view(stop), step as int)
                == slice_walk(values_view(items@), at as int, end as int, by as int, values_view(out@)),
        decreases
                (if by > 0 && at < end {
                    end - at
                } else if by < 0 && at > end {
                    at - end
                } else {
                    0
                }),
    {
        if (by > 0 && at < end) || (by < 0 && at > end) {
            let place = at as usize;
            let ghost before = values_view(out@);
            out.push(share(&items[place]));
            assert(values_view(out@) =~= before.push(values_view(items@)[at as int]));
            at = at + by;
        } else {
            return out;
        }
    }
}

fn flatten(items: &Vec<RcVar>) -> (r: Vec<RcVar>)
    ensures
        values_view(r@) == flatten_upto(values_view(items@), items.len() as nat),
{
    let mut out: Vec<RcVar> = Vec::new();
    let mut i: usize = 0;
    assert(values_view(out@) =~= Seq::<Datum>::empty());
    while i < items.len()
        invariant
            i <= items.len(),
            values_view(out@) == flatten_upto(values_view(items@), i as nat),
        decreases items.len() - i,
    {
        let ghost before = values_view(out@);
        assert(values_view(items@)[i as int] == items@[i as int]@);
        match &*items[i] {
            Variable::Array(inner) => {
                let mut j: usize = 0;
                assert(values_view(inner@).take(0) =~= Seq::<Datum>::empty());
                assert(before + Seq::<Datum>::empty() =~= before);
                while j < inner.len()
                    invariant
                        j <= inner.len(),
                        values_view(out@) == before + values_view(inner@).take(j as int),
                    decreases inner.len() - j,
                {
                    let ghost prev = values_view(out@);
                    out.push(share(&inner[j]));
                    assert(values_view(out@) =~= prev.push(inner@[j as int]@));
                    assert(values_view(inner@)[j as int] == inner@[j as int]@);
                    assert(values_view(inner@).take(j + 1) =~= values_view(inner@).take(
                        j as int,
                    ).push(inner@[j as int]@));
                    assert(prev.push(inner@[j as int]@) =~= before + values_view(inner@).take(
                        j as int,
                    ).push(inner@[j as int]@));
                    j += 1;
                }
                assert(values_view(inner@).take(inner.len() as int) =~= values_view(inner@));
            },
            _ => {
                out.push(share(&items[i]));
                assert(values_view(out@) =~= before.push(items@[i as int]@));
            },
        }
        i += 1;
    }
    out
}

fn drop_nulls(items: Vec<RcVar>) -> (r: Vec<RcVar>)
    ensures
        values_view(r@) == without_nulls(values_view(items@), items.len() as nat),
{
    let mut out: Vec<RcVar> = Vec::new();
    let mut i: usize = 0;
    assert(values_view(out@) =~= Seq::<Datum>::empty());
    while i < items.len()
        invariant
            i <= items.len(),
            values_view(out@) == without_nulls(values_view(items@), i as nat),
        decreases items.len() - i,
    {
        let ghost before = values_view(out@);
        assert(values_view(items@)[i as int] == items@[i as int]@);
        if !items[i].is_null() {
            out.push(share(&items[i]));
            assert(values_view(out@) =~= before.push(items@[i as int]@));
        }
        i += 1;
    }
    out
}

fn compare_values(op: Comparator, a: &Variable, b: &Variable) -> (r: RcVar)
    ensures
        r@ == compare(op, a@, b@),
{
    match op {
        Comparator::Eq => Rc::new(Variable::Bool(a.equals(b))),
        Comparator::Ne => Rc::new(Variable::Bool(!a.equals(b))),
        _ => match (a, b) {
            (Variable::Number(x), Variable::Number(y)) => {
                let holds = match op {
                    Comparator::Lt => *x < *y,
                    Comparator::Lte => *x <= *y,
                    Comparator::Gt => *x > *y,
                    _ => *x >= *y,
                };
                Rc::new(Variable::Bool(holds))
            },
            _ => null(),
        },
    }
}

fn written_as_references(args: &Vec<Ast>) -> (r: Vec<bool>)
    ensures
        r@ == written_references(nodes_view(args@)),
        r.len() == args.len(),
{
    let mut out: Vec<bool> = Vec::new();
    let mut i: usize = 0;
    while i < args.len()
        invariant
            i <= args.len(),
            out.len() == i,
            forall|j: int| 0 <= j < i ==> out@[j] == (nodes_view(args@)[j] is ExpressionReference),
        decreases args.len() - i,
    {
        let written = match &args[i] {
            Ast::ExpressionReference { .. } => true,
            _ => false,
        };
        out.push(written);
        i += 1;
    }
    assert(out@ =~= written_references(nodes_view(args@)));
    out
}

/// Once an evaluation has met a fault, it stays the fault however many
/// more nodes there are.
proof fn lemma_eval_all_stops(nodes: Seq<Expr>, data: Datum, j: nat, k: nat)
    requires
        j <= k <= nodes.len(),
        eval_all(nodes, data, j) is Err,
    ensures
        eval_all(nodes, data, k) == eval_all(nodes, data, j),
    decreases k,
{
    if j < k {
        lemma_eval_all_stops(nodes, data, j, (k - 1) as nat);
    }
}

/// Once an evaluation has met a fault, it stays the fault however many
/// more pairs there are.
proof fn lemma_eval_pairs_stops(pairs: crate::ast::Pairs, data: Datum, j: nat, k: nat)
    requires
        j <= k <= pairs.len(),
        eval_pairs(pairs, data, j) is Err,
    ensures
        eval_pairs(pairs, data, k) == eval_pairs(pairs, data, j),
    decreases k,
{
    if j < k {
        lemma_eval_pairs_stops(pairs, data, j, (k - 1) as nat);
    }
}

/// Once an evaluation has met a fault, it stays the fault however many
/// more elements there are.
proof fn lemma_eval_each_stops(node: Expr, items: Seq<Datum>, j: nat, k: nat)
    requires
        j <= k <= items.len(),
        eval_each(node, items, j) is Err,
    ensures
        eval_each(node, items, k) == eval_each(node, items, j),
    decreases k,
{
    if j < k {
        lemma_eval_each_stops(node, items, j, (k - 1) as nat);
    }
}

/// The interpreter of syntax trees.
pub struct TreeInterpreter {}

impl TreeInterpreter {
    /// An interpreter with the built-in functions.
    pub fn new() -> (r: TreeInterpreter) {
        TreeInterpreter {  }
    }

    /// The value that `node` yields for `data`.
    pub fn interpret(&self, data: &RcVar, node: &Ast, ctx: &mut Context) -> (r: SearchResult)
        ensures
            same_outcome(r, eval(node@, data@), old(ctx).expression@),
            context_after(*old(ctx), *final(ctx), eval(node@, data@)),
        decreases node, 0nat,
    {
        match node {
            Ast::Identity { .. } => Ok(share(data)),
            Ast::Field { name, .. } => Ok(field(&**data, name.as_str())),
            Ast::Index { idx, .. } => Ok(element(&**data, *idx)),
            Ast::Literal { value, .. } => Ok(share(value)),
            Ast::Subexpr { lhs, rhs, .. } => match self.interpret(data, lhs, ctx) {
                Err(e) => Err(e),
                Ok(v) => self.interpret(&v, rhs, ctx),
            },
            Ast::Pipe { lhs, rhs, .. } => match self.interpret(data, lhs, ctx) {
                Err(e) => Err(e),
                Ok(v) => self.interpret(&v, rhs, ctx),
            },
            Ast::Or { lhs, rhs, .. } => match self.interpret(data, lhs, ctx) {
                Err(e) => Err(e),
                Ok(v) => {
                    if v.is_truthy() {
                        Ok(v)
                    } else {
                        self.interpret(data, rhs, ctx)
                    }
                },
            },
            Ast::And { lhs, rhs, .. } => match self.interpret(data, lhs, ctx) {
                Err(e) => Err(e),
                Ok(v) => {
                    if v.is_truthy() {
                        self.interpret(data, rhs, ctx)
                    } else {
                        Ok(v)
                    }
                },
            },
            Ast::Not { node: inner, .. } => match self.interpret(data, inner, ctx) {
                Err(e) => Err(e),
                Ok(v) => Ok(Rc::new(Variable::Bool(!v.is_truthy()))),
            },
            Ast::MultiList { elements, .. } => {
                if data.is_null() {
                    Ok(null())
                } else {
                    match self.interpret_all(data, elements, ctx) {
                        Err(e) => Err(e),
                        Ok(values) => Ok(Rc::new(Variable::Array(values))),
                    }
                }
            },
            Ast::MultiHash { pairs, .. } => {
                if data.is_null() {
                    Ok(null())
                } else {
                    match self.interpret_pairs(data, pairs, ctx) {
                        Err(e) => Err(e),
                        Ok(members) => Ok(Rc::new(Variable::Object(members))),
                    }
                }
            },
            Ast::Flatten { node: inner, .. } => match self.interpret(data, inner, ctx) {
                Err(e) => Err(e),
                Ok(v) => match &*v {
                    Variable::Array(items) => Ok(Rc::new(Variable::Array(flatten(items)))),
                    _ => Ok(null()),
                },
            },
            Ast::Slice { offset, start, stop, step } => {
                if *step == 0 {
                    Err(raise(ctx, *offset, RuntimeError::InvalidSlice))
                } else {
                    match &**data {
                        Variable::Array(items) => Ok(
                            Rc::new(Variable::Array(slice(items, *start, *stop, *step))),
                        ),
                        _ => Ok(null()),
                    }
                }
            },
            Ast::Projection { lhs, rhs, .. } => match self.interpret(data, lhs, ctx) {
                Err(e) => Err(e),
                Ok(v) => match &*v {
                    Variable::Array(items) => match self.interpret_each(items, rhs, ctx) {
                        Err(e) => Err(e),
                        Ok(results) => Ok(Rc::new(Variable::Array(drop_nulls(results)))),
                    },
                    _ => Ok(null()),
                },
            },
            Ast::ObjectValues { node: inner, .. } => match self.interpret(data, inner, ctx) {
                Err(e) => Err(e),
                Ok(v) => match &*v {
                    Variable::Object(o) => Ok(Rc::new(Variable::Array(member_values(o)))),
                    _ => Ok(null()),
                },
            },
            Ast::Comparison { comparator, lhs, rhs, .. } => match self.interpret(data, lhs, ctx) {
                Err(e) => Err(e),
                Ok(a) => match self.interpret(data, rhs, ctx) {
                    Err(e) => Err(e),
                    Ok(b) => Ok(compare_values(*comparator, &*a, &*b)),
                },
            },
            Ast::Condition { predicate, then, .. } => match self.interpret(data, predicate, ctx) {
                Err(e) => Err(e),
                Ok(p) => {
                    if p.is_truthy() {
                        self.interpret(data, then, ctx)
                    } else {
                        Ok(null())
                    }
                },
            },
            Ast::FunctionCall { offset, name, args } => self.interpret_call(
                data,
                *offset,
                name,
                args,
                ctx,
            ),
            Ast::ExpressionReference { ast, .. } => Ok(
                Rc::new(Variable::Expression(share(ast))),
            ),
        }
    }

    /// The value of the call of the function `name` with the arguments
    /// `args` for `data`.
    pub fn interpret_call(
        &self,
        data: &RcVar,
        offset: usize,
        name: &String,
        args: &Vec<Ast>,
        ctx: &mut Context,
    ) -> (r: SearchResult)
        ensures
            same_outcome(
                r,
                eval_call(offset as nat, name@, nodes_view(args@), data@),
                old(ctx).expression@,
            ),
            context_after(
                *old(ctx),
                *final(ctx),
                eval_call(offset as nat, name@, nodes_view(args@), data@),
            ),
        decreases args, 1nat,
    {
        match self.interpret_all(data, args, ctx) {
            Err(e) => Err(e),
            Ok(values) => match lookup_builtin(name.as_str()) {
                None => Err(raise(ctx, offset, RuntimeError::UnknownFunction(name.clone()))),
                Some(b) => {
                    let written = written_as_references(args);
                    match check_call(b, &values, &written) {
                        Some(failure) => Err(raise(ctx, offset, failure)),
                        None => {
                            if b.takes_reference() {
                                let place: usize = match b {
                                    Builtin::MapEach => 0,
                                    _ => 1,
                                };
                                assert(values_view(values@)[1 - place] == values@[1 - place]@);
                                let empty: Vec<RcVar> = Vec::new();
                                assert(values_view(empty@) =~= Seq::<Datum>::empty());
                                let items = match &*values[1 - place] {
                                    Variable::Array(items) => items,
                                    _ => &empty,
                                };
                                assert(nodes_view(args@)[place as int] == args@[place as int]@);
                                match &args[place] {
                                    Ast::ExpressionReference { ast, .. } => match self.interpret_each(
                                        items,
                                        &**ast,
                                        ctx,
                                    ) {
                                        Err(e) => Err(e),
                                        Ok(keys) => match complete(b, items, keys) {
                                            Ok(v) => Ok(v),
                                            Err(failure) => Err(raise(ctx, offset, failure)),
                                        },
                                    },
                                    _ => Ok(null()),
                                }
                            } else {
                                Ok(call(b, &values))
                            }
                        },
                    }
                },
            },
            }
    }

    /// The values that `nodes` yield for `data`, from the left.
    pub fn interpret_all(&self, data: &RcVar, nodes: &Vec<Ast>, ctx: &mut Context) -> (r:
        SearchResults)
        ensures
            same_outcomes(
                r,
                eval_all(nodes_view(nodes@), data@, nodes.len() as nat),
                old(ctx).expression@,
            ),
            context_after(
                *old(ctx),
                *final(ctx),
                eval_all(nodes_view(nodes@), data@, nodes.len() as nat),
            ),
            r matches Ok(vs) ==> vs.len() == nodes.len(),
        decreases nodes, 0nat,
    {
        let mut out: Vec<RcVar> = Vec::new();
        let mut i: usize = 0;
        assert(values_view(out@) =~= Seq::<Datum>::empty());
        while i < nodes.len()
            invariant
                i <= nodes.len(),
                out.len() == i,
                ctx.expression@ == old(ctx).expression@,
                ctx.offset == old(ctx).offset,
                eval_all(nodes_view(nodes@), data@, i as nat) == Ok::<Seq<Datum>, Fault>(
                    values_view(out@),
                ),
            decreases nodes.len() - i,
        {
            assert(nodes_view(nodes@)[i as int] == nodes@[i as int]@);
            match self.interpret(data, &nodes[i], ctx) {
                Err(e) => {
                    proof {
                        lemma_eval_all_stops(
                            nodes_view(nodes@),
                            data@,
                            (i + 1) as nat,
                            nodes.len() as nat,
                        );
                    }
                    return Err(e);
                },
                Ok(v) => {
                    let ghost before = values_view(out@);
                    out.push(v);
                    assert(values_view(out@) =~= before.push(v@));
                },
            }
            i += 1;
        }
        Ok(out)
    }

    /// The members that `pairs` yield for `data`, from the left.
    pub fn interpret_pairs(&self, data: &RcVar, pairs: &Vec<KeyValuePair>, ctx: &mut Context) -> (r:
        Result<Object, Error>)
        ensures
            match (r, eval_pairs(pairs_view(pairs@), data@, pairs.len() as nat)) {
                (Ok(o), Ok(members)) => o@ == members,
                (Err(e), Err(f)) => e.is_at(
                    old(ctx).expression@,
                    f.offset,
                    Reason::Runtime(f.failure),
                ),
                _ => false,
            },
            context_after(
                *old(ctx),
                *final(ctx),
                eval_pairs(pairs_view(pairs@), data@, pairs.len() as nat),
            ),
        decreases pairs, 0nat,
    {
        let mut out = Object::new();
        let mut i: usize = 0;
        while i < pairs.len()
            invariant
                i <= pairs.len(),
                ctx.expression@ == old(ctx).expression@,
                ctx.offset == old(ctx).offset,
                eval_pairs(pairs_view(pairs@), data@, i as nat) == Ok::<
                    crate::variable::Members,
                    Fault,
                >(out@),
            decreases pairs.len() - i,
        {
            assert(pairs_view(pairs@)[i as int] == (pairs@[i as int].key@, pairs@[i as int].value@));
            match self.interpret(data, &pairs[i].value, ctx) {
                Err(e) => {
                    proof {
                        lemma_eval_pairs_stops(
                            pairs_view(pairs@),
                            data@,
                            (i + 1) as nat,
                            pairs.len() as nat,
                        );
                    }
                    return Err(e);
                },
                Ok(v) => {
                    out.insert(pairs[i].key.clone(), v);
                },
            }
            i += 1;
        }
        Ok(out)
    }

    /// The values that `node` yields for each of `items`, from the left.
    pub fn interpret_each(&self, items: &Vec<RcVar>, node: &Ast, ctx: &mut Context) -> (r:
        SearchResults)
        ensures
            same_outcomes(
                r,
                eval_each(node@, values_view(items@), items.len() as nat),
                old(ctx).expression@,
            ),
            context_after(
                *old(ctx),
                *final(ctx),
                eval_each(node@, values_view(items@), items.len() as nat),
            ),
            r matches Ok(vs) ==> vs.len() == items.len(),
        decreases node, 1nat,
    {
        let mut out: Vec<RcVar> = Vec::new();
        let mut i: usize = 0;
        assert(values_view(out@) =~= Seq::<Datum>::empty());
        while i < items.len()
            invariant
                i <= items.len(),
                out.len() == i,
                ctx.expression@ == old(ctx).expression@,
                ctx.offset == old(ctx).offset,
                eval_each(node@, values_view(items@), i as nat) == Ok::<Seq<Datum>, Fault>(
                    values_view(out@),
                ),
            decreases items.len() - i,
        {
            assert(values_view(items@)[i as int] == items@[i as int]@);
            match self.interpret(&items[i], node, ctx) {
                Err(e) => {
                    proof {
                        lemma_eval_each_stops(
                            node@,
                            values_view(items@),
                            (i + 1) as nat,
                            items.len() as nat,
                        );
                    }
                    return Err(e);
                },
                Ok(v) => {
                    let ghost before = values_view(out@);
                    out.push(v);
                    assert(values_view(out@) =~= before.push(v@));
                },
            }
            i += 1;
        }
        Ok(out)
    }
}

} // verus!
