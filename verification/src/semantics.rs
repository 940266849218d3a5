//! What an expression means: the value that a syntax tree yields for a
//! value, as a mathematical function.

use crate::ast::{Comparator, Expr, Pairs};
use crate::errors::Failure;
use crate::functions::{apply, builtin_of, call_fault, finish, takes_reference, values_of, Builtin};
use crate::variable::{lookup, put, truthy, Datum, Members};
use vstd::prelude::*;

verus! {

/// A failure of evaluation, with the offset of the node that raised it.
pub ghost struct Fault {
    pub offset: nat,
    pub failure: Failure,
}

/// What evaluation gives: a value, or a fault.
pub type Outcome = Result<Datum, Fault>;

/// The member `name` of `v`, or null where `v` is no object or has no such
/// member.
pub open spec fn field_of(v: Datum, name: Seq<char>) -> Datum {
    match v {
        Datum::Object(members) => match lookup(members, name) {
            Some(found) => found,
            None => Datum::Null,
        },
        _ => Datum::Null,
    }
}

/// The element at `idx` of `v`, counted from the end where `idx` is
/// negative, or null where `v` is no array or has no such element.
pub open spec fn element_at(v: Datum, idx: int) -> Datum {
    match v {
        Datum::Array(items) => if 0 <= idx < items.len() {
            items[idx]
        } else if idx < 0 && 0 <= items.len() + idx {
            items[items.len() + idx]
        } else {
            Datum::Null
        },
        _ => Datum::Null,
    }
}

/// A bound of a slice, brought into the array: counted from the end where
/// it is negative, and no further out than one step past either end.
pub open spec fn clamp_bound(x: int, len: int, step: int) -> int {
    if x < 0 {
        if x + len < 0 {
            if step < 0 {
                -1
            } else {
                0
            }
        } else {
            x + len
        }
    } else if x >= len {
        if step < 0 {
            len - 1
        } else {
            len
        }
    } else {
        x
    }
}

/// Where a slice starts: at its lower bound, or, where that is left out,
/// at the end that the step leads away from.
pub open spec fn slice_start(start: Option<int>, len: int, step: int) -> int {
    match start {
        Some(x) => clamp_bound(x, len, step),
        None => if step < 0 {
            len - 1
        } else {
            0
        },
    }
}

/// Where a slice stops: before its upper bound, or, where that is left
/// out, past the end that the step leads to.
pub open spec fn slice_stop(stop: Option<int>, len: int, step: int) -> int {
    match stop {
        Some(x) => clamp_bound(x, len, step),
        None => if step < 0 {
            -1
        } else {
            len
        },
    }
}

/// The elements `before`, and after them those at `at`, `at + step`, and
/// so on, for as long as the place lies before `stop` in the direction of
/// the step.
pub open spec fn slice_walk(items: Seq<Datum>, at: int, stop: int, step: int, before: Seq<
    Datum,
>) -> Seq<Datum>
    decreases
            (if step > 0 && at < stop {
                stop - at
            } else if step < 0 && at > stop {
                at - stop
            } else {
                0
            }),
{
    if step > 0 && at < stop {
        slice_walk(items, at + step, stop, step, before.push(items[at]))
    } else if step < 0 && at > stop {
        slice_walk(items, at + step, stop, step, before.push(items[at]))
    } else {
        before
    }
}

/// The slice of `items` from `start` to `stop` by `step`, which is not 0.
pub open spec fn slice_of(items: Seq<Datum>, start: Option<int>, stop: Option<int>, step: int) -> Seq<
    Datum,
> {
    slice_walk(
        items,
        slice_start(start, items.len() as int, step),
        slice_stop(stop, items.len() as int, step),
        step,
        Seq::empty(),
    )
}

/// The first `n` elements with the arrays among them replaced by their
/// elements.
pub open spec fn flatten_upto(items: Seq<Datum>, n: nat) -> Seq<Datum>
    decreases n,
{
    if n == 0 || n > items.len() {
        Seq::empty()
    } else {
        match items[n - 1] {
            Datum::Array(inner) => flatten_upto(items, (n - 1) as nat) + inner,
            other => flatten_upto(items, (n - 1) as nat).push(other),
        }
    }
}

/// The first `n` elements without the nulls among them, in their order.
pub open spec fn without_nulls(items: Seq<Datum>, n: nat) -> Seq<Datum>
    decreases n,
{
    if n == 0 || n > items.len() {
        Seq::empty()
    } else if items[n - 1] == Datum::Null {
        without_nulls(items, (n - 1) as nat)
    } else {
        without_nulls(items, (n - 1) as nat).push(items[n - 1])
    }
}

/// The result of a comparison: for equality and inequality, whether the
/// two values are the same; for an order, whether it holds of two numbers,
/// and null where either side is no number.
pub open spec fn compare(op: Comparator, a: Datum, b: Datum) -> Datum {
    match op {
        Comparator::Eq => Datum::Bool(a == b),
        Comparator::Ne => Datum::Bool(a != b),
        _ => match (a, b) {
            (Datum::Number(x), Datum::Number(y)) => Datum::Bool(
                match op {
                    Comparator::Lt => x < y,
                    Comparator::Lte => x <= y,
                    Comparator::Gt => x > y,
                    _ => x >= y,
                },
            ),
            _ => Datum::Null,
        },
    }
}

/// For each argument of a call, whether it is written as an expression
/// reference.
pub open spec fn written_references(args: Seq<Expr>) -> Seq<bool> {
    Seq::new(args.len(), |i: int| args[i] is ExpressionReference)
}

/// The place of the expression reference among the arguments of a function
/// that takes one.
pub open spec fn reference_place(b: Builtin) -> int {
    if b == Builtin::MapEach {
        0
    } else {
        1
    }
}

/// The elements that a function that takes an expression reference applies
/// it to.
pub open spec fn reference_items(b: Builtin, values: Seq<Datum>) -> Seq<Datum> {
    match values[1 - reference_place(b)] {
        Datum::Array(items) => items,
        _ => Seq::empty(),
    }
}

/// The value of a result of a function, or the fault at `offset`.
pub open spec fn at_offset(r: Result<Datum, Failure>, offset: nat) -> Outcome {
    match r {
        Ok(v) => Ok(v),
        Err(failure) => Err(Fault { offset, failure }),
    }
}

/// The results of the first `n` of `nodes` for `data`, from the left; the
/// first fault ends the evaluation.
pub open spec fn eval_all(nodes: Seq<Expr>, data: Datum, n: nat) -> Result<Seq<Datum>, Fault>
    decreases nodes, n,
{
    if n == 0 || n > nodes.len() {
        Ok(Seq::empty())
    } else {
        match eval_all(nodes, data, (n - 1) as nat) {
            Err(f) => Err(f),
            Ok(before) => match eval(nodes[n - 1], data) {
                Err(f) => Err(f),
                Ok(v) => Ok(before.push(v)),
            },
        }
    }
}

/// The members that the first `n` of `pairs` give for `data`, from the
/// left; the first fault ends the evaluation.
pub open spec fn eval_pairs(pairs: Pairs, data: Datum, n: nat) -> Result<Members, Fault>
    decreases pairs, n,
{
    if n == 0 || n > pairs.len() {
        Ok(Seq::empty())
    } else {
        match eval_pairs(pairs, data, (n - 1) as nat) {
            Err(f) => Err(f),
            Ok(before) => match eval(pairs[n - 1].1, data) {
                Err(f) => Err(f),
                Ok(v) => Ok(put(before, pairs[n - 1].0, v)),
            },
        }
    }
}

/// The results of `node` for each of the first `n` of `items`, from the
/// left; the first fault ends the evaluation.
pub open spec fn eval_each(node: Expr, items: Seq<Datum>, n: nat) -> Result<Seq<Datum>, Fault>
    decreases node, n + 1,
{
    if n == 0 || n > items.len() {
        Ok(Seq::empty())
    } else {
        match eval_each(node, items, (n - 1) as nat) {
            Err(f) => Err(f),
            Ok(before) => match eval(node, items[n - 1]) {
                Err(f) => Err(f),
                Ok(v) => Ok(before.push(v)),
            },
        }
    }
}

/// The value of the call of the function `name` with the arguments `args`
/// for `data`: the arguments are evaluated from the left, the function is
/// looked up, the call is held against the function's signature, and the
/// function is applied. A function that takes an expression reference
/// gets what the expression yields for each element of its array. The
/// faults of the call itself are raised at `offset`.
pub open spec fn eval_call(offset: nat, name: Seq<char>, args: Seq<Expr>, data: Datum) -> Outcome
    decreases args, args.len() + 1,
{
    match eval_all(args, data, args.len()) {
        Err(f) => Err(f),
        Ok(values) => match builtin_of(name) {
            None => Err(Fault { offset, failure: Failure::UnknownFunction(name) }),
            Some(b) => match call_fault(b, values, written_references(args)) {
                Some(failure) => Err(Fault { offset, failure }),
                None => if takes_reference(b) {
                    let place = reference_place(b);
                    let items = reference_items(b, values);
                    if 0 <= place < args.len() {
                        match args[place] {
                            Expr::ExpressionReference { ast, .. } => match eval_each(
                                *ast,
                                items,
                                items.len(),
                            ) {
                                Err(f) => Err(f),
                                Ok(keys) => at_offset(finish(b, items, keys), offset),
                            },
                            _ => Ok(Datum::Null),
                        }
                    } else {
                        Ok(Datum::Null)
                    }
                } else {
                    Ok(apply(b, values))
                },
            },
        },
    }
}

/// The value that `node` yields for `data`, or the fault that ends its
/// evaluation.
pub open spec fn eval(node: Expr, data: Datum) -> Outcome
    decreases node, 0nat,
{
    match node {
        Expr::Identity { .. } => Ok(data),
        Expr::Field { name, .. } => Ok(field_of(data, name)),
        Expr::Index { idx, .. } => Ok(element_at(data, idx)),
        Expr::Literal { value, .. } => Ok(value),
        Expr::Subexpr { lhs, rhs, .. } => match eval(*lhs, data) {
            Err(f) => Err(f),
            Ok(v) => eval(*rhs, v),
        },
        Expr::Pipe { lhs, rhs, .. } => match eval(*lhs, data) {
            Err(f) => Err(f),
            Ok(v) => eval(*rhs, v),
        },
        Expr::Or { lhs, rhs, .. } => match eval(*lhs, data) {
            Err(f) => Err(f),
            Ok(v) => if truthy(v) {
                Ok(v)
            } else {
                eval(*rhs, data)
            },
        },
        Expr::And { lhs, rhs, .. } => match eval(*lhs, data) {
            Err(f) => Err(f),
            Ok(v) => if truthy(v) {
                eval(*rhs, data)
            } else {
                Ok(v)
            },
        },
        Expr::Not { node, .. } => match eval(*node, data) {
            Err(f) => Err(f),
            Ok(v) => Ok(Datum::Bool(!truthy(v))),
        },
        Expr::MultiList { elements, .. } => if data == Datum::Null {
            Ok(Datum::Null)
        } else {
            match eval_all(elements, data, elements.len()) {
                Err(f) => Err(f),
                Ok(values) => Ok(Datum::Array(values)),
            }
        },
        Expr::MultiHash { pairs, .. } => if data == Datum::Null {
            Ok(Datum::Null)
        } else {
            match eval_pairs(pairs, data, pairs.len()) {
                Err(f) => Err(f),
                Ok(members) => Ok(Datum::Object(members)),
            }
        },
        Expr::Flatten { node, .. } => match eval(*node, data) {
            Err(f) => Err(f),
            Ok(Datum::Array(items)) => Ok(Datum::Array(flatten_upto(items, items.len()))),
            Ok(_) => Ok(Datum::Null),
        },
        Expr::Slice { offset, start, stop, step } => if step == 0 {
            Err(Fault { offset, failure: Failure::InvalidSlice })
        } else {
            match data {
                Datum::Array(items) => Ok(Datum::Array(slice_of(items, start, stop, step))),
                _ => Ok(Datum::Null),
            }
        },
        Expr::Projection { lhs, rhs, .. } => match eval(*lhs, data) {
            Err(f) => Err(f),
            Ok(Datum::Array(items)) => match eval_each(*rhs, items, items.len()) {
                Err(f) => Err(f),
                Ok(results) => Ok(Datum::Array(without_nulls(results, results.len()))),
            },
            Ok(_) => Ok(Datum::Null),
        },
        Expr::ObjectValues { node, .. } => match eval(*node, data) {
            Err(f) => Err(f),
            Ok(Datum::Object(members)) => Ok(Datum::Array(values_of(members))),
            Ok(_) => Ok(Datum::Null),
        },
        Expr::Comparison { comparator, lhs, rhs, .. } => match eval(*lhs, data) {
            Err(f) => Err(f),
            Ok(a) => match eval(*rhs, data) {
                Err(f) => Err(f),
                Ok(b) => Ok(compare(comparator, a, b)),
            },
        },
        Expr::Condition { predicate, then, .. } => match eval(*predicate, data) {
            Err(f) => Err(f),
            Ok(p) => if truthy(p) {
                eval(*then, data)
            } else {
                Ok(Datum::Null)
            },
        },
        Expr::FunctionCall { offset, name, args } => eval_call(offset, name, args, data),
        Expr::ExpressionReference { ast, .. } => Ok(Datum::Expression(ast)),
    }
}

} // verus!
