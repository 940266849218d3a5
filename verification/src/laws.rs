//! Laws of the engine: what holds of every expression and every value.

use crate::ast::{Comparator, Expr};
use crate::errors::Failure;
use crate::functions::{apply, Builtin};
use crate::interpreter::{same_outcome, SearchResult};
use crate::semantics::{
    compare,
    eval,
    eval_each,
    slice_of,
    slice_start,
    slice_stop,
    slice_walk,
    without_nulls,
    Fault,
};
use crate::variable::{kind_name, Datum};
use vstd::prelude::*;

verus! {

/// Evaluation is a function of the syntax tree and the value: two results
/// of evaluating one tree against one value are the same value, or report
/// the same failure at the same place.
pub proof fn law_evaluation_is_deterministic(
    first: SearchResult,
    second: SearchResult,
    node: Expr,
    data: Datum,
    expression: Seq<char>,
)
    requires
        same_outcome(first, eval(node, data), expression),
        same_outcome(second, eval(node, data), expression),
    ensures
        match (first, second) {
            (Ok(a), Ok(b)) => a@ == b@,
            (Err(a), Err(b)) => a.error_reason@ == b.error_reason@ && a.coordinates
                == b.coordinates && a.expression@ == b.expression@,
            _ => false,
        },
{
}

/// A projection whose left-hand side yields null yields null.
pub proof fn law_projection_of_null(offset: nat, lhs: Expr, rhs: Expr, data: Datum)
    requires
        eval(lhs, data) == Ok::<Datum, Fault>(Datum::Null),
    ensures
        eval(Expr::Projection { offset, lhs: Box::new(lhs), rhs: Box::new(rhs) }, data) == Ok::<
            Datum,
            Fault,
        >(Datum::Null),
{
}

/// The test that a value is not null.
pub open spec fn present() -> spec_fn(Datum) -> bool {
    |v: Datum| v != Datum::Null
}

/// The elements without the nulls are the elements that are not null, in
/// their order.
pub proof fn lemma_without_nulls_filters(items: Seq<Datum>, n: nat)
    requires
        n <= items.len(),
    ensures
        without_nulls(items, n) == items.take(n as int).filter(present()),
    decreases n,
{
    let keep = present();
    reveal(Seq::filter);
    if n == 0 {
        assert(items.take(0).filter(keep) =~= Seq::<Datum>::empty());
    } else {
        lemma_without_nulls_filters(items, (n - 1) as nat);
        assert(items.take(n as int).drop_last() =~= items.take(n - 1));
        assert(items.take(n as int).last() == items[n - 1]);
    }
}

/// A projection whose left-hand side yields an array yields the results of
/// its right-hand side for the elements that are not null, in the order
/// of the elements; so it yields as many values as there are such results.
pub proof fn law_projection_of_array(
    offset: nat,
    lhs: Expr,
    rhs: Expr,
    data: Datum,
    items: Seq<Datum>,
    results: Seq<Datum>,
)
    requires
        eval(lhs, data) == Ok::<Datum, Fault>(Datum::Array(items)),
        eval_each(rhs, items, items.len()) == Ok::<Seq<Datum>, Fault>(results),
    ensures
        eval(Expr::Projection { offset, lhs: Box::new(lhs), rhs: Box::new(rhs) }, data) == Ok::<
            Datum,
            Fault,
        >(Datum::Array(results.filter(present()))),
{
    lemma_without_nulls_filters(results, results.len());
    assert(results.take(results.len() as int) =~= results);
}

/// A slice with a step of 0 is an error, whatever it is applied to.
pub proof fn law_slice_step_zero(offset: nat, start: Option<int>, stop: Option<int>, data: Datum)
    ensures
        eval(Expr::Slice { offset, start, stop, step: 0 }, data) == Err::<Datum, Fault>(
            Fault { offset, failure: Failure::InvalidSlice },
        ),
{
}

/// A slice with a bound left out goes to the end of the array on that
/// side: with a step above 0, from the first element, and up to the last;
/// with a step below 0, from the last element, and down to the first.
pub proof fn law_slice_defaults(items: Seq<Datum>, start: Option<int>, stop: Option<int>, step: int)
    requires
        step != 0,
    ensures
        step > 0 ==> slice_start(None, items.len() as int, step) == 0,
        step > 0 ==> slice_stop(None, items.len() as int, step) == items.len(),
        step < 0 ==> slice_start(None, items.len() as int, step) == items.len() - 1,
        step < 0 ==> slice_stop(None, items.len() as int, step) == -1,
        slice_of(items, start, stop, step) == slice_walk(
            items,
            slice_start(start, items.len() as int, step),
            slice_stop(stop, items.len() as int, step),
            step,
            Seq::empty(),
        ),
{
}

/// A slice takes the element at its place and goes on by its step, for as
/// long as the place lies before the stop: below it with a step above 0,
/// above it with a step below 0. It takes nothing more once it does not.
pub proof fn law_slice_walk(items: Seq<Datum>, at: int, stop: int, step: int, before: Seq<Datum>)
    requires
        step != 0,
    ensures
        (step > 0 && at < stop) || (step < 0 && at > stop) ==> slice_walk(
            items,
            at,
            stop,
            step,
            before,
        ) == slice_walk(items, at + step, stop, step, before.push(items[at])),
        (step > 0 && at >= stop) || (step < 0 && at <= stop) ==> slice_walk(
            items,
            at,
            stop,
            step,
            before,
        ) == before,
{
}

/// The slice walk only adds to what it was given.
pub proof fn law_slice_keeps_what_it_has(
    items: Seq<Datum>,
    at: int,
    stop: int,
    step: int,
    before: Seq<Datum>,
)
    ensures
        before.is_prefix_of(slice_walk(items, at, stop, step, before)),
    decreases
            (if step > 0 && at < stop {
                stop - at
            } else if step < 0 && at > stop {
                at - stop
            } else {
                0
            }),
{
    if (step > 0 && at < stop) || (step < 0 && at > stop) {
        law_slice_keeps_what_it_has(items, at + step, stop, step, before.push(items[at]));
        let grown = before.push(items[at]);
        let whole = slice_walk(items, at + step, stop, step, grown);
        assert(before.is_prefix_of(whole)) by {
            assert(before =~= grown.subrange(0, before.len() as int));
            assert(grown =~= whole.subrange(0, grown.len() as int));
            assert(before =~= whole.subrange(0, before.len() as int));
        }
    } else {
        assert(before =~= before.subrange(0, before.len() as int));
    }
}

/// The `k`-th element that a slice takes from the place `at` on is the one
/// at `at + k * step`, for every `k` for which that place still lies
/// before the stop: below it with a step above 0, above it with a step
/// below 0.
pub proof fn law_slice_takes_every_step(
    items: Seq<Datum>,
    at: int,
    stop: int,
    step: int,
    before: Seq<Datum>,
    k: nat,
)
    requires
        (step > 0 && at + k * step < stop) || (step < 0 && at + k * step > stop),
    ensures
        slice_walk(items, at, stop, step, before).len() > before.len() + k,
        slice_walk(items, at, stop, step, before)[(before.len() + k) as int] == items[at + k * step],
    decreases k,
{
    let grown = before.push(items[at]);
    assert((step > 0 && at < stop) || (step < 0 && at > stop)) by (nonlinear_arith)
        requires
            (step > 0 && at + k * step < stop) || (step < 0 && at + k * step > stop),
    ;
    if k == 0 {
        assert(at + k * step == at) by (nonlinear_arith)
            requires
                k == 0,
        ;
        law_slice_keeps_what_it_has(items, at + step, stop, step, grown);
        let whole = slice_walk(items, at + step, stop, step, grown);
        assert(grown =~= whole.subrange(0, grown.len() as int));
        assert(whole[before.len() as int] == grown[before.len() as int]);
    } else {
        let j = (k - 1) as nat;
        assert(at + step + j * step == at + k * step) by (nonlinear_arith)
            requires
                j == k - 1,
        ;
        law_slice_takes_every_step(items, at + step, stop, step, grown, j);
    }
}

/// Equality is structural: two values compare equal exactly when they are
/// the same value, part by part, however they are shared; and unequal
/// exactly when they are not.
pub proof fn law_equality_is_structural(a: Datum, b: Datum)
    ensures
        compare(Comparator::Eq, a, b) == Datum::Bool(a == b),
        compare(Comparator::Ne, a, b) == Datum::Bool(a != b),
        compare(Comparator::Eq, a, a) == Datum::Bool(true),
{
}

/// The name of a value's type is one of seven, and two values have one
/// name exactly when they are of one type: the names part all values.
pub proof fn law_type_names_partition(a: Datum, b: Datum)
    ensures
        kind_name(a) == "null"@ || kind_name(a) == "boolean"@ || kind_name(a) == "number"@
            || kind_name(a) == "string"@ || kind_name(a) == "array"@ || kind_name(a) == "object"@
            || kind_name(a) == "expref"@,
        kind_name(a) == kind_name(b) <==> ((a is Null && b is Null) || (a is Bool && b is Bool) || (
        a is Number && b is Number) || (a is String && b is String) || (a is Array && b is Array)
            || (a is Object && b is Object) || (a is Expression && b is Expression)),
        apply(Builtin::Type, seq![a]) == Datum::String(kind_name(a)),
{
    reveal_strlit("null");
    reveal_strlit("boolean");
    reveal_strlit("number");
    reveal_strlit("string");
    reveal_strlit("array");
    reveal_strlit("object");
    reveal_strlit("expref");
    assert("null"@.len() == 4);
    assert("boolean"@.len() == 7);
    assert("array"@.len() == 5);
    assert("number"@[0] == 'n');
    assert("string"@[0] == 's');
    assert("object"@[0] == 'o');
    assert("expref"@[0] == 'e');
}

} // verus!
