//! The built-in functions, as they are computed.

use crate::errors::RuntimeError;
use crate::functions::{
    apply,
    arity,
    count,
    entries_of,
    exact_quotient,
    finish,
    first_not_null,
    insert_by_key,
    joined,
    key_fault,
    key_lt,
    keys_of,
    max_place,
    min_place,
    number_of_text,
    number_or_null,
    occurs,
    occurs_at,
    sort_upto,
    sum_upto,
    takes_reference,
    value_at_place,
    values_of,
    values_of_entries,
    Builtin,
    Entry,
};
use crate::lexer::{digit_value, digits_value, is_digit};
use crate::text::{push_char, to_chars};
use crate::variable::{share, text_less, values_view, Datum, Object, RcVar, Variable};
use std::rc::Rc;
use vstd::prelude::*;
use vstd::string::StrSliceExecFns;

verus! {

fn null() -> (r: RcVar)
    ensures
        r@ == Datum::Null,
{
    Rc::new(Variable::Null)
}

fn boolean(b: bool) -> (r: RcVar)
    ensures
        r@ == Datum::Bool(b),
{
    Rc::new(Variable::Bool(b))
}

fn array(items: Vec<RcVar>) -> (r: RcVar)
    ensures
        r@ == Datum::Array(values_view(items@)),
{
    Rc::new(Variable::Array(items))
}

fn count_of(n: usize) -> (r: RcVar)
    ensures
        r@ == count(n as nat),
{
    let wide = n as u64;
    if wide <= 0x7fff_ffff_ffff_ffff {
        Rc::new(Variable::Number(wide as i64))
    } else {
        Rc::new(Variable::Number(i64::MAX))
    }
}

fn number_or_null_of(n: i128) -> (r: RcVar)
    ensures
        r@ == number_or_null(n as int),
{
    if -0x8000_0000_0000_0000 <= n && n <= 0x7fff_ffff_ffff_ffff {
        Rc::new(Variable::Number(n as i64))
    } else {
        null()
    }
}

fn total(items: &Vec<RcVar>) -> (r: i128)
    ensures
        r == sum_upto(values_view(items@), items.len() as nat),
{
    let mut acc: i128 = 0;
    let mut i: usize = 0;
    while i < items.len()
        invariant
            i <= items.len(),
            acc == sum_upto(values_view(items@), i as nat),
            -(i as int) * 0x8000_0000_0000_0000 <= acc <= (i as int) * 0x8000_0000_0000_0000,
        decreases items.len() - i,
    {
        match &*items[i] {
            Variable::Number(x) => {
                acc = acc + (*x as i128);
            },
            _ => {},
        }
        i += 1;
    }
    acc
}

fn quotient(total: i128, n: usize) -> (r: RcVar)
    ensures
        r@ == exact_quotient(total as int, n as nat),
{
    if n == 0 {
        return null();
    }
    let magnitude: u128 = if total < 0 {
        if total == i128::MIN {
            0x8000_0000_0000_0000_0000_0000_0000_0000u128
        } else {
            (0 - total) as u128
        }
    } else {
        total as u128
    };
    let divisor = n as u128;
    if magnitude % divisor != 0 {
        return null();
    }
    let q = magnitude / divisor;
    if total < 0 {
        if q <= 0x8000_0000_0000_0000 {
            number_or_null_of(0 - (q as i128))
        } else {
            null()
        }
    } else {
        if q <= 0x7fff_ffff_ffff_ffff {
            number_or_null_of(q as i128)
        } else {
            null()
        }
    }
}

fn matches_at(hay: &Vec<char>, needle: &Vec<char>, at: usize) -> (r: bool)
    ensures
        r == occurs_at(hay@, needle@, at as int),
{
    if needle.len() > hay.len() || at > hay.len() - needle.len() {
        return false;
    }
    let mut j: usize = 0;
    while j < needle.len()
        invariant
            j <= needle.len(),
            at + needle.len() <= hay.len(),
            forall|k: int| 0 <= k < j ==> hay@[at + k] == needle@[k],
        decreases needle.len() - j,
    {
        if hay[at + j] != needle[j] {
            assert(hay@.subrange(at as int, at + needle.len())[j as int] != needle@[j as int]);
            return false;
        }
        j += 1;
    }
    assert(hay@.subrange(at as int, at + needle.len()) =~= needle@);
    true
}

fn found_in(hay: &Vec<char>, needle: &Vec<char>) -> (r: bool)
    ensures
        r == occurs(hay@, needle@),
{
    if needle.len() > hay.len() {
        assert(forall|a: int| !occurs_at(hay@, needle@, a));
        return false;
    }
    let last = hay.len() - needle.len();
    let mut at: usize = 0;
    while at < last
        invariant
            last == hay.len() - needle.len(),
            at <= last,
            forall|a: int| 0 <= a < at ==> !occurs_at(hay@, needle@, a),
        decreases last - at,
    {
        if matches_at(hay, needle, at) {
            return true;
        }
        at += 1;
    }
    if matches_at(hay, needle, last) {
        return true;
    }
    assert(forall|a: int| !occurs_at(hay@, needle@, a));
    false
}

fn holds(items: &Vec<RcVar>, wanted: &Variable) -> (r: bool)
    ensures
        r == values_view(items@).contains(wanted@),
{
    let mut i: usize = 0;
    while i < items.len()
        invariant
            i <= items.len(),
            forall|j: int| 0 <= j < i ==> values_view(items@)[j] != wanted@,
        decreases items.len() - i,
    {
        if items[i].equals(wanted) {
            assert(values_view(items@)[i as int] == wanted@);
            return true;
        }
        i += 1;
    }
    false
}

fn join(glue: &str, items: &Vec<RcVar>) -> (r: String)
    ensures
        r@ == joined(glue@, values_view(items@), items.len() as nat),
{
    let mut out = String::new();
    let mut i: usize = 0;
    while i < items.len()
        invariant
            i <= items.len(),
            out@ == joined(glue@, values_view(items@), i as nat),
        decreases items.len() - i,
    {
        let ghost before = out@;
        if i > 0 {
            out.append(glue);
        }
        match &*items[i] {
            Variable::String(s) => {
                out.append(s.as_str());
            },
            _ => {
                assert(out@ + Seq::<char>::empty() == out@);
            },
        }
        assert(i == 0 ==> Seq::<char>::empty() + out@ == out@);
        i += 1;
    }
    out
}

fn member_keys(o: &Object) -> (r: Vec<RcVar>)
    ensures
        values_view(r@) == keys_of(o@),
{
    let mut out: Vec<RcVar> = Vec::new();
    let mut i: usize = 0;
    while i < o.len()
        invariant
            i <= o@.len(),
            out.len() == i,
            forall|j: int| 0 <= j < i ==> (#[trigger] out@[j])@ == Datum::String(o@[j].0),
        decreases o@.len() - i,
    {
        out.push(Rc::new(Variable::String(o.key_at(i).clone())));
        i += 1;
    }
    assert(values_view(out@) =~= keys_of(o@));
    out
}

/// The values of the members of an object, in the order of the keys.
pub fn member_values(o: &Object) -> (r: Vec<RcVar>)
    ensures
        values_view(r@) == values_of(o@),
{
    let mut out: Vec<RcVar> = Vec::new();
    let mut i: usize = 0;
    while i < o.len()
        invariant
            i <= o@.len(),
            out.len() == i,
            forall|j: int| 0 <= j < i ==> (#[trigger] out@[j])@ == o@[j].1,
        decreases o@.len() - i,
    {
        out.push(share(o.value_at(i)));
        i += 1;
    }
    assert(values_view(out@) =~= values_of(o@));
    out
}

fn key_before(a: &Variable, b: &Variable) -> (r: bool)
    ensures
        r == key_lt(a@, b@),
{
    match (a, b) {
        (Variable::Number(x), Variable::Number(y)) => *x < *y,
        (Variable::String(x), Variable::String(y)) => text_less(x.as_str(), y.as_str()),
        _ => false,
    }
}

fn place_of_max(keys: &Vec<RcVar>) -> (r: usize)
    ensures
        r == max_place(values_view(keys@), keys.len() as nat),
        keys.len() > 0 ==> r < keys.len(),
{
    let mut best: usize = 0;
    let mut i: usize = 1;
    if keys.len() == 0 {
        return 0;
    }
    while i < keys.len()
        invariant
            1 <= i <= keys.len(),
            best < i,
            best == max_place(values_view(keys@), i as nat),
        decreases keys.len() - i,
    {
        if key_before(&keys[best], &keys[i]) {
            best = i;
        }
        i += 1;
    }
    best
}

fn place_of_min(keys: &Vec<RcVar>) -> (r: usize)
    ensures
        r == min_place(values_view(keys@), keys.len() as nat),
        keys.len() > 0 ==> r < keys.len(),
{
    let mut best: usize = 0;
    let mut i: usize = 1;
    if keys.len() == 0 {
        return 0;
    }
    while i < keys.len()
        invariant
            1 <= i <= keys.len(),
            best < i,
            best == min_place(values_view(keys@), i as nat),
        decreases keys.len() - i,
    {
        if key_before(&keys[i], &keys[best]) {
            best = i;
        }
        i += 1;
    }
    best
}

fn pick(items: &Vec<RcVar>, place: usize) -> (r: RcVar)
    ensures
        r@ == value_at_place(values_view(items@), place as nat),
{
    if place < items.len() {
        share(&items[place])
    } else {
        null()
    }
}

/// Where the rule of `insert_by_key` puts an entry.
proof fn lemma_insert_place(sorted: Seq<Entry>, entry: Entry, j: int)
    requires
        0 <= j <= sorted.len(),
        forall|k: int| j <= k < sorted.len() ==> key_lt(entry.0, (#[trigger] sorted[k]).0),
        j > 0 ==> !key_lt(entry.0, sorted[j - 1].0),
    ensures
        insert_by_key(sorted, entry) == sorted.insert(j, entry),
    decreases sorted.len(),
{
    if j == sorted.len() {
        assert(sorted.push(entry) =~= sorted.insert(j, entry));
    } else {
        assert(key_lt(entry.0, sorted[sorted.len() - 1].0));
        lemma_insert_place(sorted.drop_last(), entry, j);
        assert(sorted.drop_last().insert(j, entry).push(sorted.last()) =~= sorted.insert(
            j,
            entry,
        ));
    }
}

fn sorted_by(keys: &Vec<RcVar>, items: &Vec<RcVar>) -> (r: Vec<RcVar>)
    requires
        keys.len() == items.len(),
    ensures
        values_view(r@) == values_of_entries(
            sort_upto(
                entries_of(values_view(keys@), values_view(items@)),
                items.len() as nat,
            ),
        ),
{
    let ghost entries = entries_of(values_view(keys@), values_view(items@));
    let mut sorted_keys: Vec<RcVar> = Vec::new();
    let mut sorted_items: Vec<RcVar> = Vec::new();
    let mut i: usize = 0;
    assert(entries_of(values_view(sorted_keys@), values_view(sorted_items@)) =~= sort_upto(
        entries,
        0,
    ));
    while i < items.len()
        invariant
            i <= items.len(),
            keys.len() == items.len(),
            entries == entries_of(values_view(keys@), values_view(items@)),
            sorted_keys.len() == i,
            sorted_items.len() == i,
            entries_of(values_view(sorted_keys@), values_view(sorted_items@)) == sort_upto(
                entries,
                i as nat,
            ),
        decreases items.len() - i,
    {
        let ghost before = entries_of(values_view(sorted_keys@), values_view(sorted_items@));
        let mut j: usize = i;
        while j > 0 && key_before(&keys[i], &sorted_keys[j - 1])
            invariant
                j <= i,
                i < keys.len(),
                sorted_keys.len() == i,
                sorted_items.len() == i,
                before == entries_of(values_view(sorted_keys@), values_view(sorted_items@)),
                forall|k: int| j <= k < i ==> key_lt(keys@[i as int]@, (#[trigger] before[k]).0),
            decreases j,
        {
            j -= 1;
        }
        proof {
            lemma_insert_place(before, entries[i as int], j as int);
        }
        sorted_keys.insert(j, share(&keys[i]));
        sorted_items.insert(j, share(&items[i]));
        assert(entries_of(values_view(sorted_keys@), values_view(sorted_items@)) =~= before.insert(
            j as int,
            entries[i as int],
        ));
        i += 1;
    }
    assert(values_view(sorted_items@) =~= values_of_entries(
        entries_of(values_view(sorted_keys@), values_view(sorted_items@)),
    ));
    sorted_items
}

fn first_present(values: &Vec<RcVar>) -> (r: RcVar)
    ensures
        r@ == first_not_null(values_view(values@), values.len() as nat),
{
    let mut i: usize = 0;
    while i < values.len()
        invariant
            i <= values.len(),
            first_not_null(values_view(values@), i as nat) == Datum::Null,
        decreases values.len() - i,
    {
        if !values[i].is_null() {
            proof {
                lemma_first_not_null_stays(values_view(values@), (i + 1) as nat, values.len() as nat);
            }
            return share(&values[i]);
        }
        i += 1;
    }
    null()
}

/// Once a value that is not null has been found, it stays the first.
proof fn lemma_first_not_null_stays(values: Seq<Datum>, j: nat, k: nat)
    requires
        j <= k <= values.len(),
        first_not_null(values, j) != Datum::Null,
    ensures
        first_not_null(values, k) == first_not_null(values, j),
    decreases k,
{
    if j < k {
        lemma_first_not_null_stays(values, j, (k - 1) as nat);
    }
}

fn reversed(items: &Vec<RcVar>) -> (r: Vec<RcVar>)
    ensures
        values_view(r@) == values_view(items@).reverse(),
{
    let mut out: Vec<RcVar> = Vec::new();
    let n = items.len();
    let mut i: usize = 0;
    while i < n
        invariant
            i <= n,
            n == items.len(),
            out.len() == i,
            forall|j: int| 0 <= j < i ==> (#[trigger] out@[j])@ == items@[n - 1 - j]@,
        decreases n - i,
    {
        out.push(share(&items[n - 1 - i]));
        i += 1;
    }
    assert(values_view(out@) =~= values_view(items@).reverse());
    out
}

fn reversed_text(s: &str) -> (r: String)
    ensures
        r@ == s@.reverse(),
{
    let chars = to_chars(s);
    let mut out = String::new();
    let n = chars.len();
    let mut i: usize = 0;
    while i < n
        invariant
            i <= n,
            n == chars.len(),
            out@.len() == i,
            forall|j: int| 0 <= j < i ==> out@[j] == chars@[n - 1 - j],
        decreases n - i,
    {
        push_char(&mut out, chars[n - 1 - i]);
        i += 1;
    }
    assert(out@ =~= s@.reverse());
    out
}

fn digit(c: char) -> (r: Option<u128>)
    ensures
        match r {
            Some(d) => is_digit(c) && d == digit_value(c),
            None => !is_digit(c),
        },
{
    if c == '0' {
        Some(0)
    } else if c == '1' {
        Some(1)
    } else if c == '2' {
        Some(2)
    } else if c == '3' {
        Some(3)
    } else if c == '4' {
        Some(4)
    } else if c == '5' {
        Some(5)
    } else if c == '6' {
        Some(6)
    } else if c == '7' {
        Some(7)
    } else if c == '8' {
        Some(8)
    } else if c == '9' {
        Some(9)
    } else {
        None
    }
}

/// The digits value of a longer run is no less.
proof fn lemma_digits_grow(s: Seq<char>, from: nat, j: nat, k: nat)
    requires
        from <= j <= k <= s.len(),
    ensures
        digits_value(s, from, j) <= digits_value(s, from, k),
    decreases k,
{
    if j < k {
        lemma_digits_grow(s, from, j, (k - 1) as nat);
    }
}

fn number_in(s: &str) -> (r: RcVar)
    ensures
        r@ == (match number_of_text(s@) {
            Some(n) => Datum::Number(n),
            None => Datum::Null,
        }),
{
    let chars = to_chars(s);
    let negative = chars.len() > 0 && chars[0] == '-';
    let start: usize = if negative {
        1
    } else {
        0
    };
    if chars.len() <= start {
        return null();
    }
    let limit: u128 = 0x8000_0000_0000_0000;
    let mut magnitude: u128 = 0;
    let mut i: usize = start;
    while i < chars.len()
        invariant
            start <= i <= chars.len(),
            chars@ == s@,
            negative == (chars@.len() > 0 && chars@[0] == '-'),
            start == if negative {
                1nat
            } else {
                0nat
            },
            limit == 0x8000_0000_0000_0000,
            forall|j: int| start <= j < i ==> is_digit(#[trigger] chars@[j]),
            magnitude == digits_value(chars@, start as nat, i as nat),
            magnitude <= limit,
        decreases chars.len() - i,
    {
        match digit(chars[i]) {
            None => {
                return null();
            },
            Some(d) => {
                magnitude = magnitude * 10 + d;
                if magnitude > limit {
                    proof {
                        lemma_digits_grow(
                            chars@,
                            start as nat,
                            (i + 1) as nat,
                            chars@.len(),
                        );
                    }
                    return null();
                }
            },
        }
        i += 1;
    }
    if negative {
        number_or_null_of(0 - (magnitude as i128))
    } else {
        number_or_null_of(magnitude as i128)
    }
}

/// What the function `b`, which takes no expression reference, returns
/// for the arguments `values`.
pub fn call(b: Builtin, values: &Vec<RcVar>) -> (r: RcVar)
    requires
        values.len() >= arity(b),
        !takes_reference(b),
    ensures
        r@ == apply(b, values_view(values@)),
{
    let first = &values[0];
    assert(values_view(values@)[0] == first@);
    match b {
        Builtin::Abs => match &**first {
            Variable::Number(n) => {
                let wide = *n as i128;
                if wide < 0 {
                    number_or_null_of(0 - wide)
                } else {
                    number_or_null_of(wide)
                }
            },
            _ => null(),
        },
        Builtin::Ceil | Builtin::Floor => share(first),
        Builtin::Sum => match &**first {
            Variable::Array(items) => number_or_null_of(total(items)),
            _ => null(),
        },
        Builtin::Avg => match &**first {
            Variable::Array(items) => quotient(total(items), items.len()),
            _ => null(),
        },
        Builtin::Contains => {
            assert(values_view(values@)[1] == values@[1]@);
            match (&**first, &*values[1]) {
                (Variable::String(hay), Variable::String(needle)) => {
                    let h = to_chars(hay.as_str());
                    let n = to_chars(needle.as_str());
                    boolean(found_in(&h, &n))
                },
                (Variable::Array(items), wanted) => boolean(holds(items, wanted)),
                _ => boolean(false),
            }
        },
        Builtin::EndsWith => {
            assert(values_view(values@)[1] == values@[1]@);
            match (&**first, &*values[1]) {
                (Variable::String(s), Variable::String(suffix)) => {
                    let h = to_chars(s.as_str());
                    let n = to_chars(suffix.as_str());
                    if n.len() <= h.len() {
                        boolean(matches_at(&h, &n, h.len() - n.len()))
                    } else {
                        boolean(false)
                    }
                },
                _ => null(),
            }
        },
        Builtin::StartsWith => {
            assert(values_view(values@)[1] == values@[1]@);
            match (&**first, &*values[1]) {
                (Variable::String(s), Variable::String(start)) => {
                    let h = to_chars(s.as_str());
                    let n = to_chars(start.as_str());
                    boolean(matches_at(&h, &n, 0))
                },
                _ => null(),
            }
        },
        Builtin::Join => {
            assert(values_view(values@)[1] == values@[1]@);
            match (&**first, &*values[1]) {
                (Variable::String(glue), Variable::Array(items)) => Rc::new(
                    Variable::String(join(glue.as_str(), items)),
                ),
                _ => null(),
            }
        },
        Builtin::Keys => match &**first {
            Variable::Object(o) => array(member_keys(o)),
            _ => null(),
        },
        Builtin::Values => match &**first {
            Variable::Object(o) => array(member_values(o)),
            _ => null(),
        },
        Builtin::Length => match &**first {
            Variable::String(s) => count_of(s.as_str().unicode_len()),
            Variable::Array(items) => count_of(items.len()),
            Variable::Object(o) => count_of(o.len()),
            _ => null(),
        },
        Builtin::Max => match &**first {
            Variable::Array(items) => pick(items, place_of_max(items)),
            _ => null(),
        },
        Builtin::Min => match &**first {
            Variable::Array(items) => pick(items, place_of_min(items)),
            _ => null(),
        },
        Builtin::Sort => match &**first {
            Variable::Array(items) => array(sorted_by(items, items)),
            _ => null(),
        },
        Builtin::NotNull => first_present(values),
        Builtin::Reverse => match &**first {
            Variable::Array(items) => array(reversed(items)),
            Variable::String(s) => Rc::new(Variable::String(reversed_text(s.as_str()))),
            _ => null(),
        },
        Builtin::ToArray => match &**first {
            Variable::Array(_) => share(first),
            _ => {
                let mut items: Vec<RcVar> = Vec::new();
                items.push(share(first));
                assert(values_view(items@) =~= seq![first@]);
                array(items)
            },
        },
        Builtin::ToNumber => match &**first {
            Variable::Number(_) => share(first),
            Variable::String(s) => number_in(s.as_str()),
            _ => null(),
        },
        Builtin::ToString => match &**first {
            Variable::String(_) => share(first),
            _ => Rc::new(Variable::String(first.to_string())),
        },
        Builtin::Type => Rc::new(Variable::String(String::from_str(first.get_type()))),
        Builtin::MapEach | Builtin::MaxBy | Builtin::MinBy | Builtin::SortBy => null(),
    }
}

/// Once a key has been found at fault, it stays the one at fault however
/// many more keys are looked at.
proof fn lemma_key_fault_stable(keys: Seq<Datum>, j: nat, k: nat)
    requires
        j <= k <= keys.len(),
        key_fault(keys, j) is Some,
    ensures
        key_fault(keys, k) == key_fault(keys, j),
    decreases k,
{
    if j < k {
        lemma_key_fault_stable(keys, j, (k - 1) as nat);
    }
}

fn check_keys(keys: &Vec<RcVar>) -> (r: Option<RuntimeError>)
    ensures
        match r {
            Some(e) => key_fault(values_view(keys@), keys.len() as nat) == Some(e@),
            None => key_fault(values_view(keys@), keys.len() as nat) is None,
        },
{
    let n = keys.len();
    let mut i: usize = 0;
    while i < n
        invariant
            i <= n,
            n == keys.len(),
            key_fault(values_view(keys@), i as nat) is None,
        decreases n - i,
    {
        let key = &keys[i];
        assert(values_view(keys@)[i as int] == key@);
        assert(values_view(keys@)[0] == keys@[0]@);
        let plain = match &**key {
            Variable::Number(_) => true,
            Variable::String(_) => true,
            _ => false,
        };
        let fault = if i == 0 && !plain {
            Some(
                RuntimeError::InvalidReturnType {
                    expected: String::from_str("expression->number|expression->string"),
                    actual: String::from_str(key.get_type()),
                    actual_value: share(key),
                    position: 1,
                    invocation: 0,
                },
            )
        } else if !crate::text::same_text(key.get_type(), keys[0].get_type()) {
            let mut expected = String::from_str("expression->");
            expected.append(keys[0].get_type());
            Some(
                RuntimeError::InvalidReturnType {
                    expected,
                    actual: String::from_str(key.get_type()),
                    actual_value: share(key),
                    position: 1,
                    invocation: i,
                },
            )
        } else {
            None
        };
        match fault {
            Some(e) => {
                proof {
                    assert(key_fault(values_view(keys@), (i + 1) as nat) == Some(e@));
                    lemma_key_fault_stable(values_view(keys@), (i + 1) as nat, n as nat);
                }
                return Some(e);
            },
            None => {},
        }
        i += 1;
    }
    None
}

/// What the function `b`, which takes an expression reference, returns,
/// from the elements `items` and from `keys`, what the reference returned
/// for each of them.
pub fn complete(b: Builtin, items: &Vec<RcVar>, keys: Vec<RcVar>) -> (r: Result<
    RcVar,
    RuntimeError,
>)
    requires
        takes_reference(b),
        keys.len() == items.len(),
    ensures
        match r {
            Ok(v) => finish(b, values_view(items@), values_view(keys@)) == Ok::<Datum, crate::errors::Failure>(v@),
            Err(e) => finish(b, values_view(items@), values_view(keys@)) == Err::<Datum, crate::errors::Failure>(e@),
        },
{
    match b {
        Builtin::MapEach => Ok(array(keys)),
        _ => match check_keys(&keys) {
            Some(e) => Err(e),
            None => match b {
                Builtin::SortBy => Ok(array(sorted_by(&keys, items))),
                Builtin::MaxBy => Ok(pick(items, place_of_max(&keys))),
                _ => Ok(pick(items, place_of_min(&keys))),
            },
        },
    }
}

} // verus!
