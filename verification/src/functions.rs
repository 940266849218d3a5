//! The built-in functions: their signatures and what they compute.

use crate::errors::Failure;
use crate::json::{json_of, json_text};
use crate::lexer::{digits_value, is_digit};
use crate::errors::RuntimeError;
use crate::text::same_text;
use crate::variable::{kind_name, share, text_lt, values_view, Datum, Members, RcVar, Variable};

use vstd::prelude::*;

verus! {

/// The built-in functions.
#[derive(Clone, Copy, Debug, PartialEq, Eq, Structural)]
pub enum Builtin {
    Abs,
    Avg,
    Ceil,
    Contains,
    EndsWith,
    Floor,
    Join,
    Keys,
    Length,
    MapEach,
    Max,
    MaxBy,
    Min,
    MinBy,
    NotNull,
    Reverse,
    Sort,
    SortBy,
    StartsWith,
    Sum,
    ToArray,
    ToNumber,
    ToString,
    Type,
    Values,
}

/// A type that a parameter may accept.
#[derive(Clone, Copy, Debug, PartialEq, Eq, Structural)]
pub enum ArgumentType {
    Any,
    String,
    Number,
    Object,
    Array,
    Expref,
    NumberArray,
    StringArray,
}

/// What a parameter accepts: one type, or one of up to three.
#[derive(Clone, Copy, Debug, PartialEq, Eq, Structural)]
pub struct Accepted {
    pub first: ArgumentType,
    pub second: Option<ArgumentType>,
    pub third: Option<ArgumentType>,
}

/// The built-in function of a name, if there is one.
pub open spec fn builtin_of(name: Seq<char>) -> Option<Builtin> {
    if name == "abs"@ {
        Some(Builtin::Abs)
    } else if name == "avg"@ {
        Some(Builtin::Avg)
    } else if name == "ceil"@ {
        Some(Builtin::Ceil)
    } else if name == "contains"@ {
        Some(Builtin::Contains)
    } else if name == "ends_with"@ {
        Some(Builtin::EndsWith)
    } else if name == "floor"@ {
        Some(Builtin::Floor)
    } else if name == "join"@ {
        Some(Builtin::Join)
    } else if name == "keys"@ {
        Some(Builtin::Keys)
    } else if name == "length"@ {
        Some(Builtin::Length)
    } else if name == "map"@ {
        Some(Builtin::MapEach)
    } else if name == "max"@ {
        Some(Builtin::Max)
    } else if name == "max_by"@ {
        Some(Builtin::MaxBy)
    } else if name == "min"@ {
        Some(Builtin::Min)
    } else if name == "min_by"@ {
        Some(Builtin::MinBy)
    } else if name == "not_null"@ {
        Some(Builtin::NotNull)
    } else if name == "reverse"@ {
        Some(Builtin::Reverse)
    } else if name == "sort"@ {
        Some(Builtin::Sort)
    } else if name == "sort_by"@ {
        Some(Builtin::SortBy)
    } else if name == "starts_with"@ {
        Some(Builtin::StartsWith)
    } else if name == "sum"@ {
        Some(Builtin::Sum)
    } else if name == "to_array"@ {
        Some(Builtin::ToArray)
    } else if name == "to_number"@ {
        Some(Builtin::ToNumber)
    } else if name == "to_string"@ {
        Some(Builtin::ToString)
    } else if name == "type"@ {
        Some(Builtin::Type)
    } else if name == "values"@ {
        Some(Builtin::Values)
    } else {
        None
    }
}

/// The number of parameters of a function; for a variadic function, the
/// least number of arguments.
pub open spec fn arity(b: Builtin) -> nat {
    match b {
        Builtin::Contains | Builtin::EndsWith | Builtin::Join | Builtin::MapEach | Builtin::MaxBy
        | Builtin::MinBy | Builtin::SortBy | Builtin::StartsWith => 2,
        _ => 1,
    }
}

/// Whether a function takes any number of arguments from its arity on.
pub open spec fn variadic(b: Builtin) -> bool {
    b == Builtin::NotNull
}

/// One type.
pub open spec fn only(t: ArgumentType) -> Accepted {
    Accepted { first: t, second: None, third: None }
}

/// One of two types.
pub open spec fn either(t: ArgumentType, u: ArgumentType) -> Accepted {
    Accepted { first: t, second: Some(u), third: None }
}

/// What the parameter at `position` of a function accepts.
pub open spec fn parameter(b: Builtin, position: nat) -> Accepted {
    match b {
        Builtin::Abs | Builtin::Ceil | Builtin::Floor => only(ArgumentType::Number),
        Builtin::Avg | Builtin::Sum => only(ArgumentType::NumberArray),
        Builtin::Contains => if position == 0 {
            either(ArgumentType::String, ArgumentType::Array)
        } else {
            only(ArgumentType::Any)
        },
        Builtin::EndsWith | Builtin::StartsWith => only(ArgumentType::String),
        Builtin::Join => if position == 0 {
            only(ArgumentType::String)
        } else {
            only(ArgumentType::StringArray)
        },
        Builtin::Keys | Builtin::Values => only(ArgumentType::Object),
        Builtin::Length => Accepted {
            first: ArgumentType::Array,
            second: Some(ArgumentType::Object),
            third: Some(ArgumentType::String),
        },
        Builtin::MapEach => if position == 0 {
            only(ArgumentType::Expref)
        } else {
            only(ArgumentType::Array)
        },
        Builtin::Max | Builtin::Min | Builtin::Sort => either(
            ArgumentType::StringArray,
            ArgumentType::NumberArray,
        ),
        Builtin::MaxBy | Builtin::MinBy | Builtin::SortBy => if position == 0 {
            only(ArgumentType::Array)
        } else {
            only(ArgumentType::Expref)
        },
        Builtin::Reverse => either(ArgumentType::Array, ArgumentType::String),
        Builtin::NotNull | Builtin::ToArray | Builtin::ToNumber | Builtin::ToString
        | Builtin::Type => only(ArgumentType::Any),
    }
}

/// How a type is written.
pub open spec fn type_text(t: ArgumentType) -> Seq<char> {
    match t {
        ArgumentType::Any => "any"@,
        ArgumentType::String => "string"@,
        ArgumentType::Number => "number"@,
        ArgumentType::Object => "object"@,
        ArgumentType::Array => "array"@,
        ArgumentType::Expref => "expref"@,
        ArgumentType::NumberArray => "array[number]"@,
        ArgumentType::StringArray => "array[string]"@,
    }
}

/// How what a parameter accepts is written: the types, with `|` between
/// them.
pub open spec fn accepted_text(a: Accepted) -> Seq<char> {
    type_text(a.first) + (match a.second {
        Some(t) => "|"@ + type_text(t),
        None => Seq::empty(),
    }) + (match a.third {
        Some(t) => "|"@ + type_text(t),
        None => Seq::empty(),
    })
}

/// Every element is a number.
pub open spec fn all_numbers(items: Seq<Datum>) -> bool {
    forall|i: int| 0 <= i < items.len() ==> (#[trigger] items[i]) is Number
}

/// Every element is a string.
pub open spec fn all_strings(items: Seq<Datum>) -> bool {
    forall|i: int| 0 <= i < items.len() ==> (#[trigger] items[i]) is String
}

/// Whether a value is of a type. An expression reference is taken only as
/// it is written, `&expression`, in the place of the argument: `written`
/// says whether it was.
pub open spec fn is_of(t: ArgumentType, v: Datum, written: bool) -> bool {
    match t {
        ArgumentType::Any => true,
        ArgumentType::String => v is String,
        ArgumentType::Number => v is Number,
        ArgumentType::Object => v is Object,
        ArgumentType::Array => v is Array,
        ArgumentType::Expref => written && v is Expression,
        ArgumentType::NumberArray => v matches Datum::Array(items) && all_numbers(items),
        ArgumentType::StringArray => v matches Datum::Array(items) && all_strings(items),
    }
}

/// Whether a parameter accepts a value.
pub open spec fn accepts(a: Accepted, v: Datum, written: bool) -> bool {
    is_of(a.first, v, written) || (a.second matches Some(t) && is_of(t, v, written)) || (
    a.third matches Some(t) && is_of(t, v, written))
}

/// What is wrong with the number `n` of arguments of a call, if anything.
pub open spec fn arity_fault(b: Builtin, n: nat) -> Option<Failure> {
    if n < arity(b) {
        Some(Failure::NotEnoughArguments { expected: arity(b), actual: n })
    } else if n > arity(b) && !variadic(b) {
        Some(Failure::TooManyArguments { expected: arity(b), actual: n })
    } else {
        None
    }
}

/// What is wrong with the types of the first `n` arguments of a call, if
/// anything: the failure of the first argument that its parameter does
/// not accept.
pub open spec fn type_fault(b: Builtin, values: Seq<Datum>, written: Seq<bool>, n: nat) -> Option<
    Failure,
>
    decreases n,
{
    if n == 0 || n > values.len() || n > written.len() {
        None
    } else {
        match type_fault(b, values, written, (n - 1) as nat) {
            Some(f) => Some(f),
            None => if accepts(parameter(b, (n - 1) as nat), values[n - 1], written[n - 1]) {
                None
            } else {
                Some(
                    Failure::InvalidType {
                        expected: accepted_text(parameter(b, (n - 1) as nat)),
                        actual: kind_name(values[n - 1]),
                        actual_value: values[n - 1],
                        position: (n - 1) as nat,
                    },
                )
            },
        }
    }
}

/// What is wrong with a call, if anything: first the number of the
/// arguments, then their types, from the left.
pub open spec fn call_fault(b: Builtin, values: Seq<Datum>, written: Seq<bool>) -> Option<Failure> {
    match arity_fault(b, values.len()) {
        Some(f) => Some(f),
        None => type_fault(b, values, written, values.len()),
    }
}

/// A count as a number; a count that 64 bits with sign do not hold is
/// taken as the largest number they hold.
pub open spec fn count(n: nat) -> Datum {
    if n <= i64::MAX {
        Datum::Number(n as int)
    } else {
        Datum::Number(i64::MAX as int)
    }
}

/// A number where 64 bits with sign hold it, else null.
pub open spec fn number_or_null(n: int) -> Datum {
    if i64::MIN <= n <= i64::MAX {
        Datum::Number(n)
    } else {
        Datum::Null
    }
}

/// The sum of the numbers among the first `n` elements.
pub open spec fn sum_upto(items: Seq<Datum>, n: nat) -> int
    decreases n,
{
    if n == 0 || n > items.len() {
        0
    } else {
        sum_upto(items, (n - 1) as nat) + (match items[n - 1] {
            Datum::Number(x) => x,
            _ => 0,
        })
    }
}

/// `total` divided by `n`, where `n` is not 0 and the division leaves no
/// remainder; else null.
pub open spec fn exact_quotient(total: int, n: nat) -> Datum {
    let magnitude = if total < 0 {
        -total
    } else {
        total
    };
    if n > 0 && magnitude % (n as int) == 0 {
        number_or_null(
            if total < 0 {
                -(magnitude / (n as int))
            } else {
                magnitude / (n as int)
            },
        )
    } else {
        Datum::Null
    }
}

/// Whether `needle` occurs in `hay` at `at`.
pub open spec fn occurs_at(hay: Seq<char>, needle: Seq<char>, at: int) -> bool {
    0 <= at && at + needle.len() <= hay.len() && hay.subrange(at, at + needle.len()) == needle
}

/// Whether `needle` occurs in `hay`.
pub open spec fn occurs(hay: Seq<char>, needle: Seq<char>) -> bool {
    exists|at: int| occurs_at(hay, needle, at)
}

/// The strings among the first `n` elements, with `glue` between them.
pub open spec fn joined(glue: Seq<char>, items: Seq<Datum>, n: nat) -> Seq<char>
    decreases n,
{
    if n == 0 || n > items.len() {
        Seq::empty()
    } else {
        let piece = match items[n - 1] {
            Datum::String(s) => s,
            _ => Seq::empty(),
        };
        if n == 1 {
            piece
        } else {
            joined(glue, items, (n - 1) as nat) + glue + piece
        }
    }
}

/// The keys of the members, as strings.
pub open spec fn keys_of(members: Members) -> Seq<Datum> {
    Seq::new(members.len(), |i: int| Datum::String(members[i].0))
}

/// The values of the members.
pub open spec fn values_of(members: Members) -> Seq<Datum> {
    Seq::new(members.len(), |i: int| members[i].1)
}

/// `a` comes before `b`: as numbers, or as strings. Values of other or of
/// different types do not come before one another.
pub open spec fn key_lt(a: Datum, b: Datum) -> bool {
    match (a, b) {
        (Datum::Number(x), Datum::Number(y)) => x < y,
        (Datum::String(x), Datum::String(y)) => text_lt(x, y),
        _ => false,
    }
}

/// An entry is a key and the value that it stands for.
pub type Entry = (Datum, Datum);

/// The entries of two sequences of one length, pair by pair.
pub open spec fn entries_of(keys: Seq<Datum>, items: Seq<Datum>) -> Seq<Entry> {
    Seq::new(items.len(), |i: int| (keys[i], items[i]))
}

/// The values of entries.
pub open spec fn values_of_entries(entries: Seq<Entry>) -> Seq<Datum> {
    Seq::new(entries.len(), |i: int| entries[i].1)
}

/// `sorted` with `entry` put in behind the last entry whose key does not
/// come after its key.
pub open spec fn insert_by_key(sorted: Seq<Entry>, entry: Entry) -> Seq<Entry>
    decreases sorted.len(),
{
    if sorted.len() > 0 && key_lt(entry.0, sorted.last().0) {
        insert_by_key(sorted.drop_last(), entry).push(sorted.last())
    } else {
        sorted.push(entry)
    }
}

/// The first `n` entries in the order of their keys; entries with keys of
/// which neither comes before the other stay in the order that they came
/// in.
pub open spec fn sort_upto(entries: Seq<Entry>, n: nat) -> Seq<Entry>
    decreases n,
{
    if n == 0 || n > entries.len() {
        Seq::empty()
    } else {
        insert_by_key(sort_upto(entries, (n - 1) as nat), entries[n - 1])
    }
}

/// The place of the first of the greatest among the first `n` keys (0 where
/// there is none).
pub open spec fn max_place(keys: Seq<Datum>, n: nat) -> nat
    decreases n,
{
    if n <= 1 || n > keys.len() {
        0
    } else {
        let best = max_place(keys, (n - 1) as nat);
        if key_lt(keys[best as int], keys[n - 1]) {
            (n - 1) as nat
        } else {
            best
        }
    }
}

/// The place of the first of the least among the first `n` keys (0 where
/// there is none).
pub open spec fn min_place(keys: Seq<Datum>, n: nat) -> nat
    decreases n,
{
    if n <= 1 || n > keys.len() {
        0
    } else {
        let best = min_place(keys, (n - 1) as nat);
        if key_lt(keys[n - 1], keys[best as int]) {
            (n - 1) as nat
        } else {
            best
        }
    }
}

/// The value at `place`, or null where there is none.
pub open spec fn value_at_place(items: Seq<Datum>, place: nat) -> Datum {
    if place < items.len() {
        items[place as int]
    } else {
        Datum::Null
    }
}

/// The first of the first `n` values that is not null, or null.
pub open spec fn first_not_null(values: Seq<Datum>, n: nat) -> Datum
    decreases n,
{
    if n == 0 || n > values.len() {
        Datum::Null
    } else {
        match first_not_null(values, (n - 1) as nat) {
            Datum::Null => values[n - 1],
            found => found,
        }
    }
}

/// The number that a string writes: an optional minus sign and decimal
/// digits, no more, of a value that 64 bits with sign hold. Any other
/// string writes none.
pub open spec fn number_of_text(s: Seq<char>) -> Option<int> {
    let negative = s.len() > 0 && s[0] == '-';
    let start: nat = if negative {
        1
    } else {
        0
    };
    let magnitude = digits_value(s, start, s.len());
    let value = if negative {
        -magnitude
    } else {
        magnitude as int
    };
    if s.len() > start && (forall|i: int| start <= i < s.len() ==> is_digit(#[trigger] s[i]))
        && i64::MIN <= value <= i64::MAX {
        Some(value)
    } else {
        None
    }
}

/// What a function that takes no expression reference returns for
/// arguments that its signature accepts.
///
/// Numbers are integers of 64 bits with sign. Where the result of `abs`,
/// `sum` or `avg` is no such integer, it is null.
pub open spec fn apply(b: Builtin, values: Seq<Datum>) -> Datum {
    let first = values[0];
    match b {
        Builtin::Abs => match first {
            Datum::Number(n) => number_or_null(
                if n < 0 {
                    -n
                } else {
                    n
                },
            ),
            _ => Datum::Null,
        },
        Builtin::Ceil | Builtin::Floor => first,
        Builtin::Sum => match first {
            Datum::Array(items) => number_or_null(sum_upto(items, items.len())),
            _ => Datum::Null,
        },
        Builtin::Avg => match first {
            Datum::Array(items) => exact_quotient(sum_upto(items, items.len()), items.len()),
            _ => Datum::Null,
        },
        Builtin::Contains => match (first, values[1]) {
            (Datum::String(hay), Datum::String(needle)) => Datum::Bool(occurs(hay, needle)),
            (Datum::Array(items), wanted) => Datum::Bool(items.contains(wanted)),
            _ => Datum::Bool(false),
        },
        Builtin::EndsWith => match (first, values[1]) {
            (Datum::String(s), Datum::String(suffix)) => Datum::Bool(
                occurs_at(s, suffix, s.len() - suffix.len()),
            ),
            _ => Datum::Null,
        },
        Builtin::StartsWith => match (first, values[1]) {
            (Datum::String(s), Datum::String(start)) => Datum::Bool(occurs_at(s, start, 0)),
            _ => Datum::Null,
        },
        Builtin::Join => match (first, values[1]) {
            (Datum::String(glue), Datum::Array(items)) => Datum::String(
                joined(glue, items, items.len()),
            ),
            _ => Datum::Null,
        },
        Builtin::Keys => match first {
            Datum::Object(members) => Datum::Array(keys_of(members)),
            _ => Datum::Null,
        },
        Builtin::Values => match first {
            Datum::Object(members) => Datum::Array(values_of(members)),
            _ => Datum::Null,
        },
        Builtin::Length => match first {
            Datum::String(s) => count(s.len()),
            Datum::Array(items) => count(items.len()),
            Datum::Object(members) => count(members.len()),
            _ => Datum::Null,
        },
        Builtin::Max => match first {
            Datum::Array(items) => value_at_place(items, max_place(items, items.len())),
            _ => Datum::Null,
        },
        Builtin::Min => match first {
            Datum::Array(items) => value_at_place(items, min_place(items, items.len())),
            _ => Datum::Null,
        },
        Builtin::Sort => match first {
            Datum::Array(items) => Datum::Array(
                values_of_entries(sort_upto(entries_of(items, items), items.len())),
            ),
            _ => Datum::Null,
        },
        Builtin::NotNull => first_not_null(values, values.len()),
        Builtin::Reverse => match first {
            Datum::Array(items) => Datum::Array(items.reverse()),
            Datum::String(s) => Datum::String(s.reverse()),
            _ => Datum::Null,
        },
        Builtin::ToArray => match first {
            Datum::Array(_) => first,
            _ => Datum::Array(seq![first]),
        },
        Builtin::ToNumber => match first {
            Datum::Number(_) => first,
            Datum::String(s) => match number_of_text(s) {
                Some(n) => Datum::Number(n),
                None => Datum::Null,
            },
            _ => Datum::Null,
        },
        Builtin::ToString => match first {
            Datum::String(_) => first,
            _ => Datum::String(json_text(json_of(first))),
        },
        Builtin::Type => Datum::String(kind_name(first)),
        Builtin::MapEach | Builtin::MaxBy | Builtin::MinBy | Builtin::SortBy => Datum::Null,
    }
}

/// Whether a function takes an expression reference, which it applies to
/// the elements of an array.
pub open spec fn takes_reference(b: Builtin) -> bool {
    b == Builtin::MapEach || b == Builtin::MaxBy || b == Builtin::MinBy || b == Builtin::SortBy
}

/// What is wrong with the first `n` keys that an expression reference
/// returned, if anything: each is to be a number or a string, and of the
/// type of the first.
pub open spec fn key_fault(keys: Seq<Datum>, n: nat) -> Option<Failure>
    decreases n,
{
    if n == 0 || n > keys.len() {
        None
    } else {
        match key_fault(keys, (n - 1) as nat) {
            Some(f) => Some(f),
            None => {
                let key = keys[n - 1];
                if n == 1 && !(key is Number || key is String) {
                    Some(
                        Failure::InvalidReturnType {
                            expected: "expression->number|expression->string"@,
                            actual: kind_name(key),
                            actual_value: key,
                            position: 1,
                            invocation: 0,
                        },
                    )
                } else if kind_name(key) != kind_name(keys[0]) {
                    Some(
                        Failure::InvalidReturnType {
                            expected: "expression->"@ + kind_name(keys[0]),
                            actual: kind_name(key),
                            actual_value: key,
                            position: 1,
                            invocation: (n - 1) as nat,
                        },
                    )
                } else {
                    None
                }
            },
        }
    }
}

/// What a function that takes an expression reference returns, from the
/// elements `items` and from `keys`, what the reference returned for each
/// of them.
pub open spec fn finish(b: Builtin, items: Seq<Datum>, keys: Seq<Datum>) -> Result<Datum, Failure> {
    if b == Builtin::MapEach {
        Ok(Datum::Array(keys))
    } else {
        match key_fault(keys, keys.len()) {
            Some(f) => Err(f),
            None => {
                let entries = entries_of(keys, items);
                if b == Builtin::SortBy {
                    Ok(Datum::Array(values_of_entries(sort_upto(entries, entries.len()))))
                } else if b == Builtin::MaxBy {
                    Ok(value_at_place(items, max_place(keys, keys.len())))
                } else {
                    Ok(value_at_place(items, min_place(keys, keys.len())))
                }
            },
        }
    }
}

/// The built-in function of a name, if there is one.
pub fn lookup_builtin(name: &str) -> (r: Option<Builtin>)
    ensures
        r == builtin_of(name@),
{
    if same_text(name, "abs") {
        Some(Builtin::Abs)
    } else if same_text(name, "avg") {
        Some(Builtin::Avg)
    } else if same_text(name, "ceil") {
        Some(Builtin::Ceil)
    } else if same_text(name, "contains") {
        Some(Builtin::Contains)
    } else if same_text(name, "ends_with") {
        Some(Builtin::EndsWith)
    } else if same_text(name, "floor") {
        Some(Builtin::Floor)
    } else if same_text(name, "join") {
        Some(Builtin::Join)
    } else if same_text(name, "keys") {
        Some(Builtin::Keys)
    } else if same_text(name, "length") {
        Some(Builtin::Length)
    } else if same_text(name, "map") {
        Some(Builtin::MapEach)
    } else if same_text(name, "max") {
        Some(Builtin::Max)
    } else if same_text(name, "max_by") {
        Some(Builtin::MaxBy)
    } else if same_text(name, "min") {
        Some(Builtin::Min)
    } else if same_text(name, "min_by") {
        Some(Builtin::MinBy)
    } else if same_text(name, "not_null") {
        Some(Builtin::NotNull)
    } else if same_text(name, "reverse") {
        Some(Builtin::Reverse)
    } else if same_text(name, "sort") {
        Some(Builtin::Sort)
    } else if same_text(name, "sort_by") {
        Some(Builtin::SortBy)
    } else if same_text(name, "starts_with") {
        Some(Builtin::StartsWith)
    } else if same_text(name, "sum") {
        Some(Builtin::Sum)
    } else if same_text(name, "to_array") {
        Some(Builtin::ToArray)
    } else if same_text(name, "to_number") {
        Some(Builtin::ToNumber)
    } else if same_text(name, "to_string") {
        Some(Builtin::ToString)
    } else if same_text(name, "type") {
        Some(Builtin::Type)
    } else if same_text(name, "values") {
        Some(Builtin::Values)
    } else {
        None
    }
}

impl Builtin {
    /// The number of parameters; for a variadic function, the least number
    /// of arguments.
    pub fn arity(&self) -> (r: usize)
        ensures
            r == arity(*self),
    {
        match self {
            Builtin::Contains | Builtin::EndsWith | Builtin::Join | Builtin::MapEach
            | Builtin::MaxBy | Builtin::MinBy | Builtin::SortBy | Builtin::StartsWith => 2,
            _ => 1,
        }
    }

    /// Whether the function takes any number of arguments from its arity
    /// on.
    pub fn is_variadic(&self) -> (r: bool)
        ensures
            r == variadic(*self),
    {
        match self {
            Builtin::NotNull => true,
            _ => false,
        }
    }

    /// Whether the function takes an expression reference.
    pub fn takes_reference(&self) -> (r: bool)
        ensures
            r == takes_reference(*self),
    {
        match self {
            Builtin::MapEach | Builtin::MaxBy | Builtin::MinBy | Builtin::SortBy => true,
            _ => false,
        }
    }

    /// What the parameter at `position` accepts.
    pub fn parameter(&self, position: usize) -> (r: Accepted)
        ensures
            r == parameter(*self, position as nat),
    {
        let one = |t: ArgumentType| -> (a: Accepted)
            ensures
                a == only(t),
            { Accepted { first: t, second: None, third: None } };
        match self {
            Builtin::Abs | Builtin::Ceil | Builtin::Floor => one(ArgumentType::Number),
            Builtin::Avg | Builtin::Sum => one(ArgumentType::NumberArray),
            Builtin::Contains => {
                if position == 0 {
                    Accepted {
                        first: ArgumentType::String,
                        second: Some(ArgumentType::Array),
                        third: None,
                    }
                } else {
                    one(ArgumentType::Any)
                }
            },
            Builtin::EndsWith | Builtin::StartsWith => one(ArgumentType::String),
            Builtin::Join => {
                if position == 0 {
                    one(ArgumentType::String)
                } else {
                    one(ArgumentType::StringArray)
                }
            },
            Builtin::Keys | Builtin::Values => one(ArgumentType::Object),
            Builtin::Length => Accepted {
                first: ArgumentType::Array,
                second: Some(ArgumentType::Object),
                third: Some(ArgumentType::String),
            },
            Builtin::MapEach => {
                if position == 0 {
                    one(ArgumentType::Expref)
                } else {
                    one(ArgumentType::Array)
                }
            },
            Builtin::Max | Builtin::Min | Builtin::Sort => Accepted {
                first: ArgumentType::StringArray,
                second: Some(ArgumentType::NumberArray),
                third: None,
            },
            Builtin::MaxBy | Builtin::MinBy | Builtin::SortBy => {
                if position == 0 {
                    one(ArgumentType::Array)
                } else {
                    one(ArgumentType::Expref)
                }
            },
            Builtin::Reverse => Accepted {
                first: ArgumentType::Array,
                second: Some(ArgumentType::String),
                third: None,
            },
            Builtin::NotNull | Builtin::ToArray | Builtin::ToNumber | Builtin::ToString
            | Builtin::Type => one(ArgumentType::Any),
        }
    }
}

impl ArgumentType {
    /// How the type is written.
    pub fn name(&self) -> (r: &'static str)
        ensures
            r@ == type_text(*self),
    {
        match self {
            ArgumentType::Any => "any",
            ArgumentType::String => "string",
            ArgumentType::Number => "number",
            ArgumentType::Object => "object",
            ArgumentType::Array => "array",
            ArgumentType::Expref => "expref",
            ArgumentType::NumberArray => "array[number]",
            ArgumentType::StringArray => "array[string]",
        }
    }

    /// Whether a value is of the type; `written` says whether the argument
    /// is written as an expression reference.
    pub fn is_of(&self, v: &Variable, written: bool) -> (r: bool)
        ensures
            r == is_of(*self, v@, written),
    {
        match self {
            ArgumentType::Any => true,
            ArgumentType::String => match v {
                Variable::String(_) => true,
                _ => false,
            },
            ArgumentType::Number => match v {
                Variable::Number(_) => true,
                _ => false,
            },
            ArgumentType::Object => match v {
                Variable::Object(_) => true,
                _ => false,
            },
            ArgumentType::Array => match v {
                Variable::Array(_) => true,
                _ => false,
            },
            ArgumentType::Expref => match v {
                Variable::Expression(_) => written,
                _ => false,
            },
            ArgumentType::NumberArray => match v {
                Variable::Array(items) => holds_numbers(items),
                _ => false,
            },
            ArgumentType::StringArray => match v {
                Variable::Array(items) => holds_strings(items),
                _ => false,
            },
        }
    }
}

fn holds_numbers(items: &Vec<RcVar>) -> (r: bool)
    ensures
        r == all_numbers(values_view(items@)),
{
    let mut i: usize = 0;
    while i < items.len()
        invariant
            i <= items.len(),
            forall|j: int| 0 <= j < i ==> (#[trigger] values_view(items@)[j]) is Number,
        decreases items.len() - i,
    {
        match &*items[i] {
            Variable::Number(_) => {},
            _ => {
                assert(!(values_view(items@)[i as int] is Number));
                return false;
            },
        }
        i += 1;
    }
    true
}

fn holds_strings(items: &Vec<RcVar>) -> (r: bool)
    ensures
        r == all_strings(values_view(items@)),
{
    let mut i: usize = 0;
    while i < items.len()
        invariant
            i <= items.len(),
            forall|j: int| 0 <= j < i ==> (#[trigger] values_view(items@)[j]) is String,
        decreases items.len() - i,
    {
        match &*items[i] {
            Variable::String(_) => {},
            _ => {
                assert(!(values_view(items@)[i as int] is String));
                return false;
            },
        }
        i += 1;
    }
    true
}

impl Accepted {
    /// How what the parameter accepts is written.
    pub fn name(&self) -> (r: String)
        ensures
            r@ == accepted_text(*self),
    {
        let mut out = String::from_str(self.first.name());
        match self.second {
            Some(t) => {
                out.append("|");
                out.append(t.name());
            },
            None => {
                assert(out@ + Seq::<char>::empty() == out@);
            },
        }
        match self.third {
            Some(t) => {
                out.append("|");
                out.append(t.name());
            },
            None => {
                assert(out@ + Seq::<char>::empty() == out@);
            },
        }
        out
    }

    /// Whether the parameter accepts a value; `written` says whether the
    /// argument is written as an expression reference.
    pub fn accepts(&self, v: &Variable, written: bool) -> (r: bool)
        ensures
            r == accepts(*self, v@, written),
    {
        if self.first.is_of(v, written) {
            return true;
        }
        match self.second {
            Some(t) => {
                if t.is_of(v, written) {
                    return true;
                }
            },
            None => {},
        }
        match self.third {
            Some(t) => t.is_of(v, written),
            None => false,
        }
    }
}

/// Once an argument has been found at fault, it stays the one at fault
/// however many more arguments are looked at.
proof fn lemma_type_fault_stable(
    b: Builtin,
    values: Seq<Datum>,
    written: Seq<bool>,
    j: nat,
    k: nat,
)
    requires
        j <= k <= values.len(),
        k <= written.len(),
        type_fault(b, values, written, j) is Some,
    ensures
        type_fault(b, values, written, k) == type_fault(b, values, written, j),
    decreases k,
{
    if j < k {
        lemma_type_fault_stable(b, values, written, j, (k - 1) as nat);
    }
}

/// What is wrong with a call of `b` with the arguments `values`, if
/// anything; `written` says of each argument whether it is written as an
/// expression reference.
pub fn check_call(b: Builtin, values: &Vec<RcVar>, written: &Vec<bool>) -> (r: Option<RuntimeError>)
    requires
        values.len() == written.len(),
    ensures
        match r {
            Some(e) => call_fault(b, values_view(values@), written@) == Some(e@),
            None => call_fault(b, values_view(values@), written@) is None,
        },
{
    let n = values.len();
    let expected = b.arity();
    if n < expected {
        return Some(RuntimeError::NotEnoughArguments { expected, actual: n });
    }
    if n > expected && !b.is_variadic() {
        return Some(RuntimeError::TooManyArguments { expected, actual: n });
    }
    let mut i: usize = 0;
    while i < n
        invariant
            i <= n,
            n == values.len(),
            n == written.len(),
            arity_fault(b, n as nat) is None,
            type_fault(b, values_view(values@), written@, i as nat) is None,
        decreases n - i,
    {
        let accepted = b.parameter(i);
        if !accepted.accepts(&values[i], written[i]) {
            let e = RuntimeError::InvalidType {
                expected: accepted.name(),
                actual: String::from_str(values[i].get_type()),
                actual_value: share(&values[i]),
                position: i,
            };
            proof {
                assert(type_fault(b, values_view(values@), written@, (i + 1) as nat) == Some(e@));
                lemma_type_fault_stable(
                    b,
                    values_view(values@),
                    written@,
                    (i + 1) as nat,
                    n as nat,
                );
            }
            return Some(e);
        }
        i += 1;
    }
    None
}

} // verus!
