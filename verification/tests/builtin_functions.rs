use jmespath::{search, ErrorReason, RuntimeError, Variable};
use std::rc::Rc;

fn run(expression: &str, json: &str) -> Rc<Variable> {
    search(expression, Variable::from_json(json).unwrap()).unwrap()
}

fn fails(expression: &str, json: &str) -> RuntimeError {
    match search(expression, Variable::from_json(json).unwrap())
        .unwrap_err()
        .error_reason
    {
        ErrorReason::Runtime(e) => e,
        ErrorReason::Parse(message) => panic!("parse error {}", message),
    }
}

fn value(json: &str) -> Rc<Variable> {
    Rc::new(Variable::from_json(json).unwrap())
}

#[test]
fn abs_ceil_floor() {
    assert_eq!(value("3"), run("abs(@)", "-3"));
    assert_eq!(value("3"), run("abs(@)", "3"));
    assert_eq!(value("null"), run("abs(@)", "-9223372036854775808"));
    assert_eq!(value("-3"), run("ceil(@)", "-3"));
    assert_eq!(value("7"), run("floor(@)", "7"));
}

#[test]
fn sum_and_avg() {
    assert_eq!(value("6"), run("sum(@)", "[1,2,3]"));
    assert_eq!(value("0"), run("sum(@)", "[]"));
    assert_eq!(value("null"), run("sum(@)", "[9223372036854775807,1]"));
    assert_eq!(value("2"), run("avg(@)", "[1,2,3]"));
    assert_eq!(value("-2"), run("avg(@)", "[-1,-3]"));
    assert_eq!(value("null"), run("avg(@)", "[1,2]"));
    assert_eq!(value("null"), run("avg(@)", "[]"));
}

#[test]
fn contains_on_strings_and_arrays() {
    assert_eq!(value("true"), run("contains(@, 'bc')", "\"abcd\""));
    assert_eq!(value("true"), run("contains(@, '')", "\"abcd\""));
    assert_eq!(value("false"), run("contains(@, 'ca')", "\"abcd\""));
    assert_eq!(value("false"), run("contains(@, `1`)", "\"a1\""));
    assert_eq!(value("true"), run("contains(@, `2`)", "[1,2]"));
    assert_eq!(value("true"), run("contains(@, `[2]`)", "[1,[2]]"));
    assert_eq!(value("false"), run("contains(@, `3`)", "[1,2]"));
}

#[test]
fn starts_with_and_ends_with() {
    assert_eq!(value("true"), run("starts_with(@, 'ab')", "\"abcd\""));
    assert_eq!(value("false"), run("starts_with(@, 'bc')", "\"abcd\""));
    assert_eq!(value("false"), run("starts_with(@, 'abcde')", "\"abcd\""));
    assert_eq!(value("true"), run("ends_with(@, 'cd')", "\"abcd\""));
    assert_eq!(value("false"), run("ends_with(@, 'bc')", "\"abcd\""));
    assert_eq!(value("false"), run("ends_with(@, 'xabcd')", "\"abcd\""));
    assert_eq!(value("true"), run("ends_with(@, '')", "\"abcd\""));
}

#[test]
fn join_puts_glue_between() {
    assert_eq!(value("\"a, b, c\""), run("join(', ', @)", "[\"a\",\"b\",\"c\"]"));
    assert_eq!(value("\"a\""), run("join(', ', @)", "[\"a\"]"));
    assert_eq!(value("\"\""), run("join(', ', @)", "[]"));
}

#[test]
fn keys_and_values_come_in_key_order() {
    assert_eq!(value("[\"a\",\"b\",\"c\"]"), run("keys(@)", "{\"b\":2,\"c\":3,\"a\":1}"));
    assert_eq!(value("[1,2,3]"), run("values(@)", "{\"b\":2,\"c\":3,\"a\":1}"));
}

#[test]
fn length_counts_characters_elements_and_members() {
    assert_eq!(value("3"), run("length(@)", "\"h\u{e9}\u{4e16}\""));
    assert_eq!(value("0"), run("length(@)", "[]"));
    assert_eq!(value("2"), run("length(@)", "{\"a\":1,\"b\":2}"));
}

#[test]
fn max_and_min() {
    assert_eq!(value("3"), run("max(@)", "[1,3,2]"));
    assert_eq!(value("1"), run("min(@)", "[2,1,3]"));
    assert_eq!(value("\"c\""), run("max(@)", "[\"a\",\"c\",\"b\"]"));
    assert_eq!(value("\"a\""), run("min(@)", "[\"b\",\"a\",\"ab\"]"));
    assert_eq!(value("null"), run("max(@)", "[]"));
    assert_eq!(value("null"), run("min(@)", "[]"));
}

#[test]
fn not_null_takes_the_first_present() {
    assert_eq!(value("2"), run("not_null(a, b, c)", "{\"b\":2,\"c\":3}"));
    assert_eq!(value("null"), run("not_null(a, b)", "{}"));
}

#[test]
fn reverse_of_arrays_and_strings() {
    assert_eq!(value("[3,2,1]"), run("reverse(@)", "[1,2,3]"));
    assert_eq!(value("\"cba\""), run("reverse(@)", "\"abc\""));
}

#[test]
fn sort_orders_numbers_and_strings() {
    assert_eq!(value("[1,2,3,10]"), run("sort(@)", "[10,2,1,3]"));
    assert_eq!(value("[\"a\",\"ab\",\"b\"]"), run("sort(@)", "[\"b\",\"ab\",\"a\"]"));
    assert_eq!(value("[]"), run("sort(@)", "[]"));
}

#[test]
fn sort_by_is_stable() {
    assert_eq!(
        value("[{\"k\":1,\"n\":\"b\"},{\"k\":1,\"n\":\"d\"},{\"k\":2,\"n\":\"a\"},{\"k\":2,\"n\":\"c\"}]"),
        run(
            "sort_by(@, &k)",
            "[{\"k\":2,\"n\":\"a\"},{\"k\":1,\"n\":\"b\"},{\"k\":2,\"n\":\"c\"},{\"k\":1,\"n\":\"d\"}]"
        )
    );
    assert_eq!(
        value("[\"x\",\"yy\",\"zzz\"]"),
        run("sort_by(@, &length(@))", "[\"zzz\",\"x\",\"yy\"]")
    );
}

#[test]
fn max_by_and_min_by() {
    let people = "[{\"age\":30,\"n\":\"a\"},{\"age\":50,\"n\":\"b\"},{\"age\":10,\"n\":\"c\"},{\"age\":50,\"n\":\"d\"}]";
    assert_eq!(value("\"b\""), run("max_by(@, &age).n", people));
    assert_eq!(value("\"c\""), run("min_by(@, &age).n", people));
    assert_eq!(value("null"), run("max_by(@, &age)", "[]"));
}

#[test]
fn map_keeps_nulls() {
    assert_eq!(value("[1,null,3]"), run("map(&a, @)", "[{\"a\":1},{\"b\":2},{\"a\":3}]"));
    assert_eq!(value("[]"), run("map(&a, @)", "[]"));
}

#[test]
fn to_array_to_number_to_string_type() {
    assert_eq!(value("[1]"), run("to_array(@)", "1"));
    assert_eq!(value("[1,2]"), run("to_array(@)", "[1,2]"));
    assert_eq!(value("12"), run("to_number(@)", "\"12\""));
    assert_eq!(value("-12"), run("to_number(@)", "\"-12\""));
    assert_eq!(value("7"), run("to_number(@)", "7"));
    assert_eq!(value("null"), run("to_number(@)", "\"1x\""));
    assert_eq!(value("null"), run("to_number(@)", "\"\""));
    assert_eq!(value("null"), run("to_number(@)", "\"-\""));
    assert_eq!(value("null"), run("to_number(@)", "\"99999999999999999999\""));
    assert_eq!(value("-9223372036854775808"), run("to_number(@)", "\"-9223372036854775808\""));
    assert_eq!(value("null"), run("to_number(@)", "[1]"));
    assert_eq!(value("\"abc\""), run("to_string(@)", "\"abc\""));
    assert_eq!(value("\"[1,\\\"a\\\",{\\\"b\\\":null}]\""), run("to_string(@)", "[1,\"a\",{\"b\":null}]"));
    assert_eq!(value("\"number\""), run("type(@)", "1"));
    assert_eq!(value("\"string\""), run("type(@)", "\"a\""));
    assert_eq!(value("\"boolean\""), run("type(@)", "true"));
    assert_eq!(value("\"array\""), run("type(@)", "[]"));
    assert_eq!(value("\"object\""), run("type(@)", "{}"));
    assert_eq!(value("\"null\""), run("type(@)", "null"));
    assert_eq!(value("\"expref\""), run("type(&a)", "null"));
}

#[test]
fn unknown_function() {
    assert_eq!(
        RuntimeError::UnknownFunction("nope".to_string()),
        fails("nope(@)", "1")
    );
}

#[test]
fn arity_is_checked() {
    assert_eq!(
        RuntimeError::NotEnoughArguments { expected: 2, actual: 1 },
        fails("contains(@)", "[]")
    );
    assert_eq!(
        RuntimeError::TooManyArguments { expected: 1, actual: 2 },
        fails("length(@, @)", "[]")
    );
    assert_eq!(
        RuntimeError::NotEnoughArguments { expected: 1, actual: 0 },
        fails("not_null()", "[]")
    );
}

#[test]
fn argument_types_are_checked() {
    assert_eq!(
        RuntimeError::InvalidType {
            expected: "number".to_string(),
            actual: "string".to_string(),
            actual_value: Rc::new(Variable::String("a".to_string())),
            position: 0,
        },
        fails("abs(@)", "\"a\"")
    );
    assert_eq!(
        RuntimeError::InvalidType {
            expected: "array[number]".to_string(),
            actual: "array".to_string(),
            actual_value: Rc::new(Variable::from_json("[1,\"a\"]").unwrap()),
            position: 0,
        },
        fails("sum(@)", "[1,\"a\"]")
    );
    assert_eq!(
        RuntimeError::InvalidType {
            expected: "array[string]".to_string(),
            actual: "array".to_string(),
            actual_value: Rc::new(Variable::from_json("[1]").unwrap()),
            position: 1,
        },
        fails("join(', ', @)", "[1]")
    );
    assert_eq!(
        RuntimeError::InvalidType {
            expected: "array[string]|array[number]".to_string(),
            actual: "array".to_string(),
            actual_value: Rc::new(Variable::from_json("[1,\"a\"]").unwrap()),
            position: 0,
        },
        fails("sort(@)", "[1,\"a\"]")
    );
    assert_eq!(
        RuntimeError::InvalidType {
            expected: "expref".to_string(),
            actual: "null".to_string(),
            actual_value: Rc::new(Variable::Null),
            position: 1,
        },
        fails("sort_by(@, a)", "[1]")
    );
}

#[test]
fn returned_key_types_are_checked() {
    assert_eq!(
        RuntimeError::InvalidReturnType {
            expected: "expression->number|expression->string".to_string(),
            actual: "null".to_string(),
            actual_value: Rc::new(Variable::Null),
            position: 1,
            invocation: 0,
        },
        fails("sort_by(@, &a)", "[{\"b\":1}]")
    );
    assert_eq!(
        RuntimeError::InvalidReturnType {
            expected: "expression->number".to_string(),
            actual: "string".to_string(),
            actual_value: Rc::new(Variable::String("x".to_string())),
            position: 1,
            invocation: 2,
        },
        fails("max_by(@, &a)", "[{\"a\":1},{\"a\":2},{\"a\":\"x\"}]")
    );
}

#[test]
fn errors_in_arguments_come_first() {
    assert_eq!(RuntimeError::InvalidSlice, fails("nope(a[::0])", "{\"a\":[]}"));
    assert_eq!(
        RuntimeError::UnknownFunction("inner".to_string()),
        fails("map(&inner(@), @)", "[1]")
    );
}
