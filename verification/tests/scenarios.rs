use jmespath::{search, Expression, ErrorReason, RuntimeError, Variable};
use std::rc::Rc;

fn run(expression: &str, json: &str) -> Rc<Variable> {
    search(expression, Variable::from_json(json).unwrap()).unwrap()
}

fn value(json: &str) -> Rc<Variable> {
    Rc::new(Variable::from_json(json).unwrap())
}

#[test]
fn subexpression_reaches_nested_member() {
    assert_eq!(value("true"), run("foo.bar", "{\"foo\":{\"bar\":true}}"));
}

#[test]
fn pipe_applies_right_side_to_left_result() {
    assert_eq!(
        value("null"),
        run("foo | baz", "{\"foo\":{\"bar\":{\"baz\":1}}}")
    );
}

#[test]
fn projection_drops_null_results() {
    assert_eq!(
        value("[1,3]"),
        run("a[*].b", "{\"a\":[{\"b\":1},{\"c\":2},{\"b\":3}]}")
    );
}

#[test]
fn filter_projection_keeps_matching_elements() {
    assert_eq!(
        value("[2,3]"),
        run("a[?b > `1`].b", "{\"a\":[{\"b\":0},{\"b\":2},{\"b\":3}]}")
    );
}

#[test]
fn length_of_string_and_array() {
    assert_eq!(value("3"), run("length(`\"abc\"`)", "null"));
    assert_eq!(value("3"), run("length(`[1,2,3]`)", "null"));
}

#[test]
fn length_of_null_is_invalid_type() {
    let err = search("length(`null`)", Variable::Null).unwrap_err();
    match err.error_reason {
        ErrorReason::Runtime(RuntimeError::InvalidType {
            expected,
            actual,
            actual_value,
            position,
        }) => {
            assert_eq!("array|object|string", expected);
            assert_eq!("null", actual);
            assert_eq!(Rc::new(Variable::Null), actual_value);
            assert_eq!(0, position);
        }
        other => panic!("unexpected reason {:?}", other),
    }
}

#[test]
fn parse_error_diagnostic_points_at_the_column() {
    let err = Expression::new("foo\n..bar").err().unwrap();
    assert_eq!(5, err.coordinates.offset);
    assert_eq!(1, err.coordinates.line);
    assert_eq!(1, err.coordinates.column);
    let text = err.to_string();
    assert!(text.starts_with("Parse error: "));
    assert!(text.ends_with(" (line 1, column 1)\nfoo\n..bar\n ^\n"));
}

#[test]
fn projection_of_null_is_null() {
    assert_eq!(value("null"), run("a[*].b", "{\"c\":1}"));
    assert_eq!(value("null"), run("a[*].b", "{\"a\":null}"));
    assert_eq!(value("null"), run("a[*].b", "{\"a\":\"text\"}"));
}

#[test]
fn projection_keeps_element_order() {
    assert_eq!(
        value("[3,1,2]"),
        run("[*].v", "[{\"v\":3},{\"x\":0},{\"v\":1},{\"v\":null},{\"v\":2}]")
    );
}

#[test]
fn evaluation_does_not_depend_on_the_run() {
    let json = "{\"a\":[{\"b\":[1,2]},{\"b\":[3]}]}";
    assert_eq!(run("a[].b[]", json), run("a[].b[]", json));
    assert_eq!(value("[1,2,3]"), run("a[].b[]", json));
}

#[test]
fn identity_and_literals() {
    assert_eq!(value("{\"a\":1}"), run("@", "{\"a\":1}"));
    assert_eq!(value("\"raw\""), run("'raw'", "null"));
    assert_eq!(value("\"it's\""), run("'it\\'s'", "null"));
    assert_eq!(value("\"a\\\\z\""), run("'a\\z'", "null"));
    assert_eq!(value("{\"k\":[1,true]}"), run("`{\"k\":[1,true]}`", "null"));
    assert_eq!(value("\"a`b\""), run("`\"a\\`b\"`", "null"));
}

#[test]
fn quoted_identifiers_resolve_escapes() {
    assert_eq!(value("1"), run("\"a b\"", "{\"a b\":1}"));
    assert_eq!(value("2"), run("\"a\\nb\"", "{\"a\\nb\":2}"));
}

#[test]
fn index_counts_from_either_end() {
    assert_eq!(value("1"), run("[0]", "[1,2,3]"));
    assert_eq!(value("3"), run("[-1]", "[1,2,3]"));
    assert_eq!(value("1"), run("[-3]", "[1,2,3]"));
    assert_eq!(value("null"), run("[3]", "[1,2,3]"));
    assert_eq!(value("null"), run("[-4]", "[1,2,3]"));
    assert_eq!(value("null"), run("[0]", "{\"a\":1}"));
    assert_eq!(value("2"), run("a[1]", "{\"a\":[1,2,3]}"));
}

#[test]
fn missing_members_are_null() {
    assert_eq!(value("null"), run("a.b", "{\"a\":{}}"));
    assert_eq!(value("null"), run("a.b", "{\"a\":1}"));
    assert_eq!(value("null"), run("a", "[1]"));
}

#[test]
fn slices_follow_python_rules() {
    let data = "[0,1,2,3,4,5,6,7,8,9]";
    assert_eq!(value("[0,1,2]"), run("[0:3]", data));
    assert_eq!(value("[0,1,2]"), run("[:3]", data));
    assert_eq!(value("[7,8,9]"), run("[7:]", data));
    assert_eq!(value("[7,8,9]"), run("[-3:]", data));
    assert_eq!(value("[0,2,4,6,8]"), run("[::2]", data));
    assert_eq!(value("[1,4,7]"), run("[1:9:3]", data));
    assert_eq!(value("[9,8,7,6,5,4,3,2,1,0]"), run("[::-1]", data));
    assert_eq!(value("[9,7,5,3,1]"), run("[::-2]", data));
    assert_eq!(value("[8,7,6]"), run("[8:5:-1]", data));
    assert_eq!(value("[]"), run("[5:2]", data));
    assert_eq!(value("[0,1,2,3,4,5,6,7,8,9]"), run("[-100:100]", data));
    assert_eq!(value("[9,8,7,6,5,4,3,2,1,0]"), run("[100:-100:-1]", data));
    assert_eq!(value("[]"), run("[:]", "[]"));
    assert_eq!(value("[]"), run("[::-1]", "[]"));
    assert_eq!(value("null"), run("[0:2]", "{\"a\":1}"));
}

#[test]
fn slice_projects_the_right_side() {
    assert_eq!(
        value("[1,2]"),
        run("[0:2].a", "[{\"a\":1},{\"a\":2},{\"a\":3}]")
    );
}

#[test]
fn slice_with_step_zero_is_invalid() {
    let err = search("a[::0]", Variable::from_json("{\"a\":[1]}").unwrap()).unwrap_err();
    assert_eq!(ErrorReason::Runtime(RuntimeError::InvalidSlice), err.error_reason);
    assert_eq!(1, err.coordinates.offset);
    let err = search("[::0]", Variable::Null).unwrap_err();
    assert_eq!(ErrorReason::Runtime(RuntimeError::InvalidSlice), err.error_reason);
}

#[test]
fn or_and_not_follow_truthiness() {
    assert_eq!(value("1"), run("a || b", "{\"a\":1,\"b\":2}"));
    assert_eq!(value("2"), run("a || b", "{\"a\":\"\",\"b\":2}"));
    assert_eq!(value("2"), run("a || b", "{\"a\":[],\"b\":2}"));
    assert_eq!(value("2"), run("a || b", "{\"a\":{},\"b\":2}"));
    assert_eq!(value("2"), run("a || b", "{\"a\":false,\"b\":2}"));
    assert_eq!(value("0"), run("a || b", "{\"a\":0,\"b\":2}"));
    assert_eq!(value("2"), run("a && b", "{\"a\":1,\"b\":2}"));
    assert_eq!(value("null"), run("a && b", "{\"b\":2}"));
    assert_eq!(value("true"), run("!a", "{\"a\":null}"));
    assert_eq!(value("false"), run("!a", "{\"a\":0}"));
    assert_eq!(value("true"), run("!a && b", "{\"a\":false,\"b\":true}"));
}

#[test]
fn comparisons() {
    assert_eq!(value("true"), run("a == b", "{\"a\":[1,{\"x\":2}],\"b\":[1,{\"x\":2}]}"));
    assert_eq!(value("false"), run("a == b", "{\"a\":[1,2],\"b\":[2,1]}"));
    assert_eq!(value("true"), run("a != b", "{\"a\":1,\"b\":\"1\"}"));
    assert_eq!(value("true"), run("a < b", "{\"a\":1,\"b\":2}"));
    assert_eq!(value("true"), run("a <= b", "{\"a\":2,\"b\":2}"));
    assert_eq!(value("false"), run("a > b", "{\"a\":1,\"b\":2}"));
    assert_eq!(value("true"), run("a >= b", "{\"a\":2,\"b\":2}"));
    assert_eq!(value("null"), run("a < b", "{\"a\":\"x\",\"b\":\"y\"}"));
    assert_eq!(value("null"), run("a < b", "{\"a\":1}"));
}

#[test]
fn equality_ignores_the_order_of_members() {
    assert_eq!(
        value("true"),
        run(
            "a == b",
            "{\"a\":{\"x\":1,\"y\":[2]},\"b\":{\"y\":[2],\"x\":1}}"
        )
    );
    let a = Variable::from_json("{\"x\":1,\"y\":2}").unwrap();
    let b = Variable::from_json("{\"y\":2,\"x\":1}").unwrap();
    assert!(a.equals(&b));
    assert!(!a.equals(&Variable::from_json("{\"x\":1}").unwrap()));
}

#[test]
fn multi_select_list_and_hash() {
    assert_eq!(value("[1,2]"), run("[a, b]", "{\"a\":1,\"b\":2}"));
    assert_eq!(value("[1,null]"), run("[a, c]", "{\"a\":1,\"b\":2}"));
    assert_eq!(value("null"), run("[a, b]", "null"));
    assert_eq!(value("{\"x\":1,\"y\":2}"), run("{x: a, y: b}", "{\"a\":1,\"b\":2}"));
    assert_eq!(value("null"), run("{x: a}", "null"));
    assert_eq!(value("[[1,2],[3,4]]"), run("[*].[a, b]", "[{\"a\":1,\"b\":2},{\"a\":3,\"b\":4}]"));
    assert_eq!(value("{\"x\":1}"), run("a.{x: b}", "{\"a\":{\"b\":1}}"));
    assert_eq!(value("[1]"), run("a.[b]", "{\"a\":{\"b\":1}}"));
}

#[test]
fn flatten_merges_one_level() {
    assert_eq!(value("[1,2,3,[4]]"), run("[]", "[1,[2,3],[[4]]]"));
    assert_eq!(value("null"), run("a[]", "{\"a\":1}"));
    assert_eq!(value("[1,2]"), run("a[].b", "{\"a\":[[{\"b\":1}],{\"b\":2}]}"));
}

#[test]
fn object_projection_runs_over_values() {
    assert_eq!(value("[1,2]"), run("*.a", "{\"x\":{\"a\":1},\"y\":{\"a\":2},\"z\":{\"b\":3}}"));
    assert_eq!(value("[1,2]"), run("o.*", "{\"o\":{\"a\":1,\"b\":2}}"));
    assert_eq!(value("null"), run("*", "[1,2]"));
}

#[test]
fn pipe_stops_a_projection() {
    assert_eq!(value("1"), run("a[*].b | [0]", "{\"a\":[{\"b\":1},{\"b\":2}]}"));
    assert_eq!(value("[]"), run("a[*].b[0]", "{\"a\":[{\"b\":1},{\"b\":2}]}"));
}

#[test]
fn filter_with_plain_predicate() {
    assert_eq!(
        value("[{\"a\":1},{\"a\":\"x\"}]"),
        run("[?a]", "[{\"a\":1},{\"a\":null},{\"b\":1},{\"a\":\"x\"},{\"a\":false}]")
    );
    assert_eq!(
        value("[\"second\"]"),
        run("[?n == `2`].name", "[{\"n\":1,\"name\":\"first\"},{\"n\":2,\"name\":\"second\"}]")
    );
}
