use jmespath::{Context, Coordinates, Error, ErrorReason, RuntimeError, Variable};
use std::rc::Rc;

#[test]
fn error_is_built_from_an_offset() {
    let err = Error::new("foo\nbar", 5, ErrorReason::Parse("bad".to_string()));
    assert_eq!("foo\nbar", err.expression);
    assert_eq!(
        Coordinates {
            offset: 5,
            line: 1,
            column: 1
        },
        err.coordinates
    );
    assert_eq!(ErrorReason::Parse("bad".to_string()), err.error_reason);
    assert_eq!("Parse error: bad (line 1, column 1)\nfoo\nbar\n ^\n", err.to_string());
}

#[test]
fn error_is_built_from_a_context() {
    let mut ctx = Context::new("a.b.c");
    ctx.offset = 3;
    let err = Error::from_ctx(&ctx, ErrorReason::Runtime(RuntimeError::InvalidSlice));
    assert_eq!("a.b.c", err.expression);
    assert_eq!(
        Coordinates {
            offset: 3,
            line: 0,
            column: 3
        },
        err.coordinates
    );
    assert_eq!(
        "Runtime error: Invalid slice (line 0, column 3)\na.b.c\n   ^\n",
        err.to_string()
    );
}

#[test]
fn offset_past_the_end_counts_the_whole_expression() {
    let coords = Coordinates::from_offset("ab\ncd", 100);
    assert_eq!(1, coords.line);
    assert_eq!(2, coords.column);
    assert_eq!(100, coords.offset);
    let coords = Coordinates::from_offset("", 0);
    assert_eq!(0, coords.line);
    assert_eq!(0, coords.column);
    assert_eq!("\n^\n", coords.expression_with_carat(""));
}

#[test]
fn coordinates_read_as_line_and_column() {
    let coords = Coordinates::from_offset("a\nb\nc\nd\ne\nf\ng\nh\ni\nj\nklmnopqrstuvw", 32);
    assert_eq!("line 10, column 12", coords.to_string());
}

#[test]
fn carat_after_a_line_that_ends_the_expression() {
    let coords = Coordinates::from_offset("ab\n", 1);
    assert_eq!("ab\n ^\n", coords.expression_with_carat("ab\n"));
}

#[test]
fn runtime_errors_read_as_sentences() {
    assert_eq!("Invalid slice", RuntimeError::InvalidSlice.to_string());
    assert_eq!(
        "Invalid key. Expected string, found \"a\\\"b\"",
        RuntimeError::InvalidKey("a\"b".to_string()).to_string()
    );
    assert_eq!(
        "Too many arguments, expected 1, found 20",
        RuntimeError::TooManyArguments {
            expected: 1,
            actual: 20
        }
        .to_string()
    );
    assert_eq!(
        "Not enough arguments, expected 2, found 0",
        RuntimeError::NotEnoughArguments {
            expected: 2,
            actual: 0
        }
        .to_string()
    );
    assert_eq!(
        "Call to undefined function foo",
        RuntimeError::UnknownFunction("foo".to_string()).to_string()
    );
    assert_eq!(
        "Argument 0 expects type array|object|string, given null null",
        RuntimeError::InvalidType {
            expected: "array|object|string".to_string(),
            actual: "null".to_string(),
            actual_value: Rc::new(Variable::Null),
            position: 0,
        }
        .to_string()
    );
    assert_eq!(
        "Argument 1 must return expression->number but invocation 12 returned string \"a\"",
        RuntimeError::InvalidReturnType {
            expected: "expression->number".to_string(),
            actual: "string".to_string(),
            actual_value: Rc::new(Variable::String("a".to_string())),
            position: 1,
            invocation: 12,
        }
        .to_string()
    );
}

#[test]
fn reasons_read_with_their_kind() {
    assert_eq!("Parse error: x", ErrorReason::Parse("x".to_string()).to_string());
    assert_eq!(
        "Runtime error: Invalid slice",
        ErrorReason::Runtime(RuntimeError::InvalidSlice).to_string()
    );
}
