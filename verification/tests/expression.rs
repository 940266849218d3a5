use jmespath::ast::Ast;
use jmespath::{search, Expression, Variable};
use std::fmt;
use std::rc::Rc;

struct Shown<'a, 'b>(&'a Expression<'b>);

impl<'a, 'b> fmt::Display for Shown<'a, 'b> {
    fn fmt(&self, f: &mut fmt::Formatter) -> fmt::Result {
        f.write_str(&self.0.to_string())
    }
}

impl<'a, 'b> fmt::Debug for Shown<'a, 'b> {
    fn fmt(&self, f: &mut fmt::Formatter) -> fmt::Result {
        fmt::Display::fmt(self, f)
    }
}

#[test]
fn formats_expression_as_string_or_debug() {
    let expr = Expression::new("foo | baz").unwrap();
    assert_eq!(
        "foo | baz/foo | baz",
        format!("{}/{:?}", Shown(&expr), Shown(&expr))
    );
}

#[test]
fn implements_partial_eq() {
    let a = Expression::new("@").unwrap();
    let b = Expression::new("@").unwrap();
    assert!(a == b);
}

#[test]
fn expressions_of_different_text_differ() {
    let a = Expression::new("@").unwrap();
    let b = Expression::new(" @").unwrap();
    assert!(a != b);
}

#[test]
fn can_evaluate_jmespath_expression() {
    let expr = Expression::new("foo.bar").unwrap();
    let var = Variable::from_json("{\"foo\":{\"bar\":true}}").unwrap();
    assert_eq!(Rc::new(Variable::Bool(true)), expr.search(var).unwrap());
}

#[test]
fn can_search() {
    assert_eq!(
        Rc::new(Variable::Bool(true)),
        search("`true`", Variable::Null).unwrap()
    );
}

#[test]
fn can_get_expression_ast() {
    let expr = Expression::new("foo").unwrap();
    assert_eq!(
        &Ast::Field {
            offset: 0,
            name: "foo".to_string()
        },
        expr.as_ast()
    );
}

#[test]
fn can_get_expression_text() {
    let expr = Expression::new("foo.bar | baz").unwrap();
    assert_eq!("foo.bar | baz", expr.as_str());
    assert_eq!("foo.bar | baz", expr.to_string());
}

#[test]
fn an_expression_can_be_searched_again() {
    let expr = Expression::new("a[0]").unwrap();
    let first = expr
        .search(Variable::from_json("{\"a\":[1,2]}").unwrap())
        .unwrap();
    let second = expr
        .search(Variable::from_json("{\"a\":[1,2]}").unwrap())
        .unwrap();
    assert_eq!(first, second);
    assert_eq!(Rc::new(Variable::Number(1)), first);
}

#[test]
fn search_reports_a_parse_error() {
    let err = search("foo.", Variable::Null).unwrap_err();
    assert_eq!(4, err.coordinates.offset);
    assert_eq!("foo.", err.expression);
    assert!(matches!(err.error_reason, jmespath::ErrorReason::Parse(_)));
}
