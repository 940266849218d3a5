use jmespath::ast::{Ast, Comparator, KeyValuePair};
use jmespath::lexer::{tokenize, Token};
use jmespath::{parse, ErrorReason, Variable};
use std::rc::Rc;

fn parse_error(expression: &str) -> (String, usize) {
    let err = parse(expression).unwrap_err();
    match err.error_reason {
        ErrorReason::Parse(message) => (message, err.coordinates.offset),
        other => panic!("unexpected reason {:?}", other),
    }
}

fn field(offset: usize, name: &str) -> Ast {
    Ast::Field {
        offset,
        name: name.to_string(),
    }
}

fn boxed_field(offset: usize, name: &str) -> Box<Ast> {
    Box::new(field(offset, name))
}

#[test]
fn tokens_carry_their_offsets() {
    let tokens = tokenize("foo.bar [? a<=`1` ] || 'x'").unwrap();
    assert_eq!(
        vec![
            (0, Token::Identifier("foo".to_string())),
            (3, Token::Dot),
            (4, Token::Identifier("bar".to_string())),
            (8, Token::Filter),
            (11, Token::Identifier("a".to_string())),
            (12, Token::Lte),
            (14, Token::Literal(Rc::new(Variable::Number(1)))),
            (18, Token::Rbracket),
            (20, Token::Or),
            (23, Token::String("x".to_string())),
            (26, Token::Eof),
        ],
        tokens
    );
}

#[test]
fn punctuation_tokens() {
    let tokens = tokenize("*[]()[{}],:@&&&|!!=<>>===").unwrap();
    let kinds: Vec<Token> = tokens.into_iter().map(|t| t.1).collect();
    assert_eq!(
        vec![
            Token::Star,
            Token::Flatten,
            Token::Lparen,
            Token::Rparen,
            Token::Lbracket,
            Token::Lbrace,
            Token::Rbrace,
            Token::Rbracket,
            Token::Comma,
            Token::Colon,
            Token::At,
            Token::And,
            Token::Ampersand,
            Token::Pipe,
            Token::Not,
            Token::Ne,
            Token::Lt,
            Token::Gt,
            Token::Gte,
            Token::Eq,
            Token::Eof,
        ],
        kinds
    );
}

#[test]
fn number_tokens() {
    let tokens = tokenize("12 -3 -2147483648 2147483647 007").unwrap();
    let kinds: Vec<Token> = tokens.into_iter().map(|t| t.1).collect();
    assert_eq!(
        vec![
            Token::Number(12),
            Token::Number(-3),
            Token::Number(i32::MIN),
            Token::Number(i32::MAX),
            Token::Number(7),
            Token::Eof,
        ],
        kinds
    );
}

#[test]
fn lexer_refusals() {
    assert_eq!(("Invalid character".to_string(), 2), parse_error("a #"));
    assert_eq!(("'-' must be followed by a digit".to_string(), 2), parse_error("a[-]"));
    assert_eq!(("Number does not fit in 32 bits".to_string(), 2), parse_error("a[2147483648]"));
    assert_eq!(("Number does not fit in 32 bits".to_string(), 2), parse_error("a[-2147483649]"));
    assert_eq!(("'=' is not valid. Did you mean '=='?".to_string(), 2), parse_error("a = b"));
    assert_eq!(("Unclosed \" delimiter".to_string(), 0), parse_error("\"abc"));
    assert_eq!(("Unclosed ' delimiter".to_string(), 4), parse_error("a | 'abc\\'"));
    assert_eq!(("Unclosed ` delimiter".to_string(), 0), parse_error("`1"));
    assert_eq!(("Unable to parse literal JSON".to_string(), 4), parse_error("a ==`{`"));
    assert_eq!(("Unable to parse literal JSON".to_string(), 0), parse_error("`1.5`"));
    assert_eq!(("Unable to parse quoted identifier".to_string(), 0), parse_error("\"a\\qb\""));
}

#[test]
fn dotted_chain_folds_to_the_left() {
    assert_eq!(
        Ast::Subexpr {
            offset: 3,
            lhs: Box::new(Ast::Subexpr {
                offset: 1,
                lhs: boxed_field(0, "a"),
                rhs: boxed_field(2, "b"),
            }),
            rhs: boxed_field(4, "c"),
        },
        parse("a.b.c").unwrap()
    );
}

#[test]
fn pipe_binds_loosest() {
    assert_eq!(
        Ast::Pipe {
            offset: 7,
            lhs: Box::new(Ast::Or {
                offset: 2,
                lhs: boxed_field(0, "a"),
                rhs: boxed_field(5, "b"),
            }),
            rhs: boxed_field(9, "c"),
        },
        parse("a || b | c").unwrap()
    );
}

#[test]
fn and_binds_tighter_than_or() {
    assert_eq!(
        Ast::Or {
            offset: 2,
            lhs: boxed_field(0, "a"),
            rhs: Box::new(Ast::And {
                offset: 7,
                lhs: boxed_field(5, "b"),
                rhs: boxed_field(10, "c"),
            }),
        },
        parse("a || b && c").unwrap()
    );
}

#[test]
fn comparison_and_not() {
    assert_eq!(
        Ast::Comparison {
            offset: 3,
            comparator: Comparator::Lt,
            lhs: Box::new(Ast::Not {
                offset: 0,
                node: boxed_field(1, "a"),
            }),
            rhs: boxed_field(5, "b"),
        },
        parse("!a < b").unwrap()
    );
}

#[test]
fn parentheses_group() {
    assert_eq!(
        Ast::And {
            offset: 9,
            lhs: Box::new(Ast::Or {
                offset: 3,
                lhs: boxed_field(1, "a"),
                rhs: boxed_field(6, "b"),
            }),
            rhs: boxed_field(12, "c"),
        },
        parse("(a || b) && c").unwrap()
    );
}

#[test]
fn index_and_slice() {
    assert_eq!(
        Ast::Subexpr {
            offset: 1,
            lhs: boxed_field(0, "a"),
            rhs: Box::new(Ast::Index { offset: 1, idx: -2 }),
        },
        parse("a[-2]").unwrap()
    );
    assert_eq!(
        Ast::Projection {
            offset: 0,
            lhs: Box::new(Ast::Slice {
                offset: 0,
                start: Some(1),
                stop: None,
                step: 2,
            }),
            rhs: Box::new(Ast::Identity { offset: 0 }),
        },
        parse("[1::2]").unwrap()
    );
    assert_eq!(
        Ast::Projection {
            offset: 0,
            lhs: Box::new(Ast::Slice {
                offset: 0,
                start: None,
                stop: Some(3),
                step: 1,
            }),
            rhs: Box::new(Ast::Identity { offset: 0 }),
        },
        parse("[:3]").unwrap()
    );
}

#[test]
fn projections() {
    assert_eq!(
        Ast::Projection {
            offset: 1,
            lhs: boxed_field(0, "a"),
            rhs: boxed_field(5, "b"),
        },
        parse("a[*].b").unwrap()
    );
    assert_eq!(
        Ast::Projection {
            offset: 1,
            lhs: Box::new(Ast::Flatten {
                offset: 1,
                node: boxed_field(0, "a"),
            }),
            rhs: Box::new(Ast::Identity { offset: 1 }),
        },
        parse("a[]").unwrap()
    );
    assert_eq!(
        Ast::Projection {
            offset: 0,
            lhs: Box::new(Ast::ObjectValues {
                offset: 0,
                node: Box::new(Ast::Identity { offset: 0 }),
            }),
            rhs: boxed_field(2, "a"),
        },
        parse("*.a").unwrap()
    );
    assert_eq!(
        Ast::Projection {
            offset: 1,
            lhs: boxed_field(0, "a"),
            rhs: Box::new(Ast::Condition {
                offset: 1,
                predicate: boxed_field(3, "b"),
                then: boxed_field(6, "c"),
            }),
        },
        parse("a[?b].c").unwrap()
    );
}

#[test]
fn function_call_with_expression_reference() {
    assert_eq!(
        Ast::FunctionCall {
            offset: 7,
            name: "sort_by".to_string(),
            args: vec![
                Ast::Identity { offset: 8 },
                Ast::ExpressionReference {
                    offset: 11,
                    ast: Rc::new(field(12, "a")),
                },
            ],
        },
        parse("sort_by(@, &a)").unwrap()
    );
    assert_eq!(
        Ast::FunctionCall {
            offset: 1,
            name: "f".to_string(),
            args: vec![],
        },
        parse("f()").unwrap()
    );
}

#[test]
fn multi_select_forms() {
    assert_eq!(
        Ast::MultiList {
            offset: 0,
            elements: vec![field(1, "a"), field(4, "b")],
        },
        parse("[a, b]").unwrap()
    );
    assert_eq!(
        Ast::MultiHash {
            offset: 0,
            pairs: vec![
                KeyValuePair {
                    key: "x".to_string(),
                    value: field(4, "a"),
                },
                KeyValuePair {
                    key: "y z".to_string(),
                    value: Ast::Identity { offset: 14 },
                },
            ],
        },
        parse("{x: a, \"y z\": @}").unwrap()
    );
}

#[test]
fn literals_become_nodes() {
    assert_eq!(
        Ast::Literal {
            offset: 0,
            value: Rc::new(Variable::String("a".to_string())),
        },
        parse("'a'").unwrap()
    );
    assert_eq!(
        Ast::Literal {
            offset: 1,
            value: Rc::new(Variable::from_json("[1,{\"a\":null}]").unwrap()),
        },
        parse(" `[1,{\"a\":null}]`").unwrap()
    );
}

#[test]
fn parser_refusals() {
    assert_eq!(("Unexpected end of expression".to_string(), 0), parse_error(""));
    assert_eq!(("Unexpected token".to_string(), 0), parse_error(")"));
    assert_eq!(("Unexpected end of expression".to_string(), 4), parse_error("a ||"));
    assert_eq!(("Did not parse the complete expression".to_string(), 2), parse_error("a b"));
    assert_eq!(("Expected ')' to close '('".to_string(), 2), parse_error("(a"));
    assert_eq!(("Quoted strings can't be a function name".to_string(), 3), parse_error("\"a\"(b)"));
    assert_eq!(("Invalid function name".to_string(), 1), parse_error("@(b)"));
    assert_eq!(("Invalid function name".to_string(), 4), parse_error("a[0](b)"));
    assert_eq!(("Expected identifier, '*', '{', or '['".to_string(), 2), parse_error("a.1"));
    assert_eq!(("Expected number, ':', or '*'".to_string(), 2), parse_error("a[b]"));
    assert_eq!(("Expected ']' for wildcard index".to_string(), 3), parse_error("a[*b]"));
    assert_eq!(("Expected ']'".to_string(), 4), parse_error("a[?b"));
    assert_eq!(("Too many colons in slice expr".to_string(), 4), parse_error("a[:::]"));
    assert_eq!(("Expected ':', or ']'".to_string(), 4), parse_error("a[1 2]"));
    assert_eq!(("Expected ',' or the end of the list".to_string(), 3), parse_error("[a b]"));
    assert_eq!(("Unexpected token".to_string(), 3), parse_error("[a,]"));
    assert_eq!(("Expected Field to start key value pair".to_string(), 1), parse_error("{1: a}"));
    assert_eq!(("Expected ':' to follow key".to_string(), 3), parse_error("{a b}"));
    assert_eq!(("Expected '}' or ','".to_string(), 6), parse_error("{a: b c}"));
    assert_eq!(("Duplicate key in multi-select hash".to_string(), 7), parse_error("{a: b, a: c}"));
    assert_eq!(("Expected '.', '[', or '[?'".to_string(), 4), parse_error("a[*]*"));
    assert_eq!(("Did not parse the complete expression".to_string(), 4), parse_error("a[*]b"));
}

#[test]
fn every_offset_lies_inside_the_expression() {
    let expression = "a[*].b | sort_by(@, &c)[?d == `1`].{e: f, g: [h, !i]}[0:2]";
    let ast = parse(expression).unwrap();
    let shown = format!("{:?}", ast);
    let limit = expression.chars().count();
    let mut seen = 0;
    for part in shown.split("offset: ").skip(1) {
        let digits: String = part.chars().take_while(|c| c.is_ascii_digit()).collect();
        let offset: usize = digits.parse().unwrap();
        assert!(offset < limit);
        seen += 1;
    }
    assert!(seen > 10);
}
