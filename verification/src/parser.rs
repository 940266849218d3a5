//! The parser: from the text of an expression to its syntax tree.

use crate::ast::{nodes_view, pairs_view, within, Ast, Comparator, Expr, KeyValuePair};
use crate::errors::{Error, ErrorReason, Reason};
use crate::grammar::{
    after_dot,
    array_projection,
    comparator_of,
    expression,
    filter_projection,
    flatten_projection,
    has_key,
    index_or_slice,
    items,
    lbp,
    led,
    led_loop,
    list,
    multi_list,
    nud,
    object_projection,
    offset_at,
    optional_number,
    pairs,
    parse_text,
    peek,
    projection_rhs,
    Parsed,
    ParsedList,
};
use crate::lexer::{closed_by_eof, tokenize, tokens_view, Lexeme, Token};
use crate::variable::{share, Variable};
use std::rc::Rc;
use vstd::prelude::*;

verus! {

/// The syntax tree of an expression, or the error that refuses it.
pub type ParseResult = Result<Ast, Error>;

/// A node and the place after it, or the message and offset of a refusal.
pub type Parse = Result<(Ast, usize), (String, usize)>;

/// A list of nodes and the place after it, or the message and offset of a
/// refusal.
pub type ParseList = Result<(Vec<Ast>, usize), (String, usize)>;

/// The outcome `r` is the outcome `expected` of the grammar.
pub open spec fn same_parse(r: Parse, expected: Parsed) -> bool {
    match (r, expected) {
        (Ok((node, next)), Ok((e, place))) => node@ == e && next == place,
        (Err((message, offset)), Err((text, place))) => message@ == text && offset == place,
        _ => false,
    }
}

/// The outcome `r` is the outcome `expected` of the grammar.
pub open spec fn same_list(r: ParseList, expected: ParsedList) -> bool {
    match (r, expected) {
        (Ok((nodes, next)), Ok((es, place))) => nodes_view(nodes@) == es && next == place,
        (Err((message, offset)), Err((text, place))) => message@ == text && offset == place,
        _ => false,
    }
}

/// Every node of every element of `nodes` carries an offset below `limit`.
pub open spec fn all_within(nodes: Seq<Expr>, limit: nat) -> bool {
    forall|i: int| 0 <= i < nodes.len() ==> within(#[trigger] nodes[i], limit)
}

fn peek_at(tokens: &Vec<(usize, Token)>, pos: usize) -> (t: &Token)
    requires
        tokens.len() > 0,
        tokens@.last().1@ == Lexeme::Eof,
    ensures
        t@ == peek(tokens_view(tokens@), pos as nat),
{
    if pos < tokens.len() {
        &tokens[pos].1
    } else {
        &tokens[tokens.len() - 1].1
    }
}

fn offset_of(tokens: &Vec<(usize, Token)>, pos: usize) -> (r: usize)
    requires
        tokens.len() > 0,
    ensures
        r == offset_at(tokens_view(tokens@), pos as nat),
{
    if pos < tokens.len() {
        tokens[pos].0
    } else {
        tokens[tokens.len() - 1].0
    }
}

fn refusal<T>(tokens: &Vec<(usize, Token)>, pos: usize, message: &str) -> (r: Result<
    T,
    (String, usize),
>)
    requires
        tokens.len() > 0,
    ensures
        r matches Err((text, offset)) && text@ == message@ && offset == offset_at(
            tokens_view(tokens@),
            pos as nat,
        ),
{
    Err((String::from_str(message), offset_of(tokens, pos)))
}

fn binding_power(t: &Token) -> (r: usize)
    ensures
        r == lbp(t@),
{
    match t {
        Token::Pipe => 1,
        Token::Or => 2,
        Token::And => 3,
        Token::Eq | Token::Ne | Token::Gt | Token::Gte | Token::Lt | Token::Lte => 5,
        Token::Flatten => 9,
        Token::Star => 20,
        Token::Filter => 21,
        Token::Dot => 40,
        Token::Not => 45,
        Token::Lbrace => 50,
        Token::Lbracket => 55,
        Token::Lparen => 60,
        _ => 0,
    }
}

fn comparator_for(t: &Token) -> (r: Option<Comparator>)
    ensures
        r == comparator_of(t@),
{
    match t {
        Token::Eq => Some(Comparator::Eq),
        Token::Ne => Some(Comparator::Ne),
        Token::Gt => Some(Comparator::Gt),
        Token::Gte => Some(Comparator::Gte),
        Token::Lt => Some(Comparator::Lt),
        Token::Lte => Some(Comparator::Lte),
        _ => None,
    }
}

fn is_kind(t: &Token, kind: &Token) -> (r: bool)
    requires
        kind@ == Lexeme::Rbracket || kind@ == Lexeme::Rparen || kind@ == Lexeme::Rbrace || kind@
            == Lexeme::Colon || kind@ == Lexeme::Comma || kind@ == Lexeme::Star || kind@
            == Lexeme::Lparen || kind@ == Lexeme::Eof,
    ensures
        r == (t@ == kind@),
{
    match (t, kind) {
        (Token::Rbracket, Token::Rbracket) => true,
        (Token::Rparen, Token::Rparen) => true,
        (Token::Rbrace, Token::Rbrace) => true,
        (Token::Colon, Token::Colon) => true,
        (Token::Comma, Token::Comma) => true,
        (Token::Star, Token::Star) => true,
        (Token::Lparen, Token::Lparen) => true,
        (Token::Eof, Token::Eof) => true,
        _ => false,
    }
}

fn number_at(tokens: &Vec<(usize, Token)>, pos: usize) -> (r: (Option<i32>, usize))
    requires
        tokens.len() > 0,
        tokens@.last().1@ == Lexeme::Eof,
        pos <= tokens.len(),
    ensures
        crate::ast::bound_view(r.0) == optional_number(tokens_view(tokens@), pos as nat).0,
        r.1 == optional_number(tokens_view(tokens@), pos as nat).1,
        pos <= r.1 <= tokens.len(),
{
    match peek_at(tokens, pos) {
        Token::Number(n) => (Some(*n), pos + 1),
        _ => (None, pos),
    }
}

fn has_pair_key(found: &Vec<KeyValuePair>, key: &String) -> (r: bool)
    ensures
        r == has_key(pairs_view(found@), key@),
{
    let mut i: usize = 0;
    while i < found.len()
        invariant
            i <= found.len(),
            forall|j: int| 0 <= j < i ==> (#[trigger] pairs_view(found@)[j]).0 != key@,
        decreases found.len() - i,
    {
        if found[i].key == *key {
            assert(pairs_view(found@)[i as int].0 == key@);
            return true;
        }
        i += 1;
    }
    false
}

/// The tokens are those of an expression of `limit` characters.
pub open spec fn usable(tokens: Seq<(usize, Token)>, limit: nat) -> bool {
    closed_by_eof(tokens_view(tokens), limit)
}

fn parse_expression(tokens: &Vec<(usize, Token)>, pos: usize, rbp: usize, Ghost(limit): Ghost<
    nat,
>) -> (r: Parse)
    requires
        usable(tokens@, limit),
        pos <= tokens.len(),
    ensures
        same_parse(r, expression(tokens_view(tokens@), pos as nat, rbp as nat)),
        r matches Ok((node, next)) ==> pos < next <= tokens.len() && within(node@, limit),
    decreases tokens.len() - pos, 1nat,
{
    if pos >= tokens.len() {
        return refusal(tokens, pos, "Unexpected end of expression");
    }
    let (first, start) = match parse_nud(tokens, pos, Ghost(limit)) {
        Err(e) => {
            return Err(e);
        },
        Ok(found) => found,
    };
    let mut left = first;
    let mut at = start;
    while at < tokens.len() && rbp < binding_power(peek_at(tokens, at))
        invariant
            usable(tokens@, limit),
            pos < at <= tokens.len(),
            within(left@, limit),
            expression(tokens_view(tokens@), pos as nat, rbp as nat) == led_loop(
                tokens_view(tokens@),
                at as nat,
                left@,
                rbp as nat,
            ),
        decreases tokens.len() - at,
    {
        match parse_led(tokens, at, left, Ghost(limit)) {
            Err(e) => {
                return Err(e);
            },
            Ok((node, next)) => {
                left = node;
                at = next;
            },
        }
    }
    Ok((left, at))
}

fn parse_nud(tokens: &Vec<(usize, Token)>, pos: usize, Ghost(limit): Ghost<nat>) -> (r: Parse)
    requires
        usable(tokens@, limit),
        pos < tokens.len(),
    ensures
        same_parse(r, nud(tokens_view(tokens@), pos as nat)),
        r matches Ok((node, next)) ==> pos < next <= tokens.len() && within(node@, limit),
    decreases tokens.len() - pos, 0nat,
{
    let offset = offset_of(tokens, pos);
    match &tokens[pos].1 {
        Token::At => Ok((Ast::Identity { offset }, pos + 1)),
        Token::Identifier(name) => Ok((Ast::Field { offset, name: name.clone() }, pos + 1)),
        Token::QuotedIdentifier(name) => {
            if is_kind(peek_at(tokens, pos + 1), &Token::Lparen) {
                refusal(tokens, pos + 1, "Quoted strings can't be a function name")
            } else {
                Ok((Ast::Field { offset, name: name.clone() }, pos + 1))
            }
        },
        Token::Literal(value) => Ok((Ast::Literal { offset, value: share(value) }, pos + 1)),
        Token::String(text) => {
            let value = Rc::new(Variable::String(text.clone()));
            assert(value@ == crate::variable::Datum::String(text@));
            Ok((Ast::Literal { offset, value }, pos + 1))
        },
        Token::Star => parse_object_projection(
            tokens,
            pos + 1,
            Ast::Identity { offset },
            offset,
            Ghost(limit),
        ),
        Token::Flatten => parse_flatten_projection(
            tokens,
            pos + 1,
            Ast::Identity { offset },
            offset,
            Ghost(limit),
        ),
        Token::Filter => parse_filter_projection(
            tokens,
            pos + 1,
            Ast::Identity { offset },
            offset,
            Ghost(limit),
        ),
        Token::Lbracket => match peek_at(tokens, pos + 1) {
            Token::Number(_) | Token::Colon => parse_index_or_slice(
                tokens,
                pos + 1,
                offset,
                Ghost(limit),
            ),
            Token::Star => {
                if is_kind(peek_at(tokens, pos + 2), &Token::Rbracket) {
                    parse_array_projection(
                        tokens,
                        pos + 2,
                        Ast::Identity { offset },
                        offset,
                        Ghost(limit),
                    )
                } else {
                    parse_multi_list(tokens, pos + 1, offset, Ghost(limit))
                }
            },
            _ => parse_multi_list(tokens, pos + 1, offset, Ghost(limit)),
        },
        Token::Lbrace => {
            let found: Vec<KeyValuePair> = Vec::new();
            assert(pairs_view(found@) =~= Seq::<(Seq<char>, Expr)>::empty());
            parse_pairs(tokens, pos + 1, offset, found, Ghost(limit))
        },
        Token::Ampersand => match parse_expression(tokens, pos + 1, 0, Ghost(limit)) {
            Err(e) => Err(e),
            Ok((node, next)) => Ok((Ast::ExpressionReference { offset, ast: Rc::new(node) }, next)),
        },
        Token::Not => match parse_expression(tokens, pos + 1, 45, Ghost(limit)) {
            Err(e) => Err(e),
            Ok((node, next)) => Ok((Ast::Not { offset, node: Box::new(node) }, next)),
        },
        Token::Lparen => match parse_expression(tokens, pos + 1, 0, Ghost(limit)) {
            Err(e) => Err(e),
            Ok((node, next)) => {
                if is_kind(peek_at(tokens, next), &Token::Rparen) {
                    Ok((node, next + 1))
                } else {
                    refusal(tokens, next, "Expected ')' to close '('")
                }
            },
        },
        Token::Eof => refusal(tokens, pos, "Unexpected end of expression"),
        _ => refusal(tokens, pos, "Unexpected token"),
    }
}

fn parse_led(tokens: &Vec<(usize, Token)>, pos: usize, left: Ast, Ghost(limit): Ghost<nat>) -> (r:
    Parse)
    requires
        usable(tokens@, limit),
        pos < tokens.len(),
        within(left@, limit),
    ensures
        same_parse(r, led(tokens_view(tokens@), pos as nat, left@)),
        r matches Ok((node, next)) ==> pos < next <= tokens.len() && within(node@, limit),
    decreases tokens.len() - pos, 0nat,
{
    proof {
        reveal_with_fuel(Ast::model, 3);
        reveal_with_fuel(within, 3);
    }
    let offset = offset_of(tokens, pos);
    match &tokens[pos].1 {
        Token::Dot => {
            if is_kind(peek_at(tokens, pos + 1), &Token::Star) {
                parse_object_projection(tokens, pos + 2, left, offset, Ghost(limit))
            } else {
                match parse_after_dot(tokens, pos + 1, 40, Ghost(limit)) {
                    Err(e) => Err(e),
                    Ok((rhs, next)) => Ok(
                        (Ast::Subexpr { offset, lhs: Box::new(left), rhs: Box::new(rhs) }, next),
                    ),
                }
            }
        },
        Token::Lbracket => match peek_at(tokens, pos + 1) {
            Token::Number(_) | Token::Colon => match parse_index_or_slice(
                tokens,
                pos + 1,
                offset,
                Ghost(limit),
            ) {
                Err(e) => Err(e),
                Ok((rhs, next)) => Ok(
                    (Ast::Subexpr { offset, lhs: Box::new(left), rhs: Box::new(rhs) }, next),
                ),
            },
            Token::Star => parse_array_projection(tokens, pos + 2, left, offset, Ghost(limit)),
            _ => refusal(tokens, pos + 1, "Expected number, ':', or '*'"),
        },
        Token::Or => match parse_expression(tokens, pos + 1, 2, Ghost(limit)) {
            Err(e) => Err(e),
            Ok((rhs, next)) => Ok(
                (Ast::Or { offset, lhs: Box::new(left), rhs: Box::new(rhs) }, next),
            ),
        },
        Token::And => match parse_expression(tokens, pos + 1, 3, Ghost(limit)) {
            Err(e) => Err(e),
            Ok((rhs, next)) => Ok(
                (Ast::And { offset, lhs: Box::new(left), rhs: Box::new(rhs) }, next),
            ),
        },
        Token::Pipe => match parse_expression(tokens, pos + 1, 1, Ghost(limit)) {
            Err(e) => Err(e),
            Ok((rhs, next)) => Ok(
                (Ast::Pipe { offset, lhs: Box::new(left), rhs: Box::new(rhs) }, next),
            ),
        },
        Token::Lparen => match left {
            Ast::Field { name, .. } => match parse_list(
                tokens,
                pos + 1,
                &Token::Rparen,
                Ghost(limit),
            ) {
                Err(e) => Err(e),
                Ok((args, next)) => Ok((Ast::FunctionCall { offset, name, args }, next)),
            },
            _ => refusal(tokens, pos, "Invalid function name"),
        },
        Token::Flatten => parse_flatten_projection(tokens, pos + 1, left, offset, Ghost(limit)),
        Token::Filter => parse_filter_projection(tokens, pos + 1, left, offset, Ghost(limit)),
        other => match comparator_for(other) {
            Some(comparator) => match parse_expression(tokens, pos + 1, 5, Ghost(limit)) {
                Err(e) => Err(e),
                Ok((rhs, next)) => Ok(
                    (
                        Ast::Comparison {
                            offset,
                            comparator,
                            lhs: Box::new(left),
                            rhs: Box::new(rhs),
                        },
                        next,
                    ),
                ),
            },
            None => refusal(tokens, pos, "Unexpected token"),
        },
    }
}

fn parse_after_dot(tokens: &Vec<(usize, Token)>, pos: usize, rbp: usize, Ghost(limit): Ghost<
    nat,
>) -> (r: Parse)
    requires
        usable(tokens@, limit),
        pos <= tokens.len(),
    ensures
        same_parse(r, after_dot(tokens_view(tokens@), pos as nat, rbp as nat)),
        r matches Ok((node, next)) ==> pos < next <= tokens.len() && within(node@, limit),
    decreases tokens.len() - pos, 2nat,
{
    if pos >= tokens.len() {
        return refusal(tokens, pos, "Unexpected end of expression");
    }
    match &tokens[pos].1 {
        Token::Lbracket => {
            let offset = offset_of(tokens, pos);
            parse_multi_list(tokens, pos + 1, offset, Ghost(limit))
        },
        Token::Identifier(_) | Token::QuotedIdentifier(_) | Token::Star | Token::Lbrace => parse_expression(
            tokens,
            pos,
            rbp,
            Ghost(limit),
        ),
        _ => refusal(tokens, pos, "Expected identifier, '*', '{', or '['"),
    }
}

fn parse_projection_rhs(
    tokens: &Vec<(usize, Token)>,
    pos: usize,
    rbp: usize,
    offset: usize,
    Ghost(limit): Ghost<nat>,
) -> (r: Parse)
    requires
        usable(tokens@, limit),
        pos <= tokens.len(),
        offset < limit,
    ensures
        same_parse(r, projection_rhs(tokens_view(tokens@), pos as nat, rbp as nat, offset as nat)),
        r matches Ok((node, next)) ==> pos <= next <= tokens.len() && within(node@, limit),
    decreases tokens.len() - pos, 2nat,
{
    if pos >= tokens.len() {
        return refusal(tokens, pos, "Unexpected end of expression");
    }
    match &tokens[pos].1 {
        Token::Dot => parse_after_dot(tokens, pos + 1, rbp, Ghost(limit)),
        Token::Lbracket | Token::Filter => parse_expression(tokens, pos, rbp, Ghost(limit)),
        other => {
            if binding_power(other) < 10 {
                Ok((Ast::Identity { offset }, pos))
            } else {
                refusal(tokens, pos, "Expected '.', '[', or '[?'")
            }
        },
    }
}

fn parse_object_projection(
    tokens: &Vec<(usize, Token)>,
    pos: usize,
    lhs: Ast,
    offset: usize,
    Ghost(limit): Ghost<nat>,
) -> (r: Parse)
    requires
        usable(tokens@, limit),
        pos <= tokens.len(),
        offset < limit,
        within(lhs@, limit),
    ensures
        same_parse(r, object_projection(tokens_view(tokens@), pos as nat, lhs@, offset as nat)),
        r matches Ok((node, next)) ==> pos <= next <= tokens.len() && within(node@, limit),
    decreases tokens.len() - pos, 3nat,
{
    proof {
        reveal_with_fuel(Ast::model, 3);
        reveal_with_fuel(within, 3);
    }
    match parse_projection_rhs(tokens, pos, 20, offset, Ghost(limit)) {
        Err(e) => Err(e),
        Ok((rhs, next)) => Ok(
            (
                Ast::Projection {
                    offset,
                    lhs: Box::new(Ast::ObjectValues { offset, node: Box::new(lhs) }),
                    rhs: Box::new(rhs),
                },
                next,
            ),
        ),
    }
}

fn parse_flatten_projection(
    tokens: &Vec<(usize, Token)>,
    pos: usize,
    lhs: Ast,
    offset: usize,
    Ghost(limit): Ghost<nat>,
) -> (r: Parse)
    requires
        usable(tokens@, limit),
        pos <= tokens.len(),
        offset < limit,
        within(lhs@, limit),
    ensures
        same_parse(r, flatten_projection(tokens_view(tokens@), pos as nat, lhs@, offset as nat)),
        r matches Ok((node, next)) ==> pos <= next <= tokens.len() && within(node@, limit),
    decreases tokens.len() - pos, 3nat,
{
    proof {
        reveal_with_fuel(Ast::model, 3);
        reveal_with_fuel(within, 3);
    }
    match parse_projection_rhs(tokens, pos, 9, offset, Ghost(limit)) {
        Err(e) => Err(e),
        Ok((rhs, next)) => Ok(
            (
                Ast::Projection {
                    offset,
                    lhs: Box::new(Ast::Flatten { offset, node: Box::new(lhs) }),
                    rhs: Box::new(rhs),
                },
                next,
            ),
        ),
    }
}

fn parse_array_projection(
    tokens: &Vec<(usize, Token)>,
    pos: usize,
    lhs: Ast,
    offset: usize,
    Ghost(limit): Ghost<nat>,
) -> (r: Parse)
    requires
        usable(tokens@, limit),
        offset < limit,
        within(lhs@, limit),
    ensures
        same_parse(r, array_projection(tokens_view(tokens@), pos as nat, lhs@, offset as nat)),
        r matches Ok((node, next)) ==> pos < next <= tokens.len() && within(node@, limit),
    decreases tokens.len() - pos, 4nat,
{
    proof {
        reveal_with_fuel(Ast::model, 3);
        reveal_with_fuel(within, 3);
    }
    if pos >= tokens.len() || !is_kind(peek_at(tokens, pos), &Token::Rbracket) {
        return refusal(tokens, pos, "Expected ']' for wildcard index");
    }
    match parse_projection_rhs(tokens, pos + 1, 20, offset, Ghost(limit)) {
        Err(e) => Err(e),
        Ok((rhs, next)) => Ok(
            (Ast::Projection { offset, lhs: Box::new(lhs), rhs: Box::new(rhs) }, next),
        ),
    }
}

fn parse_filter_projection(
    tokens: &Vec<(usize, Token)>,
    pos: usize,
    lhs: Ast,
    offset: usize,
    Ghost(limit): Ghost<nat>,
) -> (r: Parse)
    requires
        usable(tokens@, limit),
        pos <= tokens.len(),
        offset < limit,
        within(lhs@, limit),
    ensures
        same_parse(r, filter_projection(tokens_view(tokens@), pos as nat, lhs@, offset as nat)),
        r matches Ok((node, next)) ==> pos < next <= tokens.len() && within(node@, limit),
    decreases tokens.len() - pos, 3nat,
{
    proof {
        reveal_with_fuel(Ast::model, 3);
        reveal_with_fuel(within, 3);
    }
    match parse_expression(tokens, pos, 0, Ghost(limit)) {
        Err(e) => Err(e),
        Ok((predicate, close)) => {
            if !is_kind(peek_at(tokens, close), &Token::Rbracket) {
                return refusal(tokens, close, "Expected ']'");
            }
            match parse_projection_rhs(tokens, close + 1, 21, offset, Ghost(limit)) {
                Err(e) => Err(e),
                Ok((then, next)) => Ok(
                    (
                        Ast::Projection {
                            offset,
                            lhs: Box::new(lhs),
                            rhs: Box::new(
                                Ast::Condition {
                                    offset,
                                    predicate: Box::new(predicate),
                                    then: Box::new(then),
                                },
                            ),
                        },
                        next,
                    ),
                ),
            }
        },
    }
}

fn parse_index_or_slice(tokens: &Vec<(usize, Token)>, pos: usize, offset: usize, Ghost(limit): Ghost<
    nat,
>) -> (r: Parse)
    requires
        usable(tokens@, limit),
        pos <= tokens.len(),
        offset < limit,
    ensures
        same_parse(r, index_or_slice(tokens_view(tokens@), pos as nat, offset as nat)),
        r matches Ok((node, next)) ==> pos < next <= tokens.len() && within(node@, limit),
    decreases tokens.len() - pos, 3nat,
{
    proof {
        reveal_with_fuel(Ast::model, 3);
        reveal_with_fuel(within, 3);
    }
    let (start, after_start) = number_at(tokens, pos);
    if start.is_some() && is_kind(peek_at(tokens, after_start), &Token::Rbracket) {
        return Ok((Ast::Index { offset, idx: start.unwrap() }, after_start + 1));
    }
    if !is_kind(peek_at(tokens, after_start), &Token::Colon) {
        return refusal(tokens, after_start, "Expected ':', or ']'");
    }
    let (stop, after_stop) = number_at(tokens, after_start + 1);
    let (step, after_step) = if is_kind(peek_at(tokens, after_stop), &Token::Colon) {
        number_at(tokens, after_stop + 1)
    } else {
        (None, after_stop)
    };
    if is_kind(peek_at(tokens, after_step), &Token::Colon) {
        return refusal(tokens, after_step, "Too many colons in slice expr");
    }
    if !is_kind(peek_at(tokens, after_step), &Token::Rbracket) || after_step >= tokens.len() {
        return refusal(tokens, after_step, "Expected number, ':', or ']'");
    }
    let slice = Ast::Slice {
        offset,
        start,
        stop,
        step: match step {
            Some(n) => n,
            None => 1,
        },
    };
    match parse_projection_rhs(tokens, after_step + 1, 20, offset, Ghost(limit)) {
        Err(e) => Err(e),
        Ok((rhs, next)) => Ok(
            (Ast::Projection { offset, lhs: Box::new(slice), rhs: Box::new(rhs) }, next),
        ),
    }
}

fn parse_multi_list(tokens: &Vec<(usize, Token)>, pos: usize, offset: usize, Ghost(limit): Ghost<
    nat,
>) -> (r: Parse)
    requires
        usable(tokens@, limit),
        pos <= tokens.len(),
        offset < limit,
    ensures
        same_parse(r, multi_list(tokens_view(tokens@), pos as nat, offset as nat)),
        r matches Ok((node, next)) ==> pos < next <= tokens.len() && within(node@, limit),
    decreases tokens.len() - pos, 4nat,
{
    match parse_list(tokens, pos, &Token::Rbracket, Ghost(limit)) {
        Err(e) => Err(e),
        Ok((elements, next)) => Ok((Ast::MultiList { offset, elements }, next)),
    }
}

fn parse_list(tokens: &Vec<(usize, Token)>, pos: usize, closing: &Token, Ghost(limit): Ghost<
    nat,
>) -> (r: ParseList)
    requires
        usable(tokens@, limit),
        pos <= tokens.len(),
        closing@ == Lexeme::Rbracket || closing@ == Lexeme::Rparen,
    ensures
        same_list(r, list(tokens_view(tokens@), pos as nat, closing@)),
        r matches Ok((nodes, next)) ==> pos < next <= tokens.len() && all_within(
            nodes_view(nodes@),
            limit,
        ),
    decreases tokens.len() - pos, 3nat,
{
    if pos < tokens.len() && is_kind(peek_at(tokens, pos), closing) {
        let nodes: Vec<Ast> = Vec::new();
        assert(nodes_view(nodes@) =~= Seq::<Expr>::empty());
        return Ok((nodes, pos + 1));
    }
    let mut nodes: Vec<Ast> = Vec::new();
    let mut at: usize = pos;
    assert(nodes_view(nodes@) =~= Seq::<Expr>::empty());
    loop
        invariant
            usable(tokens@, limit),
            pos <= at <= tokens.len(),
            closing@ == Lexeme::Rbracket || closing@ == Lexeme::Rparen,
            all_within(nodes_view(nodes@), limit),
            list(tokens_view(tokens@), pos as nat, closing@) == items(
                tokens_view(tokens@),
                at as nat,
                closing@,
                nodes_view(nodes@),
            ),
        decreases tokens.len() - at,
    {
        match parse_expression(tokens, at, 0, Ghost(limit)) {
            Err(e) => {
                return Err(e);
            },
            Ok((node, next)) => {
                let ghost before = nodes_view(nodes@);
                let ghost e = node@;
                nodes.push(node);
                assert(nodes_view(nodes@) =~= before.push(e));
                if next < tokens.len() && is_kind(peek_at(tokens, next), closing) {
                    return Ok((nodes, next + 1));
                } else if is_kind(peek_at(tokens, next), &Token::Comma) {
                    at = next + 1;
                } else {
                    return refusal(tokens, next, "Expected ',' or the end of the list");
                }
            },
        }
    }
}

fn parse_pairs(
    tokens: &Vec<(usize, Token)>,
    pos: usize,
    offset: usize,
    found: Vec<KeyValuePair>,
    Ghost(limit): Ghost<nat>,
) -> (r: Parse)
    requires
        usable(tokens@, limit),
        pos <= tokens.len(),
        offset < limit,
        forall|i: int|
            0 <= i < found.len() ==> within((#[trigger] pairs_view(found@)[i]).1, limit),
    ensures
        same_parse(r, pairs(tokens_view(tokens@), pos as nat, offset as nat, pairs_view(found@))),
        r matches Ok((node, next)) ==> pos < next <= tokens.len() && within(node@, limit),
    decreases tokens.len() - pos, 3nat,
{
    let mut found = found;
    let key = match peek_at(tokens, pos) {
        Token::Identifier(name) => Some(name.clone()),
        Token::QuotedIdentifier(name) => Some(name.clone()),
        _ => None,
    };
    if key.is_none() || pos >= tokens.len() {
        return refusal(tokens, pos, "Expected Field to start key value pair");
    }
    let key = key.unwrap();
    if has_pair_key(&found, &key) {
        return refusal(tokens, pos, "Duplicate key in multi-select hash");
    }
    if !is_kind(peek_at(tokens, pos + 1), &Token::Colon) || pos + 1 >= tokens.len() {
        return refusal(tokens, pos + 1, "Expected ':' to follow key");
    }
    match parse_expression(tokens, pos + 2, 0, Ghost(limit)) {
        Err(e) => Err(e),
        Ok((node, next)) => {
            let ghost before = pairs_view(found@);
            let ghost e = node@;
            found.push(KeyValuePair { key, value: node });
            assert(pairs_view(found@) =~= before.push((key@, e)));
            if is_kind(peek_at(tokens, next), &Token::Rbrace) {
                Ok((Ast::MultiHash { offset, pairs: found }, next + 1))
            } else if is_kind(peek_at(tokens, next), &Token::Comma) {
                parse_pairs(tokens, next + 1, offset, found, Ghost(limit))
            } else {
                refusal(tokens, next, "Expected '}' or ','")
            }
        },
    }
}

/// The syntax tree of an expression. Every node of it carries the offset
/// of a character of the expression.
pub fn parse(expr: &str) -> (r: ParseResult)
    ensures
        match r {
            Ok(ast) => parse_text(expr@) == Ok::<Expr, (Seq<char>, nat)>(ast@) && within(
                ast@,
                expr@.len(),
            ),
            Err(e) => parse_text(expr@) matches Err((message, offset)) && e.is_at(
                expr@,
                offset,
                Reason::Parse(message),
            ),
        },
{
    let tokens = match tokenize(expr) {
        Err(e) => {
            return Err(e);
        },
        Ok(tokens) => tokens,
    };
    let ghost limit = expr@.len();
    match parse_expression(&tokens, 0, 0, Ghost(limit)) {
        Err((message, offset)) => Err(Error::new(expr, offset, ErrorReason::Parse(message))),
        Ok((node, next)) => {
            if is_kind(peek_at(&tokens, next), &Token::Eof) {
                Ok(node)
            } else {
                let offset = offset_of(&tokens, next);
                Err(
                    Error::new(
                        expr,
                        offset,
                        ErrorReason::Parse(String::from_str("Did not parse the complete expression")),
                    ),
                )
            }
        },
    }
}

} // verus!
