//! The grammar of expressions, as a function from tokens to a syntax
//! tree: an operator-precedence grammar in which every token has a
//! binding power to its left, and an expression goes on to the right for as
//! long as the next token binds more tightly than the context allows.

use crate::ast::{Comparator, Expr, Pairs};
use crate::lexer::{lex, Lexeme, Placed, Refusal};
use crate::variable::Datum;
use vstd::prelude::*;

verus! {

/// A node and the place of the first token after it, or a refusal.
pub type Parsed = Result<(Expr, nat), Refusal>;

/// A list of nodes and the place of the first token after it, or a
/// refusal.
pub type ParsedList = Result<(Seq<Expr>, nat), Refusal>;

/// The token at `pos`; past the end, the end-of-expression token.
pub open spec fn peek(ts: Seq<Placed>, pos: nat) -> Lexeme {
    if pos < ts.len() {
        ts[pos as int].1
    } else {
        Lexeme::Eof
    }
}

/// The offset of the token at `pos`; past the end, that of the last token.
pub open spec fn offset_at(ts: Seq<Placed>, pos: nat) -> nat {
    if pos < ts.len() {
        ts[pos as int].0
    } else if ts.len() > 0 {
        ts.last().0
    } else {
        0
    }
}

/// How tightly a token binds to the expression on its left.
pub open spec fn lbp(t: Lexeme) -> nat {
    match t {
        Lexeme::Pipe => 1,
        Lexeme::Or => 2,
        Lexeme::And => 3,
        Lexeme::Eq | Lexeme::Ne | Lexeme::Gt | Lexeme::Gte | Lexeme::Lt | Lexeme::Lte => 5,
        Lexeme::Flatten => 9,
        Lexeme::Star => 20,
        Lexeme::Filter => 21,
        Lexeme::Dot => 40,
        Lexeme::Not => 45,
        Lexeme::Lbrace => 50,
        Lexeme::Lbracket => 55,
        Lexeme::Lparen => 60,
        _ => 0,
    }
}

/// Tokens that bind less tightly than this end the right-hand side of a
/// projection.
pub open spec fn projection_stop() -> nat {
    10
}

/// The comparison operator that a token writes.
pub open spec fn comparator_of(t: Lexeme) -> Option<Comparator> {
    match t {
        Lexeme::Eq => Some(Comparator::Eq),
        Lexeme::Ne => Some(Comparator::Ne),
        Lexeme::Gt => Some(Comparator::Gt),
        Lexeme::Gte => Some(Comparator::Gte),
        Lexeme::Lt => Some(Comparator::Lt),
        Lexeme::Lte => Some(Comparator::Lte),
        _ => None,
    }
}

/// The refusal of the token at `pos`, with `message`.
pub open spec fn refuse<T>(ts: Seq<Placed>, pos: nat, message: Seq<char>) -> Result<T, Refusal> {
    Err((message, offset_at(ts, pos)))
}

/// The place `next` lies after `pos` and not past the end. Every step of
/// the grammar moves on like this; the functions below say so where they
/// recur, which is what makes them well founded.
pub open spec fn moved(ts: Seq<Placed>, pos: nat, next: nat) -> bool {
    pos < next <= ts.len()
}

/// Whether `key` is the key of one of `pairs`.
pub open spec fn has_key(pairs: Pairs, key: Seq<char>) -> bool {
    exists|i: int| 0 <= i < pairs.len() && (#[trigger] pairs[i]).0 == key
}

/// An optional number at `pos`: its value and the place after it, or
/// nothing and `pos`.
pub open spec fn optional_number(ts: Seq<Placed>, pos: nat) -> (Option<int>, nat) {
    match peek(ts, pos) {
        Lexeme::Number(n) => (Some(n), pos + 1),
        _ => (None, pos),
    }
}

/// An expression that starts at `pos` and goes on for as long as the next
/// token binds more tightly than `rbp`.
pub open spec fn expression(ts: Seq<Placed>, pos: nat, rbp: nat) -> Parsed
    decreases ts.len() - pos, 1nat,
{
    if pos >= ts.len() {
        refuse(ts, pos, "Unexpected end of expression"@)
    } else {
        match nud(ts, pos) {
            Err(r) => Err(r),
            Ok((left, next)) => if moved(ts, pos, next) {
                led_loop(ts, next, left, rbp)
            } else {
                refuse(ts, pos, "Unexpected token"@)
            },
        }
    }
}

/// The expression `left` extended to the right from `pos` on, for as long
/// as the next token binds more tightly than `rbp`.
pub open spec fn led_loop(ts: Seq<Placed>, pos: nat, left: Expr, rbp: nat) -> Parsed
    decreases ts.len() - pos, 1nat,
{
    if pos >= ts.len() || rbp >= lbp(peek(ts, pos)) {
        Ok((left, pos))
    } else {
        match led(ts, pos, left) {
            Err(r) => Err(r),
            Ok((node, next)) => if moved(ts, pos, next) {
                led_loop(ts, next, node, rbp)
            } else {
                refuse(ts, pos, "Unexpected token"@)
            },
        }
    }
}

/// The expression that the token at `pos` starts.
pub open spec fn nud(ts: Seq<Placed>, pos: nat) -> Parsed
    decreases ts.len() - pos, 0nat,
{
    let offset = offset_at(ts, pos);
    if pos >= ts.len() {
        refuse(ts, pos, "Unexpected end of expression"@)
    } else {
        match peek(ts, pos) {
            Lexeme::At => Ok((Expr::Identity { offset }, pos + 1)),
            Lexeme::Identifier(name) => Ok((Expr::Field { offset, name }, pos + 1)),
            Lexeme::QuotedIdentifier(name) => if peek(ts, pos + 1) == Lexeme::Lparen {
                refuse(ts, pos + 1, "Quoted strings can't be a function name"@)
            } else {
                Ok((Expr::Field { offset, name }, pos + 1))
            },
            Lexeme::Literal(value) => Ok((Expr::Literal { offset, value }, pos + 1)),
            Lexeme::String(text) => Ok(
                (Expr::Literal { offset, value: Datum::String(text) }, pos + 1),
            ),
            Lexeme::Star => object_projection(ts, pos + 1, Expr::Identity { offset }, offset),
            Lexeme::Flatten => flatten_projection(ts, pos + 1, Expr::Identity { offset }, offset),
            Lexeme::Filter => filter_projection(ts, pos + 1, Expr::Identity { offset }, offset),
            Lexeme::Lbracket => match peek(ts, pos + 1) {
                Lexeme::Number(_) | Lexeme::Colon => index_or_slice(ts, pos + 1, offset),
                Lexeme::Star => if peek(ts, pos + 2) == Lexeme::Rbracket {
                    array_projection(ts, pos + 2, Expr::Identity { offset }, offset)
                } else {
                    multi_list(ts, pos + 1, offset)
                },
                _ => multi_list(ts, pos + 1, offset),
            },
            Lexeme::Lbrace => pairs(ts, pos + 1, offset, Seq::empty()),
            Lexeme::Eof => refuse(ts, pos, "Unexpected end of expression"@),
            Lexeme::Ampersand => match expression(ts, pos + 1, 0) {
                Err(r) => Err(r),
                Ok((node, next)) => Ok(
                    (Expr::ExpressionReference { offset, ast: Box::new(node) }, next),
                ),
            },
            Lexeme::Not => match expression(ts, pos + 1, lbp(Lexeme::Not)) {
                Err(r) => Err(r),
                Ok((node, next)) => Ok((Expr::Not { offset, node: Box::new(node) }, next)),
            },
            Lexeme::Lparen => match expression(ts, pos + 1, 0) {
                Err(r) => Err(r),
                Ok((node, next)) => if peek(ts, next) == Lexeme::Rparen {
                    Ok((node, next + 1))
                } else {
                    refuse(ts, next, "Expected ')' to close '('"@)
                },
            },
            _ => refuse(ts, pos, "Unexpected token"@),
        }
    }
}

/// The expression that the token at `pos` makes of the expression `left`
/// before it.
pub open spec fn led(ts: Seq<Placed>, pos: nat, left: Expr) -> Parsed
    decreases ts.len() - pos, 0nat,
{
    let offset = offset_at(ts, pos);
    let lhs = Box::new(left);
    if pos >= ts.len() {
        refuse(ts, pos, "Unexpected end of expression"@)
    } else {
        match peek(ts, pos) {
            Lexeme::Dot => if peek(ts, pos + 1) == Lexeme::Star {
                object_projection(ts, pos + 2, left, offset)
            } else {
                match after_dot(ts, pos + 1, lbp(Lexeme::Dot)) {
                    Err(r) => Err(r),
                    Ok((rhs, next)) => Ok((Expr::Subexpr { offset, lhs, rhs: Box::new(rhs) }, next)),
                }
            },
            Lexeme::Lbracket => match peek(ts, pos + 1) {
                Lexeme::Number(_) | Lexeme::Colon => match index_or_slice(ts, pos + 1, offset) {
                    Err(r) => Err(r),
                    Ok((rhs, next)) => Ok((Expr::Subexpr { offset, lhs, rhs: Box::new(rhs) }, next)),
                },
                Lexeme::Star => array_projection(ts, pos + 2, left, offset),
                _ => refuse(ts, pos + 1, "Expected number, ':', or '*'"@),
            },
            Lexeme::Or => match expression(ts, pos + 1, lbp(Lexeme::Or)) {
                Err(r) => Err(r),
                Ok((rhs, next)) => Ok((Expr::Or { offset, lhs, rhs: Box::new(rhs) }, next)),
            },
            Lexeme::And => match expression(ts, pos + 1, lbp(Lexeme::And)) {
                Err(r) => Err(r),
                Ok((rhs, next)) => Ok((Expr::And { offset, lhs, rhs: Box::new(rhs) }, next)),
            },
            Lexeme::Pipe => match expression(ts, pos + 1, lbp(Lexeme::Pipe)) {
                Err(r) => Err(r),
                Ok((rhs, next)) => Ok((Expr::Pipe { offset, lhs, rhs: Box::new(rhs) }, next)),
            },
            Lexeme::Lparen => match left {
                Expr::Field { name, .. } => match list(ts, pos + 1, Lexeme::Rparen) {
                    Err(r) => Err(r),
                    Ok((args, next)) => Ok((Expr::FunctionCall { offset, name, args }, next)),
                },
                _ => refuse(ts, pos, "Invalid function name"@),
            },
            Lexeme::Flatten => flatten_projection(ts, pos + 1, left, offset),
            Lexeme::Filter => filter_projection(ts, pos + 1, left, offset),
            other => match comparator_of(other) {
                Some(comparator) => match expression(ts, pos + 1, lbp(Lexeme::Eq)) {
                    Err(r) => Err(r),
                    Ok((rhs, next)) => Ok(
                        (Expr::Comparison { offset, comparator, lhs, rhs: Box::new(rhs) }, next),
                    ),
                },
                None => refuse(ts, pos, "Unexpected token"@),
            },
        }
    }
}

/// What may follow a dot, from `pos` on: a multi-select list, or an
/// expression that starts with an identifier, a star or a brace.
pub open spec fn after_dot(ts: Seq<Placed>, pos: nat, rbp: nat) -> Parsed
    decreases ts.len() - pos, 2nat,
{
    if pos >= ts.len() {
        refuse(ts, pos, "Unexpected end of expression"@)
    } else {
        match peek(ts, pos) {
            Lexeme::Lbracket => multi_list(ts, pos + 1, offset_at(ts, pos)),
            Lexeme::Identifier(_) | Lexeme::QuotedIdentifier(_) | Lexeme::Star | Lexeme::Lbrace => expression(
                ts,
                pos,
                rbp,
            ),
            _ => refuse(ts, pos, "Expected identifier, '*', '{', or '['"@),
        }
    }
}

/// The right-hand side of a projection, from `pos` on: what follows a dot,
/// an expression that starts with a bracket, or, before a token that ends
/// the projection, the identity, which then carries `offset`.
pub open spec fn projection_rhs(ts: Seq<Placed>, pos: nat, rbp: nat, offset: nat) -> Parsed
    decreases ts.len() - pos, 2nat,
{
    if pos >= ts.len() {
        refuse(ts, pos, "Unexpected end of expression"@)
    } else {
        match peek(ts, pos) {
            Lexeme::Dot => after_dot(ts, pos + 1, rbp),
            Lexeme::Lbracket | Lexeme::Filter => expression(ts, pos, rbp),
            other => if lbp(other) < projection_stop() {
                Ok((Expr::Identity { offset }, pos))
            } else {
                refuse(ts, pos, "Expected '.', '[', or '[?'"@)
            },
        }
    }
}

/// The projection over the values of the object `lhs`; its right-hand
/// side starts at `pos`.
pub open spec fn object_projection(ts: Seq<Placed>, pos: nat, lhs: Expr, offset: nat) -> Parsed
    decreases ts.len() - pos, 3nat,
{
    match projection_rhs(ts, pos, lbp(Lexeme::Star), offset) {
        Err(r) => Err(r),
        Ok((rhs, next)) => Ok(
            (
                Expr::Projection {
                    offset,
                    lhs: Box::new(Expr::ObjectValues { offset, node: Box::new(lhs) }),
                    rhs: Box::new(rhs),
                },
                next,
            ),
        ),
    }
}

/// The projection over the flattened array `lhs`; its right-hand side
/// starts at `pos`.
pub open spec fn flatten_projection(ts: Seq<Placed>, pos: nat, lhs: Expr, offset: nat) -> Parsed
    decreases ts.len() - pos, 3nat,
{
    match projection_rhs(ts, pos, lbp(Lexeme::Flatten), offset) {
        Err(r) => Err(r),
        Ok((rhs, next)) => Ok(
            (
                Expr::Projection {
                    offset,
                    lhs: Box::new(Expr::Flatten { offset, node: Box::new(lhs) }),
                    rhs: Box::new(rhs),
                },
                next,
            ),
        ),
    }
}

/// The projection over the elements of the array `lhs`; the closing
/// bracket of `[*]` is expected at `pos`.
pub open spec fn array_projection(ts: Seq<Placed>, pos: nat, lhs: Expr, offset: nat) -> Parsed
    decreases ts.len() - pos, 4nat,
{
    if pos >= ts.len() || peek(ts, pos) != Lexeme::Rbracket {
        refuse(ts, pos, "Expected ']' for wildcard index"@)
    } else {
        match projection_rhs(ts, pos + 1, lbp(Lexeme::Star), offset) {
            Err(r) => Err(r),
            Ok((rhs, next)) => Ok(
                (Expr::Projection { offset, lhs: Box::new(lhs), rhs: Box::new(rhs) }, next),
            ),
        }
    }
}

/// The projection over the elements of `lhs` that a predicate holds of;
/// the predicate starts at `pos`.
pub open spec fn filter_projection(ts: Seq<Placed>, pos: nat, lhs: Expr, offset: nat) -> Parsed
    decreases ts.len() - pos, 3nat,
{
    match expression(ts, pos, 0) {
        Err(r) => Err(r),
        Ok((predicate, close)) => if !moved(ts, pos, close) || peek(ts, close) != Lexeme::Rbracket {
            refuse(ts, close, "Expected ']'"@)
        } else {
            match projection_rhs(ts, close + 1, lbp(Lexeme::Filter), offset) {
                Err(r) => Err(r),
                Ok((then, next)) => Ok(
                    (
                        Expr::Projection {
                            offset,
                            lhs: Box::new(lhs),
                            rhs: Box::new(
                                Expr::Condition {
                                    offset,
                                    predicate: Box::new(predicate),
                                    then: Box::new(then),
                                },
                            ),
                        },
                        next,
                    ),
                ),
            }
        }
    }
}

/// An index `n]` or a slice `start:stop:step]`, each part of which may be
/// left out, from `pos` on. A slice is the left-hand side of a projection.
pub open spec fn index_or_slice(ts: Seq<Placed>, pos: nat, offset: nat) -> Parsed
    decreases ts.len() - pos, 3nat,
{
    let (start, after_start) = optional_number(ts, pos);
    if start is Some && peek(ts, after_start) == Lexeme::Rbracket {
        Ok((Expr::Index { offset, idx: start->0 }, after_start + 1))
    } else if peek(ts, after_start) != Lexeme::Colon {
        refuse(ts, after_start, "Expected ':', or ']'"@)
    } else {
        let (stop, after_stop) = optional_number(ts, after_start + 1);
        let (step, after_step) = if peek(ts, after_stop) == Lexeme::Colon {
            optional_number(ts, after_stop + 1)
        } else {
            (None, after_stop)
        };
        if peek(ts, after_step) == Lexeme::Colon {
            refuse(ts, after_step, "Too many colons in slice expr"@)
        } else if peek(ts, after_step) != Lexeme::Rbracket || after_step >= ts.len() {
            refuse(ts, after_step, "Expected number, ':', or ']'"@)
        } else {
            let slice = Expr::Slice {
                offset,
                start,
                stop,
                step: match step {
                    Some(n) => n,
                    None => 1,
                },
            };
            match projection_rhs(ts, after_step + 1, lbp(Lexeme::Star), offset) {
                Err(r) => Err(r),
                Ok((rhs, next)) => Ok(
                    (Expr::Projection { offset, lhs: Box::new(slice), rhs: Box::new(rhs) }, next),
                ),
            }
        }
    }
}

/// A multi-select list, from `pos` on, which is after its opening
/// bracket.
pub open spec fn multi_list(ts: Seq<Placed>, pos: nat, offset: nat) -> Parsed
    decreases ts.len() - pos, 4nat,
{
    match list(ts, pos, Lexeme::Rbracket) {
        Err(r) => Err(r),
        Ok((elements, next)) => Ok((Expr::MultiList { offset, elements }, next)),
    }
}

/// A list of expressions separated by commas, up to the token `closing`,
/// from `pos` on. The list may be empty.
pub open spec fn list(ts: Seq<Placed>, pos: nat, closing: Lexeme) -> ParsedList
    decreases ts.len() - pos, 3nat,
{
    if pos < ts.len() && peek(ts, pos) == closing {
        Ok((Seq::empty(), pos + 1))
    } else {
        items(ts, pos, closing, Seq::empty())
    }
}

/// The rest of a list of which `before` has been read: an expression at
/// `pos`, and after it a comma and more, or `closing`.
pub open spec fn items(ts: Seq<Placed>, pos: nat, closing: Lexeme, before: Seq<Expr>) -> ParsedList
    decreases ts.len() - pos, 2nat,
{
    match expression(ts, pos, 0) {
        Err(r) => Err(r),
        Ok((node, next)) => if !moved(ts, pos, next) {
            refuse(ts, pos, "Unexpected token"@)
        } else if next < ts.len() && peek(ts, next) == closing {
            Ok((before.push(node), next + 1))
        } else if peek(ts, next) == Lexeme::Comma {
            items(ts, next + 1, closing, before.push(node))
        } else {
            refuse(ts, next, "Expected ',' or the end of the list"@)
        },
    }
}

/// A multi-select hash of which `before` has been read: a key at `pos`, a
/// colon, an expression, and after it a comma and more, or a closing
/// brace. No key may come twice.
pub open spec fn pairs(ts: Seq<Placed>, pos: nat, offset: nat, before: Pairs) -> Parsed
    decreases ts.len() - pos, 3nat,
{
    let key = match peek(ts, pos) {
        Lexeme::Identifier(name) => Some(name),
        Lexeme::QuotedIdentifier(name) => Some(name),
        _ => None,
    };
    if key is None || pos >= ts.len() {
        refuse(ts, pos, "Expected Field to start key value pair"@)
    } else if has_key(before, key->0) {
        refuse(ts, pos, "Duplicate key in multi-select hash"@)
    } else if peek(ts, pos + 1) != Lexeme::Colon || pos + 1 >= ts.len() {
        refuse(ts, pos + 1, "Expected ':' to follow key"@)
    } else {
        match expression(ts, pos + 2, 0) {
            Err(r) => Err(r),
            Ok((node, next)) => {
                let found = before.push((key->0, node));
                if !moved(ts, pos, next) {
                    refuse(ts, pos, "Unexpected token"@)
                } else if peek(ts, next) == Lexeme::Rbrace {
                    Ok((Expr::MultiHash { offset, pairs: found }, next + 1))
                } else if peek(ts, next) == Lexeme::Comma {
                    pairs(ts, next + 1, offset, found)
                } else {
                    refuse(ts, next, "Expected '}' or ','"@)
                }
            },
        }
    }
}

/// The syntax tree of a sequence of tokens: one expression, up to the
/// end-of-expression token.
pub open spec fn parse_tokens(ts: Seq<Placed>) -> Result<Expr, Refusal> {
    match expression(ts, 0, 0) {
        Err(r) => Err(r),
        Ok((node, next)) => if peek(ts, next) == Lexeme::Eof {
            Ok(node)
        } else {
            refuse(ts, next, "Did not parse the complete expression"@)
        },
    }
}

/// The syntax tree of an expression.
pub open spec fn parse_text(s: Seq<char>) -> Result<Expr, Refusal> {
    match lex(s) {
        Err(r) => Err(r),
        Ok(ts) => parse_tokens(ts),
    }
}

} // verus!
