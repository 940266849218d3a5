//! The lexer: from the characters of an expression to its tokens.

use crate::errors::{Error, ErrorReason, Reason};
use crate::json::{json_parse, value_of};
use crate::text::{push_char, string_of, to_chars};
use crate::variable::{Datum, RcVar, Variable};
use std::rc::Rc;
use vstd::prelude::*;

verus! {

/// A token of an expression.
#[derive(Debug, PartialEq)]
pub enum Token {
    /// An unquoted identifier.
    Identifier(String),
    /// An identifier in double quotes, with its escapes resolved.
    QuotedIdentifier(String),
    /// A number, with its sign.
    Number(i32),
    /// A JSON literal between backticks.
    Literal(RcVar),
    /// A raw string between single quotes.
    String(String),
    Dot,
    Star,
    Flatten,
    And,
    Or,
    Pipe,
    Filter,
    Lbracket,
    Rbracket,
    Comma,
    Colon,
    Not,
    Ne,
    Eq,
    Gt,
    Gte,
    Lt,
    Lte,
    At,
    Ampersand,
    Lparen,
    Rparen,
    Lbrace,
    Rbrace,
    /// The end of the expression.
    Eof,
}

/// The mathematical model of a [`Token`].
pub ghost enum Lexeme {
    Identifier(Seq<char>),
    QuotedIdentifier(Seq<char>),
    Number(int),
    Literal(Datum),
    String(Seq<char>),
    Dot,
    Star,
    Flatten,
    And,
    Or,
    Pipe,
    Filter,
    Lbracket,
    Rbracket,
    Comma,
    Colon,
    Not,
    Ne,
    Eq,
    Gt,
    Gte,
    Lt,
    Lte,
    At,
    Ampersand,
    Lparen,
    Rparen,
    Lbrace,
    Rbrace,
    Eof,
}

impl View for Token {
    type V = Lexeme;

    open spec fn view(&self) -> Lexeme {
        match self {
            Token::Identifier(s) => Lexeme::Identifier(s@),
            Token::QuotedIdentifier(s) => Lexeme::QuotedIdentifier(s@),
            Token::Number(n) => Lexeme::Number(*n as int),
            Token::Literal(v) => Lexeme::Literal(v@),
            Token::String(s) => Lexeme::String(s@),
            Token::Dot => Lexeme::Dot,
            Token::Star => Lexeme::Star,
            Token::Flatten => Lexeme::Flatten,
            Token::And => Lexeme::And,
            Token::Or => Lexeme::Or,
            Token::Pipe => Lexeme::Pipe,
            Token::Filter => Lexeme::Filter,
            Token::Lbracket => Lexeme::Lbracket,
            Token::Rbracket => Lexeme::Rbracket,
            Token::Comma => Lexeme::Comma,
            Token::Colon => Lexeme::Colon,
            Token::Not => Lexeme::Not,
            Token::Ne => Lexeme::Ne,
            Token::Eq => Lexeme::Eq,
            Token::Gt => Lexeme::Gt,
            Token::Gte => Lexeme::Gte,
            Token::Lt => Lexeme::Lt,
            Token::Lte => Lexeme::Lte,
            Token::At => Lexeme::At,
            Token::Ampersand => Lexeme::Ampersand,
            Token::Lparen => Lexeme::Lparen,
            Token::Rparen => Lexeme::Rparen,
            Token::Lbrace => Lexeme::Lbrace,
            Token::Rbrace => Lexeme::Rbrace,
            Token::Eof => Lexeme::Eof,
        }
    }
}

/// A token with the offset of its first character.
pub type Placed = (nat, Lexeme);

/// A parse failure: the message and the offset that it is about.
pub type Refusal = (Seq<char>, nat);

/// The models of a sequence of tokens with their offsets.
pub open spec fn tokens_view(tokens: Seq<(usize, Token)>) -> Seq<Placed> {
    Seq::new(tokens.len(), |i: int| (tokens[i].0 as nat, tokens[i].1@))
}

/// Space, tab, carriage return or line feed.
pub open spec fn is_space(c: char) -> bool {
    c == ' ' || c == '\t' || c == '\r' || c == '\n'
}

/// A letter of the Latin alphabet or an underscore.
pub open spec fn is_ident_start(c: char) -> bool {
    ('a' <= c && c <= 'z') || ('A' <= c && c <= 'Z') || c == '_'
}

/// A decimal digit.
pub open spec fn is_digit(c: char) -> bool {
    '0' <= c && c <= '9'
}

/// A character that an identifier may go on with.
pub open spec fn is_ident_char(c: char) -> bool {
    is_ident_start(c) || is_digit(c)
}

/// The value of a decimal digit.
pub open spec fn digit_value(c: char) -> nat {
    if c == '1' {
        1
    } else if c == '2' {
        2
    } else if c == '3' {
        3
    } else if c == '4' {
        4
    } else if c == '5' {
        5
    } else if c == '6' {
        6
    } else if c == '7' {
        7
    } else if c == '8' {
        8
    } else if c == '9' {
        9
    } else {
        0
    }
}

/// The end of the longest run of identifier characters that starts at `i`.
pub open spec fn ident_end(s: Seq<char>, i: nat) -> nat
    decreases s.len() - i,
{
    if i < s.len() && is_ident_char(s[i as int]) {
        ident_end(s, i + 1)
    } else {
        i
    }
}

/// The end of the longest run of digits that starts at `i`.
pub open spec fn digits_end(s: Seq<char>, i: nat) -> nat
    decreases s.len() - i,
{
    if i < s.len() && is_digit(s[i as int]) {
        digits_end(s, i + 1)
    } else {
        i
    }
}

/// The number that the digits `s[from..to]` write.
pub open spec fn digits_value(s: Seq<char>, from: nat, to: nat) -> nat
    decreases to,
{
    if to <= from || to > s.len() {
        0
    } else {
        digits_value(s, from, (to - 1) as nat) * 10 + digit_value(s[to - 1])
    }
}

/// The place of the first `quote` at or after `i` that no backslash
/// escapes. A backslash takes the character after it along, whatever it
/// is.
pub open spec fn find_close(s: Seq<char>, i: nat, quote: char) -> Option<nat>
    decreases s.len() - i,
{
    if i >= s.len() {
        None
    } else if s[i as int] == quote {
        Some(i)
    } else if s[i as int] == '\\' {
        if i + 1 < s.len() {
            find_close(s, i + 2, quote)
        } else {
            None
        }
    } else {
        find_close(s, i + 1, quote)
    }
}

/// The characters `s[i..end]` with each escaped `quote` replaced by the
/// `quote` alone. Every other backslash stays, with the character after
/// it.
pub open spec fn unescape(s: Seq<char>, i: nat, end: nat, quote: char) -> Seq<char>
    decreases end - i,
{
    if i >= end || end > s.len() {
        Seq::empty()
    } else if s[i as int] == '\\' && i + 1 < end {
        if s[(i + 1) as int] == quote {
            seq![quote] + unescape(s, i + 2, end, quote)
        } else {
            seq!['\\', s[(i + 1) as int]] + unescape(s, i + 2, end, quote)
        }
    } else {
        seq![s[i as int]] + unescape(s, i + 1, end, quote)
    }
}

/// The token that starts with a digit or a minus sign at `pos`.
pub open spec fn number_token(s: Seq<char>, pos: nat) -> Result<(Lexeme, nat), Refusal> {
    let negative = s[pos as int] == '-';
    let start = if negative {
        pos + 1
    } else {
        pos
    };
    let end = digits_end(s, start);
    let magnitude = digits_value(s, start, end);
    let value = if negative {
        -magnitude
    } else {
        magnitude as int
    };
    if end == start {
        Err(("'-' must be followed by a digit"@, pos))
    } else if i32::MIN <= value <= i32::MAX {
        Ok((Lexeme::Number(value), end))
    } else {
        Err(("Number does not fit in 32 bits"@, pos))
    }
}

/// The token that starts with the double quote at `pos`: the identifier
/// that the quoted text, read as a JSON string, stands for.
pub open spec fn quoted_token(s: Seq<char>, pos: nat) -> Result<(Lexeme, nat), Refusal> {
    match find_close(s, pos + 1, '"') {
        None => Err(("Unclosed \" delimiter"@, pos)),
        Some(close) => {
            let quoted = s.subrange(pos as int, (close + 1) as int);
            match json_parse(quoted) {
                Some(tree) => match value_of(tree) {
                    Some(Datum::String(name)) => Ok((Lexeme::QuotedIdentifier(name), close + 1)),
                    _ => Err(("Unable to parse quoted identifier"@, pos)),
                },
                None => Err(("Unable to parse quoted identifier"@, pos)),
            }
        },
    }
}

/// The token that starts with the single quote at `pos`: the text up to
/// the closing quote, with escaped single quotes resolved.
pub open spec fn raw_token(s: Seq<char>, pos: nat) -> Result<(Lexeme, nat), Refusal> {
    match find_close(s, pos + 1, '\'') {
        None => Err(("Unclosed ' delimiter"@, pos)),
        Some(close) => Ok((Lexeme::String(unescape(s, pos + 1, close, '\'')), close + 1)),
    }
}

/// The token that starts with the backtick at `pos`: the value that the
/// text up to the closing backtick, with escaped backticks resolved,
/// describes as JSON.
pub open spec fn literal_token(s: Seq<char>, pos: nat) -> Result<(Lexeme, nat), Refusal> {
    match find_close(s, pos + 1, '`') {
        None => Err(("Unclosed ` delimiter"@, pos)),
        Some(close) => match json_parse(unescape(s, pos + 1, close, '`')) {
            Some(tree) => match value_of(tree) {
                Some(v) => Ok((Lexeme::Literal(v), close + 1)),
                None => Err(("Unable to parse literal JSON"@, pos)),
            },
            None => Err(("Unable to parse literal JSON"@, pos)),
        },
    }
}

/// Whether the character after `pos` is `c`.
pub open spec fn followed_by(s: Seq<char>, pos: nat, c: char) -> bool {
    pos + 1 < s.len() && s[(pos + 1) as int] == c
}

/// The token that starts at `pos`, which holds no white space, and the
/// place after it; or why there is none.
pub open spec fn next_token(s: Seq<char>, pos: nat) -> Result<(Lexeme, nat), Refusal>
    recommends
        pos < s.len(),
{
    let c = s[pos as int];
    if is_ident_start(c) {
        let end = ident_end(s, pos + 1);
        Ok((Lexeme::Identifier(s.subrange(pos as int, end as int)), end))
    } else if c == '-' || is_digit(c) {
        number_token(s, pos)
    } else if c == '"' {
        quoted_token(s, pos)
    } else if c == '\'' {
        raw_token(s, pos)
    } else if c == '`' {
        literal_token(s, pos)
    } else if c == '.' {
        Ok((Lexeme::Dot, pos + 1))
    } else if c == '*' {
        Ok((Lexeme::Star, pos + 1))
    } else if c == ']' {
        Ok((Lexeme::Rbracket, pos + 1))
    } else if c == ',' {
        Ok((Lexeme::Comma, pos + 1))
    } else if c == ':' {
        Ok((Lexeme::Colon, pos + 1))
    } else if c == '@' {
        Ok((Lexeme::At, pos + 1))
    } else if c == '(' {
        Ok((Lexeme::Lparen, pos + 1))
    } else if c == ')' {
        Ok((Lexeme::Rparen, pos + 1))
    } else if c == '{' {
        Ok((Lexeme::Lbrace, pos + 1))
    } else if c == '}' {
        Ok((Lexeme::Rbrace, pos + 1))
    } else if c == '[' {
        if followed_by(s, pos, '?') {
            Ok((Lexeme::Filter, pos + 2))
        } else if followed_by(s, pos, ']') {
            Ok((Lexeme::Flatten, pos + 2))
        } else {
            Ok((Lexeme::Lbracket, pos + 1))
        }
    } else if c == '|' {
        if followed_by(s, pos, '|') {
            Ok((Lexeme::Or, pos + 2))
        } else {
            Ok((Lexeme::Pipe, pos + 1))
        }
    } else if c == '&' {
        if followed_by(s, pos, '&') {
            Ok((Lexeme::And, pos + 2))
        } else {
            Ok((Lexeme::Ampersand, pos + 1))
        }
    } else if c == '<' {
        if followed_by(s, pos, '=') {
            Ok((Lexeme::Lte, pos + 2))
        } else {
            Ok((Lexeme::Lt, pos + 1))
        }
    } else if c == '>' {
        if followed_by(s, pos, '=') {
            Ok((Lexeme::Gte, pos + 2))
        } else {
            Ok((Lexeme::Gt, pos + 1))
        }
    } else if c == '!' {
        if followed_by(s, pos, '=') {
            Ok((Lexeme::Ne, pos + 2))
        } else {
            Ok((Lexeme::Not, pos + 1))
        }
    } else if c == '=' {
        if followed_by(s, pos, '=') {
            Ok((Lexeme::Eq, pos + 2))
        } else {
            Err(("'=' is not valid. Did you mean '=='?"@, pos))
        }
    } else {
        Err(("Invalid character"@, pos))
    }
}

/// The tokens of `s` from `pos` on, after the tokens `before`: white space
/// is skipped, and the end-of-expression token, at the length of `s`,
/// closes the sequence. The first token that cannot be read refuses the
/// whole.
pub open spec fn lex_from(s: Seq<char>, pos: nat, before: Seq<Placed>) -> Result<
    Seq<Placed>,
    Refusal,
>
    decreases s.len() - pos,
{
    if pos >= s.len() {
        Ok(before.push((s.len(), Lexeme::Eof)))
    } else if is_space(s[pos as int]) {
        lex_from(s, pos + 1, before)
    } else {
        match next_token(s, pos) {
            Err(refusal) => Err(refusal),
            Ok((lexeme, next)) => if next <= pos || next > s.len() {
                Err(("Invalid character"@, pos))
            } else {
                lex_from(s, next, before.push((pos, lexeme)))
            },
        }
    }
}

/// The tokens of the expression `s`.
pub open spec fn lex(s: Seq<char>) -> Result<Seq<Placed>, Refusal> {
    lex_from(s, 0, Seq::empty())
}

/// Every token but the last lies inside the expression and is no
/// end-of-expression token; the last is that token, at the expression's
/// length.
pub open spec fn closed_by_eof(tokens: Seq<Placed>, len: nat) -> bool {
    &&& tokens.len() > 0
    &&& tokens.last() == (len, Lexeme::Eof)
    &&& forall|i: int|
        0 <= i < tokens.len() - 1 ==> (#[trigger] tokens[i]).0 < len && tokens[i].1 != Lexeme::Eof
}

/// What reading one token gives: the token and the place after it, or
/// the message and the offset of a refusal.
pub type Step = Result<(Token, usize), (String, usize)>;

/// The step `r` is the step `expected` of the model.
pub open spec fn same_step(r: Step, expected: Result<(Lexeme, nat), Refusal>) -> bool {
    match (r, expected) {
        (Ok((token, next)), Ok((lexeme, place))) => token@ == lexeme && next == place,
        (Err((message, offset)), Err((text, place))) => message@ == text && offset == place,
        _ => false,
    }
}

fn space_char(c: char) -> (r: bool)
    ensures
        r == is_space(c),
{
    c == ' ' || c == '\t' || c == '\r' || c == '\n'
}

fn ident_start_char(c: char) -> (r: bool)
    ensures
        r == is_ident_start(c),
{
    ('a' <= c && c <= 'z') || ('A' <= c && c <= 'Z') || c == '_'
}

fn digit_char(c: char) -> (r: bool)
    ensures
        r == is_digit(c),
{
    '0' <= c && c <= '9'
}

fn value_of_digit(c: char) -> (r: u64)
    ensures
        r == digit_value(c),
        r <= 9,
{
    if c == '1' {
        1
    } else if c == '2' {
        2
    } else if c == '3' {
        3
    } else if c == '4' {
        4
    } else if c == '5' {
        5
    } else if c == '6' {
        6
    } else if c == '7' {
        7
    } else if c == '8' {
        8
    } else if c == '9' {
        9
    } else {
        0
    }
}

fn scan_ident(chars: &Vec<char>, from: usize) -> (end: usize)
    requires
        from <= chars.len(),
    ensures
        end == ident_end(chars@, from as nat),
        from <= end <= chars.len(),
{
    let mut i: usize = from;
    while i < chars.len() && (ident_start_char(chars[i]) || digit_char(chars[i]))
        invariant
            from <= i <= chars.len(),
            ident_end(chars@, from as nat) == ident_end(chars@, i as nat),
        decreases chars.len() - i,
    {
        i += 1;
    }
    i
}

fn scan_digits(chars: &Vec<char>, from: usize) -> (end: usize)
    requires
        from <= chars.len(),
    ensures
        end == digits_end(chars@, from as nat),
        from <= end <= chars.len(),
{
    let mut i: usize = from;
    while i < chars.len() && digit_char(chars[i])
        invariant
            from <= i <= chars.len(),
            digits_end(chars@, from as nat) == digits_end(chars@, i as nat),
        decreases chars.len() - i,
    {
        i += 1;
    }
    i
}

fn closing(chars: &Vec<char>, from: usize, quote: char) -> (r: Option<usize>)
    requires
        from <= chars.len(),
    ensures
        match r {
            Some(i) => find_close(chars@, from as nat, quote) == Some(i as nat) && from <= i
                < chars.len(),
            None => find_close(chars@, from as nat, quote) is None,
        },
{
    let mut i: usize = from;
    while i < chars.len()
        invariant
            from <= i <= chars.len(),
            find_close(chars@, from as nat, quote) == find_close(chars@, i as nat, quote),
        decreases chars.len() - i,
    {
        let c = chars[i];
        if c == quote {
            return Some(i);
        } else if c == '\\' {
            if i + 1 < chars.len() {
                i += 2;
            } else {
                return None;
            }
        } else {
            i += 1;
        }
    }
    None
}

fn unescaped(chars: &Vec<char>, from: usize, to: usize, quote: char) -> (r: String)
    requires
        from <= to <= chars.len(),
    ensures
        r@ == unescape(chars@, from as nat, to as nat, quote),
{
    let mut out = String::new();
    let mut i: usize = from;
    assert(Seq::<char>::empty() + unescape(chars@, from as nat, to as nat, quote) == unescape(
        chars@,
        from as nat,
        to as nat,
        quote,
    ));
    while i < to
        invariant
            from <= i <= to <= chars.len(),
            unescape(chars@, from as nat, to as nat, quote) == out@ + unescape(
                chars@,
                i as nat,
                to as nat,
                quote,
            ),
        decreases to - i,
    {
        let ghost before = out@;
        let c = chars[i];
        if c == '\\' && i + 1 < to {
            let d = chars[i + 1];
            let ghost rest = unescape(chars@, (i + 2) as nat, to as nat, quote);
            if d == quote {
                push_char(&mut out, quote);
                assert(before + (seq![quote] + rest) == before.push(quote) + rest);
            } else {
                push_char(&mut out, c);
                push_char(&mut out, d);
                assert(before + (seq!['\\', d] + rest) == before.push('\\').push(d) + rest);
            }
            i += 2;
        } else {
            let ghost rest = unescape(chars@, (i + 1) as nat, to as nat, quote);
            push_char(&mut out, c);
            assert(before + (seq![c] + rest) == before.push(c) + rest);
            i += 1;
        }
    }
    assert(out@ + Seq::<char>::empty() == out@);
    out
}

fn read_number(chars: &Vec<char>, pos: usize) -> (r: Step)
    requires
        pos < chars.len(),
        chars@[pos as int] == '-' || is_digit(chars@[pos as int]),
    ensures
        same_step(r, number_token(chars@, pos as nat)),
        r matches Ok((token, next)) ==> pos < next <= chars.len() && token@ != Lexeme::Eof,
{
    let negative = chars[pos] == '-';
    let start: usize = if negative {
        pos + 1
    } else {
        pos
    };
    let end = scan_digits(chars, start);
    if end == start {
        return Err((String::from_str("'-' must be followed by a digit"), pos));
    }
    let limit: u64 = 0x8000_0000;
    let mut magnitude: u64 = 0;
    let mut over = false;
    let mut i: usize = start;
    while i < end
        invariant
            start <= i <= end <= chars.len(),
            limit == 0x8000_0000,
            !over ==> magnitude == digits_value(chars@, start as nat, i as nat) && magnitude
                <= limit,
            over ==> digits_value(chars@, start as nat, i as nat) > limit,
        decreases end - i,
    {
        let d = value_of_digit(chars[i]);
        if !over {
            magnitude = magnitude * 10 + d;
            if magnitude > limit {
                over = true;
            }
        }
        i += 1;
    }
    if over || (!negative && magnitude == limit) {
        return Err((String::from_str("Number does not fit in 32 bits"), pos));
    }
    let value: i32 = if negative {
        if magnitude == limit {
            i32::MIN
        } else {
            0i32 - (magnitude as i32)
        }
    } else {
        magnitude as i32
    };
    Ok((Token::Number(value), end))
}

fn read_quoted(chars: &Vec<char>, pos: usize) -> (r: Step)
    requires
        pos < chars.len(),
    ensures
        same_step(r, quoted_token(chars@, pos as nat)),
        r matches Ok((token, next)) ==> pos < next <= chars.len() && token@ != Lexeme::Eof,
{
    match closing(chars, pos + 1, '"') {
        None => Err((String::from_str("Unclosed \" delimiter"), pos)),
        Some(close) => {
            let quoted = string_of(chars, pos, close + 1);
            match Variable::from_json(quoted.as_str()) {
                Ok(Variable::String(name)) => Ok((Token::QuotedIdentifier(name), close + 1)),
                _ => Err((String::from_str("Unable to parse quoted identifier"), pos)),
            }
        },
    }
}

fn read_raw(chars: &Vec<char>, pos: usize) -> (r: Step)
    requires
        pos < chars.len(),
    ensures
        same_step(r, raw_token(chars@, pos as nat)),
        r matches Ok((token, next)) ==> pos < next <= chars.len() && token@ != Lexeme::Eof,
{
    match closing(chars, pos + 1, '\'') {
        None => Err((String::from_str("Unclosed ' delimiter"), pos)),
        Some(close) => Ok((Token::String(unescaped(chars, pos + 1, close, '\'')), close + 1)),
    }
}

fn read_literal(chars: &Vec<char>, pos: usize) -> (r: Step)
    requires
        pos < chars.len(),
    ensures
        same_step(r, literal_token(chars@, pos as nat)),
        r matches Ok((token, next)) ==> pos < next <= chars.len() && token@ != Lexeme::Eof,
{
    match closing(chars, pos + 1, '`') {
        None => Err((String::from_str("Unclosed ` delimiter"), pos)),
        Some(close) => {
            let text = unescaped(chars, pos + 1, close, '`');
            match Variable::from_json(text.as_str()) {
                Ok(v) => Ok((Token::Literal(Rc::new(v)), close + 1)),
                Err(_) => Err((String::from_str("Unable to parse literal JSON"), pos)),
            }
        },
    }
}

fn then_char(chars: &Vec<char>, pos: usize, c: char) -> (r: bool)
    requires
        pos < chars.len(),
    ensures
        r == followed_by(chars@, pos as nat, c),
{
    pos + 1 < chars.len() && chars[pos + 1] == c
}

fn read_token(chars: &Vec<char>, pos: usize) -> (r: Step)
    requires
        pos < chars.len(),
    ensures
        same_step(r, next_token(chars@, pos as nat)),
        r matches Ok((token, next)) ==> pos < next <= chars.len() && token@ != Lexeme::Eof,
{
    let c = chars[pos];
    if ident_start_char(c) {
        let end = scan_ident(chars, pos + 1);
        Ok((Token::Identifier(string_of(chars, pos, end)), end))
    } else if c == '-' || digit_char(c) {
        read_number(chars, pos)
    } else if c == '"' {
        read_quoted(chars, pos)
    } else if c == '\'' {
        read_raw(chars, pos)
    } else if c == '`' {
        read_literal(chars, pos)
    } else if c == '.' {
        Ok((Token::Dot, pos + 1))
    } else if c == '*' {
        Ok((Token::Star, pos + 1))
    } else if c == ']' {
        Ok((Token::Rbracket, pos + 1))
    } else if c == ',' {
        Ok((Token::Comma, pos + 1))
    } else if c == ':' {
        Ok((Token::Colon, pos + 1))
    } else if c == '@' {
        Ok((Token::At, pos + 1))
    } else if c == '(' {
        Ok((Token::Lparen, pos + 1))
    } else if c == ')' {
        Ok((Token::Rparen, pos + 1))
    } else if c == '{' {
        Ok((Token::Lbrace, pos + 1))
    } else if c == '}' {
        Ok((Token::Rbrace, pos + 1))
    } else if c == '[' {
        if then_char(chars, pos, '?') {
            Ok((Token::Filter, pos + 2))
        } else if then_char(chars, pos, ']') {
            Ok((Token::Flatten, pos + 2))
        } else {
            Ok((Token::Lbracket, pos + 1))
        }
    } else if c == '|' {
        if then_char(chars, pos, '|') {
            Ok((Token::Or, pos + 2))
        } else {
            Ok((Token::Pipe, pos + 1))
        }
    } else if c == '&' {
        if then_char(chars, pos, '&') {
            Ok((Token::And, pos + 2))
        } else {
            Ok((Token::Ampersand, pos + 1))
        }
    } else if c == '<' {
        if then_char(chars, pos, '=') {
            Ok((Token::Lte, pos + 2))
        } else {
            Ok((Token::Lt, pos + 1))
        }
    } else if c == '>' {
        if then_char(chars, pos, '=') {
            Ok((Token::Gte, pos + 2))
        } else {
            Ok((Token::Gt, pos + 1))
        }
    } else if c == '!' {
        if then_char(chars, pos, '=') {
            Ok((Token::Ne, pos + 2))
        } else {
            Ok((Token::Not, pos + 1))
        }
    } else if c == '=' {
        if then_char(chars, pos, '=') {
            Ok((Token::Eq, pos + 2))
        } else {
            Err((String::from_str("'=' is not valid. Did you mean '=='?"), pos))
        }
    } else {
        Err((String::from_str("Invalid character"), pos))
    }
}

/// The tokens of an expression, each with the offset of its first
/// character, closed by the end-of-expression token.
pub fn tokenize(expr: &str) -> (r: Result<Vec<(usize, Token)>, Error>)
    ensures
        match r {
            Ok(tokens) => lex(expr@) == Ok::<Seq<Placed>, Refusal>(tokens_view(tokens@))
                && closed_by_eof(tokens_view(tokens@), expr@.len()),
            Err(e) => lex(expr@) matches Err((message, offset)) && e.is_at(
                expr@,
                offset,
                Reason::Parse(message),
            ),
        },
{
    let chars = to_chars(expr);
    let mut tokens: Vec<(usize, Token)> = Vec::new();
    let mut pos: usize = 0;
    assert(tokens_view(tokens@) =~= Seq::<Placed>::empty());
    while pos < chars.len()
        invariant
            pos <= chars.len(),
            chars@ == expr@,
            lex(expr@) == lex_from(chars@, pos as nat, tokens_view(tokens@)),
            forall|i: int|
                0 <= i < tokens.len() ==> (#[trigger] tokens@[i]).0 < chars.len() && tokens@[i].1@
                    != Lexeme::Eof,
        decreases chars.len() - pos,
    {
        if space_char(chars[pos]) {
            pos += 1;
        } else {
            match read_token(&chars, pos) {
                Err((message, offset)) => {
                    return Err(Error::new(expr, offset, ErrorReason::Parse(message)));
                },
                Ok((token, next)) => {
                    let ghost before = tokens_view(tokens@);
                    let ghost lexeme = token@;
                    tokens.push((pos, token));
                    assert(tokens_view(tokens@) =~= before.push((pos as nat, lexeme)));
                    pos = next;
                },
            }
        }
    }
    let ghost before = tokens_view(tokens@);
    tokens.push((chars.len(), Token::Eof));
    assert(tokens_view(tokens@) =~= before.push((chars@.len(), Lexeme::Eof)));
    Ok(tokens)
}

} // verus!
