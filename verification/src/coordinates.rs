//! Positions in an expression string.

use crate::text::{decimal, push_char, push_decimal};
use vstd::prelude::*;
use vstd::std_specs::iter::IteratorSpec;

verus! {

/// A position in an expression: the character offset, and the line and
/// column that it falls on (both counted from zero).
#[derive(Clone, Debug, PartialEq)]
pub struct Coordinates {
    /// Absolute character position.
    pub offset: usize,
    /// Line number of the coordinate.
    pub line: usize,
    /// Column of the line number.
    pub column: usize,
}

/// The first `n` characters of `s`, or all of `s` where it is shorter.
pub open spec fn prefix(s: Seq<char>, n: nat) -> Seq<char> {
    if n <= s.len() {
        s.take(n as int)
    } else {
        s
    }
}

/// Number of line feeds in `s`.
pub open spec fn count_newlines(s: Seq<char>) -> nat
    decreases s.len(),
{
    if s.len() == 0 {
        0
    } else {
        count_newlines(s.drop_last()) + if s.last() == '\n' {
            1nat
        } else {
            0nat
        }
    }
}

/// Number of characters after the last line feed of `s` (all of them where
/// `s` holds none).
pub open spec fn trailing_column(s: Seq<char>) -> nat
    decreases s.len(),
{
    if s.len() == 0 || s.last() == '\n' {
        0
    } else {
        trailing_column(s.drop_last()) + 1
    }
}

/// The line that points at `column`: that many spaces, a carat and a line
/// feed.
pub open spec fn carat_line(column: nat) -> Seq<char> {
    Seq::new(column, |i: int| ' ').push('^').push('\n')
}

/// `expr` with the carat line for `column` put in after line number `line`
/// (counted from zero). Where `expr` has no line feed that ends that line,
/// a line feed and the carat line follow the whole of `expr`.
pub open spec fn with_carat(expr: Seq<char>, line: nat, column: nat) -> Seq<char>
    decreases expr.len(),
{
    if expr.len() == 0 {
        seq!['\n'] + carat_line(column)
    } else if expr[0] != '\n' {
        seq![expr[0]] + with_carat(expr.drop_first(), line, column)
    } else if line == 0 {
        seq!['\n'] + carat_line(column) + expr.drop_first()
    } else {
        seq!['\n'] + with_carat(expr.drop_first(), (line - 1) as nat, column)
    }
}

impl Coordinates {
    /// The coordinates of the character at `offset` in `expr`: the line is
    /// the number of line feeds before it, the column the number of
    /// characters between the last of them and it. An offset past the end
    /// counts the whole of `expr`.
    pub fn from_offset(expr: &str, offset: usize) -> (c: Coordinates)
        ensures
            c.offset == offset,
            c.line == count_newlines(prefix(expr@, offset as nat)),
            c.column == trailing_column(prefix(expr@, offset as nat)),
    {
        let mut current_line: usize = 0;
        let mut current_col: usize = 0;
        let mut seen: usize = 0;
        let chars = expr.chars();
        for c in it: chars
            invariant
                it.seq() == expr@,
                seen <= it.index(),
                seen <= offset,
                seen < offset ==> seen == it.index(),
                current_line <= seen,
                current_col <= seen,
                current_line == count_newlines(expr@.take(seen as int)),
                current_col == trailing_column(expr@.take(seen as int)),
        {
            if seen < offset {
                assert(expr@.take(seen + 1).drop_last() == expr@.take(seen as int));
                assert(expr@.take(seen + 1).last() == c);
                if c == '\n' {
                    current_line += 1;
                    current_col = 0;
                } else {
                    current_col += 1;
                }
                seen += 1;
            }
        }
        assert(expr@.take(seen as int) == prefix(expr@, offset as nat));
        Coordinates { line: current_line, column: current_col, offset }
    }

    fn inject_carat(&self, buff: &mut String)
        ensures
            final(buff)@ == old(buff)@ + carat_line(self.column as nat),
    {
        let mut i: usize = 0;
        while i < self.column
            invariant
                i <= self.column,
                buff@ == old(buff)@ + Seq::new(i as nat, |k: int| ' '),
            decreases self.column - i,
        {
            push_char(buff, ' ');
            i += 1;
            assert(Seq::new(i as nat, |k: int| ' ') == Seq::new((i - 1) as nat, |k: int| ' ').push(
                ' ',
            ));
        }
        push_char(buff, '^');
        push_char(buff, '\n');
        assert(buff@ == old(buff)@ + carat_line(self.column as nat));
    }

    /// The expression with a carat under this coordinate's column, on a
    /// line of its own below this coordinate's line.
    pub fn expression_with_carat(&self, expr: &str) -> (r: String)
        ensures
            r@ == with_carat(expr@, self.line as nat, self.column as nat),
    {
        let mut buff = String::new();
        let mut matched = false;
        let mut current_line: usize = 0;
        let chars = expr.chars();
        assert(expr@.skip(0) == expr@);
        assert(buff@ + expr@ == expr@);
        for c in it: chars
            invariant
                it.seq() == expr@,
                !matched ==> current_line <= self.line,
                !matched ==> with_carat(expr@, self.line as nat, self.column as nat) == buff@
                    + with_carat(
                    expr@.skip(it.index() as int),
                    (self.line - current_line) as nat,
                    self.column as nat,
                ),
                matched ==> with_carat(expr@, self.line as nat, self.column as nat) == buff@
                    + expr@.skip(it.index() as int),
        {
            let ghost rest = expr@.skip(it.index() as int);
            assert(rest.len() > 0 && rest[0] == c);
            assert(rest.drop_first() == expr@.skip(it.index() + 1));
            assert(rest == seq![c] + rest.drop_first());
            let ghost before = buff@;
            push_char(&mut buff, c);
            assert(buff@ == before + seq![c]);
            if c == '\n' {
                if !matched && current_line == self.line {
                    matched = true;
                    let ghost mid = buff@;
                    self.inject_carat(&mut buff);
                    assert(buff@ + rest.drop_first() == before + (seq!['\n'] + carat_line(
                        self.column as nat,
                    ) + rest.drop_first()));
                } else if !matched {
                    assert(buff@ + with_carat(
                        rest.drop_first(),
                        (self.line - current_line - 1) as nat,
                        self.column as nat,
                    ) == before + (seq!['\n'] + with_carat(
                        rest.drop_first(),
                        (self.line - current_line - 1) as nat,
                        self.column as nat,
                    )));
                    current_line += 1;
                } else {
                    assert(buff@ + rest.drop_first() == before + rest);
                }
            } else {
                if !matched {
                    assert(buff@ + with_carat(
                        rest.drop_first(),
                        (self.line - current_line) as nat,
                        self.column as nat,
                    ) == before + (seq![c] + with_carat(
                        rest.drop_first(),
                        (self.line - current_line) as nat,
                        self.column as nat,
                    )));
                } else {
                    assert(buff@ + rest.drop_first() == before + rest);
                }
            }
        }
        assert(expr@.skip(expr@.len() as int) == Seq::<char>::empty());
        if !matched {
            let ghost before = buff@;
            push_char(&mut buff, '\n');
            self.inject_carat(&mut buff);
            assert(buff@ == before + (seq!['\n'] + carat_line(self.column as nat)));
        } else {
            assert(buff@ + Seq::<char>::empty() == buff@);
        }
        buff
    }

    /// The line and column in words: `line L, column C`.
    pub fn to_string(&self) -> (r: String)
        ensures
            r@ == "line "@ + decimal(self.line as nat) + ", column "@ + decimal(self.column as nat),
    {
        let mut out = String::from_str("line ");
        push_decimal(&mut out, self.line);
        out.append(", column ");
        push_decimal(&mut out, self.column);
        out
    }
}

} // verus!
