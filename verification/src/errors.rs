//! The errors of parsing and of evaluation, and how they read.

use crate::coordinates::{count_newlines, prefix, trailing_column, with_carat, Coordinates};
use crate::interpreter::Context;
use crate::json::{json_of, json_text};
use crate::text::{decimal, push_decimal};
use crate::variable::{Datum, RcVar};
use vstd::prelude::*;

verus! {

/// An error of parsing or of evaluation, with the place in the expression
/// that it is about.
#[derive(Debug, PartialEq)]
pub struct Error {
    /// Coordinates to where the error was encountered in the original
    /// expression string.
    pub coordinates: Coordinates,
    /// Expression being evaluated.
    pub expression: String,
    /// Error reason information.
    pub error_reason: ErrorReason,
}

/// What went wrong.
#[derive(Debug, PartialEq)]
pub enum ErrorReason {
    /// An error occurred while parsing an expression.
    Parse(String),
    /// An error occurred while evaluating an expression.
    Runtime(RuntimeError),
}

/// What went wrong during evaluation.
#[derive(Debug, PartialEq)]
#[allow(inconsistent_fields)]
pub enum RuntimeError {
    /// Encountered when a slice expression uses a step of 0.
    InvalidSlice,
    /// Encountered when a key is not a string.
    InvalidKey(String),
    /// Encountered when too many arguments are provided to a function.
    TooManyArguments { expected: usize, actual: usize },
    /// Encountered when too few arguments are provided to a function.
    NotEnoughArguments { expected: usize, actual: usize },
    /// Encountered when an unknown function is called.
    UnknownFunction(String),
    /// Encountered when a type of variable given to a function is invalid.
    InvalidType { expected: String, actual: String, actual_value: RcVar, position: usize },
    /// Encountered when an expression reference returns an invalid type.
    InvalidReturnType {
        expected: String,
        actual: String,
        actual_value: RcVar,
        position: usize,
        invocation: usize,
    },
}

/// The mathematical model of a [`RuntimeError`].
#[allow(inconsistent_fields)]
pub ghost enum Failure {
    InvalidSlice,
    InvalidKey(Seq<char>),
    TooManyArguments { expected: nat, actual: nat },
    NotEnoughArguments { expected: nat, actual: nat },
    UnknownFunction(Seq<char>),
    InvalidType { expected: Seq<char>, actual: Seq<char>, actual_value: Datum, position: nat },
    InvalidReturnType {
        expected: Seq<char>,
        actual: Seq<char>,
        actual_value: Datum,
        position: nat,
        invocation: nat,
    },
}

/// The mathematical model of an [`ErrorReason`].
pub ghost enum Reason {
    Parse(Seq<char>),
    Runtime(Failure),
}

impl View for RuntimeError {
    type V = Failure;

    open spec fn view(&self) -> Failure {
        match self {
            RuntimeError::InvalidSlice => Failure::InvalidSlice,
            RuntimeError::InvalidKey(k) => Failure::InvalidKey(k@),
            RuntimeError::TooManyArguments { expected, actual } => Failure::TooManyArguments {
                expected: *expected as nat,
                actual: *actual as nat,
            },
            RuntimeError::NotEnoughArguments { expected, actual } => Failure::NotEnoughArguments {
                expected: *expected as nat,
                actual: *actual as nat,
            },
            RuntimeError::UnknownFunction(name) => Failure::UnknownFunction(name@),
            RuntimeError::InvalidType {
                expected,
                actual,
                actual_value,
                position,
            } => Failure::InvalidType {
                expected: expected@,
                actual: actual@,
                actual_value: actual_value@,
                position: *position as nat,
            },
            RuntimeError::InvalidReturnType {
                expected,
                actual,
                actual_value,
                position,
                invocation,
            } => Failure::InvalidReturnType {
                expected: expected@,
                actual: actual@,
                actual_value: actual_value@,
                position: *position as nat,
                invocation: *invocation as nat,
            },
        }
    }
}

impl View for ErrorReason {
    type V = Reason;

    open spec fn view(&self) -> Reason {
        match self {
            ErrorReason::Parse(message) => Reason::Parse(message@),
            ErrorReason::Runtime(e) => Reason::Runtime(e@),
        }
    }
}

/// The text that `{:?}` writes for a string: the string in double quotes,
/// with the characters that Rust escapes in a string literal escaped.
pub uninterp spec fn debug_text(s: Seq<char>) -> Seq<char>;

/// A string as `{:?}` writes it.
///
/// Trusted: states of the `Debug` formatting of `str` in std that the text
/// depends on the characters of the string alone.
#[verifier::external_body]
fn debug_string(s: &str) -> (r: String)
    ensures
        r@ == debug_text(s@),
{
    format!("{:?}", s)
}

/// How a failure reads.
pub open spec fn failure_text(f: Failure) -> Seq<char> {
    match f {
        Failure::InvalidSlice => "Invalid slice"@,
        Failure::InvalidKey(k) => "Invalid key. Expected string, found "@ + debug_text(k),
        Failure::TooManyArguments { expected, actual } => "Too many arguments, expected "@
            + decimal(expected) + ", found "@ + decimal(actual),
        Failure::NotEnoughArguments { expected, actual } => "Not enough arguments, expected "@
            + decimal(expected) + ", found "@ + decimal(actual),
        Failure::UnknownFunction(name) => "Call to undefined function "@ + name,
        Failure::InvalidType { expected, actual, actual_value, position } => "Argument "@ + decimal(
            position,
        ) + " expects type "@ + expected + ", given "@ + actual + " "@ + json_text(
            json_of(actual_value),
        ),
        Failure::InvalidReturnType {
            expected,
            actual,
            actual_value,
            position,
            invocation,
        } => "Argument "@ + decimal(position) + " must return "@ + expected + " but invocation "@
            + decimal(invocation) + " returned "@ + actual + " "@ + json_text(
            json_of(actual_value),
        ),
    }
}

/// How a reason reads.
pub open spec fn reason_text(r: Reason) -> Seq<char> {
    match r {
        Reason::Parse(message) => "Parse error: "@ + message,
        Reason::Runtime(f) => "Runtime error: "@ + failure_text(f),
    }
}

/// How the coordinates of offset `offset` in `expr` read.
pub open spec fn place_text(expr: Seq<char>, offset: nat) -> Seq<char> {
    "line "@ + decimal(count_newlines(prefix(expr, offset))) + ", column "@ + decimal(
        trailing_column(prefix(expr, offset)),
    )
}

/// How an error about offset `offset` of `expr` reads: the reason, the
/// line and column in brackets, and below them the expression with a carat
/// under the column.
pub open spec fn error_text(expr: Seq<char>, offset: nat, reason: Reason) -> Seq<char> {
    reason_text(reason) + " ("@ + place_text(expr, offset) + ")\n"@ + with_carat(
        expr,
        count_newlines(prefix(expr, offset)),
        trailing_column(prefix(expr, offset)),
    )
}

impl RuntimeError {
    /// This error in words.
    pub fn to_string(&self) -> (r: String)
        ensures
            r@ == failure_text(self@),
    {
        match self {
            RuntimeError::InvalidSlice => String::from_str("Invalid slice"),
            RuntimeError::InvalidKey(k) => {
                let mut out = String::from_str("Invalid key. Expected string, found ");
                let quoted = debug_string(k.as_str());
                out.append(quoted.as_str());
                out
            },
            RuntimeError::TooManyArguments { expected, actual } => {
                let mut out = String::from_str("Too many arguments, expected ");
                push_decimal(&mut out, *expected);
                out.append(", found ");
                push_decimal(&mut out, *actual);
                out
            },
            RuntimeError::NotEnoughArguments { expected, actual } => {
                let mut out = String::from_str("Not enough arguments, expected ");
                push_decimal(&mut out, *expected);
                out.append(", found ");
                push_decimal(&mut out, *actual);
                out
            },
            RuntimeError::UnknownFunction(name) => {
                let mut out = String::from_str("Call to undefined function ");
                out.append(name.as_str());
                out
            },
            RuntimeError::InvalidType { expected, actual, actual_value, position } => {
                let mut out = String::from_str("Argument ");
                push_decimal(&mut out, *position);
                out.append(" expects type ");
                out.append(expected.as_str());
                out.append(", given ");
                out.append(actual.as_str());
                out.append(" ");
                let value = actual_value.to_string();
                out.append(value.as_str());
                out
            },
            RuntimeError::InvalidReturnType {
                expected,
                actual,
                actual_value,
                position,
                invocation,
            } => {
                let mut out = String::from_str("Argument ");
                push_decimal(&mut out, *position);
                out.append(" must return ");
                out.append(expected.as_str());
                out.append(" but invocation ");
                push_decimal(&mut out, *invocation);
                out.append(" returned ");
                out.append(actual.as_str());
                out.append(" ");
                let value = actual_value.to_string();
                out.append(value.as_str());
                out
            },
        }
    }
}

impl ErrorReason {
    /// This reason in words.
    pub fn to_string(&self) -> (r: String)
        ensures
            r@ == reason_text(self@),
    {
        match self {
            ErrorReason::Parse(message) => {
                let mut out = String::from_str("Parse error: ");
                out.append(message.as_str());
                out
            },
            ErrorReason::Runtime(e) => {
                let mut out = String::from_str("Runtime error: ");
                let inner = e.to_string();
                out.append(inner.as_str());
                out
            },
        }
    }
}

impl Error {
    /// This error is about offset `offset` of `expr`, for `reason`.
    pub open spec fn is_at(&self, expr: Seq<char>, offset: nat, reason: Reason) -> bool {
        &&& self.expression@ == expr
        &&& self.coordinates.offset == offset
        &&& self.coordinates.line == count_newlines(prefix(expr, offset))
        &&& self.coordinates.column == trailing_column(prefix(expr, offset))
        &&& self.error_reason@ == reason
    }

    /// An error about the character at `offset` of `expr`.
    pub fn new(expr: &str, offset: usize, error_reason: ErrorReason) -> (e: Error)
        ensures
            e.is_at(expr@, offset as nat, error_reason@),
            e.error_reason == error_reason,
    {
        Error {
            expression: String::from_str(expr),
            coordinates: Coordinates::from_offset(expr, offset),
            error_reason,
        }
    }

    /// An error about the place that an evaluation has come to.
    pub fn from_ctx(ctx: &Context, error_reason: ErrorReason) -> (e: Error)
        ensures
            e.is_at(ctx.expression@, ctx.offset as nat, error_reason@),
            e.error_reason == error_reason,
    {
        Error {
            expression: String::from_str(ctx.expression),
            coordinates: ctx.create_coordinates(),
            error_reason,
        }
    }

    /// This error in words, with the expression and a carat under the
    /// place.
    pub fn to_string(&self) -> (r: String)
        ensures
            r@ == reason_text(self.error_reason@) + " ("@ + ("line "@ + decimal(
                self.coordinates.line as nat,
            ) + ", column "@ + decimal(self.coordinates.column as nat)) + ")\n"@ + with_carat(
                self.expression@,
                self.coordinates.line as nat,
                self.coordinates.column as nat,
            ),
            forall|expr: Seq<char>, offset: nat, reason: Reason|
                self.is_at(expr, offset, reason) ==> r@ == error_text(expr, offset, reason),
    {
        let mut out = self.error_reason.to_string();
        out.append(" (");
        let place = self.coordinates.to_string();
        out.append(place.as_str());
        out.append(")\n");
        let shown = self.coordinates.expression_with_carat(self.expression.as_str());
        out.append(shown.as_str());
        out
    }
}

} // verus!
