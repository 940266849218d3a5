//! A JMESPath engine: expressions are compiled to a syntax tree and
//! evaluated against JSON-shaped data.
//!
//! Numbers are integers of 64 bits with sign.

use vstd::prelude::*;
use vstd::std_specs::cmp::PartialEqSpecImpl;

pub mod ast;
pub mod builtins;
pub mod coordinates;
pub mod errors;
pub mod functions;
pub mod grammar;
pub mod interpreter;
pub mod json;
pub mod laws;
pub mod lexer;
pub mod parser;
pub mod semantics;
pub mod text;
pub mod variable;

pub use coordinates::Coordinates;
pub use errors::{Error, ErrorReason, RuntimeError};
pub use interpreter::{Context, SearchResult, TreeInterpreter};
pub use parser::{parse, ParseResult};
pub use variable::{Object, RcVar, Variable};

use crate::ast::{within, Ast, Expr};
use crate::errors::Reason;
use crate::grammar::parse_text;
use crate::interpreter::same_outcome;
use crate::semantics::eval;
use std::rc::Rc;

verus! {

/// A compiled JMESPath expression.
pub struct Expression<'a> {
    ast: Ast,
    original: String,
    interpreter: Option<&'a TreeInterpreter>,
}

/// What a search of `data` with the expression `expression` is to give:
/// the parse error of the expression, or what its syntax tree yields for
/// `data`.
pub open spec fn search_gives(r: SearchResult, expression: Seq<char>, data: variable::Datum) -> bool {
    match parse_text(expression) {
        Ok(tree) => same_outcome(r, eval(tree, data), expression),
        Err((message, offset)) => r matches Err(e) && e.is_at(
            expression,
            offset,
            Reason::Parse(message),
        ),
    }
}

/// Parses an expression and performs a search over the data.
pub fn search(expression: &str, data: Variable) -> (r: SearchResult)
    ensures
        search_gives(r, expression@, data@),
{
    match Expression::new(expression) {
        Err(e) => Err(e),
        Ok(compiled) => compiled.search(data),
    }
}

impl<'a> Expression<'a> {
    #[verifier::type_invariant]
    spec fn compiled(self) -> bool {
        &&& parse_text(self.original@) == Ok::<Expr, (Seq<char>, nat)>(self.ast@)
        &&& within(self.ast@, self.original@.len())
    }

    /// The text that the expression was compiled from.
    pub closed spec fn text(&self) -> Seq<char> {
        self.original@
    }

    /// The syntax tree of the expression.
    pub closed spec fn tree(&self) -> Expr {
        self.ast@
    }

    /// Creates a new JMESPath expression from an expression string.
    pub fn new(expression: &str) -> (r: Result<Expression<'a>, Error>)
        ensures
            match r {
                Ok(compiled) => compiled.text() == expression@ && parse_text(expression@) == Ok::<
                    Expr,
                    (Seq<char>, nat),
                >(compiled.tree()),
                Err(e) => parse_text(expression@) matches Err((message, offset)) && e.is_at(
                    expression@,
                    offset,
                    Reason::Parse(message),
                ),
            },
    {
        Expression::with_interpreter(expression, None)
    }

    /// Creates a new JMESPath expression that is evaluated by the given
    /// interpreter, or by one of its own where none is given.
    pub fn with_interpreter(expression: &str, interpreter: Option<&'a TreeInterpreter>) -> (r:
        Result<Expression<'a>, Error>)
        ensures
            match r {
                Ok(compiled) => compiled.text() == expression@ && parse_text(expression@) == Ok::<
                    Expr,
                    (Seq<char>, nat),
                >(compiled.tree()),
                Err(e) => parse_text(expression@) matches Err((message, offset)) && e.is_at(
                    expression@,
                    offset,
                    Reason::Parse(message),
                ),
            },
    {
        match parse(expression) {
            Err(e) => Err(e),
            Ok(ast) => Ok(Expression { original: String::from_str(expression), ast, interpreter }),
        }
    }

    /// Returns the result of searching data with the compiled expression.
    pub fn search(&self, data: Variable) -> (r: SearchResult)
        ensures
            same_outcome(r, eval(self.tree(), data@), self.text()),
            search_gives(r, self.text(), data@),
    {
        proof {
            use_type_invariant(self);
        }
        let data = Rc::new(data);
        let mut ctx = Context::new(self.original.as_str());
        match self.interpreter {
            Some(i) => i.interpret(&data, &self.ast, &mut ctx),
            None => {
                let interpreter = TreeInterpreter::new();
                interpreter.interpret(&data, &self.ast, &mut ctx)
            },
        }
    }

    /// Returns the JMESPath expression from which the Expression was
    /// compiled.
    pub fn as_str(&self) -> (r: &str)
        ensures
            r@ == self.text(),
    {
        self.original.as_str()
    }

    /// Returns the AST of the parsed JMESPath expression. Every node of it
    /// carries the offset of a character of the expression.
    pub fn as_ast(&self) -> (r: &Ast)
        ensures
            r@ == self.tree(),
            parse_text(self.text()) == Ok::<Expr, (Seq<char>, nat)>(r@),
            within(r@, self.text().len()),
    {
        proof {
            use_type_invariant(self);
        }
        &self.ast
    }

    /// The original expression.
    pub fn to_string(&self) -> (r: String)
        ensures
            r@ == self.text(),
    {
        self.original.clone()
    }
}

/// Equality comparison is based on the original string.
impl<'a> PartialEq for Expression<'a> {
    fn eq(&self, other: &Expression<'a>) -> (r: bool) {
        self.original == other.original
    }
}

impl<'a> PartialEqSpecImpl for Expression<'a> {
    open spec fn obeys_eq_spec() -> bool {
        true
    }

    open spec fn eq_spec(&self, other: &Expression<'a>) -> bool {
        self.text() == other.text()
    }
}

} // verus!
