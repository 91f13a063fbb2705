//! Interpreter core of a tiny expression language: decimal literals, one
//! binary arithmetic operation per expression, and `let` bindings.
//!
//! The modules hold the parsers that report what is wrong with a source.
//! The items of the crate root are strict readers for a source that is known
//! to be a binary operation: they have no error to report, and ask of the
//! caller that the source is well formed.

pub mod binding_definition;
pub mod binding_usage;
pub mod environment;
pub mod expression;
pub mod laws;
pub mod utilities;
pub mod value;

use crate::expression::skip_spaces;
use crate::utilities::{extract_operation, extract_whitespace};
use vstd::prelude::*;

verus! {

/// A literal. The reader yields none below zero, since the grammar has no
/// sign.
#[derive(Clone, Copy, Debug, PartialEq, Eq, Structural)]
pub struct Number(pub i32);

impl Number {
    /// The number at the head of `s` and what follows it; `None` where `s`
    /// does not start with a number that fits.
    pub open spec fn parse(s: Seq<char>) -> Option<(Seq<char>, Number)> {
        match expression::Number::parse(s) {
            Ok((remainder, number)) => Some((remainder, Number(number.0))),
            Err(_) => None,
        }
    }

    /// Reads the number that `slice` starts with.
    pub fn new<'a>(slice: &'a str) -> (r: (&'a str, Self))
        requires
            Self::parse(slice@) is Some,
        ensures
            Self::parse(slice@) == Some((r.0@, r.1)),
    {
        match expression::Number::new(slice) {
            Ok((remainder, number)) => (remainder, Number(number.0)),
            Err(_) => vstd::pervasive::unreached(),
        }
    }
}

/// The four arithmetic operations.
#[derive(Clone, Copy, Debug, PartialEq, Eq, Structural)]
pub enum Operation {
    Add,
    Sub,
    Mul,
    Div,
}

impl Operation {
    /// The operation that a symbol writes; `None` for any other symbol.
    pub open spec fn of_symbol(c: char) -> Option<Operation> {
        if c == '+' {
            Some(Operation::Add)
        } else if c == '-' {
            Some(Operation::Sub)
        } else if c == '*' {
            Some(Operation::Mul)
        } else if c == '/' {
            Some(Operation::Div)
        } else {
            None
        }
    }

    /// The operation at the head of `s` and what follows it; `None` where
    /// `s` does not start with an operator symbol.
    pub open spec fn parse(s: Seq<char>) -> Option<(Seq<char>, Operation)> {
        if s.len() > 0 && Self::of_symbol(s[0]) is Some {
            Some((s.skip(1), Self::of_symbol(s[0])->0))
        } else {
            None
        }
    }

    /// Reads the operator symbol that `slice` starts with.
    pub fn new<'a>(slice: &'a str) -> (r: (&'a str, Self))
        requires
            Self::parse(slice@) is Some,
        ensures
            Self::parse(slice@) == Some((r.0@, r.1)),
    {
        let (slice, symbol) = extract_operation(slice);
        let operation = match symbol.get_char(0) {
            '+' => Operation::Add,
            '-' => Operation::Sub,
            '*' => Operation::Mul,
            _ => Operation::Div,
        };
        (slice, operation)
    }
}

/// One operation between two literals: `operand` stands left of the symbol
/// and `operator` right of it.
#[derive(Clone, Copy, Debug, PartialEq, Eq, Structural)]
pub struct Expression {
    pub operand: Number,
    pub operator: Number,
    pub operation: Operation,
}

impl Expression {
    /// The binary operation at the head of `s` and what follows it; `None`
    /// where `s` does not start with one.
    pub open spec fn parse(s: Seq<char>) -> Option<(Seq<char>, Expression)> {
        match Number::parse(s) {
            None => None,
            Some((after_operand, operand)) => match Operation::parse(skip_spaces(after_operand)) {
                None => None,
                Some((after_operation, operation)) => match Number::parse(
                    skip_spaces(after_operation),
                ) {
                    None => None,
                    Some((remainder, operator)) => Some(
                        (remainder, Expression { operand, operator, operation }),
                    ),
                },
            },
        }
    }

    /// Reads the binary operation that `slice` starts with.
    pub fn new<'a>(slice: &'a str) -> (r: (&'a str, Self))
        requires
            Self::parse(slice@) is Some,
        ensures
            Self::parse(slice@) == Some((r.0@, r.1)),
    {
        let (slice, operand) = Number::new(slice);
        let (slice, _) = extract_whitespace(slice);
        let (slice, operation) = Operation::new(slice);
        let (slice, _) = extract_whitespace(slice);
        let (slice, operator) = Number::new(slice);
        (slice, Expression { operand, operator, operation })
    }
}

} // verus!
