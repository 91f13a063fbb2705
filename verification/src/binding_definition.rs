//! `let <name> = <expression>`.

use crate::environment::Environment;
use crate::expression::{skip_spaces, Expression};
use crate::utilities::{
    expected_whitespace, extract_identitifier, extract_whitespace, identifier, only,
    require_whitespace, tag, tagged, CharClass,
};
use vstd::prelude::*;

verus! {

/// A name and the expression whose value it is to be bound to.
#[derive(Debug, PartialEq)]
pub struct BindingDefinition {
    pub name: String,
    pub value: Expression,
}

impl BindingDefinition {
    /// The grammar of a definition: `let`, at least one space, an
    /// identifier, `=` and an expression, with any number of spaces around
    /// the `=`. The first part that is missing gives the error.
    pub open spec fn parse(s: Seq<char>) -> Result<
        (Seq<char>, (Seq<char>, Expression)),
        Seq<char>,
    > {
        match tagged("let"@, s) {
            Err(message) => Err(message),
            Ok(after_let) => match only(CharClass::Space, after_let, expected_whitespace()) {
                Err(message) => Err(message),
                Ok((at_name, _)) => match identifier(at_name) {
                    Err(message) => Err(message),
                    Ok((after_name, name)) => match tagged("="@, skip_spaces(after_name)) {
                        Err(message) => Err(message),
                        Ok(after_equals) => match Expression::parse(skip_spaces(after_equals)) {
                            Err(message) => Err(message),
                            Ok((remainder, value)) => Ok((remainder, (name, value))),
                        },
                    },
                },
            },
        }
    }

    pub fn new<'a>(source: &'a str) -> (r: Result<(&'a str, Self), String>)
        ensures
            match r {
                Ok((remainder, definition)) => Self::parse(source@) == Ok::<
                    (Seq<char>, (Seq<char>, Expression)),
                    Seq<char>,
                >((remainder@, (definition.name@, definition.value))),
                Err(message) => Self::parse(source@) == Err::<
                    (Seq<char>, (Seq<char>, Expression)),
                    Seq<char>,
                >(message@),
            },
    {
        let source = tag("let", source)?;
        let (source, _) = require_whitespace(source)?;
        let (source, name) = extract_identitifier(source)?;
        let (source, _) = extract_whitespace(source);
        let source = tag("=", source)?;
        let (source, _) = extract_whitespace(source);
        let (source, value) = Expression::new(source)?;
        Ok((source, BindingDefinition { name: String::from_str(name), value }))
    }

    /// Evaluates the expression and binds the name to its value. Where the
    /// expression has no value the environment stays as it was.
    pub fn evaluate(&self, environment: &mut Environment) -> (r: Result<(), String>)
        ensures
            match r {
                Ok(_) => self.value.value() is Ok && final(environment)@ == old(
                    environment,
                )@.insert(self.name@, self.value.value()->Ok_0),
                Err(message) => self.value.value() == Err::<crate::value::Value, Seq<char>>(
                    message@,
                ) && final(environment)@ == old(environment)@,
            },
    {
        let value = self.value.evaluate()?;
        environment.store_binding(self.name.clone(), value);
        Ok(())
    }
}

} // verus!
