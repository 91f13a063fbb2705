//! A reference to a binding by its name.

use crate::environment::{unknown_binding, Environment};
use crate::utilities::{extract_identitifier, identifier};
use crate::value::Value;
use vstd::prelude::*;

verus! {

/// A bare identifier that stands for the value bound to it.
#[derive(Debug, PartialEq)]
pub struct BindingUsage {
    pub name: String,
}

impl BindingUsage {
    /// Reads an identifier at the head of `source` as the name.
    pub fn new<'a>(source: &'a str) -> (r: Result<(&'a str, Self), String>)
        ensures
            match r {
                Ok((remainder, usage)) => identifier(source@) == Ok::<
                    (Seq<char>, Seq<char>),
                    Seq<char>,
                >((remainder@, usage.name@)),
                Err(message) => identifier(source@) == Err::<(Seq<char>, Seq<char>), Seq<char>>(
                    message@,
                ),
            },
    {
        let (source, name) = extract_identitifier(source)?;
        Ok((source, BindingUsage { name: String::from_str(name) }))
    }

    /// Looks the name up in `environment`.
    pub fn evaluate(&self, environment: &Environment) -> (r: Result<Value, String>)
        ensures
            match r {
                Ok(value) => environment@.contains_key(self.name@) && environment@[self.name@]
                    == value,
                Err(message) => !environment@.contains_key(self.name@) && message@
                    == unknown_binding(self.name@),
            },
    {
        environment.get_binding_value(self.name.as_str())
    }
}

} // verus!
