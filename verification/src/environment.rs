//! The store of bindings that a session keeps.

use crate::value::Value;
use vstd::hash_map::StringHashMap;
use vstd::prelude::*;

verus! {

/// The message for a name that was never bound.
pub open spec fn unknown_binding(name: Seq<char>) -> Seq<char> {
    "Binding does not exist: "@ + name
}

/// A map from binding names to values. A name is bound at most once: storing
/// under a bound name replaces its value.
pub struct Environment {
    bindings: StringHashMap<Value>,
}

impl View for Environment {
    type V = Map<Seq<char>, Value>;

    closed spec fn view(&self) -> Map<Seq<char>, Value> {
        self.bindings@
    }
}

impl Default for Environment {
    fn default() -> (environment: Self)
        ensures
            environment@ == Map::<Seq<char>, Value>::empty(),
    {
        Environment { bindings: StringHashMap::new() }
    }
}

impl Environment {
    /// Binds `name` to `value`, whatever it was bound to before.
    pub fn store_binding(&mut self, name: String, value: Value)
        ensures
            final(self)@ == old(self)@.insert(name@, value),
    {
        self.bindings.insert(name, value);
    }

    /// The value bound to `name`. The environment is left as it is, also
    /// where the name is unknown.
    pub fn get_binding_value(&self, name: &str) -> (r: Result<Value, String>)
        ensures
            match r {
                Ok(value) => self@.contains_key(name@) && self@[name@] == value,
                Err(message) => !self@.contains_key(name@) && message@ == unknown_binding(name@),
            },
    {
        match self.bindings.get(name) {
            Some(value) => Ok(*value),
            None => Err(String::from_str("Binding does not exist: ").concat(name)),
        }
    }
}

} // verus!
