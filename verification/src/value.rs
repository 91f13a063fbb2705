//! Runtime values.

use vstd::prelude::*;

verus! {

/// What evaluation yields.
#[derive(Clone, Copy, Debug, PartialEq, Eq, Structural)]
pub enum Value {
    Number(i32),
}

} // verus!
