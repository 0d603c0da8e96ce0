use vstd::prelude::*;

verus! {

/// The value types of the language. Only 64-bit integers exist so far.
#[derive(Debug, Clone, Copy, PartialEq, Eq, Structural)]
pub enum Ty {
    Int,
}

} // verus!
