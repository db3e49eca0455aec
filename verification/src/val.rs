use vstd::prelude::*;

verus! {

/// What evaluating a statement gives.
#[derive(Debug, Clone, Copy, PartialEq, Eq)]
pub enum Val {
    /// An integer.
    Number(i32),
    /// The value of a statement that has none of its own, such as a definition.
    Unit,
}

} // verus!
