use vstd::prelude::*;

verus! {

/// Why an operation was refused.
#[derive(Debug, PartialEq, Eq, Clone, Copy)]
pub enum MatrixError {
    /// The shapes of the operands do not fit the operation.
    InvalidDimension,
    /// Reserved for operations the library does not offer; nothing returns it.
    NotImplemented,
}

} // verus!
