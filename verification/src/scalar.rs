use vstd::prelude::*;

verus! {

/// The scalar operations a matrix may request from an arithmetic unit.
///
/// A unit is any function from an operator and two cells to a cell. The
/// first cell is the left operand and the second the right one, so
/// `Minus` asks for "first less second" and `Over` for "first divided by
/// second".
#[derive(Debug, PartialEq, Eq, Clone, Copy)]
pub enum Operator {
    Plus,
    Minus,
    Times,
    Over,
}

/// The pattern of positive zero, with which a new matrix is filled.
pub const ZERO: u64 = 0;

/// The pattern of negative zero.
pub const NEGATIVE_ZERO: u64 = 0x8000_0000_0000_0000;

/// The pattern of one: the lower end, included, of the interval in
/// which `Matrix::random` leaves every cell.
pub const DRAW_LOW: u64 = 0x3FF0_0000_0000_0000;

/// The pattern of five: the upper end, excluded, of that interval.
pub const DRAW_HIGH: u64 = 0x4014_0000_0000_0000;

/// Whether a pattern stands for zero, of either sign.
pub open spec fn is_zero(cell: u64) -> bool {
    cell == ZERO || cell == NEGATIVE_ZERO
}

/// Whether a pattern stands for a number from one, included, to five,
/// excluded. Positive binary64 numbers are ordered as their patterns are,
/// so the interval of numbers is an interval of patterns.
pub open spec fn in_draw_range(cell: u64) -> bool {
    DRAW_LOW <= cell < DRAW_HIGH
}

} // verus!
