//! A dense, row-major matrix of 64-bit scalar cells.
//!
//! A cell is held as the 64-bit pattern of a binary64 number. The library
//! owns the shape of a matrix and decides which cells are combined, in
//! which order and by which operator. It knows the patterns it needs to
//! fill a matrix with zeros and to draw random numbers from one to five.
//! It computes no sum, difference, product or quotient itself: each is
//! requested from an arithmetic unit that the caller passes in, and what
//! a function promises about such a cell is phrased as "this cell is an
//! outcome of the unit for these operands".

pub mod error;
pub mod scalar;
pub mod draw;
pub mod grid;
pub mod matrix;
pub mod text;
pub mod laws;

pub use crate::draw::draw_pattern;
pub use crate::error::MatrixError;
pub use crate::grid::Grid;
pub use crate::matrix::Matrix;
pub use crate::scalar::Operator;
pub use crate::scalar::DRAW_HIGH;
pub use crate::scalar::DRAW_LOW;
pub use crate::scalar::ZERO;
