use vstd::prelude::*;
use crate::draw::is_draw;
use crate::draw::is_draw_from;
use crate::scalar::in_draw_range;
use crate::scalar::is_zero;
use crate::scalar::Operator;
use crate::scalar::ZERO;

verus! {

/// The mathematical picture of a matrix: its shape and its cells, row by
/// row.
pub ghost struct Grid {
    pub rows: nat,
    pub cols: nat,
    pub cells: Seq<Seq<u64>>,
}

impl Grid {
    /// There are exactly `rows` rows, each of exactly `cols` cells.
    pub open spec fn wf(self) -> bool {
        &&& self.cells.len() == self.rows
        &&& forall|r: int| 0 <= r < self.rows ==> (#[trigger] self.cells[r]).len() == self.cols
    }

    /// Whether `(r, c)` names a cell of the grid.
    pub open spec fn has(self, r: int, c: int) -> bool {
        0 <= r < self.rows && 0 <= c < self.cols
    }

    /// The cell in row `r` and column `c`.
    pub open spec fn at(self, r: int, c: int) -> u64 {
        self.cells[r][c]
    }

    /// Whether the two grids have as many rows and as many columns.
    pub open spec fn same_shape(self, other: Grid) -> bool {
        self.rows == other.rows && self.cols == other.cols
    }

    /// The grid of the given shape in which every cell holds `value`.
    pub open spec fn filled(rows: nat, cols: nat, value: u64) -> Grid {
        Grid {
            rows,
            cols,
            cells: Seq::new(rows, |r: int| Seq::new(cols, |c: int| value)),
        }
    }

    /// Whether `unit` may be asked for `op` on every cell of this grid,
    /// as left operand, with `s` as right operand.
    pub open spec fn admits_scalar<F: Fn(Operator, u64, u64) -> u64>(
        self,
        unit: F,
        op: Operator,
        s: u64,
    ) -> bool {
        forall|r: int, c: int| self.has(r, c) ==> unit.requires((op, #[trigger] self.at(r, c), s))
    }

    /// `after` has the shape of this grid, and each of its cells is an
    /// outcome of `unit` for `op` on the cell of this grid at the same
    /// place, as left operand, and `s`, as right operand.
    pub open spec fn scalar_outcome<F: Fn(Operator, u64, u64) -> u64>(
        self,
        unit: F,
        op: Operator,
        s: u64,
        after: Grid,
    ) -> bool {
        &&& after.wf()
        &&& after.same_shape(self)
        &&& forall|r: int, c: int|
            self.has(r, c) ==> unit.ensures((op, self.at(r, c), s), #[trigger] after.at(r, c))
    }

    /// Whether `unit` may be asked for `op` on every cell of this grid,
    /// as left operand, with the cell of `other` at the same place as
    /// right operand.
    pub open spec fn admits_cellwise<F: Fn(Operator, u64, u64) -> u64>(
        self,
        unit: F,
        op: Operator,
        other: Grid,
    ) -> bool {
        forall|r: int, c: int|
            self.has(r, c) ==> unit.requires((op, #[trigger] self.at(r, c), other.at(r, c)))
    }

    /// `after` has the shape of this grid, and each of its cells is an
    /// outcome of `unit` for `op` on the cell of this grid, as left
    /// operand, and the cell of `other`, as right operand, both at the
    /// same place.
    pub open spec fn cellwise_outcome<F: Fn(Operator, u64, u64) -> u64>(
        self,
        unit: F,
        op: Operator,
        other: Grid,
        after: Grid,
    ) -> bool {
        &&& after.wf()
        &&& after.same_shape(self)
        &&& forall|r: int, c: int|
            self.has(r, c) ==> unit.ensures(
                (op, self.at(r, c), other.at(r, c)),
                #[trigger] after.at(r, c),
            )
    }

    /// Whether `unit` may be asked for the one term that each cell of the
    /// product of this grid and `other` holds.
    pub open spec fn admits_product<F: Fn(Operator, u64, u64) -> u64>(
        self,
        unit: F,
        other: Grid,
    ) -> bool {
        self.cols > 0 ==> forall|r: int, c: int|
            #![trigger self.at(r, self.cols - 1), other.at(self.cols - 1, c)]
            0 <= r < self.rows && 0 <= c < other.cols ==> unit.requires(
                (Operator::Times, self.at(r, self.cols - 1), other.at(self.cols - 1, c)),
            )
    }

    /// `product` has the rows of this grid and the columns of `other`.
    /// Each of its cells is an outcome of `unit` for `Times` on the last
    /// cell of the row of this grid and the last cell of the column of
    /// `other`: the last term of their dot product, and no sum. Where
    /// this grid has no column there is no term, and the cell is
    /// positive zero.
    pub open spec fn product_outcome<F: Fn(Operator, u64, u64) -> u64>(
        self,
        unit: F,
        other: Grid,
        product: Grid,
    ) -> bool {
        &&& product.wf()
        &&& product.rows == self.rows
        &&& product.cols == other.cols
        &&& forall|r: int, c: int|
            product.has(r, c) ==> if self.cols == 0 {
                #[trigger] product.at(r, c) == ZERO
            } else {
                unit.ensures(
                    (Operator::Times, self.at(r, self.cols - 1), other.at(self.cols - 1, c)),
                    #[trigger] product.at(r, c),
                )
            }
    }

    /// `after` has the shape of this grid, and each of its cells is the
    /// draw of a word that `source` may give.
    pub open spec fn draw_outcome<S: Fn() -> u64>(self, source: S, after: Grid) -> bool {
        &&& after.wf()
        &&& after.same_shape(self)
        &&& forall|r: int, c: int|
            after.has(r, c) ==> is_draw_from(source, #[trigger] after.at(r, c))
    }

    /// Every cell is the draw of some word.
    pub open spec fn all_draws(self) -> bool {
        forall|r: int, c: int| self.has(r, c) ==> is_draw(#[trigger] self.at(r, c))
    }

    /// Every cell stands for a number from one, included, to five,
    /// excluded.
    pub open spec fn all_in_draw_range(self) -> bool {
        forall|r: int, c: int| self.has(r, c) ==> in_draw_range(#[trigger] self.at(r, c))
    }

    /// Some cell stands for a number other than zero.
    pub open spec fn some_cell_not_zero(self) -> bool {
        exists|r: int, c: int| self.has(r, c) && !is_zero(#[trigger] self.at(r, c))
    }

    /// The grid whose rows are the columns of this one.
    pub open spec fn transposed(self) -> Grid {
        Grid {
            rows: self.cols,
            cols: self.rows,
            cells: Seq::new(self.cols, |c: int| Seq::new(self.rows, |r: int| self.cells[r][c])),
        }
    }
}

/// Two well-formed grids of one shape that agree on every cell are the
/// same grid.
pub proof fn lemma_grid_ext(a: Grid, b: Grid)
    requires
        a.wf(),
        b.wf(),
        a.same_shape(b),
        forall|r: int, c: int| a.has(r, c) ==> a.at(r, c) == b.at(r, c),
    ensures
        a == b,
{
    assert forall|r: int| 0 <= r < a.rows implies a.cells[r] =~= b.cells[r] by {
        assert forall|c: int| 0 <= c < a.cols implies a.cells[r][c] == b.cells[r][c] by {
            assert(a.has(r, c));
            assert(a.at(r, c) == b.at(r, c));
        }
    }
    assert(a.cells =~= b.cells);
}

} // verus!
