use vstd::prelude::*;
use crate::error::MatrixError;
use crate::grid::Grid;
use crate::draw::draw_pattern;
use crate::draw::is_draw;
use crate::draw::is_draw_from;
use crate::draw::thread_word;
use crate::laws::lemma_drawn_grid_in_range;
use crate::scalar::Operator;
use crate::scalar::ZERO;

verus! {

/// A dense matrix, stored row by row.
///
/// A cell holds the 64-bit pattern of a binary64 number. The three fields
/// are public; the functions of this type ask for a well-formed matrix
/// (`wf`) and hand back a well-formed one.
///
/// Two matrices are equal when their shapes and the patterns of their
/// cells are. This is not equality of numbers: a NaN equals a NaN of the
/// same pattern, and positive zero differs from negative zero.
#[derive(Debug, PartialEq)]
pub struct Matrix {
    pub rows: usize,
    pub cols: usize,
    pub data: Vec<Vec<u64>>,
}

impl View for Matrix {
    type V = Grid;

    open spec fn view(&self) -> Grid {
        Grid {
            rows: self.rows as nat,
            cols: self.cols as nat,
            cells: Seq::new(self.data@.len(), |r: int| self.data@[r]@),
        }
    }
}

impl Clone for Matrix {
    /// A copy that shares nothing with the matrix it was made from.
    fn clone(&self) -> (copy: Matrix)
        ensures
            copy@ == self@,
            copy.wf() == self.wf(),
    {
        let mut data: Vec<Vec<u64>> = Vec::new();
        let mut r: usize = 0;
        while r < self.data.len()
            invariant
                r <= self.data@.len(),
                data@.len() == r,
                forall|i: int| 0 <= i < r ==> (#[trigger] data@[i])@ == self.data@[i]@,
            decreases self.data@.len() - r,
        {
            let mut row: Vec<u64> = Vec::new();
            let mut c: usize = 0;
            while c < self.data[r].len()
                invariant
                    r < self.data@.len(),
                    c <= self.data@[r as int]@.len(),
                    row@.len() == c,
                    forall|j: int| 0 <= j < c ==> row@[j] == self.data@[r as int]@[j],
                decreases self.data@[r as int]@.len() - c,
            {
                row.push(self.data[r][c]);
                c += 1;
            }
            assert(row@ =~= self.data@[r as int]@);
            data.push(row);
            r += 1;
        }
        let copy = Matrix { rows: self.rows, cols: self.cols, data };
        proof {
            assert(copy@.cells =~= self@.cells);
            copy.lemma_wf_view();
            self.lemma_wf_view();
        }
        copy
    }
}

impl Matrix {
    /// `data` has exactly `rows` rows, each of exactly `cols` cells.
    pub open spec fn wf(&self) -> bool {
        &&& self.data@.len() == self.rows
        &&& forall|r: int| 0 <= r < self.rows ==> (#[trigger] self.data@[r])@.len() == self.cols
    }

    /// A matrix is well-formed exactly when its picture is.
    pub proof fn lemma_wf_view(&self)
        ensures
            self.wf() <==> self@.wf(),
    {
        if self@.wf() {
            assert forall|r: int| 0 <= r < self.rows implies (#[trigger] self.data@[r])@.len()
                == self.cols by {
                assert(self@.cells[r] == self.data@[r]@);
            }
        }
    }

    /// A matrix of the given shape with every cell at positive zero.
    /// Either dimension may be zero.
    pub fn new(rows: usize, cols: usize) -> (m: Matrix)
        ensures
            m.wf(),
            m.rows == rows,
            m.cols == cols,
            forall|r: int, c: int| m@.has(r, c) ==> #[trigger] m@.at(r, c) == ZERO,
            m@ == Grid::filled(rows as nat, cols as nat, ZERO),
    {
        let mut data: Vec<Vec<u64>> = Vec::new();
        let mut r: usize = 0;
        while r < rows
            invariant
                r <= rows,
                data@.len() == r,
                forall|i: int| 0 <= i < r ==> (#[trigger] data@[i])@ == Seq::new(cols as nat, |c: int| ZERO),
            decreases rows - r,
        {
            let mut row: Vec<u64> = Vec::new();
            let mut c: usize = 0;
            while c < cols
                invariant
                    c <= cols,
                    row@.len() == c,
                    forall|j: int| 0 <= j < c ==> row@[j] == ZERO,
                decreases cols - c,
            {
                row.push(ZERO);
                c += 1;
            }
            assert(row@ =~= Seq::new(cols as nat, |c: int| ZERO));
            data.push(row);
            r += 1;
        }
        let m = Matrix { rows, cols, data };
        assert(m@.cells =~= Grid::filled(rows as nat, cols as nat, ZERO).cells);
        m
    }

    /// Replaces every cell by the outcome of `op` on the cell and `s`.
    fn apply_scalar<F: Fn(Operator, u64, u64) -> u64>(&mut self, op: Operator, s: u64, unit: F)
        requires
            old(self).wf(),
            old(self)@.admits_scalar(unit, op, s),
        ensures
            final(self).wf(),
            old(self)@.scalar_outcome(unit, op, s, final(self)@),
    {
        let ghost before = self@;
        let mut r: usize = 0;
        while r < self.rows
            invariant
                before.wf(),
                before.admits_scalar(unit, op, s),
                self.wf(),
                self@.same_shape(before),
                r <= self.rows,
                forall|i: int, j: int|
                    0 <= i < r && 0 <= j < before.cols ==> unit.ensures(
                        (op, #[trigger] before.at(i, j), s),
                        self@.at(i, j),
                    ),
                forall|i: int, j: int|
                    r <= i < before.rows && 0 <= j < before.cols ==> self@.at(i, j)
                        == #[trigger] before.at(i, j),
            decreases self.rows - r,
        {
            let mut c: usize = 0;
            while c < self.cols
                invariant
                    before.wf(),
                    before.admits_scalar(unit, op, s),
                    self.wf(),
                    self@.same_shape(before),
                    r < self.rows,
                    c <= self.cols,
                    forall|i: int, j: int|
                        (0 <= i < r && 0 <= j < before.cols) || (i == r && 0 <= j < c)
                            ==> unit.ensures((op, #[trigger] before.at(i, j), s), self@.at(i, j)),
                    forall|i: int, j: int|
                        (r < i < before.rows && 0 <= j < before.cols) || (i == r && c <= j
                            < before.cols) ==> self@.at(i, j) == #[trigger] before.at(i, j),
                decreases self.cols - c,
            {
                assert(before.has(r as int, c as int));
                assert(self@.at(r as int, c as int) == before.at(r as int, c as int));
                let v: u64 = unit(op, self.data[r][c], s);
                self.data[r][c] = v;
                c += 1;
            }
            r += 1;
        }
    }

    /// Adds the scalar `other` to every cell: each cell becomes the
    /// outcome of `Plus` on the cell and `other`.
    pub fn add_assign<F: Fn(Operator, u64, u64) -> u64>(&mut self, other: u64, unit: F)
        requires
            old(self).wf(),
            old(self)@.admits_scalar(unit, Operator::Plus, other),
        ensures
            final(self).wf(),
            old(self)@.scalar_outcome(unit, Operator::Plus, other, final(self)@),
    {
        self.apply_scalar(Operator::Plus, other, unit);
    }

    /// Subtracts the scalar `other` from every cell: each cell becomes the
    /// outcome of `Minus` on the cell and `other`.
    pub fn sub_assign<F: Fn(Operator, u64, u64) -> u64>(&mut self, other: u64, unit: F)
        requires
            old(self).wf(),
            old(self)@.admits_scalar(unit, Operator::Minus, other),
        ensures
            final(self).wf(),
            old(self)@.scalar_outcome(unit, Operator::Minus, other, final(self)@),
    {
        self.apply_scalar(Operator::Minus, other, unit);
    }

    /// Multiplies every cell by the scalar `other`: each cell becomes the
    /// outcome of `Times` on the cell and `other`.
    pub fn mul_assign<F: Fn(Operator, u64, u64) -> u64>(&mut self, other: u64, unit: F)
        requires
            old(self).wf(),
            old(self)@.admits_scalar(unit, Operator::Times, other),
        ensures
            final(self).wf(),
            old(self)@.scalar_outcome(unit, Operator::Times, other, final(self)@),
    {
        self.apply_scalar(Operator::Times, other, unit);
    }

    /// Divides every cell by the scalar `other`: each cell becomes the
    /// outcome of `Over` on the cell and `other`.
    ///
    /// A zero divisor is not refused here. The request goes to the unit
    /// like any other, and the cell holds whatever the unit answers; for
    /// binary64 arithmetic that is an infinity or a NaN.
    pub fn div_assign<F: Fn(Operator, u64, u64) -> u64>(&mut self, other: u64, unit: F)
        requires
            old(self).wf(),
            old(self)@.admits_scalar(unit, Operator::Over, other),
        ensures
            final(self).wf(),
            old(self)@.scalar_outcome(unit, Operator::Over, other, final(self)@),
    {
        self.apply_scalar(Operator::Over, other, unit);
    }

    /// Whether the two matrices have the same number of rows and of
    /// columns.
    pub fn same_shape(&self, other: &Matrix) -> (same: bool)
        ensures
            same == self@.same_shape(other@),
    {
        self.rows == other.rows && self.cols == other.cols
    }

    /// Replaces every cell by the outcome of `op` on the cell and the
    /// cell of `other` at the same place.
    fn apply_cellwise<F: Fn(Operator, u64, u64) -> u64>(
        &mut self,
        op: Operator,
        other: &Matrix,
        unit: F,
    )
        requires
            old(self).wf(),
            other.wf(),
            old(self)@.same_shape(other@),
            old(self)@.admits_cellwise(unit, op, other@),
        ensures
            final(self).wf(),
            old(self)@.cellwise_outcome(unit, op, other@, final(self)@),
    {
        let ghost before = self@;
        let ghost right = other@;
        let mut r: usize = 0;
        while r < self.rows
            invariant
                before.wf(),
                other.wf(),
                right == other@,
                before.same_shape(right),
                before.admits_cellwise(unit, op, right),
                self.wf(),
                self@.same_shape(before),
                r <= self.rows,
                forall|i: int, j: int|
                    0 <= i < r && 0 <= j < before.cols ==> unit.ensures(
                        (op, #[trigger] before.at(i, j), right.at(i, j)),
                        self@.at(i, j),
                    ),
                forall|i: int, j: int|
                    r <= i < before.rows && 0 <= j < before.cols ==> self@.at(i, j)
                        == #[trigger] before.at(i, j),
            decreases self.rows - r,
        {
            let mut c: usize = 0;
            while c < self.cols
                invariant
                    before.wf(),
                    other.wf(),
                    right == other@,
                    before.same_shape(right),
                    before.admits_cellwise(unit, op, right),
                    self.wf(),
                    self@.same_shape(before),
                    r < self.rows,
                    c <= self.cols,
                    forall|i: int, j: int|
                        (0 <= i < r && 0 <= j < before.cols) || (i == r && 0 <= j < c)
                            ==> unit.ensures(
                            (op, #[trigger] before.at(i, j), right.at(i, j)),
                            self@.at(i, j),
                        ),
                    forall|i: int, j: int|
                        (r < i < before.rows && 0 <= j < before.cols) || (i == r && c <= j
                            < before.cols) ==> self@.at(i, j) == #[trigger] before.at(i, j),
                decreases self.cols - c,
            {
                assert(before.has(r as int, c as int));
                assert(self@.at(r as int, c as int) == before.at(r as int, c as int));
                assert(other@.at(r as int, c as int) == other.data@[r as int]@[c as int]);
                let v: u64 = unit(op, self.data[r][c], other.data[r][c]);
                self.data[r][c] = v;
                c += 1;
            }
            r += 1;
        }
    }

    /// Adds `other` to this matrix, cell by cell.
    ///
    /// Where the two shapes agree, each cell becomes the outcome of `Plus`
    /// on the cell and the cell of `other` at the same place, and the
    /// answer is `Ok(true)`. Where they differ, nothing changes and the
    /// answer is `InvalidDimension`.
    pub fn add<F: Fn(Operator, u64, u64) -> u64>(&mut self, other: &Matrix, unit: F) -> (result:
        Result<bool, MatrixError>)
        requires
            old(self).wf(),
            other.wf(),
            old(self)@.same_shape(other@) ==> old(self)@.admits_cellwise(
                unit,
                Operator::Plus,
                other@,
            ),
        ensures
            final(self).wf(),
            old(self)@.same_shape(other@) ==> result == Ok::<bool, MatrixError>(true)
                && old(self)@.cellwise_outcome(unit, Operator::Plus, other@, final(self)@),
            !old(self)@.same_shape(other@) ==> result == Err::<bool, MatrixError>(
                MatrixError::InvalidDimension,
            ) && *final(self) == *old(self),
    {
        if !self.same_shape(other) {
            return Err(MatrixError::InvalidDimension);
        }
        self.apply_cellwise(Operator::Plus, other, unit);
        Ok(true)
    }

    /// Subtracts `other` from this matrix, cell by cell.
    ///
    /// Where the two shapes agree, each cell becomes the outcome of
    /// `Minus` on the cell and the cell of `other` at the same place, and
    /// the answer is `Ok(true)`. Where they differ, nothing changes and
    /// the answer is `InvalidDimension`.
    pub fn sub<F: Fn(Operator, u64, u64) -> u64>(&mut self, other: &Matrix, unit: F) -> (result:
        Result<bool, MatrixError>)
        requires
            old(self).wf(),
            other.wf(),
            old(self)@.same_shape(other@) ==> old(self)@.admits_cellwise(
                unit,
                Operator::Minus,
                other@,
            ),
        ensures
            final(self).wf(),
            old(self)@.same_shape(other@) ==> result == Ok::<bool, MatrixError>(true)
                && old(self)@.cellwise_outcome(unit, Operator::Minus, other@, final(self)@),
            !old(self)@.same_shape(other@) ==> result == Err::<bool, MatrixError>(
                MatrixError::InvalidDimension,
            ) && *final(self) == *old(self),
    {
        if !self.same_shape(other) {
            return Err(MatrixError::InvalidDimension);
        }
        self.apply_cellwise(Operator::Minus, other, unit);
        Ok(true)
    }

    /// The product of `a` and `b`, as this library defines it.
    ///
    /// Where `a` has as many columns as `b` has rows, the answer is a new
    /// matrix with the rows of `a` and the columns of `b`, and neither
    /// operand changes. Otherwise the answer is `InvalidDimension`.
    ///
    /// A cell of the product does not hold the sum of the dot product of
    /// its row and column. It holds the last term of that sum alone: the
    /// outcome of `Times` on the last cell of the row of `a` and the last
    /// cell of the column of `b`. This is the true product only where `a`
    /// has a single column. Where `a` has no column, every cell of the
    /// product is positive zero.
    pub fn mul<F: Fn(Operator, u64, u64) -> u64>(a: &Matrix, b: &Matrix, unit: F) -> (result:
        Result<Matrix, MatrixError>)
        requires
            a.wf(),
            b.wf(),
            a.cols == b.rows ==> a@.admits_product(unit, b@),
        ensures
            a.cols == b.rows ==> (result matches Ok(m) && m.wf() && a@.product_outcome(
                unit,
                b@,
                m@,
            )),
            a.cols != b.rows ==> result matches Err(MatrixError::InvalidDimension),
    {
        if a.cols != b.rows {
            return Err(MatrixError::InvalidDimension);
        }
        let mut product = Matrix::new(a.rows, b.cols);
        if a.cols == 0 {
            return Ok(product);
        }
        let last: usize = a.cols - 1;
        let ghost left = a@;
        let ghost right = b@;
        let mut r: usize = 0;
        while r < a.rows
            invariant
                a.wf(),
                b.wf(),
                left == a@,
                right == b@,
                a.cols == b.rows,
                last + 1 == a.cols,
                left.admits_product(unit, right),
                product.wf(),
                product.rows == a.rows,
                product.cols == b.cols,
                r <= a.rows,
                forall|i: int, j: int|
                    #![trigger left.at(i, last as int), right.at(last as int, j)]
                    0 <= i < r && 0 <= j < b.cols ==> unit.ensures(
                        (Operator::Times, left.at(i, last as int), right.at(last as int, j)),
                        product@.at(i, j),
                    ),
            decreases a.rows - r,
        {
            let mut c: usize = 0;
            while c < b.cols
                invariant
                    a.wf(),
                    b.wf(),
                    left == a@,
                    right == b@,
                    a.cols == b.rows,
                    last + 1 == a.cols,
                    left.admits_product(unit, right),
                    product.wf(),
                    product.rows == a.rows,
                    product.cols == b.cols,
                    r < a.rows,
                    c <= b.cols,
                    forall|i: int, j: int|
                        #![trigger left.at(i, last as int), right.at(last as int, j)]
                        (0 <= i < r && 0 <= j < b.cols) || (i == r && 0 <= j < c)
                            ==> unit.ensures(
                            (Operator::Times, left.at(i, last as int), right.at(last as int, j)),
                            product@.at(i, j),
                        ),
                decreases b.cols - c,
            {
                assert(left.at(r as int, last as int) == a.data@[r as int]@[last as int]);
                assert(right.at(last as int, c as int) == b.data@[last as int]@[c as int]);
                let v: u64 = unit(Operator::Times, a.data[r][last], b.data[last][c]);
                product.data[r][c] = v;
                c += 1;
            }
            r += 1;
        }
        proof {
            product.lemma_wf_view();
        }
        Ok(product)
    }

    /// Transposes the matrix: it takes the shape `cols` by `rows`, and
    /// the cell at `(c, r)` becomes what the cell at `(r, c)` was.
    pub fn t(&mut self)
        requires
            old(self).wf(),
        ensures
            final(self).wf(),
            final(self)@ == old(self)@.transposed(),
    {
        let ghost before = self@;
        let mut flipped = Matrix::new(self.cols, self.rows);
        let mut r: usize = 0;
        while r < self.rows
            invariant
                self.wf(),
                before == self@,
                flipped.wf(),
                flipped.rows == self.cols,
                flipped.cols == self.rows,
                r <= self.rows,
                forall|i: int, j: int|
                    0 <= i < r && 0 <= j < before.cols ==> flipped@.at(j, i) == #[trigger] before.at(
                        i,
                        j,
                    ),
            decreases self.rows - r,
        {
            let mut c: usize = 0;
            while c < self.cols
                invariant
                    self.wf(),
                    before == self@,
                    flipped.wf(),
                    flipped.rows == self.cols,
                    flipped.cols == self.rows,
                    r < self.rows,
                    c <= self.cols,
                    forall|i: int, j: int|
                        (0 <= i < r && 0 <= j < before.cols) || (i == r && 0 <= j < c)
                            ==> flipped@.at(j, i) == #[trigger] before.at(i, j),
                decreases self.cols - c,
            {
                assert(before.at(r as int, c as int) == self.data@[r as int]@[c as int]);
                let v: u64 = self.data[r][c];
                flipped.data[c][r] = v;
                c += 1;
            }
            r += 1;
        }
        proof {
            flipped.lemma_wf_view();
            let goal = before.transposed();
            assert forall|i: int, j: int| flipped@.has(i, j) implies flipped@.at(i, j) == goal.at(
                i,
                j,
            ) by {
                assert(flipped@.at(i, j) == before.at(j, i));
            }
            crate::grid::lemma_grid_ext(flipped@, goal);
        }
        *self = flipped;
    }

    /// Replaces every cell by a number drawn from one, included, to
    /// five, excluded, with the random generator of the calling thread.
    ///
    /// Each cell takes one word from the generator and holds the draw
    /// that the word stands for. The shape does not change.
    pub fn random(&mut self)
        requires
            old(self).wf(),
        ensures
            final(self).wf(),
            final(self)@.same_shape(old(self)@),
            final(self)@.all_draws(),
            final(self)@.all_in_draw_range(),
            old(self).rows > 0 && old(self).cols > 0 ==> final(self)@.some_cell_not_zero(),
    {
        self.random_with(thread_word);
        proof {
            let after = self@;
            assert forall|r: int, c: int| after.has(r, c) implies is_draw(
                #[trigger] after.at(r, c),
            ) by {
                assert(is_draw_from(thread_word, after.at(r, c)));
            }
        }
    }

    /// Replaces every cell by a number drawn from one, included, to
    /// five, excluded, with the words of `source`.
    ///
    /// The source is asked for one word for each cell, row by row, and
    /// the cell holds the draw that the word stands for. Whatever the
    /// source answers, every cell ends in the interval. The shape does
    /// not change.
    pub fn random_with<S: Fn() -> u64>(&mut self, source: S)
        requires
            old(self).wf(),
            old(self).rows > 0 && old(self).cols > 0 ==> source.requires(()),
        ensures
            final(self).wf(),
            old(self)@.draw_outcome(source, final(self)@),
            final(self)@.all_in_draw_range(),
            old(self).rows > 0 && old(self).cols > 0 ==> final(self)@.some_cell_not_zero(),
    {
        let ghost before = self@;
        let mut r: usize = 0;
        while r < self.rows
            invariant
                self.wf(),
                self@.same_shape(before),
                self.rows > 0 && self.cols > 0 ==> source.requires(()),
                r <= self.rows,
                forall|i: int, j: int|
                    0 <= i < r && 0 <= j < self.cols ==> is_draw_from(
                        source,
                        #[trigger] self.data@[i]@[j],
                    ),
            decreases self.rows - r,
        {
            let mut c: usize = 0;
            while c < self.cols
                invariant
                    self.wf(),
                    self@.same_shape(before),
                    self.rows > 0 && self.cols > 0 ==> source.requires(()),
                    r < self.rows,
                    c <= self.cols,
                    forall|i: int, j: int|
                        (0 <= i < r && 0 <= j < self.cols) || (i == r && 0 <= j < c)
                            ==> is_draw_from(source, #[trigger] self.data@[i]@[j]),
                decreases self.cols - c,
            {
                let word: u64 = source();
                let v: u64 = draw_pattern(word);
                assert(is_draw_from(source, v));
                self.data[r][c] = v;
                c += 1;
            }
            r += 1;
        }
        proof {
            self.lemma_wf_view();
            let after = self@;
            assert forall|i: int, j: int| after.has(i, j) implies is_draw_from(
                source,
                #[trigger] after.at(i, j),
            ) by {
                assert(after.at(i, j) == self.data@[i]@[j]);
            }
            lemma_drawn_grid_in_range(source, before, after);
        }
    }

    /// Whether `data` has exactly `rows` rows, each of exactly `cols`
    /// cells: what every other function of this type asks of a matrix.
    pub fn is_well_formed(&self) -> (ok: bool)
        ensures
            ok == self.wf(),
    {
        if self.data.len() != self.rows {
            return false;
        }
        let mut r: usize = 0;
        while r < self.rows
            invariant
                self.data@.len() == self.rows,
                r <= self.rows,
                forall|i: int| 0 <= i < r ==> (#[trigger] self.data@[i])@.len() == self.cols,
            decreases self.rows - r,
        {
            if self.data[r].len() != self.cols {
                return false;
            }
            r += 1;
        }
        true
    }
}

} // verus!
