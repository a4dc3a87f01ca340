use vstd::prelude::*;
use crate::grid::lemma_grid_ext;
use crate::grid::Grid;
use crate::draw::draw_of;
use crate::draw::is_draw_from;
use crate::draw::lemma_draw_in_range;
use crate::scalar::in_draw_range;
use crate::scalar::is_zero;
use crate::scalar::Operator;

verus! {

/// Transposing swaps the two dimensions and keeps the grid well-formed.
pub proof fn lemma_transpose_swaps_shape(g: Grid)
    requires
        g.wf(),
    ensures
        g.transposed().wf(),
        g.transposed().rows == g.cols,
        g.transposed().cols == g.rows,
        forall|r: int, c: int| g.has(r, c) ==> g.transposed().at(c, r) == #[trigger] g.at(r, c),
{
}

/// Transposing twice gives back the grid one started from: its shape and
/// every one of its cells.
pub proof fn lemma_transpose_twice(g: Grid)
    requires
        g.wf(),
    ensures
        g.transposed().transposed() == g,
{
    let back = g.transposed().transposed();
    lemma_grid_ext(back, g);
}

/// Every cell of a freshly drawn grid lies from one, included, to five,
/// excluded; none of them is zero; and a grid with at least one cell has
/// a cell that is not zero.
pub proof fn lemma_drawn_grid_in_range<S: Fn() -> u64>(source: S, before: Grid, after: Grid)
    requires
        before.draw_outcome(source, after),
    ensures
        after.all_in_draw_range(),
        forall|r: int, c: int| after.has(r, c) ==> !is_zero(#[trigger] after.at(r, c)),
        after.rows > 0 && after.cols > 0 ==> after.some_cell_not_zero(),
{
    assert forall|r: int, c: int| after.has(r, c) implies in_draw_range(
        #[trigger] after.at(r, c),
    ) by {
        assert(is_draw_from(source, after.at(r, c)));
        let word = choose|word: u64|
            #[trigger] source.ensures((), word) && after.at(r, c) == draw_of(word);
        lemma_draw_in_range(word);
    }
    if after.rows > 0 && after.cols > 0 {
        assert(after.has(0, 0));
        assert(!is_zero(after.at(0, 0)));
    }
}

/// Applying a scalar with one operator and then with another restores
/// the grid, wherever the unit's second operator undoes its first on the
/// cells of that grid: for `Plus` then `Minus`, or `Times` then `Over`,
/// wherever the unit's arithmetic is exact on them.
pub proof fn lemma_scalar_round_trip<F: Fn(Operator, u64, u64) -> u64>(
    unit: F,
    forth: Operator,
    back: Operator,
    s: u64,
    start: Grid,
    middle: Grid,
    end: Grid,
)
    requires
        start.wf(),
        start.scalar_outcome(unit, forth, s, middle),
        middle.scalar_outcome(unit, back, s, end),
        forall|r: int, c: int, y: u64, z: u64|
            start.has(r, c) && unit.ensures((forth, start.at(r, c), s), y) && #[trigger] unit.ensures(
                (back, y, s),
                z,
            ) ==> z == #[trigger] start.at(r, c),
    ensures
        end == start,
{
    assert forall|r: int, c: int| end.has(r, c) implies end.at(r, c) == start.at(r, c) by {
        assert(start.has(r, c));
        assert(middle.has(r, c));
        assert(unit.ensures((forth, start.at(r, c), s), middle.at(r, c)));
        assert(unit.ensures((back, middle.at(r, c), s), end.at(r, c)));
    }
    lemma_grid_ext(end, start);
}

} // verus!
