use vstd::prelude::*;
use vstd::string::StringExecFns;
use crate::grid::Grid;
use crate::matrix::Matrix;

verus! {

/// A cell's text between its bars: `"| "`, the text, `" | "`.
pub open spec fn framed(text: Seq<char>) -> Seq<char> {
    seq!['|', ' '] + text + seq![' ', '|', ' ']
}

/// The first `n` cells of a row, each framed, one after the other.
pub open spec fn row_prefix(texts: Seq<Seq<char>>, n: nat) -> Seq<char>
    decreases n,
{
    if n == 0 {
        Seq::empty()
    } else {
        row_prefix(texts, (n - 1) as nat) + framed(texts[n - 1])
    }
}

/// A line of the page: what stands on it, then a line feed.
pub open spec fn line(content: Seq<char>) -> Seq<char> {
    content + seq!['\n']
}

/// The title on a line of its own, then the first `n` rows, a line each.
pub open spec fn page_prefix(title: Seq<char>, rows: Seq<Seq<Seq<char>>>, n: nat) -> Seq<char>
    decreases n,
{
    if n == 0 {
        line(title)
    } else {
        page_prefix(title, rows, (n - 1) as nat) + line(
            row_prefix(rows[n - 1], rows[n - 1].len()),
        )
    }
}

/// The rendering of a matrix whose cells read `rows`, under `title`.
pub open spec fn page(title: Seq<char>, rows: Seq<Seq<Seq<char>>>) -> Seq<char> {
    page_prefix(title, rows, rows.len())
}

/// Whether `text` is something `show` may answer for `cell`.
pub open spec fn is_text_of<F: Fn(u64) -> String>(show: F, cell: u64, text: Seq<char>) -> bool {
    exists|s: String| show.ensures((cell,), s) && s@ == text
}

/// Whether `texts` holds, place by place, a text of each cell of `grid`.
pub open spec fn are_texts_of<F: Fn(u64) -> String>(
    show: F,
    grid: Grid,
    texts: Seq<Seq<Seq<char>>>,
) -> bool {
    &&& texts.len() == grid.rows
    &&& forall|r: int| 0 <= r < grid.rows ==> (#[trigger] texts[r]).len() == grid.cols
    &&& forall|r: int, c: int|
        grid.has(r, c) ==> is_text_of(show, grid.at(r, c), #[trigger] texts[r][c])
}

/// The start of a row does not depend on the cells that follow it.
proof fn lemma_row_prefix_push(texts: Seq<Seq<char>>, more: Seq<char>, n: nat)
    requires
        n <= texts.len(),
    ensures
        row_prefix(texts.push(more), n) == row_prefix(texts, n),
    decreases n,
{
    if n > 0 {
        lemma_row_prefix_push(texts, more, (n - 1) as nat);
        assert(texts.push(more)[n - 1] == texts[n - 1]);
    }
}

/// The start of a page does not depend on the rows that follow it.
proof fn lemma_page_prefix_push(
    title: Seq<char>,
    rows: Seq<Seq<Seq<char>>>,
    more: Seq<Seq<char>>,
    n: nat,
)
    requires
        n <= rows.len(),
    ensures
        page_prefix(title, rows.push(more), n) == page_prefix(title, rows, n),
    decreases n,
{
    if n > 0 {
        lemma_page_prefix_push(title, rows, more, (n - 1) as nat);
        assert(rows.push(more)[n - 1] == rows[n - 1]);
    }
}

impl Matrix {
    /// The matrix as text: `title` on a line of its own, then one line for
    /// each row, on which every cell stands as `"| "`, what `show` answers
    /// for the cell, and `" | "`.
    pub fn render<F: Fn(u64) -> String>(&self, title: &str, show: F) -> (out: String)
        requires
            self.wf(),
            forall|r: int, c: int| self@.has(r, c) ==> show.requires((#[trigger] self@.at(r, c),)),
        ensures
            exists|texts: Seq<Seq<Seq<char>>>|
                are_texts_of(show, self@, texts) && out@ == page(title@, texts),
    {
        let ghost grid = self@;
        let ghost mut texts: Seq<Seq<Seq<char>>> = Seq::empty();
        let mut out = String::from_str(title);
        out.append("\n");
        proof {
            reveal_strlit("\n");
            reveal_strlit("| ");
            reveal_strlit(" | ");
            assert("\n"@ =~= seq!['\n']);
            assert("| "@ =~= seq!['|', ' ']);
            assert(" | "@ =~= seq![' ', '|', ' ']);
        }
        let mut r: usize = 0;
        while r < self.rows
            invariant
                self.wf(),
                grid == self@,
                forall|i: int, j: int|
                    grid.has(i, j) ==> show.requires((#[trigger] grid.at(i, j),)),
                "\n"@ == seq!['\n'],
                "| "@ == seq!['|', ' '],
                " | "@ == seq![' ', '|', ' '],
                r <= self.rows,
                texts.len() == r,
                forall|i: int| 0 <= i < r ==> (#[trigger] texts[i]).len() == grid.cols,
                forall|i: int, j: int|
                    0 <= i < r && 0 <= j < grid.cols ==> is_text_of(
                        show,
                        grid.at(i, j),
                        #[trigger] texts[i][j],
                    ),
                out@ == page_prefix(title@, texts, r as nat),
            decreases self.rows - r,
        {
            let ghost mut row: Seq<Seq<char>> = Seq::empty();
            let ghost start = out@;
            let mut c: usize = 0;
            while c < self.cols
                invariant
                    self.wf(),
                    grid == self@,
                    forall|i: int, j: int|
                        grid.has(i, j) ==> show.requires((#[trigger] grid.at(i, j),)),
                    "| "@ == seq!['|', ' '],
                    " | "@ == seq![' ', '|', ' '],
                    r < self.rows,
                    c <= self.cols,
                    row.len() == c,
                    forall|j: int|
                        0 <= j < c ==> is_text_of(show, grid.at(r as int, j), #[trigger] row[j]),
                    out@ == start + row_prefix(row, c as nat),
                decreases self.cols - c,
            {
                assert(grid.has(r as int, c as int));
                assert(grid.at(r as int, c as int) == self.data@[r as int]@[c as int]);
                let cell: String = show(self.data[r][c]);
                out.append("| ");
                out.append(cell.as_str());
                out.append(" | ");
                proof {
                    lemma_row_prefix_push(row, cell@, c as nat);
                    row = row.push(cell@);
                    assert(out@ =~= start + row_prefix(row, (c + 1) as nat));
                }
                c += 1;
            }
            out.append("\n");
            proof {
                lemma_page_prefix_push(title@, texts, row, r as nat);
                texts = texts.push(row);
                assert(out@ =~= page_prefix(title@, texts, (r + 1) as nat));
            }
            r += 1;
        }
        proof {
            assert(are_texts_of(show, self@, texts));
            assert(out@ == page(title@, texts));
        }
        out
    }
}

} // verus!
