//! The pattern grid: eight rows of eight cells, each background (0) or
//! foreground (1).
//!
//! A pattern is built in two steps. The cells strictly inside the border take
//! the parity of one random sample each, row by row; then the upper half is
//! copied onto the lower half, row `i` onto row `7 - i`. What the samples put
//! into the lower half is therefore overwritten, and the border stays clear.

use vstd::prelude::*;

verus! {

/// Rows, and columns, of a grid.
pub const GRID_SIZE: usize = 8;

/// Cells strictly inside the border, one random sample each.
pub const INTERIOR_CELLS: usize = 36;

/// `(i, j)` names a cell.
pub open spec fn in_grid(i: int, j: int) -> bool {
    0 <= i < 8 && 0 <= j < 8
}

/// `(i, j)` lies on the outermost ring.
pub open spec fn on_border(i: int, j: int) -> bool {
    i == 0 || i == 7 || j == 0 || j == 7
}

/// Eight rows of eight cells.
pub open spec fn is_grid(g: Seq<Seq<u8>>) -> bool {
    &&& g.len() == 8
    &&& forall|i: int| 0 <= i < 8 ==> (#[trigger] g[i]).len() == 8
}

/// Row `i` equals row `7 - i`, for every row.
pub open spec fn is_symmetric(g: Seq<Seq<u8>>) -> bool {
    forall|i: int, j: int| in_grid(i, j) ==> #[trigger] g[i][j] == g[7 - i][j]
}

/// Every cell of the outermost ring is background.
pub open spec fn has_clear_border(g: Seq<Seq<u8>>) -> bool {
    forall|i: int, j: int| in_grid(i, j) && on_border(i, j) ==> #[trigger] g[i][j] == 0
}

/// Every cell is 0 or 1.
pub open spec fn is_binary(g: Seq<Seq<u8>>) -> bool {
    forall|i: int, j: int| in_grid(i, j) ==> #[trigger] g[i][j] <= 1
}

/// The sample that decides the interior cell `(i, j)`: samples are consumed
/// row by row over rows and columns 1 to 6.
pub open spec fn sample_index(i: int, j: int) -> int {
    (i - 1) * 6 + (j - 1)
}

/// The row of the upper half that row `i` shows after mirroring.
pub open spec fn source_row(i: int) -> int {
    if i < 4 {
        i
    } else {
        7 - i
    }
}

/// The cell `(i, j)` of the pattern that `samples` give.
pub open spec fn pattern_cell(samples: Seq<u8>, i: int, j: int) -> u8 {
    if on_border(i, j) {
        0
    } else {
        (samples[sample_index(source_row(i), j)] % 2) as u8
    }
}

/// The pattern that 36 samples give.
pub open spec fn pattern_of(samples: Seq<u8>) -> Seq<Seq<u8>> {
    Seq::new(8, |i: int| Seq::new(8, |j: int| pattern_cell(samples, i, j)))
}

/// Only the samples of the upper half show: two rows of samples that agree in
/// parity on their first eighteen give the same pattern.
pub proof fn law_lower_samples_do_not_show(a: Seq<u8>, b: Seq<u8>)
    requires
        forall|k: int| 0 <= k < 18 ==> #[trigger] a[k] % 2 == b[k] % 2,
    ensures
        pattern_of(a) == pattern_of(b),
{
    assert forall|i: int, j: int| in_grid(i, j) implies pattern_cell(a, i, j) == pattern_cell(
        b,
        i,
        j,
    ) by {
        if !on_border(i, j) {
            let k = sample_index(source_row(i), j);
            assert(0 <= k < 18);
            assert(a[k] % 2 == b[k] % 2);
        }
    }
    assert(pattern_of(a) =~~= pattern_of(b));
}

/// Every pattern is symmetric and binary, and its border is clear.
pub proof fn law_pattern_shape(samples: Seq<u8>)
    ensures
        is_grid(pattern_of(samples)),
        is_symmetric(pattern_of(samples)),
        has_clear_border(pattern_of(samples)),
        is_binary(pattern_of(samples)),
{
    let g = pattern_of(samples);
    assert forall|i: int, j: int| in_grid(i, j) implies #[trigger] g[i][j] == g[7 - i][j] by {
        assert(in_grid(7 - i, j));
        assert(source_row(i) == source_row(7 - i));
    }
}

/// An 8×8 grid of cells. Its view is the sequence of its rows.
#[derive(Clone, Copy, Debug)]
pub struct Grid {
    cells: [[u8; 8]; 8],
}

impl View for Grid {
    type V = Seq<Seq<u8>>;

    closed spec fn view(&self) -> Seq<Seq<u8>> {
        Seq::new(8, |i: int| self.cells[i]@)
    }
}

impl Grid {
    /// Every grid has eight rows of eight cells.
    pub proof fn lemma_shape(&self)
        ensures
            is_grid(self@),
    {
    }

    /// The grid with every cell background.
    pub fn new() -> (g: Grid)
        ensures
            is_grid(g@),
            forall|i: int, j: int| in_grid(i, j) ==> #[trigger] g@[i][j] == 0,
    {
        Grid { cells: [[0u8; 8]; 8] }
    }

    /// The cell in row `row`, column `col`.
    pub fn get(&self, row: usize, col: usize) -> (cell: u8)
        requires
            row < 8,
            col < 8,
        ensures
            cell == self@[row as int][col as int],
    {
        self.cells[row][col]
    }

    /// Sets each cell strictly inside the border to the parity of its sample,
    /// and leaves the border as it is.
    pub fn fill_interior(&mut self, samples: &[u8; 36])
        ensures
            is_grid(final(self)@),
            forall|i: int, j: int|
                in_grid(i, j) ==> #[trigger] final(self)@[i][j] == if on_border(i, j) {
                    old(self)@[i][j]
                } else {
                    (samples@[sample_index(i, j)] % 2) as u8
                },
    {
        let mut i: usize = 1;
        while i < 7
            invariant
                1 <= i <= 7,
                forall|r: int, c: int|
                    in_grid(r, c) ==> #[trigger] self@[r][c] == if on_border(r, c) || r >= i {
                        old(self)@[r][c]
                    } else {
                        (samples@[sample_index(r, c)] % 2) as u8
                    },
            decreases 7 - i,
        {
            let mut row: [u8; 8] = self.cells[i];
            let mut j: usize = 1;
            while j < 7
                invariant
                    1 <= i < 7,
                    1 <= j <= 7,
                    forall|c: int|
                        0 <= c < 8 ==> #[trigger] row@[c] == if c == 0 || c == 7 || c >= j {
                            self@[i as int][c]
                        } else {
                            (samples@[sample_index(i as int, c)] % 2) as u8
                        },
                decreases 7 - j,
            {
                row[j] = samples[(i - 1) * 6 + (j - 1)] % 2;
                j += 1;
            }
            let ghost before = self@;
            self.cells[i] = row;
            assert forall|r: int| 0 <= r < 8 implies #[trigger] self@[r] == if r == i {
                row@
            } else {
                before[r]
            } by {}
            i += 1;
        }
    }

    /// Copies the upper half onto the lower half: row `i` onto row `7 - i`.
    pub fn mirror(&mut self)
        ensures
            is_grid(final(self)@),
            is_symmetric(final(self)@),
            forall|i: int, j: int|
                in_grid(i, j) ==> #[trigger] final(self)@[i][j] == old(self)@[source_row(i)][j],
    {
        let mut i: usize = 0;
        while i < 4
            invariant
                i <= 4,
                forall|r: int, c: int|
                    in_grid(r, c) ==> #[trigger] self@[r][c] == if r > 7 - i {
                        old(self)@[7 - r][c]
                    } else {
                        old(self)@[r][c]
                    },
            decreases 4 - i,
        {
            let row: [u8; 8] = self.cells[i];
            let ghost before = self@;
            self.cells[7 - i] = row;
            assert forall|r: int| 0 <= r < 8 implies #[trigger] self@[r] == if r == 7 - i {
                before[i as int]
            } else {
                before[r]
            } by {}
            i += 1;
        }
    }

    /// The pattern that 36 samples give: symmetric, binary, with a clear
    /// border, and cell by cell as `pattern_of` says.
    pub fn from_samples(samples: &[u8; 36]) -> (g: Grid)
        ensures
            g@ == pattern_of(samples@),
            is_grid(g@),
            is_symmetric(g@),
            has_clear_border(g@),
            is_binary(g@),
    {
        let mut g = Grid::new();
        g.fill_interior(samples);
        g.mirror();
        assert forall|i: int, j: int| in_grid(i, j) implies #[trigger] g@[i][j] == pattern_cell(
            samples@,
            i,
            j,
        ) by {
            assert(in_grid(source_row(i), j));
        }
        assert(g@ =~~= pattern_of(samples@));
        g
    }
}

} // verus!
