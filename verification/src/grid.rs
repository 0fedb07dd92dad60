//! A dense two-dimensional table of `usize` values with fixed dimensions.
//!
//! The grid is the storage for the LCS length table: it is created once
//! with fixed dimensions, every cell starts at zero, and cells are then
//! overwritten in place.  `get` and `set` are bounds-checked and report an
//! `IndexError` for any access outside `[0, rows) x [0, cols)`.

use vstd::prelude::*;

verus! {

/// Returned by `Grid::get` and `Grid::set` when an index lies outside the
/// grid's dimensions.  It signals a caller bug, not a recoverable runtime
/// condition.
#[derive(Debug, Clone, Copy, PartialEq, Eq, Structural)]
pub struct IndexError;

/// A fixed-shape dense matrix of `usize` values, stored row-major in one
/// contiguous buffer of `rows * cols` cells.
pub struct Grid {
    rows: usize,
    cols: usize,
    elems: Vec<usize>,
}

/// Position `(r, c)` lies inside a table of `rows` rows and `cols` columns.
pub open spec fn in_bounds(r: int, c: int, rows: int, cols: int) -> bool {
    0 <= r < rows && 0 <= c < cols
}

proof fn lemma_flat_index_in_range(r: int, c: int, rows: int, cols: int)
    by (nonlinear_arith)
    requires
        in_bounds(r, c, rows, cols),
    ensures
        0 <= r * cols + c < rows * cols,
{
}

proof fn lemma_flat_index_injective(r1: int, c1: int, r2: int, c2: int, cols: int)
    by (nonlinear_arith)
    requires
        0 <= r1,
        0 <= r2,
        0 <= c1 < cols,
        0 <= c2 < cols,
        r1 * cols + c1 == r2 * cols + c2,
    ensures
        r1 == r2 && c1 == c2,
{
}

impl Grid {
    /// The number of rows.
    pub closed spec fn spec_rows(&self) -> int {
        self.rows as int
    }

    /// The number of columns.
    pub closed spec fn spec_cols(&self) -> int {
        self.cols as int
    }

    /// The backing buffer holds exactly one cell per position and the
    /// total cell count fits the machine word.
    pub closed spec fn wf(&self) -> bool {
        &&& self.elems@.len() == self.spec_rows() * self.spec_cols()
        &&& self.spec_rows() * self.spec_cols() <= usize::MAX
    }

    /// The value stored at row `r`, column `c`.
    pub closed spec fn cell(&self, r: int, c: int) -> usize {
        self.elems@[r * self.spec_cols() + c]
    }

    /// Allocates a grid of the given dimensions with every cell set to 0.
    pub fn new(rows: usize, cols: usize) -> (g: Grid)
        requires
            rows * cols <= usize::MAX,
        ensures
            g.wf(),
            g.spec_rows() == rows,
            g.spec_cols() == cols,
            forall|r: int, c: int|
                in_bounds(r, c, rows as int, cols as int) ==> g.cell(r, c) == 0,
    {
        proof {
            assert(rows * cols >= 0) by (nonlinear_arith)
                requires rows >= 0 && cols >= 0;
        }
        let total: usize = rows * cols;
        let mut elems: Vec<usize> = Vec::new();
        let mut k: usize = 0;
        while k < total
            invariant
                k <= total,
                elems@.len() == k,
                forall|t: int| 0 <= t < k ==> elems@[t] == 0,
            decreases total - k,
        {
            elems.push(0);
            k = k + 1;
        }
        let g = Grid { rows, cols, elems };
        proof {
            assert forall|r: int, c: int|
                in_bounds(r, c, rows as int, cols as int) implies g.cell(r, c) == 0 by {
                lemma_flat_index_in_range(r, c, rows as int, cols as int);
            }
        }
        g
    }

    /// Returns the stored value, or `IndexError` if the position lies
    /// outside the grid.
    pub fn get(&self, row: usize, col: usize) -> (r: Result<usize, IndexError>)
        requires
            self.wf(),
        ensures
            in_bounds(row as int, col as int, self.spec_rows(), self.spec_cols())
                ==> r == Ok::<usize, IndexError>(self.cell(row as int, col as int)),
            !in_bounds(row as int, col as int, self.spec_rows(), self.spec_cols())
                ==> r == Err::<usize, IndexError>(IndexError),
    {
        if row < self.rows && col < self.cols {
            proof {
                lemma_flat_index_in_range(row as int, col as int, self.spec_rows(), self.spec_cols());
            }
            let idx: usize = row * self.cols + col;
            Ok(self.elems[idx])
        } else {
            Err(IndexError)
        }
    }

    /// Overwrites the stored value, or returns `IndexError` and leaves the
    /// grid unchanged if the position lies outside the grid.
    pub fn set(&mut self, row: usize, col: usize, value: usize) -> (r: Result<(), IndexError>)
        requires
            old(self).wf(),
        ensures
            final(self).wf(),
            final(self).spec_rows() == old(self).spec_rows(),
            final(self).spec_cols() == old(self).spec_cols(),
            in_bounds(row as int, col as int, old(self).spec_rows(), old(self).spec_cols())
                ==> {
                    &&& r == Ok::<(), IndexError>(())
                    &&& final(self).cell(row as int, col as int) == value
                    &&& forall|a: int, b: int|
                        in_bounds(a, b, old(self).spec_rows(), old(self).spec_cols())
                            && !(a == row && b == col)
                            ==> final(self).cell(a, b) == old(self).cell(a, b)
                },
            !in_bounds(row as int, col as int, old(self).spec_rows(), old(self).spec_cols())
                ==> r == Err::<(), IndexError>(IndexError) && *final(self) == *old(self),
    {
        if row < self.rows && col < self.cols {
            proof {
                lemma_flat_index_in_range(row as int, col as int, self.spec_rows(), self.spec_cols());
            }
            let idx: usize = row * self.cols + col;
            self.elems[idx] = value;
            proof {
                assert forall|a: int, b: int|
                    in_bounds(a, b, self.spec_rows(), self.spec_cols())
                        && !(a == row && b == col)
                        implies self.cell(a, b) == old(self).cell(a, b) by {
                    lemma_flat_index_in_range(a, b, self.spec_rows(), self.spec_cols());
                    if a * self.spec_cols() + b == row * self.spec_cols() + col {
                        lemma_flat_index_injective(
                            a, b, row as int, col as int, self.spec_cols(),
                        );
                    }
                }
            }
            Ok(())
        } else {
            Err(IndexError)
        }
    }

    /// Read-only introspection: the dimensions as `(rows, cols)`.
    pub fn size(&self) -> (s: (usize, usize))
        ensures
            s.0 == self.spec_rows(),
            s.1 == self.spec_cols(),
    {
        (self.rows, self.cols)
    }
}

} // verus!
