//! The geometry of the pattern: which cells the painter sweeps, where each
//! one lies on the canvas, and which bit of the digest decides it.

use crate::canvas::in_square;
use crate::digest::{lemma_digest_covers_grid, select_digest_spec, COLOR_BYTES};
use crate::params::RenderParameters;
use vstd::prelude::*;

verus! {

/// How many of `start`, `start + stride`, `start + 2 * stride`, ... lie below
/// `limit`.
pub open spec fn steps(start: int, limit: int, stride: int) -> int {
    if start < limit {
        (limit - start + stride - 1) / stride
    } else {
        0
    }
}

impl RenderParameters {
    /// Where the sweep of a row ends. A symmetrical pattern is swept up to
    /// its middle, the resolution less half the grid's width rounded up; any
    /// other across its whole width.
    pub open spec fn sweep_limit(self) -> int {
        if self.symmetrical {
            self.resolution - (self.cell_size() * self.grid_size + 1) / 2
        } else {
            self.resolution as int
        }
    }

    /// Number of rows of cells that are swept.
    pub open spec fn rows(self) -> int {
        steps(self.padding as int, self.resolution as int, self.cell_size())
    }

    /// Number of cells that are swept in each row.
    pub open spec fn columns(self) -> int {
        steps(self.padding as int, self.sweep_limit(), self.cell_size())
    }

    /// Left edge of the cells of column `c`.
    pub open spec fn cell_left(self, c: int) -> int {
        self.padding + c * self.cell_size()
    }

    /// Upper edge of the cells of row `r`.
    pub open spec fn cell_top(self, r: int) -> int {
        self.padding + r * self.cell_size()
    }

    /// Left edge of the mirror images of the cells of column `c`.
    pub open spec fn mirrored_left(self, c: int) -> int {
        self.canvas_size() - self.cell_left(c) - self.cell_size()
    }

    /// Whether `(r, c)` is a cell that is swept.
    pub open spec fn sweeps(self, r: int, c: int) -> bool {
        0 <= r < self.rows() && 0 <= c < self.columns()
    }

    /// The place in the bit stream of the bit that decides cell `(r, c)`:
    /// cells take their bits row by row, each row from the left.
    pub open spec fn bit_index(self, r: int, c: int) -> int {
        r * self.columns() + c
    }

    /// Whether the pixel `(x, y)` belongs to cell `(r, c)`: to its square, or
    /// in a symmetrical pattern to the mirror image of its square.
    pub open spec fn cell_covers(self, r: int, c: int, x: int, y: int) -> bool {
        ||| in_square(x, y, self.cell_left(c), self.cell_top(r), self.cell_size())
        ||| self.symmetrical && in_square(
            x,
            y,
            self.mirrored_left(c),
            self.cell_top(r),
            self.cell_size(),
        )
    }
}

/// `k` counts among the steps exactly when the `k`-th value lies below the
/// limit.
pub proof fn lemma_steps(start: int, limit: int, stride: int, k: int)
    requires
        stride > 0,
        k >= 0,
    ensures
        steps(start, limit, stride) >= 0,
        start + k * stride < limit <==> k < steps(start, limit, stride),
{
    let n = steps(start, limit, stride);
    if start < limit {
        let d = limit - start;
        assert(n >= 0 && (n - 1) * stride < d && d <= n * stride) by (nonlinear_arith)
            requires
                stride > 0,
                d > 0,
                n == (d + stride - 1) / stride,
        ;
        if k < n {
            assert(k * stride <= (n - 1) * stride) by (nonlinear_arith)
                requires
                    k <= n - 1,
                    stride > 0,
            ;
        } else {
            assert(k * stride >= n * stride) by (nonlinear_arith)
                requires
                    k >= n,
                    stride > 0,
            ;
        }
    } else {
        assert(k * stride >= 0) by (nonlinear_arith)
            requires
                k >= 0,
                stride > 0,
        ;
    }
}

/// In valid parameters the cells tile the resolution, and the sweep of a
/// symmetrical pattern ends at half the resolution, rounded down.
pub proof fn lemma_cells_tile(p: RenderParameters)
    requires
        p.valid(),
    ensures
        p.cell_size() >= 1,
        p.cell_size() * p.grid_size == p.resolution,
        p.symmetrical ==> p.sweep_limit() == p.resolution as int / 2,
        0 <= p.sweep_limit() <= p.resolution,
{
    let g = p.grid_size as int;
    let res = p.resolution as int;
    assert((res / g) * g == res) by (nonlinear_arith)
        requires
            g > 0,
            res % g == 0,
    ;
}

/// No more rows and no more columns are swept than the grid has cells to a
/// side, and a swept cell and its mirror image lie on the canvas.
pub proof fn lemma_sweep_bounds(p: RenderParameters)
    requires
        p.valid(),
    ensures
        0 <= p.rows() <= p.grid_size,
        0 <= p.columns() <= p.grid_size,
        forall|r: int|
            0 <= r < p.rows() ==> p.padding <= #[trigger] p.cell_top(r) && p.cell_top(r)
                + p.cell_size() <= p.padding + p.resolution,
        forall|c: int|
            0 <= c < p.columns() ==> p.padding <= #[trigger] p.cell_left(c) && p.cell_left(c)
                + p.cell_size() <= p.padding + p.resolution,
{
    lemma_cells_tile(p);
    let g = p.grid_size as int;
    let cell = p.cell_size();
    let pad = p.padding as int;
    lemma_steps(pad, p.resolution as int, cell, g);
    lemma_steps(pad, p.sweep_limit(), cell, g);
    assert forall|k: int| 0 <= k < g implies p.padding <= #[trigger] p.cell_top(k) && p.cell_top(k)
        + cell <= pad + p.resolution by {
        assert(0 <= k * cell && k * cell + cell <= g * cell) by (nonlinear_arith)
            requires
                0 <= k < g,
                cell >= 1,
        ;
    }
    assert forall|k: int| 0 <= k < g implies p.padding <= #[trigger] p.cell_left(k) && p.cell_left(
        k,
    ) + cell <= pad + p.resolution by {
        assert(p.cell_left(k) == p.cell_top(k));
    }
}

/// The digest that a grid size selects has a bit for every cell that is
/// swept, so the bit stream never runs dry while painting.
pub proof fn lemma_bit_budget(p: RenderParameters)
    requires
        p.valid(),
    ensures
        select_digest_spec(p.grid_size) is Ok,
        p.rows() * p.columns() <= 8 * (select_digest_spec(p.grid_size)->Ok_0.output_len()
            - COLOR_BYTES),
{
    lemma_sweep_bounds(p);
    lemma_digest_covers_grid(p.grid_size);
    let g = p.grid_size as int;
    let rows = p.rows();
    let columns = p.columns();
    assert(rows * columns <= g * g) by (nonlinear_arith)
        requires
            0 <= rows <= g,
            0 <= columns <= g,
    ;
}

/// The bit of a swept cell lies inside the sweep's share of the stream.
pub proof fn lemma_bit_index(p: RenderParameters, r: int, c: int)
    requires
        p.valid(),
        p.sweeps(r, c),
    ensures
        0 <= p.bit_index(r, c) < p.rows() * p.columns(),
{
    let rows = p.rows();
    let columns = p.columns();
    assert(0 <= r * columns && r * columns + columns <= rows * columns) by (nonlinear_arith)
        requires
            0 <= r < rows,
            columns > 0,
    ;
}

} // verus!
