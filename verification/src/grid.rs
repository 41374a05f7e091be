//! Uniform spatial grid over the playfield, used as the broad phase of
//! collision detection.
//!
//! Each cell holds the indices of the bricks whose rectangle overlaps it; a
//! brick spanning several cells is registered in all of them.  Brick
//! geometry never changes, so the grid is filled once at construction and
//! only queried afterwards.  Queries outside the grid return the empty
//! sequence rather than failing.

use vstd::prelude::*;

verus! {

use crate::fixed::{floor_div, lemma_div_shrinks};
use vstd::arithmetic::div_mod::lemma_div_is_ordered;

/// Index grid: world space is cut into `grid_width x grid_height` cells of
/// `cell_width x cell_height` ticks, anchored at the field corner
/// `(-1000, -1000)`.
pub struct HashGrid {
    /// Width of one cell, in coordinate ticks.
    pub cell_width: i64,
    /// Height of one cell, in coordinate ticks.
    pub cell_height: i64,
    /// Cell buckets in column-major order: cell `(ix, iy)` lives at
    /// `ix * grid_height + iy`.
    pub grid: Vec<Vec<usize>>,
    /// Number of cell columns.
    pub grid_width: usize,
    /// Number of cell rows.
    pub grid_height: usize,
}

/// Distinct cell coordinates map to distinct bucket positions.
proof fn lemma_cell_index_injective(h: int, ix1: int, iy1: int, ix2: int, iy2: int)
    requires
        h > 0,
        0 <= iy1 < h,
        0 <= iy2 < h,
        ix1 * h + iy1 == ix2 * h + iy2,
    ensures
        ix1 == ix2,
        iy1 == iy2,
{
    assert(ix1 == ix2 && iy1 == iy2) by (nonlinear_arith)
        requires
            h > 0,
            0 <= iy1 < h,
            0 <= iy2 < h,
            ix1 * h + iy1 == ix2 * h + iy2,
    {
    }
}

/// A bucket position computed from in-range cell coordinates is in range.
proof fn lemma_cell_index_in_range(w: int, h: int, ix: int, iy: int)
    requires
        0 <= ix < w <= 100,
        0 <= iy < h <= 100,
    ensures
        0 <= ix * h + iy < w * h,
        ix * h + iy < 10000,
        w * h <= 10000,
{
    assert(0 <= ix * h + iy < w * h && w * h <= 10000) by (nonlinear_arith)
        requires
            0 <= ix < w <= 100,
            0 <= iy < h <= 100,
    {
    }
}

/// First-occurrence deduplication: extend the accumulator `acc` with each
/// element of `s`, in order, skipping those already present.
pub open spec fn spec_dedup_from(s: Seq<usize>, acc: Seq<usize>) -> Seq<usize>
    decreases s.len(),
{
    if s.len() == 0 {
        acc
    } else if acc.contains(s[0]) {
        spec_dedup_from(s.drop_first(), acc)
    } else {
        spec_dedup_from(s.drop_first(), acc.push(s[0]))
    }
}

impl HashGrid {
    /// Shape of a usable grid: positive cell sizes, a small positive cell
    /// count, and one bucket per cell.
    pub open spec fn wf(self) -> bool {
        &&& 0 < self.cell_width <= 2000
        &&& 0 < self.cell_height <= 2000
        &&& 0 < self.grid_width <= 100
        &&& 0 < self.grid_height <= 100
        &&& self.grid@.len() == self.grid_width * self.grid_height
    }

    /// The grid dimensions of `self` and `other` agree.
    pub open spec fn same_shape(self, other: HashGrid) -> bool {
        &&& self.cell_width == other.cell_width
        &&& self.cell_height == other.cell_height
        &&& self.grid_width == other.grid_width
        &&& self.grid_height == other.grid_height
    }

    /// Cell column of a world x-coordinate: `floor((x + 1000) / cell_width)`.
    pub open spec fn spec_cell_x(self, x: int) -> int {
        (x + 1000) / (self.cell_width as int)
    }

    /// Cell row of a world y-coordinate.
    pub open spec fn spec_cell_y(self, y: int) -> int {
        (y + 1000) / (self.cell_height as int)
    }

    /// Contents of cell `(ix, iy)`; empty outside the grid.
    pub open spec fn spec_cell(self, ix: int, iy: int) -> Seq<usize> {
        if 0 <= ix < self.grid_width && 0 <= iy < self.grid_height {
            self.grid@[ix * self.grid_height + iy]@
        } else {
            Seq::<usize>::empty()
        }
    }

    /// The contents of the cell column `ix`, rows `iy_min ..= iy_max`,
    /// concatenated in row order.
    pub open spec fn spec_col_bricks(self, ix: int, iy_min: int, iy_max: int) -> Seq<usize>
        decreases iy_max + 1 - iy_min,
    {
        if iy_min > iy_max {
            Seq::<usize>::empty()
        } else {
            self.spec_cell(ix, iy_min) + self.spec_col_bricks(ix, iy_min + 1, iy_max)
        }
    }

    /// The contents of the cell rectangle `ix_min ..= ix_max` by
    /// `iy_min ..= iy_max`, concatenated column by column.
    pub open spec fn spec_range_bricks(
        self,
        ix_min: int,
        ix_max: int,
        iy_min: int,
        iy_max: int,
    ) -> Seq<usize>
        decreases ix_max + 1 - ix_min,
    {
        if ix_min > ix_max {
            Seq::<usize>::empty()
        } else {
            self.spec_col_bricks(ix_min, iy_min, iy_max) + self.spec_range_bricks(
                ix_min + 1,
                ix_max,
                iy_min,
                iy_max,
            )
        }
    }

    /// The candidate brick indices a bullet with bounding box
    /// `[bl, br] x [bb, bt]` is tested against: the contents of every cell
    /// the box covers, deduplicated in first-occurrence order.
    pub open spec fn spec_candidates(self, bl: int, bb: int, br: int, bt: int) -> Seq<usize> {
        spec_dedup_from(
            self.spec_range_bricks(
                self.spec_cell_x(bl),
                self.spec_cell_x(br),
                self.spec_cell_y(bb),
                self.spec_cell_y(bt),
            ),
            Seq::<usize>::empty(),
        )
    }

    /// The in-grid cells covered by the rectangle `[l, r] x [b, t]`.
    pub open spec fn covers(self, l: int, b: int, r: int, t: int, ix: int, iy: int) -> bool {
        &&& 0 <= ix < self.grid_width
        &&& 0 <= iy < self.grid_height
        &&& self.spec_cell_x(l) <= ix <= self.spec_cell_x(r)
        &&& self.spec_cell_y(b) <= iy <= self.spec_cell_y(t)
    }

    /// An empty grid of the given shape.
    pub fn new(cell_width: i64, cell_height: i64, grid_width: usize, grid_height: usize) -> (g:
        HashGrid)
        requires
            0 < cell_width <= 2000,
            0 < cell_height <= 2000,
            0 < grid_width <= 100,
            0 < grid_height <= 100,
        ensures
            g.wf(),
            g.cell_width == cell_width,
            g.cell_height == cell_height,
            g.grid_width == grid_width,
            g.grid_height == grid_height,
            forall|ix: int, iy: int| #[trigger] g.spec_cell(ix, iy).len() == 0,
    {
        proof {
            assert(0 < grid_width * grid_height <= 10000) by (nonlinear_arith)
                requires
                    0 < grid_width <= 100,
                    0 < grid_height <= 100,
            {
            }
        }
        let n: usize = grid_width * grid_height;
        let mut grid: Vec<Vec<usize>> = Vec::new();
        let mut i: usize = 0;
        while i < n
            invariant
                i <= n,
                grid@.len() == i,
                forall|j: int| 0 <= j < i ==> #[trigger] grid@[j]@.len() == 0,
            decreases n - i,
        {
            grid.push(Vec::new());
            i = i + 1;
        }
        let g = HashGrid { cell_width, cell_height, grid, grid_width, grid_height };
        proof {
            assert forall|ix: int, iy: int| #[trigger] g.spec_cell(ix, iy).len() == 0 by {
                if 0 <= ix < g.grid_width && 0 <= iy < g.grid_height {
                    lemma_cell_index_in_range(g.grid_width as int, g.grid_height as int, ix, iy);
                }
            }
        }
        g
    }

    /// The cell coordinates containing the world point `(x, y)`.
    pub fn get_cell_index(&self, x: i64, y: i64) -> (r: (i64, i64))
        requires
            self.wf(),
            -100000000000 <= x <= 100000000000,
            -100000000000 <= y <= 100000000000,
        ensures
            r.0 == self.spec_cell_x(x as int),
            r.1 == self.spec_cell_y(y as int),
    {
        (floor_div(x + 1000, self.cell_width), floor_div(y + 1000, self.cell_height))
    }

    /// Register brick `brick_index` in every in-grid cell its rectangle
    /// `[left, right] x [bottom, top]` covers; cells outside the grid are
    /// silently skipped.
    pub fn add_brick(&mut self, brick_index: usize, left: i64, bottom: i64, right: i64, top: i64)
        requires
            old(self).wf(),
            -100000000000 <= left <= right <= 100000000000,
            -100000000000 <= bottom <= top <= 100000000000,
        ensures
            final(self).wf(),
            final(self).same_shape(*old(self)),
            forall|ix: int, iy: int|
                #[trigger] final(self).spec_cell(ix, iy) == (if old(self).covers(
                    left as int,
                    bottom as int,
                    right as int,
                    top as int,
                    ix,
                    iy,
                ) {
                    old(self).spec_cell(ix, iy).push(brick_index)
                } else {
                    old(self).spec_cell(ix, iy)
                }),
    {
        let (ix_min, iy_min) = self.get_cell_index(left, bottom);
        let (ix_max, iy_max) = self.get_cell_index(right, top);
        proof {
            lemma_div_is_ordered(left + 1000, right + 1000, self.cell_width as int);
            lemma_div_is_ordered(bottom + 1000, top + 1000, self.cell_height as int);
            lemma_div_shrinks(left + 1000, self.cell_width as int);
            lemma_div_shrinks(right + 1000, self.cell_width as int);
            lemma_div_shrinks(bottom + 1000, self.cell_height as int);
            lemma_div_shrinks(top + 1000, self.cell_height as int);
        }
        let mut ix: i64 = ix_min;
        while ix <= ix_max
            invariant
                self.wf(),
                self.same_shape(*old(self)),
                ix_min <= ix,
                ix_min == old(self).spec_cell_x(left as int),
                ix_max == old(self).spec_cell_x(right as int),
                iy_min == old(self).spec_cell_y(bottom as int),
                iy_max == old(self).spec_cell_y(top as int),
                ix_min <= ix_max,
                iy_min <= iy_max,
                -200000000000 <= ix_min,
                ix_max <= 200000000000,
                -200000000000 <= iy_min,
                iy_max <= 200000000000,
                ix <= ix_max + 1,
                forall|jx: int, jy: int|
                    #[trigger] self.spec_cell(jx, jy) == (if old(self).covers(
                        left as int,
                        bottom as int,
                        right as int,
                        top as int,
                        jx,
                        jy,
                    ) && jx < ix {
                        old(self).spec_cell(jx, jy).push(brick_index)
                    } else {
                        old(self).spec_cell(jx, jy)
                    }),
            decreases ix_max + 1 - ix,
        {
            let mut iy: i64 = iy_min;
            while iy <= iy_max
                invariant
                    self.wf(),
                    self.same_shape(*old(self)),
                    ix_min <= ix <= ix_max,
                    iy_min <= iy,
                    iy <= iy_max + 1,
                    ix_min == old(self).spec_cell_x(left as int),
                    ix_max == old(self).spec_cell_x(right as int),
                    iy_min == old(self).spec_cell_y(bottom as int),
                    iy_max == old(self).spec_cell_y(top as int),
                    iy_min <= iy_max,
                    -200000000000 <= ix_min,
                    ix_max <= 200000000000,
                    -200000000000 <= iy_min,
                    iy_max <= 200000000000,
                    forall|jx: int, jy: int|
                        #[trigger] self.spec_cell(jx, jy) == (if old(self).covers(
                            left as int,
                            bottom as int,
                            right as int,
                            top as int,
                            jx,
                            jy,
                        ) && (jx < ix || (jx == ix && jy < iy)) {
                            old(self).spec_cell(jx, jy).push(brick_index)
                        } else {
                            old(self).spec_cell(jx, jy)
                        }),
                decreases iy_max + 1 - iy,
            {
                let ghost mid = *self;
                if ix >= 0 && ix < self.grid_width as i64 && iy >= 0 && iy
                    < self.grid_height as i64 {
                    proof {
                        lemma_cell_index_in_range(
                            self.grid_width as int,
                            self.grid_height as int,
                            ix as int,
                            iy as int,
                        );
                    }
                    let index: usize = (ix as usize) * self.grid_height + (iy as usize);
                    self.grid[index].push(brick_index);
                    proof {
                        let w = self.grid_width as int;
                        let h = self.grid_height as int;
                        assert(self.grid@ =~= mid.grid@.update(
                            index as int,
                            self.grid@[index as int],
                        ));
                        assert(self.grid@[index as int]@ =~= mid.grid@[index as int]@.push(
                            brick_index,
                        ));
                        assert forall|jx: int, jy: int| #[trigger]
                            self.spec_cell(jx, jy) == (if old(self).covers(
                                left as int,
                                bottom as int,
                                right as int,
                                top as int,
                                jx,
                                jy,
                            ) && (jx < ix || (jx == ix && jy < iy + 1)) {
                                old(self).spec_cell(jx, jy).push(brick_index)
                            } else {
                                old(self).spec_cell(jx, jy)
                            }) by {
                            assert(mid.spec_cell(jx, jy) == (if old(self).covers(
                                left as int,
                                bottom as int,
                                right as int,
                                top as int,
                                jx,
                                jy,
                            ) && (jx < ix || (jx == ix && jy < iy)) {
                                old(self).spec_cell(jx, jy).push(brick_index)
                            } else {
                                old(self).spec_cell(jx, jy)
                            }));
                            if 0 <= jx < w && 0 <= jy < h {
                                lemma_cell_index_in_range(w, h, jx, jy);
                                if jx * h + jy == index {
                                    lemma_cell_index_injective(h, jx, jy, ix as int, iy as int);
                                    assert(jx == ix && jy == iy);
                                    assert(self.spec_cell(jx, jy) == mid.spec_cell(jx, jy).push(
                                        brick_index,
                                    ));
                                } else {
                                    assert(self.grid@[jx * h + jy] == mid.grid@[jx * h + jy]);
                                    assert(self.spec_cell(jx, jy) == mid.spec_cell(jx, jy));
                                }
                            } else {
                                assert(self.spec_cell(jx, jy) =~= mid.spec_cell(jx, jy));
                            }
                        }
                    }
                } else {
                    proof {
                        assert forall|jx: int, jy: int| #[trigger]
                            self.spec_cell(jx, jy) == (if old(self).covers(
                                left as int,
                                bottom as int,
                                right as int,
                                top as int,
                                jx,
                                jy,
                            ) && (jx < ix || (jx == ix && jy < iy + 1)) {
                                old(self).spec_cell(jx, jy).push(brick_index)
                            } else {
                                old(self).spec_cell(jx, jy)
                            }) by {
                            assert(mid.spec_cell(jx, jy) == (if old(self).covers(
                                left as int,
                                bottom as int,
                                right as int,
                                top as int,
                                jx,
                                jy,
                            ) && (jx < ix || (jx == ix && jy < iy)) {
                                old(self).spec_cell(jx, jy).push(brick_index)
                            } else {
                                old(self).spec_cell(jx, jy)
                            }));
                        }
                    }
                }
                iy = iy + 1;
            }
            ix = ix + 1;
        }
    }

    /// The brick indices registered in cell `(ix, iy)`; empty outside the
    /// grid.
    pub fn get_bricks_in_cell(&self, ix: i64, iy: i64) -> (r: Vec<usize>)
        requires
            self.wf(),
        ensures
            r@ == self.spec_cell(ix as int, iy as int),
    {
        if ix >= 0 && ix < self.grid_width as i64 && iy >= 0 && iy < self.grid_height as i64 {
            proof {
                lemma_cell_index_in_range(
                    self.grid_width as int,
                    self.grid_height as int,
                    ix as int,
                    iy as int,
                );
            }
            let index: usize = (ix as usize) * self.grid_height + (iy as usize);
            let cell: &Vec<usize> = &self.grid[index];
            let mut out: Vec<usize> = Vec::new();
            let mut j: usize = 0;
            while j < cell.len()
                invariant
                    j <= cell@.len(),
                    out@ == cell@.take(j as int),
                decreases cell@.len() - j,
            {
                out.push(cell[j]);
                proof {
                    assert(cell@.take(j + 1) =~= cell@.take(j as int).push(cell@[j as int]));
                }
                j = j + 1;
            }
            proof {
                assert(cell@.take(cell@.len() as int) =~= cell@);
            }
            out
        } else {
            Vec::new()
        }
    }
}

} // verus!
