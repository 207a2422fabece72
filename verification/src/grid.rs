//! The occupancy grid: a row-major sequence of cell values, `0` passable and
//! any other value solid. Lookups outside the grid read as solid, and the
//! raycaster steps coordinates toroidally (modulo each dimension).

use vstd::prelude::*;

verus! {

/// A static two-dimensional occupancy grid.
pub struct GridMap {
    pub width: usize,
    pub height: usize,
    pub values: Vec<i32>,
}

impl GridMap {
    /// Well-formed grid: positive dimensions small enough that every
    /// fixed-point coordinate inside the grid fits comfortably in an `i64`,
    /// and exactly one cell value per cell.
    pub open spec fn wf(self) -> bool {
        &&& 0 < self.width <= 1024
        &&& 0 < self.height <= 1024
        &&& self.values@.len() == self.width * self.height
    }

    /// Cell value at integer grid coordinates; out-of-range coordinates read
    /// as a solid cell of value `1`.
    pub open spec fn spec_cell(self, x: int, y: int) -> int {
        if 0 <= x < self.width && 0 <= y < self.height {
            self.values@[y * self.width + x] as int
        } else {
            1
        }
    }

    /// A cell blocks movement and stops rays iff its value is nonzero.
    pub open spec fn spec_is_wall(self, x: int, y: int) -> bool {
        self.spec_cell(x, y) != 0
    }

    /// Builds a grid, rejecting dimensions or a value sequence that do not
    /// form a well-formed grid.
    pub fn new(width: usize, height: usize, values: Vec<i32>) -> (m: Option<GridMap>)
        ensures
            match m {
                Some(g) => g.wf() && g.width == width && g.height == height && g.values@
                    == values@,
                None => !(GridMap { width, height, values }).wf(),
            },
    {
        if 0 < width && width <= 1024 && 0 < height && height <= 1024 {
            proof {
                assert(width * height <= 1048576) by (nonlinear_arith)
                    requires
                        width <= 1024,
                        height <= 1024,
                ;
            }
            if values.len() == width * height {
                Some(GridMap { width, height, values })
            } else {
                None
            }
        } else {
            None
        }
    }

    /// Cell value at integer grid coordinates (row-major, `y * width + x`);
    /// out-of-range coordinates read as solid.
    pub fn cell_at(&self, x: i64, y: i64) -> (c: i32)
        requires
            self.wf(),
        ensures
            c == self.spec_cell(x as int, y as int),
    {
        if 0 <= x && x < self.width as i64 && 0 <= y && y < self.height as i64 {
            proof {
                assert((0 <= y as int * self.width as int + x as int) && (y as int
                    * self.width as int + x as int) < (self.width as int * self.height as int) && (
                self.width as int * self.height as int) <= 1048576) by (nonlinear_arith)
                    requires
                        0 <= y as int && (y as int) < self.height as int,
                        0 <= x as int && (x as int) < self.width as int,
                        0 < self.width as int <= 1024,
                        0 < self.height as int <= 1024,
                ;
            }
            let idx: usize = (y as usize) * self.width + (x as usize);
            self.values[idx]
        } else {
            1
        }
    }

    /// Wall test at integer grid coordinates.
    pub fn is_wall(&self, x: i64, y: i64) -> (w: bool)
        requires
            self.wf(),
        ensures
            w == self.spec_is_wall(x as int, y as int),
    {
        self.cell_at(x, y) != 0
    }
}

/// Steps a grid coordinate one cell up or down with toroidal wrap:
/// the result is `(c + 1) % n` or `(c - 1) % n` with the Euclidean `%`,
/// so stepping past `n - 1` lands on `0` and stepping below `0` on `n - 1`.
pub fn wrap_step(c: usize, up: bool, n: usize) -> (r: usize)
    requires
        0 < n,
        c < n,
    ensures
        up ==> r == (c + 1) % (n as int),
        !up ==> r == (c - 1) % (n as int),
        r < n,
{
    if up {
        if c + 1 == n {
            proof {
                vstd::arithmetic::div_mod::lemma_mod_self_0(n as int);
            }
            0
        } else {
            proof {
                vstd::arithmetic::div_mod::lemma_small_mod((c + 1) as nat, n as nat);
            }
            c + 1
        }
    } else {
        if c == 0 {
            proof {
                vstd::arithmetic::div_mod::lemma_fundamental_div_mod_converse(
                    -1,
                    n as int,
                    -1,
                    n as int - 1,
                );
            }
            n - 1
        } else {
            proof {
                vstd::arithmetic::div_mod::lemma_small_mod((c - 1) as nat, n as nat);
            }
            c - 1
        }
    }
}

/// The toroidal wrap law: one step up from the last cell lands on `0`, and
/// one step down from `0` lands on the last cell, on either axis.
pub proof fn lemma_toroidal_wrap(n: int)
    requires
        0 < n,
    ensures
        ((n - 1) + 1) % n == 0,
        (0 - 1) % n == n - 1,
{
    vstd::arithmetic::div_mod::lemma_mod_self_0(n);
    vstd::arithmetic::div_mod::lemma_fundamental_div_mod_converse(-1, n, -1, n - 1);
}

} // verus!
