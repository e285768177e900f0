//! Cubic grids of values and the coordinate grids of a single axis.

use vstd::arithmetic::div_mod::{
    lemma_div_denominator, lemma_fundamental_div_mod_converse, lemma_multiply_divide_lt,
};
use vstd::prelude::*;

verus! {

/// The row-major position of cell `(i, j, k)` in a cube of side `n`.
pub open spec fn cube_index(n: int, i: int, j: int, k: int) -> int {
    (i * n + j) * n + k
}

/// A cube of `n * n * n` values, stored in row-major order: the last
/// coordinate varies fastest.
pub struct Grid3<T> {
    side: usize,
    cells: Vec<T>,
}

impl<T> Grid3<T> {
    /// The length of each edge of the cube.
    pub closed spec fn side_len(&self) -> nat {
        self.side as nat
    }

    /// The values in row-major order.
    pub closed spec fn cells_view(&self) -> Seq<T> {
        self.cells@
    }

    /// The grid holds exactly one value per cell.
    pub open spec fn wf(&self) -> bool {
        self.cells_view().len() == self.side_len() * self.side_len() * self.side_len()
    }

    /// The value at cell `(i, j, k)`.
    pub open spec fn at(&self, i: int, j: int, k: int) -> T {
        self.cells_view()[cube_index(self.side_len() as int, i, j, k)]
    }

    /// The length of each edge of the cube.
    pub fn side(&self) -> (r: usize)
        ensures
            r == self.side_len(),
    {
        self.side
    }

    /// The value at cell `(i, j, k)`.
    pub fn get(&self, i: usize, j: usize, k: usize) -> (r: &T)
        requires
            self.wf(),
            i < self.side_len(),
            j < self.side_len(),
            k < self.side_len(),
        ensures
            *r == self.at(i as int, j as int, k as int),
    {
        let cell_count = self.cells.len();
        proof {
            let n = self.side as int;
            assert(n * n * n == cell_count);
            lemma_cube_position(n, i as int, j as int, k as int);
            assert(0 <= i * n <= i * n + j <= (i * n + j) * n) by (nonlinear_arith)
                requires
                    0 <= i < n,
                    0 <= j < n,
            ;
        }
        &self.cells[(i * self.side + j) * self.side + k]
    }

    /// The values in row-major order, giving up the grid.
    pub fn into_cells(self) -> (r: Vec<T>)
        ensures
            r@ == self.cells_view(),
    {
        self.cells
    }
}

/// Cell `(i, j, k)` of a cube of side `n` sits at a position below `n * n * n`
/// from which division and remainder give its coordinates back.
proof fn lemma_cube_position(n: int, i: int, j: int, k: int)
    requires
        0 <= i < n,
        0 <= j < n,
        0 <= k < n,
    ensures
        0 <= cube_index(n, i, j, k) < n * n * n,
        cube_index(n, i, j, k) / (n * n) == i,
        (cube_index(n, i, j, k) / n) % n == j,
        cube_index(n, i, j, k) % n == k,
{
    let p = cube_index(n, i, j, k);
    let row = i * n + j;
    assert(0 <= row < n * n) by (nonlinear_arith)
        requires
            0 <= i < n,
            0 <= j < n,
            row == i * n + j,
    ;
    assert(0 <= p < n * n * n) by (nonlinear_arith)
        requires
            0 <= row < n * n,
            0 <= k < n,
            p == row * n + k,
    ;
    lemma_fundamental_div_mod_converse(p, n, row, k);
    lemma_fundamental_div_mod_converse(row, n, i, j);
    lemma_div_denominator(p, n, n);
}

/// Whatever lies before `n * n * n` in row-major order has coordinates
/// below `n`.
proof fn lemma_position_in_cube(n: int, p: int)
    requires
        0 < n,
        0 <= p < n * n * n,
    ensures
        0 <= p / (n * n) < n,
        0 <= (p / n) % n < n,
        0 <= p % n < n,
{
    assert(0 < n * n) by (nonlinear_arith)
        requires
            0 < n,
    ;
    assert(n * n * n == (n * n) * n);
    lemma_multiply_divide_lt(p, n * n, n);
    assert(0 <= p / (n * n)) by (nonlinear_arith)
        requires
            0 < n * n,
            0 <= p,
    ;
    assert(0 <= p / n) by (nonlinear_arith)
        requires
            0 < n,
            0 <= p,
    ;
}

/// The coordinate grids of one axis in three dimensions: in the first grid
/// cell `(i, j, k)` holds `x[i]`, in the second `x[j]`, in the third `x[k]`.
/// Each grid is a cube whose side is the length of `x`.
pub fn meshgrid<T: Copy>(x: &Vec<T>) -> (r: (Grid3<T>, Grid3<T>, Grid3<T>))
    requires
        x@.len() * x@.len() * x@.len() <= usize::MAX,
    ensures
        r.0.wf() && r.1.wf() && r.2.wf(),
        r.0.side_len() == x@.len() && r.1.side_len() == x@.len() && r.2.side_len() == x@.len(),
        forall|i: int, j: int, k: int|
            0 <= i < x@.len() && 0 <= j < x@.len() && 0 <= k < x@.len() ==> {
                &&& #[trigger] r.0.at(i, j, k) == x@[i]
                &&& r.1.at(i, j, k) == x@[j]
                &&& r.2.at(i, j, k) == x@[k]
            },
{
    let n = x.len();
    let ghost m = n as int;
    if n == 0 {
        let e0 = Grid3 { side: 0, cells: Vec::new() };
        let e1 = Grid3 { side: 0, cells: Vec::new() };
        let e2 = Grid3 { side: 0, cells: Vec::new() };
        return (e0, e1, e2);
    }
    assert(m * m <= m * m * m) by (nonlinear_arith)
        requires
            0 < m,
    ;
    let plane = n * n;
    let total = plane * n;
    let mut xx: Vec<T> = Vec::new();
    let mut yy: Vec<T> = Vec::new();
    let mut zz: Vec<T> = Vec::new();
    let mut p: usize = 0;
    while p < total
        invariant
            n == x@.len(),
            m == n as int,
            0 < n,
            plane == m * m,
            total == m * m * m,
            p <= total,
            xx@.len() == p && yy@.len() == p && zz@.len() == p,
            forall|q: int|
                0 <= q < p ==> {
                    &&& #[trigger] xx@[q] == x@[q / (m * m)]
                    &&& yy@[q] == x@[(q / m) % m]
                    &&& zz@[q] == x@[q % m]
                },
        decreases total - p,
    {
        proof {
            lemma_position_in_cube(m, p as int);
        }
        xx.push(x[p / plane]);
        yy.push(x[(p / n) % n]);
        zz.push(x[p % n]);
        p = p + 1;
    }
    proof {
        assert forall|i: int, j: int, k: int|
            0 <= i < m && 0 <= j < m && 0 <= k < m implies {
                &&& xx@[cube_index(m, i, j, k)] == x@[i]
                &&& yy@[cube_index(m, i, j, k)] == x@[j]
                &&& zz@[cube_index(m, i, j, k)] == x@[k]
            } by {
            lemma_cube_position(m, i, j, k);
        }
    }
    (Grid3 { side: n, cells: xx }, Grid3 { side: n, cells: yy }, Grid3 { side: n, cells: zz })
}

} // verus!
