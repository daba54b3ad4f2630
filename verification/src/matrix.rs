//! Rectangular matrices of scalars: construction, the affine transforms that
//! are pure placement of entries, transposition and submatrices.
//!
//! Products, determinants and inverses round their results and are computed by
//! the caller; what they need of the structure (the transpose, the submatrix
//! that a minor is taken of, the sign of a cofactor) is here.

use vstd::prelude::*;
use crate::scalar::Scalar;
use crate::scalar::ONE_BITS;

verus! {

/// The mathematical content of a matrix: its dimensions and its entries, row
/// by row.
pub struct Grid {
    pub rows: nat,
    pub cols: nat,
    pub cells: Seq<Seq<Scalar>>,
}

impl Grid {
    /// Every row is there and has the full width.
    pub open spec fn wf(self) -> bool {
        &&& self.cells.len() == self.rows
        &&& forall|r: int| 0 <= r < self.rows ==> (#[trigger] self.cells[r]).len() == self.cols
    }

    /// The grid of the given dimensions whose entry at `(r, c)` is `f(r, c)`.
    pub open spec fn build(rows: nat, cols: nat, f: spec_fn(int, int) -> Scalar) -> Grid {
        Grid { rows, cols, cells: Seq::new(rows, |r: int| Seq::new(cols, |c: int| f(r, c))) }
    }

    /// All entries are positive zero.
    pub open spec fn zeros(rows: nat, cols: nat) -> Grid {
        Grid::build(rows, cols, |r: int, c: int| Scalar { bits: 0 })
    }

    /// The 4×4 identity.
    pub open spec fn identity() -> Grid {
        Grid::build(
            4,
            4,
            |r: int, c: int|
                if r == c {
                    Scalar { bits: ONE_BITS }
                } else {
                    Scalar { bits: 0 }
                },
        )
    }

    /// The grid with the entry at `(row, col)` replaced.
    pub open spec fn put(self, row: int, col: int, value: Scalar) -> Grid {
        Grid::build(
            self.rows,
            self.cols,
            |r: int, c: int|
                if r == row && c == col {
                    value
                } else {
                    self.cells[r][c]
                },
        )
    }

    /// Rows become columns.
    pub open spec fn transpose(self) -> Grid {
        Grid::build(self.cols, self.rows, |r: int, c: int| self.cells[c][r])
    }

    /// The grid without row `row` and column `col`.
    pub open spec fn submatrix(self, row: int, col: int) -> Grid {
        Grid::build(
            (self.rows - 1) as nat,
            (self.cols - 1) as nat,
            |r: int, c: int|
                self.cells[if r < row {
                    r
                } else {
                    r + 1
                }][if c < col {
                    c
                } else {
                    c + 1
                }],
        )
    }
}

/// A matrix of `rows` × `cols` scalars.
#[derive(Debug)]
pub struct Matrix {
    data: Vec<Vec<Scalar>>,
    rows: usize,
    cols: usize,
}

impl View for Matrix {
    type V = Grid;

    closed spec fn view(&self) -> Grid {
        Grid::build(self.rows as nat, self.cols as nat, |r: int, c: int| self.data@[r]@[c])
    }
}

impl Matrix {
    #[verifier::type_invariant]
    spec fn well_formed(self) -> bool {
        &&& self.data@.len() == self.rows
        &&& forall|r: int| 0 <= r < self.rows ==> (#[trigger] self.data@[r]).len() == self.cols
    }

    /// The view of a matrix always has the shape its dimensions say.
    pub proof fn lemma_view_wf(&self)
        ensures
            self@.wf(),
    {
    }

    /// A matrix of the given dimensions, filled with positive zero.
    pub fn new(rows: usize, cols: usize) -> (m: Matrix)
        ensures
            m@ == Grid::zeros(rows as nat, cols as nat),
    {
        let mut data: Vec<Vec<Scalar>> = Vec::new();
        let mut r: usize = 0;
        while r < rows
            invariant
                r <= rows,
                data@.len() == r,
                forall|i: int| 0 <= i < r ==> (#[trigger] data@[i]).len() == cols,
                forall|i: int, j: int|
                    0 <= i < r && 0 <= j < cols ==> (#[trigger] data@[i]@[j]).bits == 0,
            decreases rows - r,
        {
            let mut row: Vec<Scalar> = Vec::new();
            let mut c: usize = 0;
            while c < cols
                invariant
                    c <= cols,
                    row@.len() == c,
                    forall|j: int| 0 <= j < c ==> (#[trigger] row@[j]).bits == 0,
                decreases cols - c,
            {
                row.push(Scalar::zero());
                c += 1;
            }
            data.push(row);
            r += 1;
        }
        let m = Matrix { data, rows, cols };
        proof {
            let z = Grid::zeros(rows as nat, cols as nat);
            assert(m@.rows == z.rows);
            assert(m@.cols == z.cols);
            assert(m@.cells.len() == z.cells.len());
            assert forall|i: int| 0 <= i < rows implies #[trigger] m@.cells[i] =~= z.cells[i] by {
                assert(m@.cells[i].len() == cols);
                assert(z.cells[i].len() == cols);
                assert forall|j: int| 0 <= j < cols implies m@.cells[i][j] == z.cells[i][j] by {
                    assert(data@[i]@[j].bits == 0);
                }
            }
            assert(m@.cells =~= z.cells);
        }
        m
    }

    /// The matrix whose rows are the given vectors. Its width is the length of
    /// the first row, and 0 when there is none.
    pub fn from_vec(data: Vec<Vec<Scalar>>) -> (m: Matrix)
        requires
            forall|r: int| 0 <= r < data@.len() ==> (#[trigger] data@[r]).len() == data@[0].len(),
        ensures
            m@.rows == data@.len(),
            m@.cols == (if data@.len() > 0 {
                data@[0].len()
            } else {
                0
            }),
            forall|r: int, c: int|
                0 <= r < m@.rows && 0 <= c < m@.cols ==> #[trigger] m@.cells[r][c] == data@[r]@[c],
    {
        let rows: usize = data.len();
        let cols: usize = if rows > 0 {
            data[0].len()
        } else {
            0
        };
        Matrix { data, rows, cols }
    }

    /// The matrix whose rows are the given vectors, or `None` where they
    /// differ in length.
    pub fn try_from_vec(data: Vec<Vec<Scalar>>) -> (found: Option<Matrix>)
        ensures
            found is Some <==> forall|r: int|
                0 <= r < data@.len() ==> (#[trigger] data@[r]).len() == data@[0].len(),
            found matches Some(m) ==> {
                &&& m@.rows == data@.len()
                &&& m@.cols == (if data@.len() > 0 {
                    data@[0].len()
                } else {
                    0
                })
                &&& forall|r: int, c: int|
                    0 <= r < m@.rows && 0 <= c < m@.cols ==> #[trigger] m@.cells[r][c]
                        == data@[r]@[c]
            },
    {
        let mut r: usize = 0;
        while r < data.len()
            invariant
                r <= data@.len(),
                forall|i: int| 0 <= i < r ==> (#[trigger] data@[i]).len() == data@[0].len(),
            decreases data@.len() - r,
        {
            if data[r].len() != data[0].len() {
                return None;
            }
            r += 1;
        }
        Some(Matrix::from_vec(data))
    }

    /// The number of rows.
    pub fn rows(&self) -> (n: usize)
        ensures
            n == self@.rows,
    {
        self.rows
    }

    /// The number of columns.
    pub fn cols(&self) -> (n: usize)
        ensures
            n == self@.cols,
    {
        self.cols
    }

    /// The entry at `(row, col)`.
    pub fn at(&self, row: usize, col: usize) -> (value: Scalar)
        requires
            row < self@.rows,
            col < self@.cols,
        ensures
            value == self@.cells[row as int][col as int],
    {
        proof {
            use_type_invariant(self);
        }
        self.data[row][col]
    }

    /// Replaces the entry at `(row, col)`.
    pub fn set(&mut self, row: usize, col: usize, value: Scalar)
        requires
            row < old(self)@.rows,
            col < old(self)@.cols,
        ensures
            final(self)@ == old(self)@.put(row as int, col as int, value),
    {
        let mut taken = Matrix { data: Vec::new(), rows: 0, cols: 0 };
        core::mem::swap(self, &mut taken);
        proof {
            use_type_invariant(&taken);
        }
        let Matrix { mut data, rows, cols } = taken;
        data[row][col] = value;
        let m = Matrix { data, rows, cols };
        proof {
            lemma_grid_eq(m@, old(self)@.put(row as int, col as int, value));
        }
        *self = m;
    }

    /// The 4×4 identity matrix.
    pub fn identity() -> (m: Matrix)
        ensures
            m@ == Grid::identity(),
    {
        let one = Scalar::one();
        let zero = Scalar::zero();
        let data: Vec<Vec<Scalar>> = vec![
            vec![one, zero, zero, zero],
            vec![zero, one, zero, zero],
            vec![zero, zero, one, zero],
            vec![zero, zero, zero, one],
        ];
        let m = Matrix { data, rows: 4, cols: 4 };
        proof {
            lemma_grid_eq(m@, Grid::identity());
        }
        m
    }

    /// The transform that moves a point by `(x, y, z)`.
    pub fn translation(x: Scalar, y: Scalar, z: Scalar) -> (m: Matrix)
        ensures
            m@ == Grid::identity().put(0, 3, x).put(1, 3, y).put(2, 3, z),
    {
        let mut m = Matrix::identity();
        m.set(0, 3, x);
        m.set(1, 3, y);
        m.set(2, 3, z);
        m
    }

    /// The transform that scales by `x`, `y` and `z` along the three axes.
    pub fn scaling(x: Scalar, y: Scalar, z: Scalar) -> (m: Matrix)
        ensures
            m@ == Grid::identity().put(0, 0, x).put(1, 1, y).put(2, 2, z),
    {
        let mut m = Matrix::identity();
        m.set(0, 0, x);
        m.set(1, 1, y);
        m.set(2, 2, z);
        m
    }

    /// The rotation around the x axis by the angle whose cosine and sine are
    /// given.
    pub fn rotation_x(cos_r: Scalar, sin_r: Scalar) -> (m: Matrix)
        ensures
            m@ == Grid::identity().put(1, 1, cos_r).put(1, 2, sin_r.spec_neg()).put(2, 1, sin_r).put(
                2,
                2,
                cos_r,
            ),
    {
        let mut m = Matrix::identity();
        m.set(1, 1, cos_r);
        m.set(1, 2, sin_r.neg());
        m.set(2, 1, sin_r);
        m.set(2, 2, cos_r);
        m
    }

    /// The rotation around the y axis by the angle whose cosine and sine are
    /// given.
    pub fn rotation_y(cos_r: Scalar, sin_r: Scalar) -> (m: Matrix)
        ensures
            m@ == Grid::identity().put(0, 0, cos_r).put(0, 2, sin_r).put(2, 0, sin_r.spec_neg()).put(
                2,
                2,
                cos_r,
            ),
    {
        let mut m = Matrix::identity();
        m.set(0, 0, cos_r);
        m.set(0, 2, sin_r);
        m.set(2, 0, sin_r.neg());
        m.set(2, 2, cos_r);
        m
    }

    /// The rotation around the z axis by the angle whose cosine and sine are
    /// given.
    pub fn rotation_z(cos_r: Scalar, sin_r: Scalar) -> (m: Matrix)
        ensures
            m@ == Grid::identity().put(0, 0, cos_r).put(0, 1, sin_r.spec_neg()).put(1, 0, sin_r).put(
                1,
                1,
                cos_r,
            ),
    {
        let mut m = Matrix::identity();
        m.set(0, 0, cos_r);
        m.set(0, 1, sin_r.neg());
        m.set(1, 0, sin_r);
        m.set(1, 1, cos_r);
        m
    }

    /// The shear that moves each coordinate in proportion to the two others.
    pub fn shearing(xy: Scalar, xz: Scalar, yx: Scalar, yz: Scalar, zx: Scalar, zy: Scalar) -> (m:
        Matrix)
        ensures
            m@ == Grid::identity().put(0, 1, xy).put(0, 2, xz).put(1, 0, yx).put(1, 2, yz).put(
                2,
                0,
                zx,
            ).put(2, 1, zy),
    {
        let mut m = Matrix::identity();
        m.set(0, 1, xy);
        m.set(0, 2, xz);
        m.set(1, 0, yx);
        m.set(1, 2, yz);
        m.set(2, 0, zx);
        m.set(2, 1, zy);
        m
    }

    /// The transposed matrix.
    pub fn transpose(&self) -> (t: Matrix)
        ensures
            t@ == self@.transpose(),
    {
        proof {
            use_type_invariant(self);
        }
        let mut data: Vec<Vec<Scalar>> = Vec::new();
        let mut c: usize = 0;
        while c < self.cols
            invariant
                c <= self.cols,
                self.data@.len() == self.rows,
                forall|i: int| 0 <= i < self.rows ==> (#[trigger] self.data@[i]).len() == self.cols,
                data@.len() == c,
                forall|i: int| 0 <= i < c ==> (#[trigger] data@[i]).len() == self.rows,
                forall|i: int, j: int|
                    0 <= i < c && 0 <= j < self.rows ==> #[trigger] data@[i]@[j]
                        == self.data@[j]@[i],
            decreases self.cols - c,
        {
            let mut line: Vec<Scalar> = Vec::new();
            let mut r: usize = 0;
            while r < self.rows
                invariant
                    r <= self.rows,
                    c < self.cols,
                    self.data@.len() == self.rows,
                    forall|i: int|
                        0 <= i < self.rows ==> (#[trigger] self.data@[i]).len() == self.cols,
                    line@.len() == r,
                    forall|j: int| 0 <= j < r ==> #[trigger] line@[j] == self.data@[j]@[c as int],
                decreases self.rows - r,
            {
                line.push(self.data[r][c]);
                r += 1;
            }
            data.push(line);
            c += 1;
        }
        let t = Matrix { data, rows: self.cols, cols: self.rows };
        proof {
            lemma_grid_eq(t@, self@.transpose());
        }
        t
    }

    /// The matrix without row `row` and column `col`.
    pub fn submatrix(&self, row: usize, col: usize) -> (sub: Matrix)
        requires
            row < self@.rows,
            col < self@.cols,
        ensures
            sub@ == self@.submatrix(row as int, col as int),
    {
        proof {
            use_type_invariant(self);
        }
        let mut data: Vec<Vec<Scalar>> = Vec::new();
        let mut r: usize = 0;
        while r < self.rows
            invariant
                r <= self.rows,
                row < self.rows,
                col < self.cols,
                self.data@.len() == self.rows,
                forall|i: int| 0 <= i < self.rows ==> (#[trigger] self.data@[i]).len() == self.cols,
                data@.len() == (if r <= row {
                    r as int
                } else {
                    r - 1
                }),
                forall|i: int| 0 <= i < data@.len() ==> (#[trigger] data@[i]).len() == self.cols - 1,
                forall|i: int, j: int|
                    0 <= i < data@.len() && 0 <= j < self.cols - 1 ==> #[trigger] data@[i]@[j]
                        == self.data@[if i < row {
                        i
                    } else {
                        i + 1
                    }]@[if j < col {
                        j
                    } else {
                        j + 1
                    }],
            decreases self.rows - r,
        {
            if r != row {
                let mut line: Vec<Scalar> = Vec::new();
                let mut c: usize = 0;
                while c < self.cols
                    invariant
                        c <= self.cols,
                        r < self.rows,
                        col < self.cols,
                        self.data@.len() == self.rows,
                        forall|i: int|
                            0 <= i < self.rows ==> (#[trigger] self.data@[i]).len() == self.cols,
                        line@.len() == (if c <= col {
                            c as int
                        } else {
                            c - 1
                        }),
                        forall|j: int|
                            0 <= j < line@.len() ==> #[trigger] line@[j] == self.data@[r as int]@[if j
                                < col {
                                j
                            } else {
                                j + 1
                            }],
                    decreases self.cols - c,
                {
                    if c != col {
                        line.push(self.data[r][c]);
                    }
                    c += 1;
                }
                data.push(line);
            }
            r += 1;
        }
        let sub = Matrix { data, rows: self.rows - 1, cols: self.cols - 1 };
        proof {
            lemma_grid_eq(sub@, self@.submatrix(row as int, col as int));
        }
        sub
    }
}

impl Clone for Matrix {
    fn clone(&self) -> (m: Matrix)
        ensures
            m@ == self@,
    {
        proof {
            use_type_invariant(self);
        }
        let mut data: Vec<Vec<Scalar>> = Vec::new();
        let mut r: usize = 0;
        while r < self.rows
            invariant
                r <= self.rows,
                self.data@.len() == self.rows,
                forall|i: int| 0 <= i < self.rows ==> (#[trigger] self.data@[i]).len() == self.cols,
                data@.len() == r,
                forall|i: int| 0 <= i < r ==> (#[trigger] data@[i]).len() == self.cols,
                forall|i: int, j: int|
                    0 <= i < r && 0 <= j < self.cols ==> #[trigger] data@[i]@[j]
                        == self.data@[i]@[j],
            decreases self.rows - r,
        {
            let mut line: Vec<Scalar> = Vec::new();
            let mut c: usize = 0;
            while c < self.cols
                invariant
                    c <= self.cols,
                    r < self.rows,
                    self.data@.len() == self.rows,
                    forall|i: int|
                        0 <= i < self.rows ==> (#[trigger] self.data@[i]).len() == self.cols,
                    line@.len() == c,
                    forall|j: int| 0 <= j < c ==> #[trigger] line@[j] == self.data@[r as int]@[j],
                decreases self.cols - c,
            {
                line.push(self.data[r][c]);
                c += 1;
            }
            data.push(line);
            r += 1;
        }
        let m = Matrix { data, rows: self.rows, cols: self.cols };
        proof {
            lemma_grid_eq(m@, self@);
        }
        m
    }
}

/// The cofactor that belongs to a minor: the minor itself where `row + col` is
/// even, the negated minor where it is odd.
pub fn cofactor_of_minor(minor: Scalar, row: usize, col: usize) -> (cofactor: Scalar)
    ensures
        cofactor == (if (row + col) % 2 == 0 {
            minor
        } else {
            minor.spec_neg()
        }),
{
    if row % 2 == col % 2 {
        minor
    } else {
        minor.neg()
    }
}

/// Transposing twice gives the grid back.
pub proof fn lemma_transpose_involution(g: Grid)
    requires
        g.wf(),
    ensures
        g.transpose().transpose() == g,
{
    lemma_grid_eq(g.transpose().transpose(), g);
}

/// The identity is its own transpose.
pub proof fn lemma_identity_symmetric()
    ensures
        Grid::identity().transpose() == Grid::identity(),
{
    lemma_grid_eq(Grid::identity().transpose(), Grid::identity());
}

/// Removing a row and a column and then transposing is transposing and then
/// removing the column and the row.
pub proof fn lemma_submatrix_of_transpose(g: Grid, row: int, col: int)
    requires
        g.wf(),
        0 <= row < g.rows,
        0 <= col < g.cols,
    ensures
        g.submatrix(row, col).transpose() == g.transpose().submatrix(col, row),
{
    lemma_grid_eq(g.submatrix(row, col).transpose(), g.transpose().submatrix(col, row));
}

/// Two grids of the same shape with the same entries are the same grid.
pub proof fn lemma_grid_eq(a: Grid, b: Grid)
    requires
        a.wf(),
        b.wf(),
        a.rows == b.rows,
        a.cols == b.cols,
        forall|r: int, c: int|
            0 <= r < a.rows && 0 <= c < a.cols ==> #[trigger] a.cells[r][c] == b.cells[r][c],
    ensures
        a == b,
{
    assert forall|r: int| 0 <= r < a.rows implies #[trigger] a.cells[r] =~= b.cells[r] by {
        assert forall|c: int| 0 <= c < a.cols implies a.cells[r][c] == b.cells[r][c] by {}
    }
    assert(a.cells =~= b.cells);
}

} // verus!
