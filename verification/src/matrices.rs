//! Fixed 4x4 and 3x3 matrices over fixed-point scalars: products, transpose,
//! determinant, and inversion through the adjugate.

use vstd::prelude::*;

use crate::fixed::{
    fx_add, fx_add_spec, fx_div, fx_div_spec, fx_mul, fx_mul_spec, fx_sub, fx_sub_spec, FX_ONE,
};

verus! {

/// A 4x4 fixed-point matrix in row-major order.
#[derive(Debug, Clone, Copy)]
pub struct Mat4x4 {
    pub mat: [[i64; 4]; 4],
}

/// A 3x3 fixed-point matrix in row-major order.
#[derive(Debug, Clone, Copy)]
pub struct Mat3x3 {
    pub mat: [[i64; 3]; 3],
}

/// Row `i` of the product of a 4x4 matrix and a column vector, summed left
/// to right with saturating fixed-point operations.
pub open spec fn m4v_entry(m: [[i64; 4]; 4], v: [i64; 4], i: int) -> int {
    fx_add_spec(
        fx_add_spec(
            fx_add_spec(
                fx_mul_spec(m[i][0] as int, v[0] as int),
                fx_mul_spec(m[i][1] as int, v[1] as int),
            ),
            fx_mul_spec(m[i][2] as int, v[2] as int),
        ),
        fx_mul_spec(m[i][3] as int, v[3] as int),
    )
}

/// Entry `(y, x)` of the product of two 4x4 matrices.
pub open spec fn m4m_entry(a: [[i64; 4]; 4], b: [[i64; 4]; 4], y: int, x: int) -> int {
    fx_add_spec(
        fx_add_spec(
            fx_add_spec(
                fx_mul_spec(a[y][0] as int, b[0][x] as int),
                fx_mul_spec(a[y][1] as int, b[1][x] as int),
            ),
            fx_mul_spec(a[y][2] as int, b[2][x] as int),
        ),
        fx_mul_spec(a[y][3] as int, b[3][x] as int),
    )
}

fn dot4(m: &Mat4x4, v: &[i64; 4], i: usize) -> (r: i64)
    requires
        i < 4,
    ensures
        r as int == m4v_entry(m.mat, *v, i as int),
{
    fx_add(
        fx_add(
            fx_add(fx_mul(m.mat[i][0], v[0]), fx_mul(m.mat[i][1], v[1])),
            fx_mul(m.mat[i][2], v[2]),
        ),
        fx_mul(m.mat[i][3], v[3]),
    )
}

fn dotmm4(a: &Mat4x4, b: &Mat4x4, y: usize, x: usize) -> (r: i64)
    requires
        y < 4,
        x < 4,
    ensures
        r as int == m4m_entry(a.mat, b.mat, y as int, x as int),
{
    fx_add(
        fx_add(
            fx_add(fx_mul(a.mat[y][0], b.mat[0][x]), fx_mul(a.mat[y][1], b.mat[1][x])),
            fx_mul(a.mat[y][2], b.mat[2][x]),
        ),
        fx_mul(a.mat[y][3], b.mat[3][x]),
    )
}

impl Mat4x4 {
    /// The identity matrix.
    pub fn new() -> (m: Mat4x4)
        ensures
            forall|y: int, x: int|
                0 <= y < 4 && 0 <= x < 4 ==> m.mat[y][x] == if y == x {
                    FX_ONE
                } else {
                    0i64
                },
    {
        Mat4x4 {
            mat: [
                [FX_ONE, 0, 0, 0],
                [0, FX_ONE, 0, 0],
                [0, 0, FX_ONE, 0],
                [0, 0, 0, FX_ONE],
            ],
        }
    }

    /// The product of the matrix and a column vector.
    pub fn mul_vec(&self, rhs: [i64; 4]) -> (r: [i64; 4])
        ensures
            forall|i: int| 0 <= i < 4 ==> r[i] as int == m4v_entry(self.mat, rhs, i),
    {
        [dot4(self, &rhs, 0), dot4(self, &rhs, 1), dot4(self, &rhs, 2), dot4(self, &rhs, 3)]
    }

    /// The product of two matrices.
    pub fn mul_mat(&self, rhs: &Mat4x4) -> (r: Mat4x4)
        ensures
            forall|y: int, x: int|
                0 <= y < 4 && 0 <= x < 4 ==> r.mat[y][x] as int == m4m_entry(
                    self.mat,
                    rhs.mat,
                    y,
                    x,
                ),
    {
        Mat4x4 {
            mat: [
                [
                    dotmm4(self, rhs, 0, 0),
                    dotmm4(self, rhs, 0, 1),
                    dotmm4(self, rhs, 0, 2),
                    dotmm4(self, rhs, 0, 3),
                ],
                [
                    dotmm4(self, rhs, 1, 0),
                    dotmm4(self, rhs, 1, 1),
                    dotmm4(self, rhs, 1, 2),
                    dotmm4(self, rhs, 1, 3),
                ],
                [
                    dotmm4(self, rhs, 2, 0),
                    dotmm4(self, rhs, 2, 1),
                    dotmm4(self, rhs, 2, 2),
                    dotmm4(self, rhs, 2, 3),
                ],
                [
                    dotmm4(self, rhs, 3, 0),
                    dotmm4(self, rhs, 3, 1),
                    dotmm4(self, rhs, 3, 2),
                    dotmm4(self, rhs, 3, 3),
                ],
            ],
        }
    }
}

/// Row `i` of the product of a 3x3 matrix and a column vector.
pub open spec fn m3v_entry(m: [[i64; 3]; 3], v: [i64; 3], i: int) -> int {
    fx_add_spec(
        fx_add_spec(
            fx_mul_spec(m[i][0] as int, v[0] as int),
            fx_mul_spec(m[i][1] as int, v[1] as int),
        ),
        fx_mul_spec(m[i][2] as int, v[2] as int),
    )
}

/// The signed 2x2 minor `m[a][c] * m[b][d] - m[a][d] * m[b][c]`.
pub open spec fn minor_spec(m: [[i64; 3]; 3], a: int, b: int, c: int, d: int) -> int {
    fx_sub_spec(
        fx_mul_spec(m[a][c] as int, m[b][d] as int),
        fx_mul_spec(m[a][d] as int, m[b][c] as int),
    )
}

/// The determinant: the cofactor expansion along the first row, accumulated
/// left to right with saturating operations.
pub open spec fn det3_spec(m: [[i64; 3]; 3]) -> int {
    fx_add_spec(
        fx_sub_spec(
            fx_mul_spec(m[0][0] as int, minor_spec(m, 1, 2, 1, 2)),
            fx_mul_spec(m[0][1] as int, minor_spec(m, 1, 2, 0, 2)),
        ),
        fx_mul_spec(m[0][2] as int, minor_spec(m, 1, 2, 0, 1)),
    )
}

/// Entry `(y, x)` of the adjugate scaled by `scale`: the cofactor of entry
/// `(x, y)` times the scale factor.
pub open spec fn adj_entry_spec(m: [[i64; 3]; 3], x: int, y: int, scale: int) -> int {
    let a = if x == 0 { 1int } else { 0int };
    let b = if x == 2 { 1int } else { 2int };
    let c = if x == 1 { (y + 2) % 3 } else { (y + 1) % 3 };
    let d = if x == 1 { (y + 1) % 3 } else { (y + 2) % 3 };
    fx_mul_spec(scale, minor_spec(m, a, b, c, d))
}

fn minor3(m: &Mat3x3, a: usize, b: usize, c: usize, d: usize) -> (r: i64)
    requires
        a < 3,
        b < 3,
        c < 3,
        d < 3,
    ensures
        r as int == minor_spec(m.mat, a as int, b as int, c as int, d as int),
{
    fx_sub(fx_mul(m.mat[a][c], m.mat[b][d]), fx_mul(m.mat[a][d], m.mat[b][c]))
}

fn adj_entry(m: &Mat3x3, x: usize, y: usize, scale: i64) -> (r: i64)
    requires
        x < 3,
        y < 3,
    ensures
        r as int == adj_entry_spec(m.mat, x as int, y as int, scale as int),
{
    let a: usize = if x == 0 { 1 } else { 0 };
    let b: usize = if x == 2 { 1 } else { 2 };
    let c: usize = if x == 1 { (y + 2) % 3 } else { (y + 1) % 3 };
    let d: usize = if x == 1 { (y + 1) % 3 } else { (y + 2) % 3 };
    fx_mul(scale, minor3(m, a, b, c, d))
}

fn dot3(m: &Mat3x3, v: &[i64; 3], i: usize) -> (r: i64)
    requires
        i < 3,
    ensures
        r as int == m3v_entry(m.mat, *v, i as int),
{
    fx_add(
        fx_add(fx_mul(m.mat[i][0], v[0]), fx_mul(m.mat[i][1], v[1])),
        fx_mul(m.mat[i][2], v[2]),
    )
}

impl Mat3x3 {
    /// The identity matrix.
    pub fn new() -> (m: Mat3x3)
        ensures
            forall|y: int, x: int|
                0 <= y < 3 && 0 <= x < 3 ==> m.mat[y][x] == if y == x {
                    FX_ONE
                } else {
                    0i64
                },
    {
        Mat3x3 { mat: [[FX_ONE, 0, 0], [0, FX_ONE, 0], [0, 0, FX_ONE]] }
    }

    /// Exchanges the entries at `(x0, y0)` and `(x1, y1)`.
    pub fn swap(&mut self, x0: usize, y0: usize, x1: usize, y1: usize)
        requires
            x0 < 3,
            y0 < 3,
            x1 < 3,
            y1 < 3,
        ensures
            final(self).mat[y0 as int][x0 as int] == old(self).mat[y1 as int][x1 as int],
            final(self).mat[y1 as int][x1 as int] == old(self).mat[y0 as int][x0 as int],
            forall|y: int, x: int|
                0 <= y < 3 && 0 <= x < 3 && !(y == y0 && x == x0) && !(y == y1 && x == x1)
                    ==> final(self).mat[y][x] == old(self).mat[y][x],
    {
        let v0 = self.mat[y0][x0];
        let v1 = self.mat[y1][x1];
        self.mat[y0][x0] = v1;
        self.mat[y1][x1] = v0;
    }

    /// The transposed matrix.
    pub fn transpose(self) -> (r: Mat3x3)
        ensures
            forall|y: int, x: int|
                0 <= y < 3 && 0 <= x < 3 ==> r.mat[y][x] == self.mat[x][y],
    {
        Mat3x3 {
            mat: [
                [self.mat[0][0], self.mat[1][0], self.mat[2][0]],
                [self.mat[0][1], self.mat[1][1], self.mat[2][1]],
                [self.mat[0][2], self.mat[1][2], self.mat[2][2]],
            ],
        }
    }

    /// The determinant.
    pub fn determinant(&self) -> (r: i64)
        ensures
            r as int == det3_spec(self.mat),
    {
        fx_add(
            fx_sub(
                fx_mul(self.mat[0][0], minor3(self, 1, 2, 1, 2)),
                fx_mul(self.mat[0][1], minor3(self, 1, 2, 0, 2)),
            ),
            fx_mul(self.mat[0][2], minor3(self, 1, 2, 0, 1)),
        )
    }

    /// The adjugate matrix with every entry scaled by `scale`.
    pub fn adjoint_scaled(self, scale: i64) -> (r: Mat3x3)
        ensures
            forall|y: int, x: int|
                0 <= y < 3 && 0 <= x < 3 ==> r.mat[y][x] as int == adj_entry_spec(
                    self.mat,
                    x,
                    y,
                    scale as int,
                ),
    {
        Mat3x3 {
            mat: [
                [
                    adj_entry(&self, 0, 0, scale),
                    adj_entry(&self, 1, 0, scale),
                    adj_entry(&self, 2, 0, scale),
                ],
                [
                    adj_entry(&self, 0, 1, scale),
                    adj_entry(&self, 1, 1, scale),
                    adj_entry(&self, 2, 1, scale),
                ],
                [
                    adj_entry(&self, 0, 2, scale),
                    adj_entry(&self, 1, 2, scale),
                    adj_entry(&self, 2, 2, scale),
                ],
            ],
        }
    }

    /// The inverse through the adjugate and the determinant's reciprocal.
    /// A singular matrix saturates the reciprocal instead of failing;
    /// inverting one is the caller's mistake either way.
    pub fn inverse(self) -> (r: Mat3x3)
        ensures
            forall|y: int, x: int|
                0 <= y < 3 && 0 <= x < 3 ==> r.mat[y][x] as int == adj_entry_spec(
                    self.mat,
                    x,
                    y,
                    fx_div_spec(FX_ONE as int, det3_spec(self.mat)),
                ),
    {
        let inv_determinant = fx_div(FX_ONE, self.determinant());
        self.adjoint_scaled(inv_determinant)
    }

    /// The product of the matrix and a column vector.
    pub fn mul_vec(&self, rhs: [i64; 3]) -> (r: [i64; 3])
        ensures
            forall|i: int| 0 <= i < 3 ==> r[i] as int == m3v_entry(self.mat, rhs, i),
    {
        [dot3(self, &rhs, 0), dot3(self, &rhs, 1), dot3(self, &rhs, 2)]
    }

    /// The entry-wise difference of two matrices.
    pub fn sub(self, other: Mat3x3) -> (r: Mat3x3)
        ensures
            forall|y: int, x: int|
                0 <= y < 3 && 0 <= x < 3 ==> r.mat[y][x] as int == fx_sub_spec(
                    self.mat[y][x] as int,
                    other.mat[y][x] as int,
                ),
    {
        Mat3x3 {
            mat: [
                [
                    fx_sub(self.mat[0][0], other.mat[0][0]),
                    fx_sub(self.mat[0][1], other.mat[0][1]),
                    fx_sub(self.mat[0][2], other.mat[0][2]),
                ],
                [
                    fx_sub(self.mat[1][0], other.mat[1][0]),
                    fx_sub(self.mat[1][1], other.mat[1][1]),
                    fx_sub(self.mat[1][2], other.mat[1][2]),
                ],
                [
                    fx_sub(self.mat[2][0], other.mat[2][0]),
                    fx_sub(self.mat[2][1], other.mat[2][1]),
                    fx_sub(self.mat[2][2], other.mat[2][2]),
                ],
            ],
        }
    }
}

impl From<Mat4x4> for Mat3x3 {
    /// The upper-left 3x3 block of a 4x4 matrix.
    fn from(value: Mat4x4) -> (r: Mat3x3) {
        Mat3x3 {
            mat: [
                [value.mat[0][0], value.mat[0][1], value.mat[0][2]],
                [value.mat[1][0], value.mat[1][1], value.mat[1][2]],
                [value.mat[2][0], value.mat[2][1], value.mat[2][2]],
            ],
        }
    }
}

impl vstd::std_specs::convert::FromSpecImpl<Mat4x4> for Mat3x3 {
    open spec fn obeys_from_spec() -> bool {
        true
    }

    open spec fn from_spec(value: Mat4x4) -> Mat3x3 {
        Mat3x3 {
            mat: [
                [value.mat[0][0], value.mat[0][1], value.mat[0][2]],
                [value.mat[1][0], value.mat[1][1], value.mat[1][2]],
                [value.mat[2][0], value.mat[2][1], value.mat[2][2]],
            ],
        }
    }
}


/// The product of a 4x4 matrix and a column vector as a value.
pub open spec fn m4v_val(m: [[i64; 4]; 4], v: [i64; 4]) -> [i64; 4] {
    [
        m4v_entry(m, v, 0) as i64,
        m4v_entry(m, v, 1) as i64,
        m4v_entry(m, v, 2) as i64,
        m4v_entry(m, v, 3) as i64,
    ]
}

/// The product of two 4x4 matrices as a value.
pub open spec fn m4_mul_val(a: [[i64; 4]; 4], b: [[i64; 4]; 4]) -> [[i64; 4]; 4] {
    [
        [
            m4m_entry(a, b, 0, 0) as i64,
            m4m_entry(a, b, 0, 1) as i64,
            m4m_entry(a, b, 0, 2) as i64,
            m4m_entry(a, b, 0, 3) as i64,
        ],
        [
            m4m_entry(a, b, 1, 0) as i64,
            m4m_entry(a, b, 1, 1) as i64,
            m4m_entry(a, b, 1, 2) as i64,
            m4m_entry(a, b, 1, 3) as i64,
        ],
        [
            m4m_entry(a, b, 2, 0) as i64,
            m4m_entry(a, b, 2, 1) as i64,
            m4m_entry(a, b, 2, 2) as i64,
            m4m_entry(a, b, 2, 3) as i64,
        ],
        [
            m4m_entry(a, b, 3, 0) as i64,
            m4m_entry(a, b, 3, 1) as i64,
            m4m_entry(a, b, 3, 2) as i64,
            m4m_entry(a, b, 3, 3) as i64,
        ],
    ]
}

/// The product of a 3x3 matrix and a column vector as a value.
pub open spec fn m3v_val(m: [[i64; 3]; 3], v: [i64; 3]) -> [i64; 3] {
    [m3v_entry(m, v, 0) as i64, m3v_entry(m, v, 1) as i64, m3v_entry(m, v, 2) as i64]
}

/// The transpose of a 3x3 matrix as a value.
pub open spec fn m3_transpose_val(m: [[i64; 3]; 3]) -> [[i64; 3]; 3] {
    [
        [m[0][0], m[1][0], m[2][0]],
        [m[0][1], m[1][1], m[2][1]],
        [m[0][2], m[1][2], m[2][2]],
    ]
}

/// The upper-left 3x3 block of a 4x4 matrix as a value.
pub open spec fn m3_from4_val(m: [[i64; 4]; 4]) -> [[i64; 3]; 3] {
    [
        [m[0][0], m[0][1], m[0][2]],
        [m[1][0], m[1][1], m[1][2]],
        [m[2][0], m[2][1], m[2][2]],
    ]
}

/// The adjugate of a 3x3 matrix scaled by `scale`, as a value.
pub open spec fn m3_adjoint_val(m: [[i64; 3]; 3], scale: int) -> [[i64; 3]; 3] {
    [
        [
            adj_entry_spec(m, 0, 0, scale) as i64,
            adj_entry_spec(m, 1, 0, scale) as i64,
            adj_entry_spec(m, 2, 0, scale) as i64,
        ],
        [
            adj_entry_spec(m, 0, 1, scale) as i64,
            adj_entry_spec(m, 1, 1, scale) as i64,
            adj_entry_spec(m, 2, 1, scale) as i64,
        ],
        [
            adj_entry_spec(m, 0, 2, scale) as i64,
            adj_entry_spec(m, 1, 2, scale) as i64,
            adj_entry_spec(m, 2, 2, scale) as i64,
        ],
    ]
}

/// The inverse of a 3x3 matrix as a value: the adjugate scaled by the
/// determinant's saturating reciprocal.
pub open spec fn m3_inverse_val(m: [[i64; 3]; 3]) -> [[i64; 3]; 3] {
    m3_adjoint_val(m, fx_div_spec(FX_ONE as int, det3_spec(m)))
}

/// A 4x4 matrix whose every entry carries the product's entry value is the
/// product value.
pub proof fn lemma_m4_val(r: [[i64; 4]; 4], a: [[i64; 4]; 4], b: [[i64; 4]; 4])
    requires
        forall|y: int, x: int|
            0 <= y < 4 && 0 <= x < 4 ==> #[trigger] r[y][x] as int == m4m_entry(a, b, y, x),
    ensures
        r == m4_mul_val(a, b),
{
    broadcast use vstd::array::group_array_axioms;

    let v = m4_mul_val(a, b);
    assert forall|y: int| 0 <= y < 4 implies r[y] == v[y] by {
        assert forall|x: int| 0 <= x < 4 implies r[y][x] == v[y][x] by {
            assert(r[y][x] as int == m4m_entry(a, b, y, x));
        }
        assert(r[y] =~= v[y]);
    }
    assert(r =~= v);
}

/// A column vector whose every entry carries the product's entry value is
/// the product value.
pub proof fn lemma_m4v_val(r: [i64; 4], m: [[i64; 4]; 4], v: [i64; 4])
    requires
        forall|i: int| 0 <= i < 4 ==> #[trigger] r[i] as int == m4v_entry(m, v, i),
    ensures
        r == m4v_val(m, v),
{
    broadcast use vstd::array::group_array_axioms;

    let val = m4v_val(m, v);
    assert forall|i: int| 0 <= i < 4 implies r[i] == val[i] by {
        assert(r[i] as int == m4v_entry(m, v, i));
    }
    assert(r =~= val);
}

/// A column vector whose every entry carries the product's entry value is
/// the product value.
pub proof fn lemma_m3v_val(r: [i64; 3], m: [[i64; 3]; 3], v: [i64; 3])
    requires
        forall|i: int| 0 <= i < 3 ==> #[trigger] r[i] as int == m3v_entry(m, v, i),
    ensures
        r == m3v_val(m, v),
{
    broadcast use vstd::array::group_array_axioms;

    let val = m3v_val(m, v);
    assert forall|i: int| 0 <= i < 3 implies r[i] == val[i] by {
        assert(r[i] as int == m3v_entry(m, v, i));
    }
    assert(r =~= val);
}

/// A 3x3 matrix whose every entry carries the scaled adjugate's entry value
/// is the scaled adjugate value.
pub proof fn lemma_m3_adjoint_val(r: [[i64; 3]; 3], m: [[i64; 3]; 3], scale: int)
    requires
        forall|y: int, x: int|
            0 <= y < 3 && 0 <= x < 3 ==> #[trigger] r[y][x] as int == adj_entry_spec(m, x, y, scale),
    ensures
        r == m3_adjoint_val(m, scale),
{
    broadcast use vstd::array::group_array_axioms;

    let v = m3_adjoint_val(m, scale);
    assert forall|y: int| 0 <= y < 3 implies r[y] == v[y] by {
        assert forall|x: int| 0 <= x < 3 implies r[y][x] == v[y][x] by {
            assert(r[y][x] as int == adj_entry_spec(m, x, y, scale));
        }
        assert(r[y] =~= v[y]);
    }
    assert(r =~= v);
}

/// A 3x3 matrix whose entries are the transposed entries is the transpose
/// value.
pub proof fn lemma_m3_transpose_val(r: [[i64; 3]; 3], m: [[i64; 3]; 3])
    requires
        forall|y: int, x: int| 0 <= y < 3 && 0 <= x < 3 ==> #[trigger] r[y][x] == m[x][y],
    ensures
        r == m3_transpose_val(m),
{
    broadcast use vstd::array::group_array_axioms;

    let v = m3_transpose_val(m);
    assert forall|y: int| 0 <= y < 3 implies r[y] == v[y] by {
        assert forall|x: int| 0 <= x < 3 implies r[y][x] == v[y][x] by {
            assert(r[y][x] == m[x][y]);
        }
        assert(r[y] =~= v[y]);
    }
    assert(r =~= v);
}

} // verus!
