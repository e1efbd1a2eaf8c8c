//! Fixed-size square matrices of binary64 scalars (sizes 2, 3 and 4), with
//! transposition, cofactor-expansion determinants, general inversion, and —
//! for the 4×4 size — affine-transform constructors, fluent composition and
//! products with points and vectors.
//!
//! A matrix is viewed as a square grid `Seq<Seq<u64>>` of bit patterns.
//! Default equality is exact componentwise IEEE 754 equality; the separate
//! `equal_approx` uses the shared 1e-5 tolerance.

use vstd::prelude::*;

use crate::fp::F_ONE;
use crate::fp::F_ZERO;
use crate::fp::add_bits;
use crate::fp::cos_bits;
use crate::fp::div_bits;
use crate::fp::eq_bits;
use crate::fp::f64_eq;
use crate::fp::f64_neg;
use crate::fp::fadd;
use crate::fp::fcos;
use crate::fp::fdiv;
use crate::fp::fmul;
use crate::fp::fsin;
use crate::fp::fsub;
use crate::fp::mul_bits;
use crate::fp::neg_bits;
use crate::fp::sin_bits;
use crate::fp::sub_bits;
use crate::vec4::Vec4;
use crate::vec4::equal_approx;
use crate::vec4::f64_approx_eq;

verus! {

/// An error of the kernel.
#[derive(Copy, Clone, Debug, PartialEq, Eq, Structural)]
pub enum KernelError {
    /// A matrix whose determinant is exactly 0.0 cannot be inverted.
    DegenerateMatrix,
}

/// Whether `g` is a square grid with `n` rows of `n` entries.
pub open spec fn grid_wf(g: Seq<Seq<u64>>, n: int) -> bool {
    &&& g.len() == n
    &&& forall|i: int| 0 <= i < n ==> (#[trigger] g[i]).len() == n
}

/// The index into the full grid for index `i` of a grid from which row or
/// column `e` was dropped.
pub open spec fn skip_index(i: int, e: int) -> int {
    if i < e {
        i
    } else {
        i + 1
    }
}

/// The grid `g` with row `er` and column `ec` dropped.
pub open spec fn grid_sub(g: Seq<Seq<u64>>, n: int, er: int, ec: int) -> Seq<Seq<u64>> {
    Seq::new((n - 1) as nat, |i: int| Seq::new((n - 1) as nat, |j: int|
        g[skip_index(i, er)][skip_index(j, ec)]))
}

/// The transpose of `g`: entry `(i, j)` is `g[j][i]`.
pub open spec fn grid_transpose(g: Seq<Seq<u64>>) -> Seq<Seq<u64>> {
    Seq::new(g.len(), |i: int| Seq::new(g.len(), |j: int| g[j][i]))
}

/// The determinant of a 2×2 grid: `ad - bc`.
pub open spec fn det2(g: Seq<Seq<u64>>) -> u64 {
    fsub(fmul(g[0][0], g[1][1]), fmul(g[0][1], g[1][0]))
}

/// The minor of a 3×3 grid at `(r, c)`: the determinant of the grid with
/// row `r` and column `c` dropped.
pub open spec fn minor3(g: Seq<Seq<u64>>, r: int, c: int) -> u64 {
    det2(grid_sub(g, 3, r, c))
}

/// The cofactor of a 3×3 grid at `(r, c)`: the minor, negated when
/// `r + c` is odd.
pub open spec fn cof3(g: Seq<Seq<u64>>, r: int, c: int) -> u64 {
    if (r + c) % 2 == 0 {
        minor3(g, r, c)
    } else {
        f64_neg(minor3(g, r, c))
    }
}

/// The determinant of a 3×3 grid: cofactor expansion along row 0, the
/// terms summed left to right.
pub open spec fn det3(g: Seq<Seq<u64>>) -> u64 {
    fadd(
        fadd(fmul(g[0][0], cof3(g, 0, 0)), fmul(g[0][1], cof3(g, 0, 1))),
        fmul(g[0][2], cof3(g, 0, 2)),
    )
}

/// The minor of a 4×4 grid at `(r, c)`.
pub open spec fn minor4(g: Seq<Seq<u64>>, r: int, c: int) -> u64 {
    det3(grid_sub(g, 4, r, c))
}

/// The cofactor of a 4×4 grid at `(r, c)`.
pub open spec fn cof4(g: Seq<Seq<u64>>, r: int, c: int) -> u64 {
    if (r + c) % 2 == 0 {
        minor4(g, r, c)
    } else {
        f64_neg(minor4(g, r, c))
    }
}

/// The determinant of a 4×4 grid: cofactor expansion along row 0, the
/// terms summed left to right.
pub open spec fn det4(g: Seq<Seq<u64>>) -> u64 {
    fadd(
        fadd(
            fadd(fmul(g[0][0], cof4(g, 0, 0)), fmul(g[0][1], cof4(g, 0, 1))),
            fmul(g[0][2], cof4(g, 0, 2)),
        ),
        fmul(g[0][3], cof4(g, 0, 3)),
    )
}

/// The inverse of a 4×4 grid with non-zero determinant: entry `(i, j)` is
/// the cofactor at `(j, i)` — note the transposition — divided by the
/// determinant.
pub open spec fn grid_inv4(g: Seq<Seq<u64>>) -> Seq<Seq<u64>> {
    Seq::new(4, |i: int| Seq::new(4, |j: int| fdiv(cof4(g, j, i), det4(g))))
}

/// Entry `(r, c)` of the product of two 4×4 grids: the dot product of row
/// `r` of `a` and column `c` of `b`, summed left to right.
pub open spec fn mul4_entry(a: Seq<Seq<u64>>, b: Seq<Seq<u64>>, r: int, c: int) -> u64 {
    fadd(
        fadd(
            fadd(fmul(a[r][0], b[0][c]), fmul(a[r][1], b[1][c])),
            fmul(a[r][2], b[2][c]),
        ),
        fmul(a[r][3], b[3][c]),
    )
}

/// The product of two 4×4 grids.
pub open spec fn mul4(a: Seq<Seq<u64>>, b: Seq<Seq<u64>>) -> Seq<Seq<u64>> {
    Seq::new(4, |r: int| Seq::new(4, |c: int| mul4_entry(a, b, r, c)))
}

/// One component of the product of a 4×4 grid and a 4-component value:
/// row `r` dotted with `(x, y, z, w)`, summed left to right.
pub open spec fn mulvec4_entry(g: Seq<Seq<u64>>, v: Vec4, r: int) -> u64 {
    fadd(
        fadd(fadd(fmul(g[r][0], v.x), fmul(g[r][1], v.y)), fmul(g[r][2], v.z)),
        fmul(g[r][3], v.w),
    )
}

/// The product of a 4×4 grid and a 4-component value.
pub open spec fn mulvec4(g: Seq<Seq<u64>>, v: Vec4) -> Vec4 {
    (Vec4 {
        x: mulvec4_entry(g, v, 0),
        y: mulvec4_entry(g, v, 1),
        z: mulvec4_entry(g, v, 2),
        w: mulvec4_entry(g, v, 3),
    })
}

/// The 4×4 identity grid.
pub open spec fn grid_id4() -> Seq<Seq<u64>> {
    seq![
        seq![F_ONE, F_ZERO, F_ZERO, F_ZERO],
        seq![F_ZERO, F_ONE, F_ZERO, F_ZERO],
        seq![F_ZERO, F_ZERO, F_ONE, F_ZERO],
        seq![F_ZERO, F_ZERO, F_ZERO, F_ONE],
    ]
}

/// The translation grid: the identity with `(x, y, z)` in the last column.
pub open spec fn grid_translation(x: u64, y: u64, z: u64) -> Seq<Seq<u64>> {
    seq![
        seq![F_ONE, F_ZERO, F_ZERO, x],
        seq![F_ZERO, F_ONE, F_ZERO, y],
        seq![F_ZERO, F_ZERO, F_ONE, z],
        seq![F_ZERO, F_ZERO, F_ZERO, F_ONE],
    ]
}

/// The scaling grid: `(x, y, z, 1)` on the diagonal.
pub open spec fn grid_scaling(x: u64, y: u64, z: u64) -> Seq<Seq<u64>> {
    seq![
        seq![x, F_ZERO, F_ZERO, F_ZERO],
        seq![F_ZERO, y, F_ZERO, F_ZERO],
        seq![F_ZERO, F_ZERO, z, F_ZERO],
        seq![F_ZERO, F_ZERO, F_ZERO, F_ONE],
    ]
}

/// The grid of a rotation about the x axis with cosine `c` and sine `s`.
pub open spec fn grid_rotation_x(c: u64, s: u64) -> Seq<Seq<u64>> {
    seq![
        seq![F_ONE, F_ZERO, F_ZERO, F_ZERO],
        seq![F_ZERO, c, f64_neg(s), F_ZERO],
        seq![F_ZERO, s, c, F_ZERO],
        seq![F_ZERO, F_ZERO, F_ZERO, F_ONE],
    ]
}

/// The grid of a rotation about the y axis with cosine `c` and sine `s`.
pub open spec fn grid_rotation_y(c: u64, s: u64) -> Seq<Seq<u64>> {
    seq![
        seq![c, F_ZERO, s, F_ZERO],
        seq![F_ZERO, F_ONE, F_ZERO, F_ZERO],
        seq![f64_neg(s), F_ZERO, c, F_ZERO],
        seq![F_ZERO, F_ZERO, F_ZERO, F_ONE],
    ]
}

/// The grid of a rotation about the z axis with cosine `c` and sine `s`.
pub open spec fn grid_rotation_z(c: u64, s: u64) -> Seq<Seq<u64>> {
    seq![
        seq![c, f64_neg(s), F_ZERO, F_ZERO],
        seq![s, c, F_ZERO, F_ZERO],
        seq![F_ZERO, F_ZERO, F_ONE, F_ZERO],
        seq![F_ZERO, F_ZERO, F_ZERO, F_ONE],
    ]
}

/// The shearing grid: the identity with the six shear factors off the
/// diagonal of the upper-left 3×3 block.
pub open spec fn grid_shearing(xy: u64, xz: u64, yx: u64, yz: u64, zx: u64, zy: u64)
    -> Seq<Seq<u64>> {
    seq![
        seq![F_ONE, xy, xz, F_ZERO],
        seq![yx, F_ONE, yz, F_ZERO],
        seq![zx, zy, F_ONE, F_ZERO],
        seq![F_ZERO, F_ZERO, F_ZERO, F_ONE],
    ]
}

/// Law: transposing a square grid twice gives back the grid.
pub proof fn lemma_transpose_involutive(g: Seq<Seq<u64>>, n: int)
    requires
        grid_wf(g, n),
    ensures
        grid_transpose(grid_transpose(g)) == g,
{
    let tt = grid_transpose(grid_transpose(g));
    assert forall|i: int| 0 <= i < n implies tt[i] =~= g[i] by {
        assert forall|j: int| 0 <= j < n implies tt[i][j] == g[i][j] by {}
    }
    assert(tt =~= g);
}

/// Law: the identity grid is its own transpose.
pub proof fn lemma_transpose_identity()
    ensures
        grid_transpose(grid_id4()) == grid_id4(),
{
    let t = grid_transpose(grid_id4());
    assert forall|i: int| 0 <= i < 4 implies t[i] =~= grid_id4()[i] by {
        assert forall|j: int| 0 <= j < 4 implies t[i][j] == grid_id4()[i][j] by {}
    }
    assert(t =~= grid_id4());
}

/// Law: a 4×4 matrix transposed twice is the matrix itself.
pub proof fn lemma_mat4_transpose_involutive(m: Mat4)
    ensures
        grid_transpose(grid_transpose(m@)) == m@,
{
    assert(grid_wf(m@, 4));
    lemma_transpose_involutive(m@, 4);
}

/// A 4×4 matrix of binary64 bit patterns.
#[derive(Copy, Clone, Debug)]
pub struct Mat4 {
    pub data: [[u64; 4]; 4],
}

/// A 3×3 matrix of binary64 bit patterns.
#[derive(Copy, Clone, Debug)]
pub struct Mat3 {
    pub data: [[u64; 3]; 3],
}

/// A 2×2 matrix of binary64 bit patterns.
#[derive(Copy, Clone, Debug)]
pub struct Mat2 {
    pub data: [[u64; 2]; 2],
}

impl View for Mat4 {
    type V = Seq<Seq<u64>>;

    open spec fn view(&self) -> Seq<Seq<u64>> {
        self.data.deep_view()
    }
}

impl View for Mat3 {
    type V = Seq<Seq<u64>>;

    open spec fn view(&self) -> Seq<Seq<u64>> {
        self.data.deep_view()
    }
}

impl View for Mat2 {
    type V = Seq<Seq<u64>>;

    open spec fn view(&self) -> Seq<Seq<u64>> {
        self.data.deep_view()
    }
}

impl Mat4 {
    /// A matrix with the given entries, row by row.
    pub fn new(data: [[u64; 4]; 4]) -> (m: Mat4)
        ensures
            m@ == data.deep_view(),
            forall|i: int, j: int| 0 <= i < 4 && 0 <= j < 4 ==> #[trigger] m@[i][j] == data[i][j],
    {
        Mat4 { data }
    }

    /// The matrix with every entry 0.0.
    pub fn zeros() -> (m: Mat4)
        ensures
            grid_wf(m@, 4),
            forall|i: int, j: int| 0 <= i < 4 && 0 <= j < 4 ==> #[trigger] m@[i][j] == F_ZERO,
    {
        Mat4 { data: [[F_ZERO; 4]; 4] }
    }

    /// The transpose: entry `(i, j)` of the result is entry `(j, i)` of
    /// `self`.
    pub fn transposed(&self) -> (m: Mat4)
        ensures
            m@ == grid_transpose(self@),
    {
        let d = &self.data;
        let m = Mat4 {
            data: [
                [d[0][0], d[1][0], d[2][0], d[3][0]],
                [d[0][1], d[1][1], d[2][1], d[3][1]],
                [d[0][2], d[1][2], d[2][2], d[3][2]],
                [d[0][3], d[1][3], d[2][3], d[3][3]],
            ],
        };
        proof {
            assert forall|i: int| 0 <= i < 4 implies m@[i] =~= grid_transpose(self@)[i] by {
                assert forall|j: int| 0 <= j < 4 implies m@[i][j] == grid_transpose(self@)[i][j]
                by {
                }
            }
            assert(m@ =~= grid_transpose(self@));
        }
        m
    }

    /// Whether all sixteen entries of `self` and `other` are approximately
    /// equal (1e-5 tolerance).
    pub fn equal_approx(&self, other: &Mat4) -> (r: bool)
        ensures
            r == grid_approx_eq(self@, other@, 4),
    {
        for row in 0..4usize
            invariant
                forall|i: int, j: int| 0 <= i < row && 0 <= j < 4 ==> f64_approx_eq(
                    #[trigger] self@[i][j],
                    other@[i][j],
                ),
        {
            for col in 0..4usize
                invariant
                    row < 4,
                    forall|i: int, j: int| 0 <= i < row && 0 <= j < 4 ==> f64_approx_eq(
                        #[trigger] self@[i][j],
                        other@[i][j],
                    ),
                    forall|j: int| 0 <= j < col ==> f64_approx_eq(
                        #[trigger] self@[row as int][j],
                        other@[row as int][j],
                    ),
            {
                if !equal_approx(self.data[row][col], other.data[row][col]) {
                    proof {
                        assert(!f64_approx_eq(
                            self@[row as int][col as int],
                            other@[row as int][col as int],
                        ));
                    }
                    return false;
                }
            }
        }
        true
    }
}

/// The index into the full grid for index `i` of a grid from which row or
/// column `e` was dropped.
fn skip_idx(i: usize, e: usize) -> (r: usize)
    requires
        i < 8,
    ensures
        r as int == skip_index(i as int, e as int),
{
    if i < e {
        i
    } else {
        i + 1
    }
}

impl Mat4 {
    /// The 4×4 identity matrix.
    pub fn id() -> (m: Mat4)
        ensures
            m@ == grid_id4(),
    {
        let m = Mat4 {
            data: [
                [F_ONE, F_ZERO, F_ZERO, F_ZERO],
                [F_ZERO, F_ONE, F_ZERO, F_ZERO],
                [F_ZERO, F_ZERO, F_ONE, F_ZERO],
                [F_ZERO, F_ZERO, F_ZERO, F_ONE],
            ],
        };
        proof {
            assert forall|i: int| 0 <= i < 4 implies m@[i] =~= grid_id4()[i] by {
                assert forall|j: int| 0 <= j < 4 implies m@[i][j] == grid_id4()[i][j] by {}
            }
            assert(m@ =~= grid_id4());
        }
        m
    }

    /// The translation by `(x, y, z)`.
    pub fn new_translation(x: u64, y: u64, z: u64) -> (m: Mat4)
        ensures
            m@ == grid_translation(x, y, z),
    {
        let m = Mat4 {
            data: [
                [F_ONE, F_ZERO, F_ZERO, x],
                [F_ZERO, F_ONE, F_ZERO, y],
                [F_ZERO, F_ZERO, F_ONE, z],
                [F_ZERO, F_ZERO, F_ZERO, F_ONE],
            ],
        };
        proof {
            let g = grid_translation(x, y, z);
            assert forall|i: int| 0 <= i < 4 implies m@[i] =~= g[i] by {
                assert forall|j: int| 0 <= j < 4 implies m@[i][j] == g[i][j] by {}
            }
            assert(m@ =~= g);
        }
        m
    }

    /// The scaling by `(x, y, z)`.
    pub fn new_scaling(x: u64, y: u64, z: u64) -> (m: Mat4)
        ensures
            m@ == grid_scaling(x, y, z),
    {
        let m = Mat4 {
            data: [
                [x, F_ZERO, F_ZERO, F_ZERO],
                [F_ZERO, y, F_ZERO, F_ZERO],
                [F_ZERO, F_ZERO, z, F_ZERO],
                [F_ZERO, F_ZERO, F_ZERO, F_ONE],
            ],
        };
        proof {
            let g = grid_scaling(x, y, z);
            assert forall|i: int| 0 <= i < 4 implies m@[i] =~= g[i] by {
                assert forall|j: int| 0 <= j < 4 implies m@[i][j] == g[i][j] by {}
            }
            assert(m@ =~= g);
        }
        m
    }

    /// The rotation about the x axis by `r` radians.
    pub fn new_rotation_x(r: u64) -> (m: Mat4)
        ensures
            m@ == grid_rotation_x(fcos(r), fsin(r)),
    {
        let c = cos_bits(r);
        let s = sin_bits(r);
        let m = Mat4 {
            data: [
                [F_ONE, F_ZERO, F_ZERO, F_ZERO],
                [F_ZERO, c, neg_bits(s), F_ZERO],
                [F_ZERO, s, c, F_ZERO],
                [F_ZERO, F_ZERO, F_ZERO, F_ONE],
            ],
        };
        proof {
            let g = grid_rotation_x(fcos(r), fsin(r));
            assert forall|i: int| 0 <= i < 4 implies m@[i] =~= g[i] by {
                assert forall|j: int| 0 <= j < 4 implies m@[i][j] == g[i][j] by {}
            }
            assert(m@ =~= g);
        }
        m
    }

    /// The rotation about the y axis by `r` radians.
    pub fn new_rotation_y(r: u64) -> (m: Mat4)
        ensures
            m@ == grid_rotation_y(fcos(r), fsin(r)),
    {
        let c = cos_bits(r);
        let s = sin_bits(r);
        let m = Mat4 {
            data: [
                [c, F_ZERO, s, F_ZERO],
                [F_ZERO, F_ONE, F_ZERO, F_ZERO],
                [neg_bits(s), F_ZERO, c, F_ZERO],
                [F_ZERO, F_ZERO, F_ZERO, F_ONE],
            ],
        };
        proof {
            let g = grid_rotation_y(fcos(r), fsin(r));
            assert forall|i: int| 0 <= i < 4 implies m@[i] =~= g[i] by {
                assert forall|j: int| 0 <= j < 4 implies m@[i][j] == g[i][j] by {}
            }
            assert(m@ =~= g);
        }
        m
    }

    /// The rotation about the z axis by `r` radians.
    pub fn new_rotation_z(r: u64) -> (m: Mat4)
        ensures
            m@ == grid_rotation_z(fcos(r), fsin(r)),
    {
        let c = cos_bits(r);
        let s = sin_bits(r);
        let m = Mat4 {
            data: [
                [c, neg_bits(s), F_ZERO, F_ZERO],
                [s, c, F_ZERO, F_ZERO],
                [F_ZERO, F_ZERO, F_ONE, F_ZERO],
                [F_ZERO, F_ZERO, F_ZERO, F_ONE],
            ],
        };
        proof {
            let g = grid_rotation_z(fcos(r), fsin(r));
            assert forall|i: int| 0 <= i < 4 implies m@[i] =~= g[i] by {
                assert forall|j: int| 0 <= j < 4 implies m@[i][j] == g[i][j] by {}
            }
            assert(m@ =~= g);
        }
        m
    }

    /// The shearing with the six given factors.
    pub fn new_shearing(xy: u64, xz: u64, yx: u64, yz: u64, zx: u64, zy: u64) -> (m: Mat4)
        ensures
            m@ == grid_shearing(xy, xz, yx, yz, zx, zy),
    {
        let m = Mat4 {
            data: [
                [F_ONE, xy, xz, F_ZERO],
                [yx, F_ONE, yz, F_ZERO],
                [zx, zy, F_ONE, F_ZERO],
                [F_ZERO, F_ZERO, F_ZERO, F_ONE],
            ],
        };
        proof {
            let g = grid_shearing(xy, xz, yx, yz, zx, zy);
            assert forall|i: int| 0 <= i < 4 implies m@[i] =~= g[i] by {
                assert forall|j: int| 0 <= j < 4 implies m@[i][j] == g[i][j] by {}
            }
            assert(m@ =~= g);
        }
        m
    }

    /// Entry `(r, c)` of the product `self * other`.
    fn dot4(&self, other: &Mat4, r: usize, c: usize) -> (e: u64)
        requires
            r < 4,
            c < 4,
        ensures
            e == mul4_entry(self@, other@, r as int, c as int),
    {
        add_bits(
            add_bits(
                add_bits(
                    mul_bits(self.data[r][0], other.data[0][c]),
                    mul_bits(self.data[r][1], other.data[1][c]),
                ),
                mul_bits(self.data[r][2], other.data[2][c]),
            ),
            mul_bits(self.data[r][3], other.data[3][c]),
        )
    }

    /// The matrix product `self * other`: entry `(r, c)` is row `r` of
    /// `self` dotted with column `c` of `other`. Not commutative.
    pub fn mul_mat(&self, other: &Mat4) -> (m: Mat4)
        ensures
            m@ == mul4(self@, other@),
    {
        let m = Mat4 {
            data: [
                [
                    self.dot4(other, 0, 0),
                    self.dot4(other, 0, 1),
                    self.dot4(other, 0, 2),
                    self.dot4(other, 0, 3),
                ],
                [
                    self.dot4(other, 1, 0),
                    self.dot4(other, 1, 1),
                    self.dot4(other, 1, 2),
                    self.dot4(other, 1, 3),
                ],
                [
                    self.dot4(other, 2, 0),
                    self.dot4(other, 2, 1),
                    self.dot4(other, 2, 2),
                    self.dot4(other, 2, 3),
                ],
                [
                    self.dot4(other, 3, 0),
                    self.dot4(other, 3, 1),
                    self.dot4(other, 3, 2),
                    self.dot4(other, 3, 3),
                ],
            ],
        };
        proof {
            let g = mul4(self@, other@);
            assert forall|i: int| 0 <= i < 4 implies m@[i] =~= g[i] by {
                assert forall|j: int| 0 <= j < 4 implies m@[i][j] == g[i][j] by {}
            }
            assert(m@ =~= g);
        }
        m
    }

    /// The product `self * v`: each component is the matching row of `self`
    /// dotted with the 4-component value.
    pub fn mul_vec(&self, v: &Vec4) -> (r: Vec4)
        ensures
            r == mulvec4(self@, *v),
    {
        Vec4 {
            x: add_bits(
                add_bits(
                    add_bits(mul_bits(self.data[0][0], v.x), mul_bits(self.data[0][1], v.y)),
                    mul_bits(self.data[0][2], v.z),
                ),
                mul_bits(self.data[0][3], v.w),
            ),
            y: add_bits(
                add_bits(
                    add_bits(mul_bits(self.data[1][0], v.x), mul_bits(self.data[1][1], v.y)),
                    mul_bits(self.data[1][2], v.z),
                ),
                mul_bits(self.data[1][3], v.w),
            ),
            z: add_bits(
                add_bits(
                    add_bits(mul_bits(self.data[2][0], v.x), mul_bits(self.data[2][1], v.y)),
                    mul_bits(self.data[2][2], v.z),
                ),
                mul_bits(self.data[2][3], v.w),
            ),
            w: add_bits(
                add_bits(
                    add_bits(mul_bits(self.data[3][0], v.x), mul_bits(self.data[3][1], v.y)),
                    mul_bits(self.data[3][2], v.z),
                ),
                mul_bits(self.data[3][3], v.w),
            ),
        }
    }

    /// `self` with a translation by `(x, y, z)` appended on the right.
    /// Because the product is later applied to a value on the left, the
    /// transform appended last acts on the value first.
    pub fn translate(&self, x: u64, y: u64, z: u64) -> (m: Mat4)
        ensures
            m@ == mul4(self@, grid_translation(x, y, z)),
    {
        self.mul_mat(&Mat4::new_translation(x, y, z))
    }

    /// `self` with a scaling by `(x, y, z)` appended on the right.
    pub fn scale(&self, x: u64, y: u64, z: u64) -> (m: Mat4)
        ensures
            m@ == mul4(self@, grid_scaling(x, y, z)),
    {
        self.mul_mat(&Mat4::new_scaling(x, y, z))
    }

    /// `self` with a rotation about the x axis appended on the right.
    pub fn rotate_x(&self, r: u64) -> (m: Mat4)
        ensures
            m@ == mul4(self@, grid_rotation_x(fcos(r), fsin(r))),
    {
        self.mul_mat(&Mat4::new_rotation_x(r))
    }

    /// `self` with a rotation about the y axis appended on the right.
    pub fn rotate_y(&self, r: u64) -> (m: Mat4)
        ensures
            m@ == mul4(self@, grid_rotation_y(fcos(r), fsin(r))),
    {
        self.mul_mat(&Mat4::new_rotation_y(r))
    }

    /// `self` with a rotation about the z axis appended on the right.
    pub fn rotate_z(&self, r: u64) -> (m: Mat4)
        ensures
            m@ == mul4(self@, grid_rotation_z(fcos(r), fsin(r))),
    {
        self.mul_mat(&Mat4::new_rotation_z(r))
    }

    /// `self` with a shearing appended on the right.
    pub fn shear(&self, xy: u64, xz: u64, yx: u64, yz: u64, zx: u64, zy: u64) -> (m: Mat4)
        ensures
            m@ == mul4(self@, grid_shearing(xy, xz, yx, yz, zx, zy)),
    {
        self.mul_mat(&Mat4::new_shearing(xy, xz, yx, yz, zx, zy))
    }

    /// The 3×3 matrix left after dropping the given row and column.
    /// Out-of-range indices are a precondition violation, not a recoverable
    /// error.
    pub fn submatrix(&self, row_to_exclude: usize, col_to_exclude: usize) -> (m: Mat3)
        requires
            row_to_exclude < 4,
            col_to_exclude < 4,
        ensures
            m@ == grid_sub(self@, 4, row_to_exclude as int, col_to_exclude as int),
    {
        let r0 = skip_idx(0, row_to_exclude);
        let r1 = skip_idx(1, row_to_exclude);
        let r2 = skip_idx(2, row_to_exclude);
        let c0 = skip_idx(0, col_to_exclude);
        let c1 = skip_idx(1, col_to_exclude);
        let c2 = skip_idx(2, col_to_exclude);
        let m = Mat3 {
            data: [
                [self.data[r0][c0], self.data[r0][c1], self.data[r0][c2]],
                [self.data[r1][c0], self.data[r1][c1], self.data[r1][c2]],
                [self.data[r2][c0], self.data[r2][c1], self.data[r2][c2]],
            ],
        };
        proof {
            let g = grid_sub(self@, 4, row_to_exclude as int, col_to_exclude as int);
            assert forall|i: int| 0 <= i < 3 implies m@[i] =~= g[i] by {
                assert forall|j: int| 0 <= j < 3 implies m@[i][j] == g[i][j] by {}
            }
            assert(m@ =~= g);
        }
        m
    }

    /// The minor at `(row, col)`: the determinant of the submatrix there.
    pub fn minor(&self, row: usize, col: usize) -> (r: u64)
        requires
            row < 4,
            col < 4,
        ensures
            r == minor4(self@, row as int, col as int),
    {
        self.submatrix(row, col).determinant()
    }

    /// The cofactor at `(row, col)`: the minor, negated when `row + col`
    /// is odd.
    pub fn cofactor(&self, row: usize, col: usize) -> (r: u64)
        requires
            row < 4,
            col < 4,
        ensures
            r == cof4(self@, row as int, col as int),
    {
        if (row + col) % 2 == 0 {
            self.minor(row, col)
        } else {
            neg_bits(self.minor(row, col))
        }
    }

    /// The determinant: cofactor expansion along row 0.
    pub fn determinant(&self) -> (r: u64)
        ensures
            r == det4(self@),
    {
        add_bits(
            add_bits(
                add_bits(
                    mul_bits(self.data[0][0], self.cofactor(0, 0)),
                    mul_bits(self.data[0][1], self.cofactor(0, 1)),
                ),
                mul_bits(self.data[0][2], self.cofactor(0, 2)),
            ),
            mul_bits(self.data[0][3], self.cofactor(0, 3)),
        )
    }

    /// The inverse, or `DegenerateMatrix` exactly when the determinant is
    /// 0.0. Entry `(col, row)` of the inverse is the cofactor at
    /// `(row, col)` divided by the determinant — built transposed.
    pub fn inverted(&self) -> (r: Result<Mat4, KernelError>)
        ensures
            f64_eq(det4(self@), F_ZERO) <==> r == Err::<Mat4, KernelError>(
                KernelError::DegenerateMatrix,
            ),
            !f64_eq(det4(self@), F_ZERO) ==> (r matches Ok(m) && m@ == grid_inv4(self@)),
    {
        let det = self.determinant();
        if eq_bits(det, F_ZERO) {
            return Err(KernelError::DegenerateMatrix);
        }
        let m = Mat4 {
            data: [
                [
                    div_bits(self.cofactor(0, 0), det),
                    div_bits(self.cofactor(1, 0), det),
                    div_bits(self.cofactor(2, 0), det),
                    div_bits(self.cofactor(3, 0), det),
                ],
                [
                    div_bits(self.cofactor(0, 1), det),
                    div_bits(self.cofactor(1, 1), det),
                    div_bits(self.cofactor(2, 1), det),
                    div_bits(self.cofactor(3, 1), det),
                ],
                [
                    div_bits(self.cofactor(0, 2), det),
                    div_bits(self.cofactor(1, 2), det),
                    div_bits(self.cofactor(2, 2), det),
                    div_bits(self.cofactor(3, 2), det),
                ],
                [
                    div_bits(self.cofactor(0, 3), det),
                    div_bits(self.cofactor(1, 3), det),
                    div_bits(self.cofactor(2, 3), det),
                    div_bits(self.cofactor(3, 3), det),
                ],
            ],
        };
        proof {
            let g = grid_inv4(self@);
            assert forall|i: int| 0 <= i < 4 implies m@[i] =~= g[i] by {
                assert forall|j: int| 0 <= j < 4 implies m@[i][j] == g[i][j] by {}
            }
            assert(m@ =~= g);
        }
        Ok(m)
    }
}

impl Mat3 {
    /// A matrix with the given entries, row by row.
    pub fn new(data: [[u64; 3]; 3]) -> (m: Mat3)
        ensures
            m@ == data.deep_view(),
            forall|i: int, j: int| 0 <= i < 3 && 0 <= j < 3 ==> #[trigger] m@[i][j] == data[i][j],
    {
        Mat3 { data }
    }

    /// The matrix with every entry 0.0.
    pub fn zeros() -> (m: Mat3)
        ensures
            grid_wf(m@, 3),
            forall|i: int, j: int| 0 <= i < 3 && 0 <= j < 3 ==> #[trigger] m@[i][j] == F_ZERO,
    {
        Mat3 { data: [[F_ZERO; 3]; 3] }
    }

    /// The transpose: entry `(i, j)` of the result is entry `(j, i)` of
    /// `self`.
    pub fn transposed(&self) -> (m: Mat3)
        ensures
            m@ == grid_transpose(self@),
    {
        let d = &self.data;
        let m = Mat3 {
            data: [
                [d[0][0], d[1][0], d[2][0]],
                [d[0][1], d[1][1], d[2][1]],
                [d[0][2], d[1][2], d[2][2]],
            ],
        };
        proof {
            assert forall|i: int| 0 <= i < 3 implies m@[i] =~= grid_transpose(self@)[i] by {
                assert forall|j: int| 0 <= j < 3 implies m@[i][j] == grid_transpose(self@)[i][j]
                by {
                }
            }
            assert(m@ =~= grid_transpose(self@));
        }
        m
    }

    /// Whether all nine entries of `self` and `other` are approximately
    /// equal (1e-5 tolerance).
    pub fn equal_approx(&self, other: &Mat3) -> (r: bool)
        ensures
            r == grid_approx_eq(self@, other@, 3),
    {
        for row in 0..3usize
            invariant
                forall|i: int, j: int| 0 <= i < row && 0 <= j < 3 ==> f64_approx_eq(
                    #[trigger] self@[i][j],
                    other@[i][j],
                ),
        {
            for col in 0..3usize
                invariant
                    row < 3,
                    forall|i: int, j: int| 0 <= i < row && 0 <= j < 3 ==> f64_approx_eq(
                        #[trigger] self@[i][j],
                        other@[i][j],
                    ),
                    forall|j: int| 0 <= j < col ==> f64_approx_eq(
                        #[trigger] self@[row as int][j],
                        other@[row as int][j],
                    ),
            {
                if !equal_approx(self.data[row][col], other.data[row][col]) {
                    proof {
                        assert(!f64_approx_eq(
                            self@[row as int][col as int],
                            other@[row as int][col as int],
                        ));
                    }
                    return false;
                }
            }
        }
        true
    }

    /// The 2×2 matrix left after dropping the given row and column.
    /// Out-of-range indices are a precondition violation, not a recoverable
    /// error.
    pub fn submatrix(&self, row_to_exclude: usize, col_to_exclude: usize) -> (m: Mat2)
        requires
            row_to_exclude < 3,
            col_to_exclude < 3,
        ensures
            m@ == grid_sub(self@, 3, row_to_exclude as int, col_to_exclude as int),
    {
        let r0 = skip_idx(0, row_to_exclude);
        let r1 = skip_idx(1, row_to_exclude);
        let c0 = skip_idx(0, col_to_exclude);
        let c1 = skip_idx(1, col_to_exclude);
        let m = Mat2 {
            data: [
                [self.data[r0][c0], self.data[r0][c1]],
                [self.data[r1][c0], self.data[r1][c1]],
            ],
        };
        proof {
            let g = grid_sub(self@, 3, row_to_exclude as int, col_to_exclude as int);
            assert forall|i: int| 0 <= i < 2 implies m@[i] =~= g[i] by {
                assert forall|j: int| 0 <= j < 2 implies m@[i][j] == g[i][j] by {}
            }
            assert(m@ =~= g);
        }
        m
    }

    /// The minor at `(row, col)`: the determinant of the submatrix there.
    pub fn minor(&self, row: usize, col: usize) -> (r: u64)
        requires
            row < 3,
            col < 3,
        ensures
            r == minor3(self@, row as int, col as int),
    {
        self.submatrix(row, col).determinant()
    }

    /// The cofactor at `(row, col)`: the minor, negated when `row + col`
    /// is odd.
    pub fn cofactor(&self, row: usize, col: usize) -> (r: u64)
        requires
            row < 3,
            col < 3,
        ensures
            r == cof3(self@, row as int, col as int),
    {
        if (row + col) % 2 == 0 {
            self.minor(row, col)
        } else {
            neg_bits(self.minor(row, col))
        }
    }

    /// The determinant: cofactor expansion along row 0.
    pub fn determinant(&self) -> (r: u64)
        ensures
            r == det3(self@),
    {
        add_bits(
            add_bits(
                mul_bits(self.data[0][0], self.cofactor(0, 0)),
                mul_bits(self.data[0][1], self.cofactor(0, 1)),
            ),
            mul_bits(self.data[0][2], self.cofactor(0, 2)),
        )
    }
}

impl PartialEq for Mat3 {
    /// Default matrix equality is exact componentwise IEEE 754 equality.
    fn eq(&self, other: &Mat3) -> (r: bool) {
        let mut row: usize = 0;
        while row < 3
            invariant
                row <= 3,
                forall|i: int, j: int| 0 <= i < row && 0 <= j < 3 ==> f64_eq(
                    #[trigger] self@[i][j],
                    other@[i][j],
                ),
            decreases 3 - row,
        {
            let mut col: usize = 0;
            while col < 3
                invariant
                    row < 3,
                    col <= 3,
                    forall|i: int, j: int| 0 <= i < row && 0 <= j < 3 ==> f64_eq(
                        #[trigger] self@[i][j],
                        other@[i][j],
                    ),
                    forall|j: int| 0 <= j < col ==> f64_eq(
                        #[trigger] self@[row as int][j],
                        other@[row as int][j],
                    ),
                decreases 3 - col,
            {
                if !eq_bits(self.data[row][col], other.data[row][col]) {
                    proof {
                        assert(!f64_eq(
                            self@[row as int][col as int],
                            other@[row as int][col as int],
                        ));
                    }
                    return false;
                }
                col = col + 1;
            }
            row = row + 1;
        }
        true
    }
}

impl vstd::std_specs::cmp::PartialEqSpecImpl for Mat3 {
    open spec fn obeys_eq_spec() -> bool {
        true
    }

    open spec fn eq_spec(&self, other: &Mat3) -> bool {
        grid_exact_eq(self@, other@, 3)
    }
}

impl Mat2 {
    /// A matrix with the given entries, row by row.
    pub fn new(data: [[u64; 2]; 2]) -> (m: Mat2)
        ensures
            m@ == data.deep_view(),
            forall|i: int, j: int| 0 <= i < 2 && 0 <= j < 2 ==> #[trigger] m@[i][j] == data[i][j],
    {
        Mat2 { data }
    }

    /// The matrix with every entry 0.0.
    pub fn zeros() -> (m: Mat2)
        ensures
            grid_wf(m@, 2),
            forall|i: int, j: int| 0 <= i < 2 && 0 <= j < 2 ==> #[trigger] m@[i][j] == F_ZERO,
    {
        Mat2 { data: [[F_ZERO; 2]; 2] }
    }

    /// The transpose: entry `(i, j)` of the result is entry `(j, i)` of
    /// `self`.
    pub fn transposed(&self) -> (m: Mat2)
        ensures
            m@ == grid_transpose(self@),
    {
        let d = &self.data;
        let m = Mat2 { data: [[d[0][0], d[1][0]], [d[0][1], d[1][1]]] };
        proof {
            assert forall|i: int| 0 <= i < 2 implies m@[i] =~= grid_transpose(self@)[i] by {
                assert forall|j: int| 0 <= j < 2 implies m@[i][j] == grid_transpose(self@)[i][j]
                by {
                }
            }
            assert(m@ =~= grid_transpose(self@));
        }
        m
    }

    /// Whether all four entries of `self` and `other` are approximately
    /// equal (1e-5 tolerance).
    pub fn equal_approx(&self, other: &Mat2) -> (r: bool)
        ensures
            r == grid_approx_eq(self@, other@, 2),
    {
        for row in 0..2usize
            invariant
                forall|i: int, j: int| 0 <= i < row && 0 <= j < 2 ==> f64_approx_eq(
                    #[trigger] self@[i][j],
                    other@[i][j],
                ),
        {
            for col in 0..2usize
                invariant
                    row < 2,
                    forall|i: int, j: int| 0 <= i < row && 0 <= j < 2 ==> f64_approx_eq(
                        #[trigger] self@[i][j],
                        other@[i][j],
                    ),
                    forall|j: int| 0 <= j < col ==> f64_approx_eq(
                        #[trigger] self@[row as int][j],
                        other@[row as int][j],
                    ),
            {
                if !equal_approx(self.data[row][col], other.data[row][col]) {
                    proof {
                        assert(!f64_approx_eq(
                            self@[row as int][col as int],
                            other@[row as int][col as int],
                        ));
                    }
                    return false;
                }
            }
        }
        true
    }

    /// The determinant: `ad - bc`.
    pub fn determinant(&self) -> (r: u64)
        ensures
            r == det2(self@),
    {
        sub_bits(
            mul_bits(self.data[0][0], self.data[1][1]),
            mul_bits(self.data[0][1], self.data[1][0]),
        )
    }
}

impl PartialEq for Mat2 {
    /// Default matrix equality is exact componentwise IEEE 754 equality.
    fn eq(&self, other: &Mat2) -> (r: bool) {
        let mut row: usize = 0;
        while row < 2
            invariant
                row <= 2,
                forall|i: int, j: int| 0 <= i < row && 0 <= j < 2 ==> f64_eq(
                    #[trigger] self@[i][j],
                    other@[i][j],
                ),
            decreases 2 - row,
        {
            let mut col: usize = 0;
            while col < 2
                invariant
                    row < 2,
                    col <= 2,
                    forall|i: int, j: int| 0 <= i < row && 0 <= j < 2 ==> f64_eq(
                        #[trigger] self@[i][j],
                        other@[i][j],
                    ),
                    forall|j: int| 0 <= j < col ==> f64_eq(
                        #[trigger] self@[row as int][j],
                        other@[row as int][j],
                    ),
                decreases 2 - col,
            {
                if !eq_bits(self.data[row][col], other.data[row][col]) {
                    proof {
                        assert(!f64_eq(
                            self@[row as int][col as int],
                            other@[row as int][col as int],
                        ));
                    }
                    return false;
                }
                col = col + 1;
            }
            row = row + 1;
        }
        true
    }
}

impl vstd::std_specs::cmp::PartialEqSpecImpl for Mat2 {
    open spec fn obeys_eq_spec() -> bool {
        true
    }

    open spec fn eq_spec(&self, other: &Mat2) -> bool {
        grid_exact_eq(self@, other@, 2)
    }
}

impl PartialEq for Mat4 {
    /// Default matrix equality is exact componentwise IEEE 754 equality.
    fn eq(&self, other: &Mat4) -> (r: bool) {
        let mut row: usize = 0;
        while row < 4
            invariant
                row <= 4,
                forall|i: int, j: int| 0 <= i < row && 0 <= j < 4 ==> f64_eq(
                    #[trigger] self@[i][j],
                    other@[i][j],
                ),
            decreases 4 - row,
        {
            let mut col: usize = 0;
            while col < 4
                invariant
                    row < 4,
                    col <= 4,
                    forall|i: int, j: int| 0 <= i < row && 0 <= j < 4 ==> f64_eq(
                        #[trigger] self@[i][j],
                        other@[i][j],
                    ),
                    forall|j: int| 0 <= j < col ==> f64_eq(
                        #[trigger] self@[row as int][j],
                        other@[row as int][j],
                    ),
                decreases 4 - col,
            {
                if !eq_bits(self.data[row][col], other.data[row][col]) {
                    proof {
                        assert(!f64_eq(
                            self@[row as int][col as int],
                            other@[row as int][col as int],
                        ));
                    }
                    return false;
                }
                col = col + 1;
            }
            row = row + 1;
        }
        true
    }
}

impl vstd::std_specs::cmp::PartialEqSpecImpl for Mat4 {
    open spec fn obeys_eq_spec() -> bool {
        true
    }

    open spec fn eq_spec(&self, other: &Mat4) -> bool {
        grid_exact_eq(self@, other@, 4)
    }
}

/// Whether the entries of two square grids of size `n` are pairwise
/// exactly equal as IEEE 754 values.
pub open spec fn grid_exact_eq(a: Seq<Seq<u64>>, b: Seq<Seq<u64>>, n: int) -> bool {
    forall|i: int, j: int| 0 <= i < n && 0 <= j < n ==> f64_eq(#[trigger] a[i][j], b[i][j])
}

/// Whether the entries of two square grids of size `n` are pairwise
/// approximately equal (1e-5 tolerance).
pub open spec fn grid_approx_eq(a: Seq<Seq<u64>>, b: Seq<Seq<u64>>, n: int) -> bool {
    forall|i: int, j: int| 0 <= i < n && 0 <= j < n ==> f64_approx_eq(#[trigger] a[i][j], b[i][j])
}

} // verus!
