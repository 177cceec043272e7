//! Four-by-four matrices: products, transposition, and the determinant and
//! inverse by cofactor expansion.
use crate::float::MyFloat;
use crate::matrix3::{kept_line, Matrix3};
use crate::tuple::Tuple;
use vstd::prelude::*;

verus! {

#[derive(Clone, Copy, Debug)]
pub struct Matrix4(pub [[MyFloat; 4]; 4]);

impl Matrix4 {
    /// The entry in row `i`, column `j`.
    pub open spec fn at(self, i: int, j: int) -> MyFloat
        recommends
            0 <= i < 4,
            0 <= j < 4,
    {
        self.0[i][j]
    }

    /// The matrix whose entry in row `i`, column `j` is `entry(i, j)`.
    pub open spec fn build(entry: spec_fn(int, int) -> MyFloat) -> Matrix4 {
        Matrix4(
            [
                [entry(0, 0), entry(0, 1), entry(0, 2), entry(0, 3)],
                [entry(1, 0), entry(1, 1), entry(1, 2), entry(1, 3)],
                [entry(2, 0), entry(2, 1), entry(2, 2), entry(2, 3)],
                [entry(3, 0), entry(3, 1), entry(3, 2), entry(3, 3)],
            ],
        )
    }

    /// The matrix of zeros.
    pub open spec fn spec_zero() -> Matrix4 {
        Matrix4::build(|i: int, j: int| MyFloat::whole(0))
    }

    /// The matrix with ones on the diagonal and zeros elsewhere.
    pub open spec fn spec_identity() -> Matrix4 {
        Matrix4::build(
            |i: int, j: int|
                if i == j {
                    MyFloat::whole(1)
                } else {
                    MyFloat::whole(0)
                },
        )
    }

    /// Whether every pair of entries is equal within the tolerance.
    pub open spec fn approx_eq(self, peer: Matrix4) -> bool {
        forall|i: int, j: int|
            0 <= i < 4 && 0 <= j < 4 ==> (#[trigger] self.at(i, j)).approx_eq(peer.at(i, j))
    }

    /// Row `i` of `self` times column `j` of `peer`, summed from left to right.
    pub open spec fn product_entry(self, peer: Matrix4, i: int, j: int) -> MyFloat {
        self.at(i, 0) * peer.at(0, j) + self.at(i, 1) * peer.at(1, j) + self.at(i, 2) * peer.at(
            2,
            j,
        ) + self.at(i, 3) * peer.at(3, j)
    }

    /// The row-by-column product `self * peer`.
    pub open spec fn spec_multiply(self, peer: Matrix4) -> Matrix4 {
        Matrix4::build(|i: int, j: int| self.product_entry(peer, i, j))
    }

    /// Row `i` of `self` times the tuple as a column.
    pub open spec fn row_times(self, t: Tuple, i: int) -> MyFloat {
        self.at(i, 0) * t.x + self.at(i, 1) * t.y + self.at(i, 2) * t.z + self.at(i, 3) * t.w
    }

    /// The product of the matrix and the tuple as a column.
    pub open spec fn spec_times_tuple(self, t: Tuple) -> Tuple {
        Tuple {
            x: self.row_times(t, 0),
            y: self.row_times(t, 1),
            z: self.row_times(t, 2),
            w: self.row_times(t, 3),
        }
    }

    pub open spec fn spec_transpose(self) -> Matrix4 {
        Matrix4::build(|i: int, j: int| self.at(j, i))
    }

    /// `self` without row `x` and column `y`.
    pub open spec fn spec_submatrix(self, x: int, y: int) -> Matrix3 {
        Matrix3(
            [
                [
                    self.at(kept_line(0, x), kept_line(0, y)),
                    self.at(kept_line(0, x), kept_line(1, y)),
                    self.at(kept_line(0, x), kept_line(2, y)),
                ],
                [
                    self.at(kept_line(1, x), kept_line(0, y)),
                    self.at(kept_line(1, x), kept_line(1, y)),
                    self.at(kept_line(1, x), kept_line(2, y)),
                ],
                [
                    self.at(kept_line(2, x), kept_line(0, y)),
                    self.at(kept_line(2, x), kept_line(1, y)),
                    self.at(kept_line(2, x), kept_line(2, y)),
                ],
            ],
        )
    }

    /// Whether `sub` is `self` without row `x` and column `y`.
    pub open spec fn is_submatrix(self, x: int, y: int, sub: Matrix3) -> bool {
        forall|a: int, b: int|
            0 <= a < 3 && 0 <= b < 3 ==> #[trigger] sub.at(a, b) == self.at(
                kept_line(a, x),
                kept_line(b, y),
            )
    }

    /// The determinant of `self` without row `x` and column `y`.
    pub open spec fn spec_minor(self, x: int, y: int) -> MyFloat {
        self.spec_submatrix(x, y).spec_determinant()
    }

    /// The minor, negated where `x + y` is odd.
    pub open spec fn spec_cofactor(self, x: int, y: int) -> MyFloat {
        if (x + y) % 2 == 0 {
            self.spec_minor(x, y)
        } else {
            -self.spec_minor(x, y)
        }
    }

    /// The determinant, expanded along the first column.
    #[verifier::opaque]
    pub open spec fn spec_determinant(self) -> MyFloat {
        self.spec_cofactor(0, 0) * self.at(0, 0) + self.spec_cofactor(1, 0) * self.at(1, 0)
            + self.spec_cofactor(2, 0) * self.at(2, 0) + self.spec_cofactor(3, 0) * self.at(3, 0)
    }

    /// Whether the determinant differs from zero by at least the tolerance.
    pub open spec fn spec_is_invertible(self) -> bool {
        !self.spec_determinant().approx_eq(MyFloat::whole(0))
    }

    /// The transposed matrix of cofactors, each divided by the determinant.
    pub open spec fn spec_inverse(self) -> Matrix4 {
        Matrix4::build(|i: int, j: int| self.spec_cofactor(j, i).spec_div(self.spec_determinant()))
    }

    /// The matrix with the given rows.
    pub fn from(values: [[MyFloat; 4]; 4]) -> (m: Matrix4)
        ensures
            m.0 == values,
    {
        Matrix4(values)
    }

    pub fn identity() -> (m: Matrix4)
        ensures
            m == Matrix4::spec_identity(),
    {
        let o = MyFloat::from_int(0);
        let l = MyFloat::from_int(1);
        Matrix4([[l, o, o, o], [o, l, o, o], [o, o, l, o], [o, o, o, l]])
    }

    pub fn get(&self, i: usize, j: usize) -> (r: MyFloat)
        requires
            i < 4,
            j < 4,
        ensures
            r == self.at(i as int, j as int),
    {
        self.0[i][j]
    }

    /// Replaces the entry in row `i`, column `j` and leaves the others as
    /// they were.
    pub fn set(&mut self, i: usize, j: usize, value: MyFloat)
        requires
            i < 4,
            j < 4,
        ensures
            final(self).at(i as int, j as int) == value,
            forall|a: int, b: int|
                0 <= a < 4 && 0 <= b < 4 && (a != i || b != j) ==> final(self).at(a, b) == old(
                    self,
                ).at(a, b),
    {
        self.0[i][j] = value;
    }

    pub fn equals(&self, peer: &Matrix4) -> (r: bool)
        ensures
            r == self.approx_eq(*peer),
    {
        let mut i: usize = 0;
        while i < 4
            invariant
                i <= 4,
                forall|a: int, b: int|
                    0 <= a < i && 0 <= b < 4 ==> (#[trigger] self.at(a, b)).approx_eq(
                        peer.at(a, b),
                    ),
            decreases 4 - i,
        {
            let mut j: usize = 0;
            while j < 4
                invariant
                    i < 4,
                    j <= 4,
                    forall|a: int, b: int|
                        0 <= a < i && 0 <= b < 4 ==> (#[trigger] self.at(a, b)).approx_eq(
                            peer.at(a, b),
                        ),
                    forall|b: int|
                        0 <= b < j ==> (#[trigger] self.at(i as int, b)).approx_eq(
                            peer.at(i as int, b),
                        ),
                decreases 4 - j,
            {
                if !self.get(i, j).equals(peer.get(i, j)) {
                    return false;
                }
                j += 1;
            }
            i += 1;
        }
        true
    }

    pub fn multiply(&self, peer: &Matrix4) -> (m: Matrix4)
        ensures
            m == self.spec_multiply(*peer),
            forall|i: int, j: int|
                0 <= i < 4 && 0 <= j < 4 ==> #[trigger] m.at(i, j) == self.product_entry(
                    *peer,
                    i,
                    j,
                ),
    {
        let mut m = matrix4();
        let mut i: usize = 0;
        while i < 4
            invariant
                i <= 4,
                forall|a: int, b: int|
                    0 <= a < i && 0 <= b < 4 ==> #[trigger] m.at(a, b) == self.product_entry(
                        *peer,
                        a,
                        b,
                    ),
            decreases 4 - i,
        {
            let mut j: usize = 0;
            while j < 4
                invariant
                    i < 4,
                    j <= 4,
                    forall|a: int, b: int|
                        0 <= a < i && 0 <= b < 4 ==> #[trigger] m.at(a, b) == self.product_entry(
                            *peer,
                            a,
                            b,
                        ),
                    forall|b: int|
                        0 <= b < j ==> #[trigger] m.at(i as int, b) == self.product_entry(
                            *peer,
                            i as int,
                            b,
                        ),
                decreases 4 - j,
            {
                let entry = self.get(i, 0).mul(peer.get(0, j)).add(
                    self.get(i, 1).mul(peer.get(1, j)),
                ).add(self.get(i, 2).mul(peer.get(2, j))).add(self.get(i, 3).mul(peer.get(3, j)));
                m.set(i, j, entry);
                j += 1;
            }
            i += 1;
        }
        proof {
            lemma_entries_determine(m, self.spec_multiply(*peer));
        }
        m
    }

    pub fn times_tuple(&self, t: &Tuple) -> (r: Tuple)
        ensures
            r == self.spec_times_tuple(*t),
    {
        let x = self.get(0, 0).mul(t.x).add(self.get(0, 1).mul(t.y)).add(
            self.get(0, 2).mul(t.z),
        ).add(self.get(0, 3).mul(t.w));
        let y = self.get(1, 0).mul(t.x).add(self.get(1, 1).mul(t.y)).add(
            self.get(1, 2).mul(t.z),
        ).add(self.get(1, 3).mul(t.w));
        let z = self.get(2, 0).mul(t.x).add(self.get(2, 1).mul(t.y)).add(
            self.get(2, 2).mul(t.z),
        ).add(self.get(2, 3).mul(t.w));
        let w = self.get(3, 0).mul(t.x).add(self.get(3, 1).mul(t.y)).add(
            self.get(3, 2).mul(t.z),
        ).add(self.get(3, 3).mul(t.w));
        crate::tuple::tuple(x, y, z, w)
    }

    pub fn transpose(&self) -> (m: Matrix4)
        ensures
            m == self.spec_transpose(),
            forall|i: int, j: int|
                0 <= i < 4 && 0 <= j < 4 ==> #[trigger] m.at(i, j) == self.at(j, i),
    {
        let m = &self.0;
        Matrix4(
            [
                [m[0][0], m[1][0], m[2][0], m[3][0]],
                [m[0][1], m[1][1], m[2][1], m[3][1]],
                [m[0][2], m[1][2], m[2][2], m[3][2]],
                [m[0][3], m[1][3], m[2][3], m[3][3]],
            ],
        )
    }

    /// The matrix without row `x` and column `y`.
    pub fn submatrix(&self, x: usize, y: usize) -> (m3: Matrix3)
        requires
            x < 4,
            y < 4,
        ensures
            m3 == self.spec_submatrix(x as int, y as int),
            self.is_submatrix(x as int, y as int, m3),
    {
        let mut m3 = Matrix3::new();
        let mut w: usize = 0;
        let mut i: usize = 0;
        while i < 4
            invariant
                i <= 4,
                x < 4,
                y < 4,
                w == if i <= x {
                    i
                } else {
                    (i - 1) as usize
                },
                forall|a: int, b: int|
                    0 <= a < w && 0 <= b < 3 ==> #[trigger] m3.at(a, b) == self.at(
                        kept_line(a, x as int),
                        kept_line(b, y as int),
                    ),
            decreases 4 - i,
        {
            if i != x {
                let mut v: usize = 0;
                let mut j: usize = 0;
                while j < 4
                    invariant
                        j <= 4,
                        i < 4,
                        i != x,
                        x < 4,
                        y < 4,
                        w < 3,
                        i == kept_line(w as int, x as int),
                        v == if j <= y {
                            j
                        } else {
                            (j - 1) as usize
                        },
                        forall|a: int, b: int|
                            0 <= a < w && 0 <= b < 3 ==> #[trigger] m3.at(a, b) == self.at(
                                kept_line(a, x as int),
                                kept_line(b, y as int),
                            ),
                        forall|b: int|
                            0 <= b < v ==> #[trigger] m3.at(w as int, b) == self.at(
                                i as int,
                                kept_line(b, y as int),
                            ),
                    decreases 4 - j,
                {
                    if j != y {
                        m3.set(w, v, self.get(i, j));
                        v += 1;
                    }
                    j += 1;
                }
                w += 1;
            }
            i += 1;
        }
        proof {
            crate::matrix3::lemma_entries_determine(m3, self.spec_submatrix(x as int, y as int));
        }
        m3
    }

    /// The determinant of the matrix without row `x` and column `y`.
    pub fn minor(&self, x: usize, y: usize) -> (r: MyFloat)
        requires
            x < 4,
            y < 4,
        ensures
            r == self.spec_minor(x as int, y as int),
    {
        let m3 = self.submatrix(x, y);
        m3.determinant()
    }

    /// The minor with the sign of its place.
    pub fn cofactor(&self, x: usize, y: usize) -> (r: MyFloat)
        requires
            x < 4,
            y < 4,
        ensures
            r == self.spec_cofactor(x as int, y as int),
    {
        if (x + y) % 2 == 0 {
            self.minor(x, y)
        } else {
            self.minor(x, y).neg()
        }
    }

    pub fn determinant(&self) -> (r: MyFloat)
        ensures
            r == self.spec_determinant(),
    {
        reveal(Matrix4::spec_determinant);
        self.cofactor(0, 0).mul(self.get(0, 0)).add(self.cofactor(1, 0).mul(self.get(1, 0))).add(
            self.cofactor(2, 0).mul(self.get(2, 0)),
        ).add(self.cofactor(3, 0).mul(self.get(3, 0)))
    }

    pub fn is_invertible(&self) -> (r: bool)
        ensures
            r == self.spec_is_invertible(),
    {
        !self.determinant().equals(MyFloat::from_int(0))
    }

    /// The inverse of an invertible matrix.
    pub fn inverse(&self) -> (m: Matrix4)
        requires
            self.spec_is_invertible(),
        ensures
            m == self.spec_inverse(),
            forall|i: int, j: int|
                0 <= i < 4 && 0 <= j < 4 ==> #[trigger] m.at(i, j) == self.spec_cofactor(
                    j,
                    i,
                ).spec_div(self.spec_determinant()),
    {
        let mut m2 = matrix4();
        let det = self.determinant();
        let mut i: usize = 0;
        while i < 4
            invariant
                i <= 4,
                det == self.spec_determinant(),
                forall|a: int, b: int|
                    0 <= a < i && 0 <= b < 4 ==> #[trigger] m2.at(a, b) == self.spec_cofactor(
                        b,
                        a,
                    ).spec_div(det),
            decreases 4 - i,
        {
            let mut j: usize = 0;
            while j < 4
                invariant
                    i < 4,
                    j <= 4,
                    det == self.spec_determinant(),
                    forall|a: int, b: int|
                        0 <= a < i && 0 <= b < 4 ==> #[trigger] m2.at(a, b) == self.spec_cofactor(
                            b,
                            a,
                        ).spec_div(det),
                    forall|b: int|
                        0 <= b < j ==> #[trigger] m2.at(i as int, b) == self.spec_cofactor(
                            b,
                            i as int,
                        ).spec_div(det),
                decreases 4 - j,
            {
                m2.set(i, j, self.cofactor(j, i).div(det));
                j += 1;
            }
            i += 1;
        }
        proof {
            lemma_entries_determine(m2, self.spec_inverse());
        }
        m2
    }
}

/// The matrix of zeros.
pub fn matrix4() -> (m: Matrix4)
    ensures
        m == Matrix4::spec_zero(),
{
    let o = MyFloat::from_int(0);
    Matrix4([[o, o, o, o], [o, o, o, o], [o, o, o, o], [o, o, o, o]])
}

/// Two matrices with the same entries are the same matrix.
pub proof fn lemma_entries_determine(a: Matrix4, b: Matrix4)
    requires
        forall|i: int, j: int| 0 <= i < 4 && 0 <= j < 4 ==> a.at(i, j) == b.at(i, j),
    ensures
        a == b,
{
    assert forall|i: int| 0 <= i < 4 implies a.0[i] == b.0[i] by {
        assert forall|j: int| 0 <= j < 4 implies a.0[i][j] == b.0[i][j] by {
            assert(a.at(i, j) == b.at(i, j));
        }
        assert(a.0[i] =~= b.0[i]);
    }
    assert(a.0 =~= b.0);
}

} // verus!
