//! Three-by-three matrices: minors and cofactors of the four-by-four
//! determinant.
use crate::float::MyFloat;
use crate::matrix2::Matrix2;
use vstd::prelude::*;

verus! {

#[derive(Clone, Copy, Debug)]
pub struct Matrix3(pub [[MyFloat; 3]; 3]);

/// The place in a matrix of line `i` of what is left once line `removed` is
/// deleted.
pub open spec fn kept_line(i: int, removed: int) -> int {
    if i < removed {
        i
    } else {
        i + 1
    }
}

impl Matrix3 {
    /// The entry in row `i`, column `j`.
    pub open spec fn at(self, i: int, j: int) -> MyFloat
        recommends
            0 <= i < 3,
            0 <= j < 3,
    {
        self.0[i][j]
    }

    /// Whether `sub` is `self` without row `x` and column `y`.
    pub open spec fn is_submatrix(self, x: int, y: int, sub: Matrix2) -> bool {
        forall|a: int, b: int|
            0 <= a < 2 && 0 <= b < 2 ==> #[trigger] sub.at(a, b) == self.at(
                kept_line(a, x),
                kept_line(b, y),
            )
    }

    /// `self` without row `x` and column `y`.
    pub open spec fn spec_submatrix(self, x: int, y: int) -> Matrix2 {
        Matrix2(
            [
                [
                    self.at(kept_line(0, x), kept_line(0, y)),
                    self.at(kept_line(0, x), kept_line(1, y)),
                ],
                [
                    self.at(kept_line(1, x), kept_line(0, y)),
                    self.at(kept_line(1, x), kept_line(1, y)),
                ],
            ],
        )
    }

    /// The determinant of `self` without row `x` and column `y`.
    pub open spec fn spec_minor(self, x: int, y: int) -> MyFloat {
        self.spec_submatrix(x, y).spec_determinant()
    }

    /// The minor, negated where `x + y` is odd.
    pub open spec fn spec_cofactor(self, x: int, y: int) -> MyFloat {
        if (x + y) % 2 == 0 {
            self.spec_minor(x, y)
        } else {
            -self.spec_minor(x, y)
        }
    }

    /// The determinant, expanded along the first column.
    #[verifier::opaque]
    pub open spec fn spec_determinant(self) -> MyFloat {
        self.spec_cofactor(0, 0) * self.at(0, 0) + self.spec_cofactor(1, 0) * self.at(1, 0)
            + self.spec_cofactor(2, 0) * self.at(2, 0)
    }

    /// Whether every pair of entries is equal within the tolerance.
    pub open spec fn approx_eq(self, other: Matrix3) -> bool {
        forall|i: int, j: int|
            0 <= i < 3 && 0 <= j < 3 ==> (#[trigger] self.at(i, j)).approx_eq(other.at(i, j))
    }

    /// The matrix of zeros.
    pub fn new() -> (m: Matrix3)
        ensures
            forall|i: int, j: int| 0 <= i < 3 && 0 <= j < 3 ==> m.at(i, j) == MyFloat::whole(0),
    {
        let zero = MyFloat::from_int(0);
        Matrix3([[zero, zero, zero], [zero, zero, zero], [zero, zero, zero]])
    }

    /// The matrix with the given rows.
    pub fn from(values: [[MyFloat; 3]; 3]) -> (m: Matrix3)
        ensures
            m.0 == values,
    {
        Matrix3(values)
    }

    pub fn get(&self, i: usize, j: usize) -> (r: MyFloat)
        requires
            i < 3,
            j < 3,
        ensures
            r == self.at(i as int, j as int),
    {
        self.0[i][j]
    }

    /// Replaces the entry in row `i`, column `j` and leaves the others as
    /// they were.
    pub fn set(&mut self, i: usize, j: usize, value: MyFloat)
        requires
            i < 3,
            j < 3,
        ensures
            final(self).at(i as int, j as int) == value,
            forall|a: int, b: int|
                0 <= a < 3 && 0 <= b < 3 && (a != i || b != j) ==> final(self).at(a, b) == old(
                    self,
                ).at(a, b),
    {
        self.0[i][j] = value;
    }

    /// The matrix without row `x` and column `y`.
    pub fn submatrix(&self, x: usize, y: usize) -> (m2: Matrix2)
        requires
            x < 3,
            y < 3,
        ensures
            m2 == self.spec_submatrix(x as int, y as int),
            self.is_submatrix(x as int, y as int, m2),
    {
        let mut m2 = Matrix2::new();
        let mut w: usize = 0;
        let mut i: usize = 0;
        while i < 3
            invariant
                i <= 3,
                x < 3,
                y < 3,
                w == if i <= x {
                    i
                } else {
                    (i - 1) as usize
                },
                forall|a: int, b: int|
                    0 <= a < w && 0 <= b < 2 ==> #[trigger] m2.at(a, b) == self.at(
                        kept_line(a, x as int),
                        kept_line(b, y as int),
                    ),
            decreases 3 - i,
        {
            if i != x {
                let mut v: usize = 0;
                let mut j: usize = 0;
                while j < 3
                    invariant
                        j <= 3,
                        i < 3,
                        i != x,
                        x < 3,
                        y < 3,
                        w < 2,
                        i == kept_line(w as int, x as int),
                        v == if j <= y {
                            j
                        } else {
                            (j - 1) as usize
                        },
                        forall|a: int, b: int|
                            0 <= a < w && 0 <= b < 2 ==> #[trigger] m2.at(a, b) == self.at(
                                kept_line(a, x as int),
                                kept_line(b, y as int),
                            ),
                        forall|b: int|
                            0 <= b < v ==> #[trigger] m2.at(w as int, b) == self.at(
                                i as int,
                                kept_line(b, y as int),
                            ),
                    decreases 3 - j,
                {
                    if j != y {
                        m2.set(w, v, self.get(i, j));
                        v += 1;
                    }
                    j += 1;
                }
                w += 1;
            }
            i += 1;
        }
        proof {
            crate::matrix2::lemma_entries_determine(m2, self.spec_submatrix(x as int, y as int));
        }
        m2
    }

    /// The determinant of the matrix without row `x` and column `y`.
    pub fn minor(&self, x: usize, y: usize) -> (r: MyFloat)
        requires
            x < 3,
            y < 3,
        ensures
            r == self.spec_minor(x as int, y as int),
    {
        let m2 = self.submatrix(x, y);
        m2.determinant()
    }

    /// The minor with the sign of its place.
    pub fn cofactor(&self, x: usize, y: usize) -> (r: MyFloat)
        requires
            x < 3,
            y < 3,
        ensures
            r == self.spec_cofactor(x as int, y as int),
    {
        if (x + y) % 2 == 0 {
            self.minor(x, y)
        } else {
            self.minor(x, y).neg()
        }
    }

    pub fn determinant(&self) -> (r: MyFloat)
        ensures
            r == self.spec_determinant(),
    {
        reveal(Matrix3::spec_determinant);
        self.cofactor(0, 0).mul(self.get(0, 0)).add(self.cofactor(1, 0).mul(self.get(1, 0))).add(
            self.cofactor(2, 0).mul(self.get(2, 0)),
        )
    }

    pub fn equals(&self, other: &Matrix3) -> (r: bool)
        ensures
            r == self.approx_eq(*other),
    {
        let mut i: usize = 0;
        while i < 3
            invariant
                i <= 3,
                forall|a: int, b: int|
                    0 <= a < i && 0 <= b < 3 ==> (#[trigger] self.at(a, b)).approx_eq(
                        other.at(a, b),
                    ),
            decreases 3 - i,
        {
            let mut j: usize = 0;
            while j < 3
                invariant
                    i < 3,
                    j <= 3,
                    forall|a: int, b: int|
                        0 <= a < i && 0 <= b < 3 ==> (#[trigger] self.at(a, b)).approx_eq(
                            other.at(a, b),
                        ),
                    forall|b: int|
                        0 <= b < j ==> (#[trigger] self.at(i as int, b)).approx_eq(
                            other.at(i as int, b),
                        ),
                decreases 3 - j,
            {
                if !self.get(i, j).equals(other.get(i, j)) {
                    return false;
                }
                j += 1;
            }
            i += 1;
        }
        true
    }
}

/// Two matrices with the same entries are the same matrix.
pub proof fn lemma_entries_determine(a: Matrix3, b: Matrix3)
    requires
        forall|i: int, j: int| 0 <= i < 3 && 0 <= j < 3 ==> a.at(i, j) == b.at(i, j),
    ensures
        a == b,
{
    assert forall|i: int| 0 <= i < 3 implies a.0[i] == b.0[i] by {
        assert forall|j: int| 0 <= j < 3 implies a.0[i][j] == b.0[i][j] by {
            assert(a.at(i, j) == b.at(i, j));
        }
        assert(a.0[i] =~= b.0[i]);
    }
    assert(a.0 =~= b.0);
}

} // verus!
