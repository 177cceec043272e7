//! Two-by-two matrices: the base case of the determinant.
use crate::float::MyFloat;
use vstd::prelude::*;

verus! {

#[derive(Clone, Copy, Debug)]
pub struct Matrix2(pub [[MyFloat; 2]; 2]);

impl Matrix2 {
    /// The entry in row `i`, column `j`.
    pub open spec fn at(self, i: int, j: int) -> MyFloat
        recommends
            0 <= i < 2,
            0 <= j < 2,
    {
        self.0[i][j]
    }

    pub open spec fn spec_determinant(self) -> MyFloat {
        self.at(0, 0) * self.at(1, 1) - self.at(1, 0) * self.at(0, 1)
    }

    /// Whether every pair of entries is equal within the tolerance.
    pub open spec fn approx_eq(self, other: Matrix2) -> bool {
        forall|i: int, j: int|
            0 <= i < 2 && 0 <= j < 2 ==> (#[trigger] self.at(i, j)).approx_eq(other.at(i, j))
    }

    /// The matrix of zeros.
    pub fn new() -> (m: Matrix2)
        ensures
            forall|i: int, j: int| 0 <= i < 2 && 0 <= j < 2 ==> m.at(i, j) == MyFloat::whole(0),
    {
        let zero = MyFloat::from_int(0);
        Matrix2([[zero, zero], [zero, zero]])
    }

    /// The matrix with the given rows.
    pub fn from(values: [[MyFloat; 2]; 2]) -> (m: Matrix2)
        ensures
            m.0 == values,
    {
        Matrix2(values)
    }

    pub fn get(&self, i: usize, j: usize) -> (r: MyFloat)
        requires
            i < 2,
            j < 2,
        ensures
            r == self.at(i as int, j as int),
    {
        self.0[i][j]
    }

    /// Replaces the entry in row `i`, column `j` and leaves the others as
    /// they were.
    pub fn set(&mut self, i: usize, j: usize, value: MyFloat)
        requires
            i < 2,
            j < 2,
        ensures
            final(self).at(i as int, j as int) == value,
            forall|a: int, b: int|
                0 <= a < 2 && 0 <= b < 2 && (a != i || b != j) ==> final(self).at(a, b) == old(
                    self,
                ).at(a, b),
    {
        self.0[i][j] = value;
    }

    pub fn determinant(&self) -> (r: MyFloat)
        ensures
            r == self.spec_determinant(),
    {
        self.get(0, 0).mul(self.get(1, 1)).sub(self.get(1, 0).mul(self.get(0, 1)))
    }

    pub fn equals(&self, other: &Matrix2) -> (r: bool)
        ensures
            r == self.approx_eq(*other),
    {
        let mut i: usize = 0;
        while i < 2
            invariant
                i <= 2,
                forall|a: int, b: int|
                    0 <= a < i && 0 <= b < 2 ==> (#[trigger] self.at(a, b)).approx_eq(
                        other.at(a, b),
                    ),
            decreases 2 - i,
        {
            let mut j: usize = 0;
            while j < 2
                invariant
                    i < 2,
                    j <= 2,
                    forall|a: int, b: int|
                        0 <= a < i && 0 <= b < 2 ==> (#[trigger] self.at(a, b)).approx_eq(
                            other.at(a, b),
                        ),
                    forall|b: int|
                        0 <= b < j ==> (#[trigger] self.at(i as int, b)).approx_eq(
                            other.at(i as int, b),
                        ),
                decreases 2 - j,
            {
                if !self.get(i, j).equals(other.get(i, j)) {
                    return false;
                }
                j += 1;
            }
            i += 1;
        }
        true
    }
}

/// Two matrices with the same entries are the same matrix.
pub proof fn lemma_entries_determine(a: Matrix2, b: Matrix2)
    requires
        forall|i: int, j: int| 0 <= i < 2 && 0 <= j < 2 ==> a.at(i, j) == b.at(i, j),
    ensures
        a == b,
{
    assert forall|i: int| 0 <= i < 2 implies a.0[i] == b.0[i] by {
        assert forall|j: int| 0 <= j < 2 implies a.0[i][j] == b.0[i][j] by {
            assert(a.at(i, j) == b.at(i, j));
        }
        assert(a.0[i] =~= b.0[i]);
    }
    assert(a.0 =~= b.0);
}

} // verus!
