//! A fixed-size two-dimensional array stored in one contiguous buffer.
//!
//! The first index picks one of `width` rows of the buffer, the second one of
//! the `height` cells within it.
use vstd::prelude::*;
use vstd::slice::slice_subrange;

verus! {

pub struct Array2D<T> {
    arr: Vec<T>,
    width: usize,
    height: usize,
}

impl<T> Array2D<T> {
    /// The buffer holds exactly one value for each cell.
    pub closed spec fn well_formed(&self) -> bool {
        self.arr.len() == self.width * self.height
    }

    pub closed spec fn spec_width(&self) -> nat {
        self.width as nat
    }

    pub closed spec fn spec_height(&self) -> nat {
        self.height as nat
    }

    /// The value at second index `y` within the run picked by first index `x`.
    pub closed spec fn spec_cell(&self, x: int, y: int) -> T
        recommends
            0 <= x < self.spec_width(),
            0 <= y < self.spec_height(),
    {
        self.arr@[x * self.height + y]
    }

    /// The run of cells picked by first index `x`.
    pub open spec fn spec_row(&self, x: int) -> Seq<T>
        recommends
            0 <= x < self.spec_width(),
    {
        Seq::new(self.spec_height(), |y: int| self.spec_cell(x, y))
    }

    pub fn width(&self) -> (r: usize)
        ensures
            r == self.spec_width(),
    {
        self.width
    }

    pub fn height(&self) -> (r: usize)
        ensures
            r == self.spec_height(),
    {
        self.height
    }

    /// The run of cells picked by first index `index`.
    pub fn row(&self, index: usize) -> (r: &[T])
        requires
            self.well_formed(),
            index < self.spec_width(),
        ensures
            r@ == self.spec_row(index as int),
    {
        proof {
            lemma_run_in_range(index as int, self.width as int, self.height as int);
        }
        let from = index * self.height;
        let r = slice_subrange(self.arr.as_slice(), from, from + self.height);
        assert(r@ =~= self.spec_row(index as int));
        r
    }

    pub fn get(&self, x: usize, y: usize) -> (r: &T)
        requires
            self.well_formed(),
            x < self.spec_width(),
            y < self.spec_height(),
        ensures
            *r == self.spec_cell(x as int, y as int),
    {
        proof {
            lemma_run_in_range(x as int, self.width as int, self.height as int);
        }
        &self.arr[x * self.height + y]
    }

    /// Stores `value` at `(x, y)` and leaves every other cell as it was.
    pub fn set(&mut self, x: usize, y: usize, value: T)
        requires
            old(self).well_formed(),
            x < old(self).spec_width(),
            y < old(self).spec_height(),
        ensures
            final(self).well_formed(),
            final(self).spec_width() == old(self).spec_width(),
            final(self).spec_height() == old(self).spec_height(),
            final(self).spec_cell(x as int, y as int) == value,
            forall|x2: int, y2: int|
                0 <= x2 < old(self).spec_width() && 0 <= y2 < old(self).spec_height() && (x2 != x
                    || y2 != y) ==> final(self).spec_cell(x2, y2) == old(self).spec_cell(x2, y2),
    {
        proof {
            lemma_run_in_range(x as int, self.width as int, self.height as int);
        }
        let i = x * self.height + y;
        self.arr.set(i, value);
        assert forall|x2: int, y2: int|
            0 <= x2 < old(self).spec_width() && 0 <= y2 < old(self).spec_height() && (x2 != x || y2
                != y) implies self.spec_cell(x2, y2) == old(self).spec_cell(x2, y2) by {
            lemma_run_in_range(x2, self.width as int, self.height as int);
            lemma_runs_apart(x as int, y as int, x2, y2, self.height as int);
        }
    }
}

impl<T: Clone> Array2D<T> {
    /// An array of the given size with a clone of `init` in every cell.
    pub fn new(width: usize, height: usize, init: T) -> (a: Array2D<T>)
        requires
            width * height <= usize::MAX,
        ensures
            a.well_formed(),
            a.spec_width() == width,
            a.spec_height() == height,
            forall|x: int, y: int|
                0 <= x < width && 0 <= y < height ==> cloned(init, #[trigger] a.spec_cell(x, y)),
    {
        let arr = vec![init; width * height];
        let a = Array2D { arr, width, height };
        assert forall|x: int, y: int| 0 <= x < width && 0 <= y < height implies cloned(
            init,
            #[trigger] a.spec_cell(x, y),
        ) by {
            lemma_run_in_range(x, width as int, height as int);
        }
        a
    }
}

/// The run picked by a first index inside the array lies inside the buffer.
proof fn lemma_run_in_range(x: int, w: int, h: int)
    requires
        0 <= x < w,
        0 <= h,
    ensures
        0 <= x * h,
        x * h + h <= w * h,
{
    assert(0 <= x * h && x * h + h <= w * h) by (nonlinear_arith)
        requires
            0 <= x < w,
            0 <= h,
    {
        assert(x * h + h == (x + 1) * h);
        assert((x + 1) * h <= w * h);
    }
}

/// Two different cells are stored at different places.
proof fn lemma_runs_apart(x: int, y: int, x2: int, y2: int, h: int)
    requires
        0 <= y < h,
        0 <= y2 < h,
        0 <= x,
        0 <= x2,
        x != x2 || y != y2,
    ensures
        x * h + y != x2 * h + y2,
{
    assert(x * h + y != x2 * h + y2) by (nonlinear_arith)
        requires
            0 <= y < h,
            0 <= y2 < h,
            0 <= x,
            0 <= x2,
            x != x2 || y != y2,
    {
        if x < x2 {
            assert(x * h + h == (x + 1) * h);
            assert((x + 1) * h <= x2 * h);
        } else if x2 < x {
            assert(x2 * h + h == (x2 + 1) * h);
            assert((x2 + 1) * h <= x * h);
        }
    }
}

} // verus!
