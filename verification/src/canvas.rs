//! A rectangular grid of colours and its rendering as plain-text image lines.
//!
//! Pixels are addressed by column `x` and row `y`, both counted from zero at
//! the top left. The text form is a three-line header (`P3`, the width and
//! height, the channel maximum `255`) followed by the rows from top to
//! bottom, each row broken into lines of at most five pixels.
use crate::color::{Color, Pixel};
use crate::decimal::{decimal, push_decimal};
use vstd::prelude::*;

verus! {

/// How many pixels are written on one line of text.
pub const PIXELS_PER_LINE: usize = 5;

pub struct Canvas {
    w: usize,
    h: usize,
    pixels: Vec<Color>,
}

/// The three channel values of a pixel, separated by single spaces.
pub open spec fn pixel_text(p: Pixel) -> Seq<char> {
    decimal(p.red as nat) + seq![' '] + decimal(p.green as nat) + seq![' '] + decimal(
        p.blue as nat,
    )
}

impl Canvas {
    /// The pixel buffer holds exactly one colour for each cell of the grid.
    pub closed spec fn well_formed(&self) -> bool {
        self.pixels.len() == self.w * self.h
    }

    pub closed spec fn spec_width(&self) -> nat {
        self.w as nat
    }

    pub closed spec fn spec_height(&self) -> nat {
        self.h as nat
    }

    /// The colour at column `x` of row `y`.
    pub closed spec fn spec_pixel(&self, x: int, y: int) -> Color
        recommends
            0 <= x < self.spec_width(),
            0 <= y < self.spec_height(),
    {
        self.pixels@[y * self.w + x]
    }

    /// The pixels of row `y` from column `from` up to, not including, column
    /// `to`, separated by single spaces.
    pub open spec fn span_text(&self, y: int, from: int, to: int) -> Seq<char>
        decreases to - from,
    {
        if to <= from {
            Seq::empty()
        } else if to == from + 1 {
            pixel_text(Pixel::spec_from(self.spec_pixel(from, y)))
        } else {
            self.span_text(y, from, to - 1) + seq![' '] + pixel_text(
                Pixel::spec_from(self.spec_pixel(to - 1, y)),
            )
        }
    }

    /// How many lines of text one row takes. A row without pixels still
    /// takes one (empty) line.
    pub open spec fn lines_per_row(&self) -> nat {
        if self.spec_width() == 0 {
            1
        } else {
            (self.spec_width() + PIXELS_PER_LINE - 1) as nat / (PIXELS_PER_LINE as nat)
        }
    }

    /// Line `k` of row `y`.
    pub open spec fn row_line(&self, y: int, k: int) -> Seq<char> {
        let from = PIXELS_PER_LINE * k;
        let to = if from + PIXELS_PER_LINE < self.spec_width() {
            from + PIXELS_PER_LINE
        } else {
            self.spec_width() as int
        };
        self.span_text(y, from, to)
    }

    /// How many lines the text form has.
    pub open spec fn ppm_len(&self) -> nat {
        3 + self.spec_height() * self.lines_per_row()
    }

    /// Line `i` of the text form.
    pub open spec fn ppm_line(&self, i: int) -> Seq<char>
        recommends
            0 <= i < self.ppm_len(),
    {
        if i == 0 {
            seq!['P', '3']
        } else if i == 1 {
            decimal(self.spec_width()) + seq![' '] + decimal(self.spec_height())
        } else if i == 2 {
            seq!['2', '5', '5']
        } else {
            self.row_line(
                (i - 3) / (self.lines_per_row() as int),
                (i - 3) % (self.lines_per_row() as int),
            )
        }
    }

    pub fn width(&self) -> (r: usize)
        ensures
            r == self.spec_width(),
    {
        self.w
    }

    pub fn height(&self) -> (r: usize)
        ensures
            r == self.spec_height(),
    {
        self.h
    }

    /// Where the pixel at column `x` of row `y` is stored.
    pub fn idx(&self, x: usize, y: usize) -> (r: usize)
        requires
            self.well_formed(),
            x < self.spec_width(),
            y < self.spec_height(),
        ensures
            r == y * self.spec_width() + x,
            r < self.spec_width() * self.spec_height(),
    {
        proof {
            lemma_cell_in_range(x as int, y as int, self.w as int, self.h as int);
        }
        y * self.w + x
    }

    /// A canvas of the given size with every pixel black.
    pub fn new(width: usize, height: usize) -> (c: Canvas)
        requires
            width * height <= usize::MAX,
        ensures
            c.well_formed(),
            c.spec_width() == width,
            c.spec_height() == height,
            forall|x: int, y: int|
                0 <= x < width && 0 <= y < height ==> c.spec_pixel(x, y) == Color::spec_black(),
    {
        let black = Color::black();
        let c = Canvas { w: width, h: height, pixels: vec![black; width * height] };
        assert forall|x: int, y: int| 0 <= x < width && 0 <= y < height implies c.spec_pixel(x, y)
            == Color::spec_black() by {
            lemma_cell_in_range(x, y, width as int, height as int);
        }
        c
    }

    pub fn pixel_at(&self, x: usize, y: usize) -> (c: Color)
        requires
            self.well_formed(),
            x < self.spec_width(),
            y < self.spec_height(),
        ensures
            c == self.spec_pixel(x as int, y as int),
    {
        let i = self.idx(x, y);
        self.pixels[i]
    }

    /// Sets the pixel at column `x` of row `y` and leaves every other pixel
    /// as it was.
    pub fn write_pixel(&mut self, x: usize, y: usize, color: Color)
        requires
            old(self).well_formed(),
            x < old(self).spec_width(),
            y < old(self).spec_height(),
        ensures
            final(self).well_formed(),
            final(self).spec_width() == old(self).spec_width(),
            final(self).spec_height() == old(self).spec_height(),
            final(self).spec_pixel(x as int, y as int) == color,
            forall|x2: int, y2: int|
                0 <= x2 < old(self).spec_width() && 0 <= y2 < old(self).spec_height() && (x2 != x
                    || y2 != y) ==> final(self).spec_pixel(x2, y2) == old(self).spec_pixel(x2, y2),
    {
        let i = self.idx(x, y);
        self.pixels.set(i, color);
        assert forall|x2: int, y2: int|
            0 <= x2 < old(self).spec_width() && 0 <= y2 < old(self).spec_height() && (x2 != x || y2
                != y) implies self.spec_pixel(x2, y2) == old(self).spec_pixel(x2, y2) by {
            lemma_cells_apart(x as int, y as int, x2, y2, self.w as int);
            lemma_cell_in_range(x2, y2, self.w as int, self.h as int);
        }
    }

    /// The canvas as lines of text.
    pub fn to_ppm(&self) -> (lines: Vec<String>)
        requires
            self.well_formed(),
        ensures
            lines.len() == self.ppm_len(),
            forall|i: int| 0 <= i < lines.len() ==> (#[trigger] lines[i])@ == self.ppm_line(i),
    {
        proof {
            reveal_strlit("P3");
            reveal_strlit("255");
            reveal_strlit(" ");
        }
        let w = self.w;
        let h = self.h;
        let mut v: Vec<String> = Vec::new();
        v.push(String::from_str("P3"));
        let mut size = String::new();
        push_decimal(&mut size, w as u64);
        size.append(" ");
        push_decimal(&mut size, h as u64);
        v.push(size);
        v.push(String::from_str("255"));
        let count: usize = if w == 0 {
            1
        } else {
            (w - 1) / PIXELS_PER_LINE + 1
        };
        assert(count == self.lines_per_row());
        assert(v[0]@ =~= self.ppm_line(0));
        assert(v[1]@ =~= self.ppm_line(1));
        assert(v[2]@ =~= self.ppm_line(2));
        let mut y: usize = 0;
        while y < h
            invariant
                y <= h,
                self.well_formed(),
                w == self.spec_width(),
                h == self.spec_height(),
                count == self.lines_per_row(),
                count >= 1,
                v.len() == 3 + y * count,
                forall|i: int| 0 <= i < v.len() ==> (#[trigger] v[i])@ == self.ppm_line(i),
            decreases h - y,
        {
            let mut k: usize = 0;
            while k < count
                invariant
                    y < h,
                    k <= count,
                    self.well_formed(),
                    w == self.spec_width(),
                    h == self.spec_height(),
                    count == self.lines_per_row(),
                    count >= 1,
                    v.len() == 3 + y * count + k,
                    forall|i: int| 0 <= i < v.len() ==> (#[trigger] v[i])@ == self.ppm_line(i),
                decreases count - k,
            {
                let start: usize = PIXELS_PER_LINE * k;
                let end: usize = if w - start > PIXELS_PER_LINE {
                    start + PIXELS_PER_LINE
                } else {
                    w
                };
                let mut line = String::new();
                let mut x: usize = start;
                while x < end
                    invariant
                        start <= x <= end <= w,
                        start <= w,
                        y < h,
                        self.well_formed(),
                        w == self.spec_width(),
                        h == self.spec_height(),
                        line@ == self.span_text(y as int, start as int, x as int),
                    decreases end - x,
                {
                    let ghost before = line@;
                    proof {
                        reveal_strlit(" ");
                    }
                    if x > start {
                        line.append(" ");
                    }
                    let pixel = Pixel::from(&self.pixel_at(x, y));
                    push_decimal(&mut line, pixel.red as u64);
                    line.append(" ");
                    push_decimal(&mut line, pixel.green as u64);
                    line.append(" ");
                    push_decimal(&mut line, pixel.blue as u64);
                    assert(line@ =~= self.span_text(y as int, start as int, x + 1)) by {
                        if x > start {
                            assert(line@ =~= before + seq![' '] + pixel_text(pixel));
                        } else {
                            assert(before =~= Seq::<char>::empty());
                            assert(line@ =~= pixel_text(pixel));
                        }
                    }
                    x += 1;
                }
                let ghost i = 3 + y * count + k;
                proof {
                    vstd::arithmetic::div_mod::lemma_fundamental_div_mod_converse(
                        i - 3,
                        count as int,
                        y as int,
                        k as int,
                    );
                    assert(line@ == self.ppm_line(i));
                }
                v.push(line);
                k += 1;
            }
            proof {
                assert((y + 1) * count == y * count + count) by (nonlinear_arith);
            }
            y += 1;
        }
        v
    }
}

/// A cell inside the grid is stored inside the pixel buffer.
proof fn lemma_cell_in_range(x: int, y: int, w: int, h: int)
    requires
        0 <= x < w,
        0 <= y < h,
    ensures
        0 <= y * w + x < w * h,
        0 <= y * w,
{
    assert(y * w + x < w * h && 0 <= y * w) by (nonlinear_arith)
        requires
            0 <= x < w,
            0 <= y < h,
    {
        assert(y * w + w == (y + 1) * w);
        assert((y + 1) * w <= h * w);
    }
}

/// Two different cells are stored at different places.
proof fn lemma_cells_apart(x: int, y: int, x2: int, y2: int, w: int)
    requires
        0 <= x < w,
        0 <= x2 < w,
        0 <= y,
        0 <= y2,
        x != x2 || y != y2,
    ensures
        y * w + x != y2 * w + x2,
{
    assert(y * w + x != y2 * w + x2) by (nonlinear_arith)
        requires
            0 <= x < w,
            0 <= x2 < w,
            0 <= y,
            0 <= y2,
            x != x2 || y != y2,
    {
        if y < y2 {
            assert(y * w + w == (y + 1) * w);
            assert((y + 1) * w <= y2 * w);
        } else if y2 < y {
            assert(y2 * w + w == (y2 + 1) * w);
            assert((y2 + 1) * w <= y * w);
        }
    }
}

} // verus!
