//! Colours as unbounded red, green and blue intensities, and the eight-bit
//! pixels they are quantized to for output.
use crate::float::{round_div, MyFloat, SCALE};
use vstd::prelude::*;

verus! {

/// A colour. The channels are not clamped: intermediate results of shading
/// may lie below zero or above one.
#[derive(Clone, Copy, Debug)]
pub struct Color {
    pub red: MyFloat,
    pub green: MyFloat,
    pub blue: MyFloat,
}

/// A colour quantized to whole channel values from 0 to 255.
#[derive(Clone, Copy, Debug)]
pub struct Pixel {
    pub red: i32,
    pub green: i32,
    pub blue: i32,
}

/// The channel value of an intensity: the intensity clamped to the range
/// from zero to one, times 255, rounded to the nearest whole number with
/// ties away from zero.
pub open spec fn spec_normalize(value: MyFloat) -> int {
    if value@ < 0 {
        0
    } else if value@ > SCALE {
        255
    } else {
        round_div(value@ * 255, SCALE as int)
    }
}

impl Color {
    pub open spec fn spec_black() -> Color {
        Color { red: MyFloat::whole(0), green: MyFloat::whole(0), blue: MyFloat::whole(0) }
    }

    pub open spec fn spec_white() -> Color {
        Color { red: MyFloat::whole(1), green: MyFloat::whole(1), blue: MyFloat::whole(1) }
    }

    pub open spec fn spec_add(self, rhs: Color) -> Color {
        Color {
            red: self.red + rhs.red,
            green: self.green + rhs.green,
            blue: self.blue + rhs.blue,
        }
    }

    pub open spec fn spec_sub(self, rhs: Color) -> Color {
        Color {
            red: self.red - rhs.red,
            green: self.green - rhs.green,
            blue: self.blue - rhs.blue,
        }
    }

    /// The componentwise (Hadamard) product.
    pub open spec fn spec_mul(self, rhs: Color) -> Color {
        Color {
            red: self.red * rhs.red,
            green: self.green * rhs.green,
            blue: self.blue * rhs.blue,
        }
    }

    /// Every channel multiplied by `factor`.
    pub open spec fn spec_scale(self, factor: MyFloat) -> Color {
        Color { red: self.red * factor, green: self.green * factor, blue: self.blue * factor }
    }

    /// Whether every pair of channels is equal within the tolerance.
    pub open spec fn approx_eq(self, rhs: Color) -> bool {
        &&& self.red.approx_eq(rhs.red)
        &&& self.green.approx_eq(rhs.green)
        &&& self.blue.approx_eq(rhs.blue)
    }

    pub fn new(red: MyFloat, green: MyFloat, blue: MyFloat) -> (c: Color)
        ensures
            c == (Color { red, green, blue }),
    {
        Color { red, green, blue }
    }

    pub fn black() -> (c: Color)
        ensures
            c == Color::spec_black(),
    {
        Color { red: MyFloat::from_int(0), green: MyFloat::from_int(0), blue: MyFloat::from_int(0) }
    }

    pub fn white() -> (c: Color)
        ensures
            c == Color::spec_white(),
    {
        Color { red: MyFloat::from_int(1), green: MyFloat::from_int(1), blue: MyFloat::from_int(1) }
    }

    pub fn add(self, rhs: &Color) -> (c: Color)
        ensures
            c == self + *rhs,
    {
        Color {
            red: self.red.add(rhs.red),
            green: self.green.add(rhs.green),
            blue: self.blue.add(rhs.blue),
        }
    }

    pub fn sub(self, rhs: &Color) -> (c: Color)
        ensures
            c == self - *rhs,
    {
        Color {
            red: self.red.sub(rhs.red),
            green: self.green.sub(rhs.green),
            blue: self.blue.sub(rhs.blue),
        }
    }

    pub fn mul(self, rhs: &Color) -> (c: Color)
        ensures
            c == self * *rhs,
    {
        Color {
            red: self.red.mul(rhs.red),
            green: self.green.mul(rhs.green),
            blue: self.blue.mul(rhs.blue),
        }
    }

    pub fn scale(self, factor: MyFloat) -> (c: Color)
        ensures
            c == self.spec_scale(factor),
    {
        Color {
            red: self.red.mul(factor),
            green: self.green.mul(factor),
            blue: self.blue.mul(factor),
        }
    }

    pub fn equals(&self, rhs: &Color) -> (r: bool)
        ensures
            r == self.approx_eq(*rhs),
    {
        self.red.equals(rhs.red) && self.green.equals(rhs.green) && self.blue.equals(rhs.blue)
    }
}

impl Pixel {
    pub open spec fn spec_from(color: Color) -> Pixel {
        Pixel {
            red: spec_normalize(color.red) as i32,
            green: spec_normalize(color.green) as i32,
            blue: spec_normalize(color.blue) as i32,
        }
    }

    /// The pixel a colour is written out as.
    pub fn from(color: &Color) -> (p: Pixel)
        ensures
            p == Pixel::spec_from(*color),
            0 <= p.red <= 255,
            0 <= p.green <= 255,
            0 <= p.blue <= 255,
    {
        Pixel {
            red: normalize(color.red),
            green: normalize(color.green),
            blue: normalize(color.blue),
        }
    }
}

pub fn normalize(value: MyFloat) -> (r: i32)
    ensures
        r == spec_normalize(value),
        0 <= r <= 255,
{
    let max: i32 = 255;
    if value.raw < 0 {
        0
    } else if value.raw > SCALE {
        max
    } else {
        let doubled: i64 = 2 * (value.raw * 255) + SCALE;
        let q: i64 = doubled / (2 * SCALE);
        q as i32
    }
}

} // verus!
