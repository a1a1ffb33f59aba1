use vstd::prelude::*;

verus! {

/// A 24-bit colour.
#[derive(Clone, Copy, Debug, PartialEq, Eq, Structural)]
pub struct Rgb {
    pub r: u8,
    pub g: u8,
    pub b: u8,
}

/// A pixel position on a draw target.
#[derive(Clone, Copy, Debug, PartialEq, Eq, Structural)]
pub struct Point {
    pub x: i32,
    pub y: i32,
}

/// One operation on a draw target, as a scene issues them.
#[derive(Clone, Copy, Debug, PartialEq, Eq, Structural)]
pub enum DrawOp {
    /// Fill the whole target with a colour.
    Clear(Rgb),
    /// Set one pixel to a colour.
    Pixel(Point, Rgb),
}

impl Rgb {
    /// The colour with the given channel values.
    pub fn new(r: u8, g: u8, b: u8) -> (c: Rgb)
        ensures
            c == (Rgb { r, g, b }),
    {
        Rgb { r, g, b }
    }
}

/// Black: every channel off.
pub open spec fn black() -> Rgb {
    Rgb { r: 0, g: 0, b: 0 }
}

/// Full red.
pub open spec fn red() -> Rgb {
    Rgb { r: 255, g: 0, b: 0 }
}

/// Full green.
pub open spec fn green() -> Rgb {
    Rgb { r: 0, g: 255, b: 0 }
}

/// Full blue.
pub open spec fn blue() -> Rgb {
    Rgb { r: 0, g: 0, b: 255 }
}

/// Full red and green.
pub open spec fn yellow() -> Rgb {
    Rgb { r: 255, g: 255, b: 0 }
}

/// The pixel operation for `(x, y)` in colour `c`.
pub open spec fn pixel_op(x: int, y: int, c: Rgb) -> DrawOp {
    DrawOp::Pixel(Point { x: x as i32, y: y as i32 }, c)
}

} // verus!
