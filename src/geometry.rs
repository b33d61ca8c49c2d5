use vstd::prelude::*;

verus! {

/// A point with integer coordinates.
pub struct Point(pub i32, pub i32);

impl Point {
    /// The point `(x, y)`.
    pub fn new(x: i32, y: i32) -> (r: Point)
        ensures
            r.0 == x,
            r.1 == y,
    {
        Point(x, y)
    }
}

/// An axis-aligned rectangle given by its side lengths.
pub struct Rectangle {
    pub width: u32,
    pub height: u32,
}

impl Rectangle {
    /// A rectangle `width` wide and `height` high.
    pub fn new(width: u32, height: u32) -> (r: Rectangle)
        ensures
            r.width == width,
            r.height == height,
    {
        Rectangle { width, height }
    }

    /// Width times height.
    pub fn area(&self) -> (r: u32)
        requires
            self.width * self.height <= u32::MAX,
        ensures
            r == self.width * self.height,
    {
        self.width * self.height
    }

    /// Twice the width plus twice the height.
    pub fn perimeter(&self) -> (r: u32)
        requires
            2 * self.width + 2 * self.height <= u32::MAX,
        ensures
            r == 2 * self.width + 2 * self.height,
    {
        self.width + self.width + self.height + self.height
    }

    /// Whether the two sides are equal.
    pub fn is_square(&self) -> (r: bool)
        ensures
            r == (self.width == self.height),
    {
        self.width == self.height
    }

    /// Whether `to` fits inside this rectangle without turning it.
    pub fn can_hold(&self, to: &Rectangle) -> (r: bool)
        ensures
            r == (to.width <= self.width && to.height <= self.height),
    {
        to.width <= self.width && to.height <= self.height
    }

    /// Multiplies both sides by `scale`.
    pub fn scale(&mut self, scale: u32)
        requires
            old(self).width * scale <= u32::MAX,
            old(self).height * scale <= u32::MAX,
        ensures
            final(self).width == old(self).width * scale,
            final(self).height == old(self).height * scale,
    {
        self.width = self.width * scale;
        self.height = self.height * scale;
    }
}

} // verus!
