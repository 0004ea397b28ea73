use vstd::prelude::*;

use crate::canvas::{Colour, Image};

verus! {

/// A 2D point in image space. Coordinates are whole pixels; the view
/// transform that produces fractional positions lives outside the library.
#[derive(Clone, Copy, Debug, PartialEq, Eq, Structural)]
pub struct Vertex {
    pub x: i32,
    pub y: i32,
}

impl Vertex {
    pub fn new(x: i32, y: i32) -> (v: Vertex)
        ensures
            v == (Vertex { x, y }),
    {
        Vertex { x, y }
    }

    /// Translates this point by another, producing a new point.
    pub fn add(&self, point: &Vertex) -> (v: Vertex)
        requires
            i32::MIN <= self.x + point.x <= i32::MAX,
            i32::MIN <= self.y + point.y <= i32::MAX,
        ensures
            v.x == self.x + point.x,
            v.y == self.y + point.y,
    {
        Vertex { x: self.x + point.x, y: self.y + point.y }
    }

    /// Scales this point uniformly about the origin.
    pub fn scale(&self, scalar: i32) -> (v: Vertex)
        requires
            i32::MIN <= self.x * scalar <= i32::MAX,
            i32::MIN <= self.y * scalar <= i32::MAX,
        ensures
            v.x == self.x * scalar,
            v.y == self.y * scalar,
    {
        Vertex { x: self.x * scalar, y: self.y * scalar }
    }

    /// Looks this point up in the backing image: its pixel's colour when it
    /// lies on the canvas, transparent black otherwise.
    pub fn get_colour(&self, image: &Image) -> (c: Colour)
        requires
            image.wf(),
        ensures
            image.in_bounds(self.x as int, self.y as int) ==> c == image.colour_at(
                self.x as int,
                self.y as int,
            ),
            !image.in_bounds(self.x as int, self.y as int) ==> c == (Colour {
                r: 0u8,
                g: 0u8,
                b: 0u8,
                a: 0u8,
            }),
    {
        if self.x >= 0 && self.y >= 0 && (self.x as u32) < image.width && (self.y as u32)
            < image.height {
            image.get_pixel(self.x as u32, self.y as u32)
        } else {
            Colour { r: 0, g: 0, b: 0, a: 0 }
        }
    }
}

} // verus!
