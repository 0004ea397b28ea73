use vstd::prelude::*;

verus! {

/// A 4-channel colour, 8 bits per channel (red, green, blue, alpha).
#[derive(Clone, Copy, Debug, PartialEq, Eq, Structural)]
pub struct Colour {
    pub r: u8,
    pub g: u8,
    pub b: u8,
    pub a: u8,
}

/// Builds a fully opaque colour from its three channels.
pub fn colour(r: u8, g: u8, b: u8) -> (c: Colour)
    ensures
        c == (Colour { r, g, b, a: 255u8 }),
{
    Colour { r, g, b, a: 255 }
}

/// Blends the colours of two shared-edge endpoints into the inverted
/// channel-wise mean, used when drawing mesh edges. Each channel of the
/// result depends only on the same channel of the two inputs.
pub fn mix_colours(colour_a: &Colour, colour_b: &Colour) -> (c: Colour)
    ensures
        c.r == 255 - (colour_a.r + colour_b.r) / 2,
        c.g == 255 - (colour_a.g + colour_b.g) / 2,
        c.b == 255 - (colour_a.b + colour_b.b) / 2,
        c.a == 255,
{
    let r: u16 = (colour_a.r as u16 + colour_b.r as u16) / 2;
    let g: u16 = (colour_a.g as u16 + colour_b.g as u16) / 2;
    let b: u16 = (colour_a.b as u16 + colour_b.b as u16) / 2;
    Colour { r: 255 - r as u8, g: 255 - g as u8, b: 255 - b as u8, a: 255 }
}

/// An immutable grid of colours, stored row-major, fixed for a session.
pub struct Image {
    pub width: u32,
    pub height: u32,
    pub pixels: Vec<Colour>,
}

impl Image {
    /// The pixel buffer covers exactly the width-by-height grid.
    pub open spec fn wf(self) -> bool {
        self.pixels.len() == self.width * self.height
    }

    pub open spec fn in_bounds(self, x: int, y: int) -> bool {
        0 <= x < self.width && 0 <= y < self.height
    }

    pub open spec fn colour_at(self, x: int, y: int) -> Colour {
        self.pixels[y * self.width + x]
    }

    pub fn new(width: u32, height: u32, pixels: Vec<Colour>) -> (img: Image)
        requires
            pixels.len() == width * height,
        ensures
            img.wf(),
            img.width == width,
            img.height == height,
            img.pixels == pixels,
    {
        Image { width, height, pixels }
    }

    pub fn get_pixel(&self, x: u32, y: u32) -> (c: Colour)
        requires
            self.wf(),
            self.in_bounds(x as int, y as int),
        ensures
            c == self.colour_at(x as int, y as int),
    {
        proof {
            assert((y as int) * (self.width as int) + (x as int) < (self.width as int) * (
            self.height as int)) by (nonlinear_arith)
                requires
                    0 <= x < self.width,
                    0 <= y < self.height,
            ;
        }
        let idx: usize = (y as usize) * (self.width as usize) + (x as usize);
        self.pixels[idx]
    }
}

} // verus!
