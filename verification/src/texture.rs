//! A texture atlas: RGBA bytes addressed per pixel.  A sampler exists for
//! future wall texturing but is not wired into the core pipeline.

use vstd::prelude::*;

verus! {

/// An image of `width * height` pixels, four bytes (RGBA) per pixel,
/// row-major.
pub struct Texture {
    pub width: u32,
    pub height: u32,
    pub pixels: Vec<u8>,
}

impl Texture {
    /// Reads the four RGBA bytes of the pixel at `(x, y)`.
    pub fn get_pixel(&self, x: u32, y: u32) -> (p: [u8; 4])
        requires
            (x + y * self.width) * 4 + 3 < self.pixels@.len(),
        ensures
            p@ == seq![
                self.pixels@[(x + y * self.width) * 4],
                self.pixels@[(x + y * self.width) * 4 + 1],
                self.pixels@[(x + y * self.width) * 4 + 2],
                self.pixels@[(x + y * self.width) * 4 + 3],
            ],
    {
        let n: usize = self.pixels.len();
        proof {
            assert(n == self.pixels@.len());
            assert((x + y * self.width) * 4 == 4 * x + 4 * (y * self.width));
        }
        let starting_index: usize = (x as usize + y as usize * self.width as usize) * 4;

        [
            self.pixels[starting_index],
            self.pixels[starting_index + 1],
            self.pixels[starting_index + 2],
            self.pixels[starting_index + 3],
        ]
    }
}

} // verus!
