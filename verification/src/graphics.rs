//! Image data for the display.
//!
//! Pixel rendering itself is an external collaborator; the library only
//! owns the packed image format and its pixel lookup.
use vstd::prelude::*;

verus! {

/// A monochrome image packed one bit per pixel, in vertical byte strips.
#[derive(Clone, Debug)]
pub struct QmkImage {
    pub width: u8,
    pub height: u8,
    pub bytes: Vec<u8>,
}

impl QmkImage {
    /// The byte buffer covers every pixel the lookup can touch.
    pub open spec fn wf(&self) -> bool {
        self.bytes@.len() * 8 >= self.width as int * self.height as int
    }

    /// The pixel at `(x, y)`, or `None` outside the image.
    ///
    /// A set bit means a lit pixel; pixel `(x, y)` lives in byte
    /// `(y * width + x) / 8` at bit `y % 8` of the packing.
    pub fn get_pixel(&self, x: u8, y: u8) -> (r: Option<bool>)
        requires
            self.wf(),
        ensures
            (x >= self.width || y >= self.height) <==> r is None,
            x < self.width && y < self.height ==> r == Some(
                (self.bytes@[(y as int * self.width as int + x as int) / 8] >> ((y as u8) % 8) & 1)
                    == 1,
            ),
    {
        if x >= self.width || y >= self.height {
            return None;
        }
        proof {
            assert(y as int * self.width as int <= 255 * 255) by (nonlinear_arith)
                requires
                    y <= 255,
                    self.width <= 255,
            ;
        }
        let index: usize = y as usize * self.width as usize + x as usize;
        let byte_index: usize = index / 8;
        let bit_index: u8 = y % 8;
        proof {
            assert(index / 8 < self.bytes@.len()) by (nonlinear_arith)
                requires
                    index == y as int * self.width as int + x as int,
                    x < self.width,
                    y < self.height,
                    self.bytes@.len() * 8 >= self.width as int * self.height as int,
                    self.width >= 1,
                    self.height >= 1,
            ;
        }
        Some((self.bytes[byte_index] >> bit_index) & 1 == 1)
    }
}

} // verus!
