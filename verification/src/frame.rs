//! A frame as a plain pixel grid.
//!
//! The capture subsystem hands the detection loop rectangular frames of
//! three-channel byte pixels. The library models such a frame as a row-major
//! vector of `Rgb` pixels with its dimensions: everything the detector reads
//! is then a plain value it can reason about. Each dimension is capped at
//! `MAX_DIM` so that the coordinate sums the detector accumulates are exact
//! in 64-bit arithmetic.

use vstd::prelude::*;

verus! {

/// One pixel: additive red, green and blue byte channels.
#[derive(Clone, Copy, Debug, PartialEq, Eq, Structural)]
pub struct Rgb {
    pub r: u8,
    pub g: u8,
    pub b: u8,
}

/// The largest accepted frame width or height.
pub const MAX_DIM: u32 = 65535;

/// A rectangular pixel grid in row-major order: the pixel at column `x` of
/// row `y` sits at index `y * width + x`.
#[derive(Debug)]
pub struct Frame {
    pub width: u32,
    pub height: u32,
    pub pixels: Vec<Rgb>,
}

impl Frame {
    /// A well-formed frame holds exactly `width * height` pixels and keeps
    /// both dimensions within `MAX_DIM`.
    pub open spec fn wf(self) -> bool {
        &&& self.pixels@.len() == (self.width as int) * (self.height as int)
        &&& self.width <= MAX_DIM
        &&& self.height <= MAX_DIM
    }

    /// The pixel at column `x` of row `y`.
    pub open spec fn px(self, x: int, y: int) -> Rgb {
        self.pixels@[y * (self.width as int) + x]
    }

    /// Build a frame from its dimensions and row-major pixel data. Returns
    /// `None` when the pixel count does not match the dimensions or a
    /// dimension exceeds `MAX_DIM`.
    pub fn new(width: u32, height: u32, pixels: Vec<Rgb>) -> (r: Option<Frame>)
        ensures
            match r {
                Some(f) => {
                    &&& f.wf()
                    &&& f.width == width
                    &&& f.height == height
                    &&& f.pixels@ == pixels@
                    &&& pixels@.len() == (width as int) * (height as int)
                    &&& width <= MAX_DIM
                    &&& height <= MAX_DIM
                },
                None => {
                    ||| pixels@.len() != (width as int) * (height as int)
                    ||| width > MAX_DIM
                    ||| height > MAX_DIM
                },
            },
    {
        if width > MAX_DIM || height > MAX_DIM {
            return None;
        }
        proof {
            assert((width as int) * (height as int) <= 65535 * 65535) by (nonlinear_arith)
                requires
                    0 <= (width as int) <= 65535,
                    0 <= (height as int) <= 65535,
            ;
        }
        let expect: u64 = (width as u64) * (height as u64);
        if (pixels.len() as u64) != expect {
            return None;
        }
        Some(Frame { width, height, pixels })
    }

    pub fn width(&self) -> (r: u32)
        ensures
            r == self.width,
    {
        self.width
    }

    pub fn height(&self) -> (r: u32)
        ensures
            r == self.height,
    {
        self.height
    }

    /// Read the pixel at column `x` of row `y`.
    pub fn get_pixel(&self, x: u32, y: u32) -> (p: Rgb)
        requires
            self.wf(),
            x < self.width,
            y < self.height,
        ensures
            p == self.px(x as int, y as int),
    {
        proof {
            assert((y as int) * (self.width as int) + (x as int) < (self.width as int) * (self
                .height as int)) by (nonlinear_arith)
                requires
                    (x as int) < (self.width as int),
                    (y as int) < (self.height as int),
                    0 <= (x as int),
                    0 <= (y as int),
            ;
            assert(0 <= (y as int) * (self.width as int) <= 65534 * 65535) by (nonlinear_arith)
                requires
                    0 <= (y as int) <= 65534,
                    0 <= (self.width as int) <= 65535,
            ;
        }
        let idx: usize = (y as usize) * (self.width as usize) + (x as usize);
        self.pixels[idx]
    }
}

} // verus!
