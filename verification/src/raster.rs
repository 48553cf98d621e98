use vstd::prelude::*;

verus! {

/// One RGBA sample, eight bits per channel.
#[derive(Clone, Copy, PartialEq, Eq, Structural, Debug)]
pub struct Rgba {
    pub r: u8,
    pub g: u8,
    pub b: u8,
    pub a: u8,
}

impl Rgba {
    /// The opaque white sample that normalized and erased pixels are set to.
    pub open spec fn pure_white() -> Rgba {
        Rgba { r: 255, g: 255, b: 255, a: 255 }
    }

    /// Builds the opaque white sample.
    pub fn white() -> (r: Rgba)
        ensures
            r == Rgba::pure_white(),
    {
        Rgba { r: 255, g: 255, b: 255, a: 255 }
    }
}

/// An RGBA raster addressed by (x, y) with (0, 0) top-left, stored row-major.
#[derive(Debug)]
pub struct Raster {
    pub width: u32,
    pub height: u32,
    pub data: Vec<Rgba>,
}

/// A row-major index stays inside a raster of the given dimensions.
pub proof fn lemma_row_major_index(x: int, y: int, w: int, h: int)
    by (nonlinear_arith)
    requires
        0 <= x < w,
        0 <= y < h,
    ensures
        0 <= y * w + x < w * h,
{
}

/// Distinct coordinates map to distinct row-major indices.
pub proof fn lemma_row_major_injective(x1: int, y1: int, x2: int, y2: int, w: int)
    by (nonlinear_arith)
    requires
        0 <= x1 < w,
        0 <= x2 < w,
        0 <= y1,
        0 <= y2,
        !(x1 == x2 && y1 == y2),
    ensures
        y1 * w + x1 != y2 * w + x2,
{
}

impl Raster {
    /// The samples fill exactly width * height slots, row-major.
    pub open spec fn wf(self) -> bool {
        self.data.len() == self.width * self.height
    }

    pub open spec fn in_bounds(self, x: int, y: int) -> bool {
        0 <= x < self.width && 0 <= y < self.height
    }

    /// The sample at (x, y).
    pub open spec fn px(self, x: int, y: int) -> Rgba {
        self.data[y * self.width + x]
    }

    pub fn width(&self) -> (r: u32)
        ensures
            r == self.width,
    {
        self.width
    }

    pub fn height(&self) -> (r: u32)
        ensures
            r == self.height,
    {
        self.height
    }

    /// Wraps a row-major sample vector, refusing one whose length does not
    /// match the dimensions.
    pub fn from_pixels(width: u32, height: u32, data: Vec<Rgba>) -> (r: Option<Raster>)
        ensures
            r is Some <==> data.len() == width * height,
            r matches Some(im) ==> im.wf() && im.width == width && im.height == height
                && im.data == data,
    {
        proof {
            lemma_dims_product_fits(width as int, height as int);
        }
        if (data.len() as u64) == (width as u64) * (height as u64) {
            Some(Raster { width, height, data })
        } else {
            None
        }
    }

    pub fn get_px(&self, x: u32, y: u32) -> (r: Rgba)
        requires
            self.wf(),
            self.in_bounds(x as int, y as int),
        ensures
            r == self.px(x as int, y as int),
    {
        proof {
            lemma_row_major_index(x as int, y as int, self.width as int, self.height as int);
        }
        let i: usize = (y as usize) * (self.width as usize) + (x as usize);
        self.data[i]
    }

    /// Overwrites the sample at (x, y), leaving every other sample as it was.
    pub fn set_px(&mut self, x: u32, y: u32, p: Rgba)
        requires
            old(self).wf(),
            old(self).in_bounds(x as int, y as int),
        ensures
            final(self).wf(),
            final(self).width == old(self).width,
            final(self).height == old(self).height,
            final(self).px(x as int, y as int) == p,
            forall|i: int, j: int|
                old(self).in_bounds(i, j) && !(i == x as int && j == y as int)
                    ==> final(self).px(i, j) == old(self).px(i, j),
    {
        proof {
            lemma_row_major_index(x as int, y as int, self.width as int, self.height as int);
        }
        let i: usize = (y as usize) * (self.width as usize) + (x as usize);
        self.data.set(i, p);
        proof {
            assert forall|a: int, b: int|
                old(self).in_bounds(a, b) && !(a == x as int && b == y as int)
                    implies final(self).px(a, b) == old(self).px(a, b) by {
                lemma_row_major_index(a, b, self.width as int, self.height as int);
                lemma_row_major_injective(a, b, x as int, y as int, self.width as int);
            }
        }
    }
}

/// The product of two 32-bit dimensions fits in 64 bits.
proof fn lemma_dims_product_fits(w: int, h: int)
    by (nonlinear_arith)
    requires
        0 <= w < 0x1_0000_0000,
        0 <= h < 0x1_0000_0000,
    ensures
        0 <= w * h <= 0xffff_ffff_ffff_ffff,
{
}

} // verus!
