use vstd::prelude::*;

use crate::raster::Rgba;

verus! {

/// A sample counts as white when every color channel is above 200; lower
/// values are glyph ink or gray noise.
pub open spec fn is_white_spec(p: Rgba) -> bool {
    p.r > 200 && p.g > 200 && p.b > 200
}

/// A sample counts as black when every color channel is below 10; pattern
/// detection fires only on such samples.
pub open spec fn is_black_spec(p: Rgba) -> bool {
    p.r < 10 && p.g < 10 && p.b < 10
}

pub fn is_white(p: Rgba) -> (r: bool)
    ensures
        r == is_white_spec(p),
{
    p.r > 200 && p.g > 200 && p.b > 200
}

pub fn is_black(p: Rgba) -> (r: bool)
    ensures
        r == is_black_spec(p),
{
    p.r < 10 && p.g < 10 && p.b < 10
}

/// Two coordinates lie on the same grid line when they differ by at most one,
/// the tolerance for 2x-scale jitter.
pub open spec fn near(a: int, b: int) -> bool {
    a == b || a == b + 1 || a + 1 == b
}

pub open spec fn same_x_line(a: (u32, u32), b: (u32, u32)) -> bool {
    near(a.0 as int, b.0 as int)
}

pub open spec fn same_y_line(a: (u32, u32), b: (u32, u32)) -> bool {
    near(a.1 as int, b.1 as int)
}

pub open spec fn same_line(a: (u32, u32), b: (u32, u32)) -> bool {
    same_x_line(a, b) || same_y_line(a, b)
}

/// True when the two positions share a column within the 1-pixel tolerance.
pub fn is_it_same_x_line(a: (u32, u32), b: (u32, u32)) -> (r: bool)
    ensures
        r == same_x_line(a, b),
{
    a.0 == b.0 || (a.0 as u64) == (b.0 as u64) + 1 || (a.0 as u64) + 1 == (b.0 as u64)
}

/// True when the two positions share a row within the 1-pixel tolerance.
pub fn is_it_same_y_line(a: (u32, u32), b: (u32, u32)) -> (r: bool)
    ensures
        r == same_y_line(a, b),
{
    a.1 == b.1 || (a.1 as u64) == (b.1 as u64) + 1 || (a.1 as u64) + 1 == (b.1 as u64)
}

/// True when the two positions share a row or a column within the tolerance.
pub fn is_it_same_line(a: (u32, u32), b: (u32, u32)) -> (r: bool)
    ensures
        r == same_line(a, b),
{
    is_it_same_x_line(a, b) || is_it_same_y_line(a, b)
}

} // verus!
