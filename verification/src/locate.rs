use vstd::prelude::*;

use crate::raster::{Raster, Rgba};
use crate::classify::{is_white_spec, is_black_spec, near, is_white, is_black, is_it_same_line};

verus! {

/// Where the 2x2 block that the pixel at (x, y) belongs to has its top-left
/// corner: the first non-white block-mate among up-left, up-right and
/// down-left (skipping directions that leave the raster) decides which corner
/// (x, y) occupies; with no such mate the pixel is its own origin.
pub open spec fn origin_spec(im: Raster, x: int, y: int) -> (int, int) {
    let lft = x == 0;
    let rgt = x == im.width - 1;
    let top = y == 0;
    let bot = y == im.height - 1;
    if !(lft || top) && !is_white_spec(im.px(x - 1, y - 1)) {
        (x - 1, y - 1)
    } else if !(rgt || top) && !is_white_spec(im.px(x + 1, y - 1)) {
        (x, y - 1)
    } else if !(lft || bot) && !is_white_spec(im.px(x - 1, y + 1)) {
        (x - 1, y)
    } else {
        (x, y)
    }
}

/// Resolves the top-left corner of the 2x2 block the target pixel belongs to.
pub fn get_left_top_pos_of_4px(target: (u32, u32), im: &Raster) -> (r: (u32, u32))
    requires
        im.wf(),
        im.width >= 1,
        im.height >= 1,
        im.in_bounds(target.0 as int, target.1 as int),
    ensures
        (r.0 as int, r.1 as int) == origin_spec(*im, target.0 as int, target.1 as int),
        r.0 <= target.0,
        r.1 <= target.1,
{
    let (x, y) = target;
    let lft = x == 0;
    let rgt = x == im.width() - 1;
    let top = y == 0;
    let bot = y == im.height() - 1;
    if !(lft || top) && !is_white(im.get_px(x - 1, y - 1)) {
        (x - 1, y - 1)
    } else if !(rgt || top) && !is_white(im.get_px(x + 1, y - 1)) {
        (x, y - 1)
    } else if !(lft || bot) && !is_white(im.get_px(x - 1, y + 1)) {
        (x - 1, y)
    } else {
        (x, y)
    }
}

/// The rows collected from the first n pixels of column 0: for each black
/// sample, the row of its block origin.
pub open spec fn left_pattern_spec(im: Raster, n: int) -> Seq<u32>
    decreases n,
{
    if n <= 0 {
        Seq::empty()
    } else {
        let p = left_pattern_spec(im, n - 1);
        if is_black_spec(im.px(0, n - 1)) {
            p.push(origin_spec(im, 0, n - 1).1 as u32)
        } else {
            p
        }
    }
}

/// The columns collected from the first n pixels of row 0: for each black
/// sample, the column of its block origin.
pub open spec fn top_pattern_spec(im: Raster, n: int) -> Seq<u32>
    decreases n,
{
    if n <= 0 {
        Seq::empty()
    } else {
        let p = top_pattern_spec(im, n - 1);
        if is_black_spec(im.px(n - 1, 0)) {
            p.push(origin_spec(im, n - 1, 0).0 as u32)
        } else {
            p
        }
    }
}

/// Walks column 0 and collects, for every black sample, the row of its block
/// origin.
pub fn scan_left_pattern(im: &Raster) -> (r: Vec<u32>)
    requires
        im.wf(),
        im.width >= 1,
        im.height >= 1,
    ensures
        r@ == left_pattern_spec(*im, im.height as int),
{
    let mut r: Vec<u32> = Vec::new();
    let mut y: u32 = 0;
    while y < im.height()
        invariant
            im.wf(),
            im.width >= 1,
            im.height >= 1,
            y <= im.height,
            r@ == left_pattern_spec(*im, y as int),
        decreases im.height - y,
    {
        if is_black(im.get_px(0, y)) {
            let o = get_left_top_pos_of_4px((0, y), im);
            r.push(o.1);
        }
        y = y + 1;
    }
    r
}

/// Walks row 0 and collects, for every black sample, the column of its block
/// origin.
pub fn scan_top_pattern(im: &Raster) -> (r: Vec<u32>)
    requires
        im.wf(),
        im.width >= 1,
        im.height >= 1,
    ensures
        r@ == top_pattern_spec(*im, im.width as int),
{
    let mut r: Vec<u32> = Vec::new();
    let mut x: u32 = 0;
    while x < im.width()
        invariant
            im.wf(),
            im.width >= 1,
            im.height >= 1,
            x <= im.width,
            r@ == top_pattern_spec(*im, x as int),
        decreases im.width - x,
    {
        if is_black(im.get_px(x, 0)) {
            let o = get_left_top_pos_of_4px((x, 0), im);
            r.push(o.0);
        }
        x = x + 1;
    }
    r
}

/// (x1, y1) comes strictly before (x2, y2) in row-major raster order.
pub open spec fn raster_before(x1: int, y1: int, x2: int, y2: int) -> bool {
    y1 < y2 || (y1 == y2 && x1 < x2)
}

/// (x, y) holds the first sample, in raster order, that is not pure white.
pub open spec fn is_first_nonwhite(im: Raster, p: (u32, u32)) -> bool {
    &&& im.in_bounds(p.0 as int, p.1 as int)
    &&& im.px(p.0 as int, p.1 as int) != Rgba::pure_white()
    &&& forall|i: int, j: int|
        im.in_bounds(i, j) && raster_before(i, j, p.0 as int, p.1 as int)
            ==> im.px(i, j) == Rgba::pure_white()
}

/// Finds the primary anchor: the first sample in raster order that is not
/// pure opaque white.
pub fn find_first_nonwhite(im: &Raster) -> (r: Option<(u32, u32)>)
    requires
        im.wf(),
    ensures
        r matches Some(p) ==> is_first_nonwhite(*im, p),
        r is None ==> forall|i: int, j: int|
            im.in_bounds(i, j) ==> im.px(i, j) == Rgba::pure_white(),
{
    let w = Rgba::white();
    let mut y: u32 = 0;
    while y < im.height()
        invariant
            im.wf(),
            w == Rgba::pure_white(),
            y <= im.height,
            forall|i: int, j: int|
                im.in_bounds(i, j) && j < y as int ==> im.px(i, j) == Rgba::pure_white(),
        decreases im.height - y,
    {
        let mut x: u32 = 0;
        while x < im.width()
            invariant
                im.wf(),
                w == Rgba::pure_white(),
                y < im.height,
                x <= im.width,
                forall|i: int, j: int|
                    im.in_bounds(i, j) && j < y as int ==> im.px(i, j) == Rgba::pure_white(),
                forall|i: int, j: int|
                    im.in_bounds(i, j) && j == y as int && i < x as int
                        ==> im.px(i, j) == Rgba::pure_white(),
            decreases im.width - x,
        {
            let p = im.get_px(x, y);
            if !(p == w) {
                return Some((x, y));
            }
            x = x + 1;
        }
        y = y + 1;
    }
    None
}

/// (x, y) qualifies as a secondary anchor for the primary anchor f: black and
/// not on the same row or column line as f (within the 1-pixel tolerance).
pub open spec fn second_anchor_ok(im: Raster, f: (u32, u32), x: int, y: int) -> bool {
    is_black_spec(im.px(x, y)) && !(near(f.0 as int, x) || near(f.1 as int, y))
}

/// s holds the first sample, in raster order, that qualifies as a secondary
/// anchor for f.
pub open spec fn is_first_second_anchor(im: Raster, f: (u32, u32), s: (u32, u32)) -> bool {
    &&& im.in_bounds(s.0 as int, s.1 as int)
    &&& second_anchor_ok(im, f, s.0 as int, s.1 as int)
    &&& forall|i: int, j: int|
        im.in_bounds(i, j) && raster_before(i, j, s.0 as int, s.1 as int)
            ==> !second_anchor_ok(im, f, i, j)
}

/// Finds the secondary anchor: the first black sample in raster order that
/// does not share a row or column line with the primary anchor.
pub fn find_second_anchor(im: &Raster, first: (u32, u32)) -> (r: Option<(u32, u32)>)
    requires
        im.wf(),
    ensures
        r matches Some(s) ==> is_first_second_anchor(*im, first, s),
        r is None ==> forall|i: int, j: int|
            im.in_bounds(i, j) ==> !second_anchor_ok(*im, first, i, j),
{
    let mut y: u32 = 0;
    while y < im.height()
        invariant
            im.wf(),
            y <= im.height,
            forall|i: int, j: int|
                im.in_bounds(i, j) && j < y as int ==> !second_anchor_ok(*im, first, i, j),
        decreases im.height - y,
    {
        let mut x: u32 = 0;
        while x < im.width()
            invariant
                im.wf(),
                y < im.height,
                x <= im.width,
                forall|i: int, j: int|
                    im.in_bounds(i, j) && j < y as int ==> !second_anchor_ok(*im, first, i, j),
                forall|i: int, j: int|
                    im.in_bounds(i, j) && j == y as int && i < x as int
                        ==> !second_anchor_ok(*im, first, i, j),
            decreases im.width - x,
        {
            let p = im.get_px(x, y);
            if is_black(p) && !is_it_same_line(first, (x, y)) {
                return Some((x, y));
            }
            x = x + 1;
        }
        y = y + 1;
    }
    None
}

/// The rows collected from row y, columns [0, xe): for every black sample
/// whose column lies on the secondary anchor's column line, the row of its
/// block origin.
pub open spec fn second_left_row_spec(im: Raster, ynx: int, y: int, xe: int) -> Seq<u32>
    decreases xe,
{
    if xe <= 0 {
        Seq::empty()
    } else {
        let p = second_left_row_spec(im, ynx, y, xe - 1);
        if is_black_spec(im.px(xe - 1, y)) && near(xe - 1, ynx) {
            p.push(origin_spec(im, xe - 1, y).1 as u32)
        } else {
            p
        }
    }
}

/// The rows collected from the first ye complete rows of the raster.
pub open spec fn second_left_spec(im: Raster, ynx: int, ye: int) -> Seq<u32>
    decreases ye,
{
    if ye <= 0 {
        Seq::empty()
    } else {
        second_left_spec(im, ynx, ye - 1) + second_left_row_spec(im, ynx, ye - 1, im.width as int)
    }
}

/// The columns collected from row y, columns [0, xe): for every black sample
/// whose row lies on the secondary anchor's row line, the column of its block
/// origin.
pub open spec fn second_top_row_spec(im: Raster, yny: int, y: int, xe: int) -> Seq<u32>
    decreases xe,
{
    if xe <= 0 {
        Seq::empty()
    } else {
        let p = second_top_row_spec(im, yny, y, xe - 1);
        if is_black_spec(im.px(xe - 1, y)) && near(y, yny) {
            p.push(origin_spec(im, xe - 1, y).0 as u32)
        } else {
            p
        }
    }
}

/// The columns collected from the first ye complete rows of the raster.
pub open spec fn second_top_spec(im: Raster, yny: int, ye: int) -> Seq<u32>
    decreases ye,
{
    if ye <= 0 {
        Seq::empty()
    } else {
        second_top_spec(im, yny, ye - 1) + second_top_row_spec(im, yny, ye - 1, im.width as int)
    }
}

/// Scans the whole raster and collects, for every black sample on the
/// secondary anchor's column line, the row of its block origin.
pub fn scan_second_left_pattern(im: &Raster, y_next: (u32, u32)) -> (r: Vec<u32>)
    requires
        im.wf(),
        im.width >= 1,
        im.height >= 1,
    ensures
        r@ == second_left_spec(*im, y_next.0 as int, im.height as int),
{
    let mut r: Vec<u32> = Vec::new();
    let mut y: u32 = 0;
    while y < im.height()
        invariant
            im.wf(),
            im.width >= 1,
            im.height >= 1,
            y <= im.height,
            r@ == second_left_spec(*im, y_next.0 as int, y as int),
        decreases im.height - y,
    {
        let mut x: u32 = 0;
        while x < im.width()
            invariant
                im.wf(),
                im.width >= 1,
                im.height >= 1,
                y < im.height,
                x <= im.width,
                r@ == second_left_spec(*im, y_next.0 as int, y as int) + second_left_row_spec(
                    *im,
                    y_next.0 as int,
                    y as int,
                    x as int,
                ),
            decreases im.width - x,
        {
            let p = im.get_px(x, y);
            if is_black(p) && (x == y_next.0 || (x as u64) == (y_next.0 as u64) + 1 || (x as u64)
                + 1 == (y_next.0 as u64)) {
                let o = get_left_top_pos_of_4px((x, y), im);
                r.push(o.1);
            }
            x = x + 1;
        }
        y = y + 1;
    }
    r
}

/// Scans the whole raster and collects, for every black sample on the
/// secondary anchor's row line, the column of its block origin.
pub fn scan_second_top_pattern(im: &Raster, y_next: (u32, u32)) -> (r: Vec<u32>)
    requires
        im.wf(),
        im.width >= 1,
        im.height >= 1,
    ensures
        r@ == second_top_spec(*im, y_next.1 as int, im.height as int),
{
    let mut r: Vec<u32> = Vec::new();
    let mut y: u32 = 0;
    while y < im.height()
        invariant
            im.wf(),
            im.width >= 1,
            im.height >= 1,
            y <= im.height,
            r@ == second_top_spec(*im, y_next.1 as int, y as int),
        decreases im.height - y,
    {
        let mut x: u32 = 0;
        while x < im.width()
            invariant
                im.wf(),
                im.width >= 1,
                im.height >= 1,
                y < im.height,
                x <= im.width,
                r@ == second_top_spec(*im, y_next.1 as int, y as int) + second_top_row_spec(
                    *im,
                    y_next.1 as int,
                    y as int,
                    x as int,
                ),
            decreases im.width - x,
        {
            let p = im.get_px(x, y);
            if is_black(p) && (y == y_next.1 || (y as u64) == (y_next.1 as u64) + 1 || (y as u64)
                + 1 == (y_next.1 as u64)) {
                let o = get_left_top_pos_of_4px((x, y), im);
                r.push(o.0);
            }
            x = x + 1;
        }
        y = y + 1;
    }
    r
}

/// The primary anchor is unique: two positions that are both first non-white
/// samples in raster order are the same position.
pub proof fn lemma_first_nonwhite_unique(im: Raster, p: (u32, u32), q: (u32, u32))
    requires
        is_first_nonwhite(im, p),
        is_first_nonwhite(im, q),
    ensures
        p == q,
{
    if raster_before(p.0 as int, p.1 as int, q.0 as int, q.1 as int) {
        assert(im.px(p.0 as int, p.1 as int) == Rgba::pure_white());
    } else if raster_before(q.0 as int, q.1 as int, p.0 as int, p.1 as int) {
        assert(im.px(q.0 as int, q.1 as int) == Rgba::pure_white());
    }
}

/// The secondary anchor is unique for a given primary anchor.
pub proof fn lemma_second_anchor_unique(im: Raster, f: (u32, u32), p: (u32, u32), q: (u32, u32))
    requires
        is_first_second_anchor(im, f, p),
        is_first_second_anchor(im, f, q),
    ensures
        p == q,
{
    if raster_before(p.0 as int, p.1 as int, q.0 as int, q.1 as int) {
        assert(!second_anchor_ok(im, f, p.0 as int, p.1 as int));
    } else if raster_before(q.0 as int, q.1 as int, p.0 as int, p.1 as int) {
        assert(!second_anchor_ok(im, f, q.0 as int, q.1 as int));
    }
}

} // verus!
