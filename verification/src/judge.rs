//! The isolation judge and eraser. Of the two conceivable policies — erasing
//! whole blocks only, or additionally trimming single stray corners of kept
//! blocks — this module implements the per-corner-refinement policy: a block
//! on the image edge or with fewer than two supported sides is erased whole,
//! and a kept block has each corner pixel erased individually when both of
//! its diagonally adjacent neighbor samples are white.

use vstd::prelude::*;

use crate::raster::{Raster, Rgba};
use crate::classify::{is_white_spec, is_white};

verus! {

/// The 2x2 block at (x, y) touches or crosses an image edge; such a block is
/// treated unconditionally as noise.
pub open spec fn boundary_spec(im: Raster, x: int, y: int) -> bool {
    x < 1 || x + 2 > im.width - 1 || y < 1 || y + 2 > im.height - 1
}

/// The left neighbor column of the block holds a non-white sample.
pub open spec fn left_supported(im: Raster, x: int, y: int) -> bool {
    !is_white_spec(im.px(x - 1, y)) || !is_white_spec(im.px(x - 1, y + 1))
}

/// The right neighbor column of the block holds a non-white sample.
pub open spec fn right_supported(im: Raster, x: int, y: int) -> bool {
    !is_white_spec(im.px(x + 2, y)) || !is_white_spec(im.px(x + 2, y + 1))
}

/// The top neighbor row of the block holds a non-white sample.
pub open spec fn top_supported(im: Raster, x: int, y: int) -> bool {
    !is_white_spec(im.px(x, y - 1)) || !is_white_spec(im.px(x + 1, y - 1))
}

/// The bottom neighbor row of the block holds a non-white sample.
pub open spec fn bottom_supported(im: Raster, x: int, y: int) -> bool {
    !is_white_spec(im.px(x, y + 2)) || !is_white_spec(im.px(x + 1, y + 2))
}

/// How many of the four neighbor sides of the block hold a non-white sample.
pub open spec fn support_count(im: Raster, x: int, y: int) -> int {
    (if left_supported(im, x, y) { 1int } else { 0int })
        + (if right_supported(im, x, y) { 1int } else { 0int })
        + (if top_supported(im, x, y) { 1int } else { 0int })
        + (if bottom_supported(im, x, y) { 1int } else { 0int })
}

/// The top-left corner pixel of a kept block is trimmed when both samples
/// diagonally adjacent to it are white.
pub open spec fn trim_left_top(im: Raster, x: int, y: int) -> bool {
    is_white_spec(im.px(x - 1, y)) && is_white_spec(im.px(x, y - 1))
}

pub open spec fn trim_right_top(im: Raster, x: int, y: int) -> bool {
    is_white_spec(im.px(x + 2, y)) && is_white_spec(im.px(x + 1, y - 1))
}

pub open spec fn trim_left_bottom(im: Raster, x: int, y: int) -> bool {
    is_white_spec(im.px(x - 1, y + 1)) && is_white_spec(im.px(x, y + 2))
}

pub open spec fn trim_right_bottom(im: Raster, x: int, y: int) -> bool {
    is_white_spec(im.px(x + 2, y + 1)) && is_white_spec(im.px(x + 1, y + 2))
}

/// Which of the four pixels of the candidate block at (x, y) are erased, in
/// the order top-left, top-right, bottom-left, bottom-right: a block on the
/// image edge or with fewer than two supported sides is erased whole; a kept
/// block has each corner trimmed individually when both of its diagonally
/// adjacent neighbor samples are white.
pub open spec fn check_spec(im: Raster, x: int, y: int) -> (bool, bool, bool, bool) {
    if boundary_spec(im, x, y) {
        (true, true, true, true)
    } else if support_count(im, x, y) < 2 {
        (true, true, true, true)
    } else {
        (
            trim_left_top(im, x, y),
            trim_right_top(im, x, y),
            trim_left_bottom(im, x, y),
            trim_right_bottom(im, x, y),
        )
    }
}

/// Judges the candidate block whose top-left pixel is target, returning for
/// each of its four pixels whether it is to be erased.
pub fn check_convert(target: (u32, u32), im: &Raster) -> (r: (bool, bool, bool, bool))
    requires
        im.wf(),
        im.width >= 1,
        im.height >= 1,
    ensures
        r == check_spec(*im, target.0 as int, target.1 as int),
{
    let (x, y) = target;
    let lft = x < 1;
    let rgt = (x as u64) + 2 > (im.width() as u64) - 1;
    let top = y < 1;
    let bot = (y as u64) + 2 > (im.height() as u64) - 1;
    if lft || rgt || top || bot {
        return (true, true, true, true);
    }
    let left_black = !is_white(im.get_px(x - 1, y)) || !is_white(im.get_px(x - 1, y + 1));
    let right_black = !is_white(im.get_px(x + 2, y)) || !is_white(im.get_px(x + 2, y + 1));
    let top_black = !is_white(im.get_px(x, y - 1)) || !is_white(im.get_px(x + 1, y - 1));
    let bottom_black = !is_white(im.get_px(x, y + 2)) || !is_white(im.get_px(x + 1, y + 2));
    let mut cnt: u32 = 0;
    if left_black {
        cnt = cnt + 1;
    }
    if right_black {
        cnt = cnt + 1;
    }
    if top_black {
        cnt = cnt + 1;
    }
    if bottom_black {
        cnt = cnt + 1;
    }
    if cnt < 2 {
        return (true, true, true, true);
    }
    let left_top = is_white(im.get_px(x - 1, y)) && is_white(im.get_px(x, y - 1));
    let right_top = is_white(im.get_px(x + 2, y)) && is_white(im.get_px(x + 1, y - 1));
    let left_bottom = is_white(im.get_px(x - 1, y + 1)) && is_white(im.get_px(x, y + 2));
    let right_bottom = is_white(im.get_px(x + 2, y + 1)) && is_white(im.get_px(x + 1, y + 2));
    (left_top, right_top, left_bottom, right_bottom)
}

/// The candidate block c erases the pixel at (x, y): (x, y) is one of the
/// block's four pixels and the judge marked that pixel for erasure.
pub open spec fn covers(im: Raster, c: (u32, u32), x: int, y: int) -> bool {
    let f = check_spec(im, c.0 as int, c.1 as int);
    ||| (f.0 && x == c.0 as int && y == c.1 as int)
    ||| (f.1 && x == c.0 as int + 1 && y == c.1 as int)
    ||| (f.2 && x == c.0 as int && y == c.1 as int + 1)
    ||| (f.3 && x == c.0 as int + 1 && y == c.1 as int + 1)
}

/// Some candidate in the list erases the pixel at (x, y).
pub open spec fn erased_at(im: Raster, cands: Seq<(u32, u32)>, x: int, y: int) -> bool {
    exists|k: int| 0 <= k < cands.len() && #[trigger] covers(im, cands[k], x, y)
}

/// Judges every candidate block against the source raster and erases, in the
/// output buffer, exactly the pixels that some candidate covers; writes that
/// would fall outside the raster are skipped.
pub fn erase_noise(im: &Raster, out: &mut Raster, cands: &Vec<(u32, u32)>)
    requires
        im.wf(),
        old(out).wf(),
        old(out).width == im.width,
        old(out).height == im.height,
        im.width >= 1,
        im.height >= 1,
    ensures
        final(out).wf(),
        final(out).width == im.width,
        final(out).height == im.height,
        forall|x: int, y: int|
            im.in_bounds(x, y) ==> final(out).px(x, y) == (if erased_at(*im, cands@, x, y) {
                Rgba::pure_white()
            } else {
                old(out).px(x, y)
            }),
{
    let ghost orig = *out;
    let w = Rgba::white();
    let mut k: usize = 0;
    while k < cands.len()
        invariant
            im.wf(),
            out.wf(),
            out.width == im.width,
            out.height == im.height,
            im.width >= 1,
            im.height >= 1,
            w == Rgba::pure_white(),
            k <= cands@.len(),
            forall|x: int, y: int|
                im.in_bounds(x, y) ==> out.px(x, y) == (if erased_at(
                    *im,
                    cands@.take(k as int),
                    x,
                    y,
                ) {
                    Rgba::pure_white()
                } else {
                    orig.px(x, y)
                }),
        decreases cands@.len() - k,
    {
        let c = cands[k];
        let f = check_convert(c, im);
        let ghost mid = *out;
        if f.0 && c.0 < im.width() && c.1 < im.height() {
            out.set_px(c.0, c.1, w);
        }
        if f.1 && c.0 < im.width() - 1 && c.1 < im.height() {
            out.set_px(c.0 + 1, c.1, w);
        }
        if f.2 && c.0 < im.width() && c.1 < im.height() - 1 {
            out.set_px(c.0, c.1 + 1, w);
        }
        if f.3 && c.0 < im.width() - 1 && c.1 < im.height() - 1 {
            out.set_px(c.0 + 1, c.1 + 1, w);
        }
        proof {
            assert(cands@.take(k as int + 1) =~= cands@.take(k as int).push(cands@[k as int]));
            assert forall|x: int, y: int| im.in_bounds(x, y) implies out.px(x, y) == (if erased_at(
                *im,
                cands@.take(k as int + 1),
                x,
                y,
            ) {
                Rgba::pure_white()
            } else {
                orig.px(x, y)
            }) by {
                if covers(*im, c, x, y) {
                    assert(out.px(x, y) == Rgba::pure_white());
                    assert(cands@.take(k as int + 1)[k as int] == c);
                    assert(erased_at(*im, cands@.take(k as int + 1), x, y));
                } else {
                    assert(out.px(x, y) == mid.px(x, y));
                    if erased_at(*im, cands@.take(k as int + 1), x, y) {
                        let kk = choose|kk: int|
                            0 <= kk < cands@.take(k as int + 1).len() && #[trigger] covers(
                                *im,
                                cands@.take(k as int + 1)[kk],
                                x,
                                y,
                            );
                        assert(kk < k as int);
                        assert(covers(*im, cands@.take(k as int)[kk], x, y));
                        assert(erased_at(*im, cands@.take(k as int), x, y));
                    } else {
                        assert(!erased_at(*im, cands@.take(k as int), x, y)) by {
                            if erased_at(*im, cands@.take(k as int), x, y) {
                                let kk = choose|kk: int|
                                    0 <= kk < cands@.take(k as int).len() && #[trigger] covers(
                                        *im,
                                        cands@.take(k as int)[kk],
                                        x,
                                        y,
                                    );
                                assert(covers(*im, cands@.take(k as int + 1)[kk], x, y));
                            }
                        }
                    }
                }
            }
        }
        k = k + 1;
    }
    proof {
        assert(cands@.take(cands@.len() as int) =~= cands@);
    }
}

/// The boundary rule is total: whenever the candidate block would touch or
/// cross an image edge, the judge erases all four of its pixels, whatever the
/// neighboring samples hold.
pub proof fn lemma_boundary_total(im: Raster, x: int, y: int)
    requires
        x < 1 || x + 2 > im.width - 1 || y < 1 || y + 2 > im.height - 1,
    ensures
        check_spec(im, x, y) == (true, true, true, true),
{
}

/// Support-count monotonicity: an in-bounds candidate block with fewer than
/// two supported sides is erased whole, and one with two or more supported
/// sides (so in particular with three or four) is never erased whole.
pub proof fn lemma_support_monotone(im: Raster, x: int, y: int)
    requires
        !boundary_spec(im, x, y),
    ensures
        support_count(im, x, y) < 2 ==> check_spec(im, x, y) == (true, true, true, true),
        support_count(im, x, y) >= 2 ==> !(check_spec(im, x, y).0 && check_spec(im, x, y).1
            && check_spec(im, x, y).2 && check_spec(im, x, y).3),
{
    if support_count(im, x, y) >= 2 {
        if check_spec(im, x, y).0 && check_spec(im, x, y).1 && check_spec(im, x, y).2 && check_spec(
            im,
            x,
            y,
        ).3 {
            assert(!left_supported(im, x, y));
            assert(!right_supported(im, x, y));
            assert(!top_supported(im, x, y));
            assert(!bottom_supported(im, x, y));
        }
    }
}

/// Idempotence of the judge: when no candidate block fails the boundary or
/// support checks and no kept corner is trimmed, nothing is erased, so a
/// buffer the eraser runs over is left bitwise identical.
pub proof fn lemma_judge_idempotent(im: Raster, cands: Seq<(u32, u32)>)
    requires
        forall|k: int|
            0 <= k < cands.len() ==> check_spec(im, cands[k].0 as int, cands[k].1 as int) == (
            false,
            false,
            false,
            false,
            ),
    ensures
        forall|x: int, y: int| !erased_at(im, cands, x, y),
{
    assert forall|x: int, y: int| !erased_at(im, cands, x, y) by {
        if erased_at(im, cands, x, y) {
            let k = choose|k: int| 0 <= k < cands.len() && #[trigger] covers(im, cands[k], x, y);
            assert(check_spec(im, cands[k].0 as int, cands[k].1 as int) == (
                false,
                false,
                false,
                false,
            ));
        }
    }
}

} // verus!
