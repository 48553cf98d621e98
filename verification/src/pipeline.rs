use vstd::prelude::*;

use crate::raster::{Raster, Rgba};
use crate::classify::{is_white_spec, is_white};
use crate::locate::{origin_spec, left_pattern_spec, top_pattern_spec, second_left_spec,
    second_top_spec, is_first_nonwhite, is_first_second_anchor, find_first_nonwhite,
    find_second_anchor, get_left_top_pos_of_4px, scan_left_pattern, scan_top_pattern,
    scan_second_left_pattern, scan_second_top_pattern, lemma_first_nonwhite_unique,
    lemma_second_anchor_unique};
use crate::candidates::{cart_spec, cartesian};
use crate::judge::{erased_at, erase_noise};

verus! {

/// Why the pipeline refused an image: no non-white sample exists (the raster
/// is entirely pure white), or every black sample is collinear with the
/// primary anchor so no secondary anchor exists.
#[derive(Clone, Copy, PartialEq, Eq, Structural, Debug)]
pub enum CleanError {
    NoAnchor,
    NoSecondaryAnchor,
}

/// Every sample of the raster is pure opaque white.
pub open spec fn all_pure_white(im: Raster) -> bool {
    forall|i: int, j: int| im.in_bounds(i, j) ==> im.px(i, j) == Rgba::pure_white()
}

/// No sample of the raster qualifies as a secondary anchor for f.
pub open spec fn no_second_anchor(im: Raster, f: (u32, u32)) -> bool {
    forall|i: int, j: int|
        im.in_bounds(i, j) ==> !crate::locate::second_anchor_ok(im, f, i, j)
}

/// The primary anchor of the raster: the first non-white sample in raster
/// order (meaningful only when one exists; then it is unique).
pub open spec fn first_anchor(im: Raster) -> (u32, u32) {
    choose|f: (u32, u32)| is_first_nonwhite(im, f)
}

/// The secondary anchor for f: the first black sample in raster order not on
/// f's row or column line (meaningful only when one exists; then unique).
pub open spec fn second_anchor(im: Raster, f: (u32, u32)) -> (u32, u32) {
    choose|s: (u32, u32)| is_first_second_anchor(im, f, s)
}

/// The block origin of the secondary anchor, as a coordinate pair.
pub open spec fn grid_anchor(im: Raster) -> (u32, u32) {
    let s = second_anchor(im, first_anchor(im));
    let o = origin_spec(im, s.0 as int, s.1 as int);
    (o.0 as u32, o.1 as u32)
}

/// The full candidate list: the cross-product of the secondary-anchor
/// patterns, followed by the cross-product of the border patterns. Each pair
/// is (column, row).
pub open spec fn candidate_seq(im: Raster, yn: (u32, u32)) -> Seq<(u32, u32)> {
    cart_spec(second_top_spec(im, yn.1 as int, im.height as int),
        second_left_spec(im, yn.0 as int, im.height as int))
    + cart_spec(top_pattern_spec(im, im.width as int), left_pattern_spec(im, im.height as int))
}

/// What the cleaned raster holds at (x, y): pure white where some candidate
/// block erased the pixel, pure white where the source sample classifies as
/// white, and the source sample itself everywhere else.
pub open spec fn cleaned_px(im: Raster, x: int, y: int) -> Rgba {
    if erased_at(im, candidate_seq(im, grid_anchor(im)), x, y) {
        Rgba::pure_white()
    } else if is_white_spec(im.px(x, y)) {
        Rgba::pure_white()
    } else {
        im.px(x, y)
    }
}

/// Copies the raster into a fresh output buffer, normalizing every sample
/// that classifies as white to pure opaque white.
pub fn make_output(im: &Raster) -> (out: Raster)
    requires
        im.wf(),
    ensures
        out.wf(),
        out.width == im.width,
        out.height == im.height,
        forall|x: int, y: int|
            im.in_bounds(x, y) ==> out.px(x, y) == (if is_white_spec(im.px(x, y)) {
                Rgba::pure_white()
            } else {
                im.px(x, y)
            }),
{
    let mut v: Vec<Rgba> = Vec::new();
    let n = im.data.len();
    let mut i: usize = 0;
    while i < n
        invariant
            im.wf(),
            n == im.data.len(),
            i <= n,
            v@.len() == i,
            forall|j: int|
                0 <= j < i as int ==> v@[j] == (if is_white_spec(im.data[j]) {
                    Rgba::pure_white()
                } else {
                    im.data[j]
                }),
        decreases n - i,
    {
        let p = im.data[i];
        if is_white(p) {
            v.push(Rgba::white());
        } else {
            v.push(p);
        }
        i = i + 1;
    }
    let out = Raster { width: im.width, height: im.height, data: v };
    proof {
        assert forall|x: int, y: int| im.in_bounds(x, y) implies out.px(x, y) == (
        if is_white_spec(im.px(x, y)) {
            Rgba::pure_white()
        } else {
            im.px(x, y)
        }) by {
            crate::raster::lemma_row_major_index(x, y, im.width as int, im.height as int);
        }
    }
    out
}

/// Runs the whole pipeline on the source raster: locates the grid patterns,
/// enumerates candidate blocks, and returns a copy of the raster with white
/// samples normalized and isolated noise blocks erased. Fails, writing
/// nothing, when the raster is entirely pure white or when no secondary
/// anchor exists.
pub fn clean(im: &Raster) -> (r: Result<Raster, CleanError>)
    requires
        im.wf(),
    ensures
        r == Err::<Raster, CleanError>(CleanError::NoAnchor) <==> all_pure_white(*im),
        r == Err::<Raster, CleanError>(CleanError::NoSecondaryAnchor) <==> exists|f: (u32, u32)|
            #[trigger] is_first_nonwhite(*im, f) && no_second_anchor(*im, f),
        r is Ok <==> exists|f: (u32, u32), s: (u32, u32)|
            #[trigger] is_first_nonwhite(*im, f) && #[trigger] is_first_second_anchor(*im, f, s),
        r matches Ok(res) ==> {
            &&& res.wf()
            &&& res.width == im.width
            &&& res.height == im.height
            &&& forall|x: int, y: int|
                im.in_bounds(x, y) ==> res.px(x, y) == cleaned_px(*im, x, y)
        },
        r matches Ok(res) ==> forall|x: int, y: int|
            im.in_bounds(x, y) && is_white_spec(im.px(x, y)) ==> res.px(x, y)
                == Rgba::pure_white(),
{
    if im.width() == 0 || im.height() == 0 {
        return Err(CleanError::NoAnchor);
    }
    let first = match find_first_nonwhite(im) {
        Some(p) => p,
        None => {
            return Err(CleanError::NoAnchor);
        },
    };
    assert(!all_pure_white(*im));
    let second = match find_second_anchor(im, first) {
        Some(p) => p,
        None => {
            proof {
                assert(is_first_nonwhite(*im, first) && no_second_anchor(*im, first));
                assert forall|f: (u32, u32), s: (u32, u32)|
                    !(#[trigger] is_first_nonwhite(*im, f) && #[trigger] is_first_second_anchor(
                        *im,
                        f,
                        s,
                    )) by {
                    if is_first_nonwhite(*im, f) && is_first_second_anchor(*im, f, s) {
                        lemma_first_nonwhite_unique(*im, f, first);
                    }
                }
            }
            return Err(CleanError::NoSecondaryAnchor);
        },
    };
    let y_next = get_left_top_pos_of_4px(second, im);
    proof {
        lemma_first_nonwhite_unique(*im, first, first_anchor(*im));
        lemma_second_anchor_unique(*im, first, second, second_anchor(*im, first));
        assert(y_next == grid_anchor(*im));
        assert forall|f: (u32, u32)|
            !(#[trigger] is_first_nonwhite(*im, f) && no_second_anchor(*im, f)) by {
            if is_first_nonwhite(*im, f) && no_second_anchor(*im, f) {
                lemma_first_nonwhite_unique(*im, f, first);
            }
        }
    }
    let left_pattern = scan_left_pattern(im);
    let top_pattern = scan_top_pattern(im);
    let second_left_pattern = scan_second_left_pattern(im, y_next);
    let second_top_pattern = scan_second_top_pattern(im, y_next);
    let mut out = make_output(im);
    let ghost normalized = out;
    let mut poss = cartesian(second_top_pattern.as_slice(), second_left_pattern.as_slice());
    let mut border = cartesian(top_pattern.as_slice(), left_pattern.as_slice());
    poss.append(&mut border);
    assert(poss@ == candidate_seq(*im, y_next));
    erase_noise(im, &mut out, &poss);
    proof {
        assert forall|x: int, y: int| im.in_bounds(x, y) implies out.px(x, y) == cleaned_px(
            *im,
            x,
            y,
        ) by {
            assert(out.px(x, y) == (if erased_at(*im, poss@, x, y) {
                Rgba::pure_white()
            } else {
                normalized.px(x, y)
            }));
        }
    }
    Ok(out)
}

/// Anchor discovery and the whole pipeline are deterministic: the cleaned
/// samples are a function of the source raster alone, so two results of
/// cleaning the same raster are identical buffers.
pub proof fn lemma_clean_deterministic(im: Raster, r1: Raster, r2: Raster)
    requires
        im.wf(),
        r1.wf(),
        r2.wf(),
        r1.width == im.width && r1.height == im.height,
        r2.width == im.width && r2.height == im.height,
        forall|x: int, y: int| im.in_bounds(x, y) ==> r1.px(x, y) == cleaned_px(im, x, y),
        forall|x: int, y: int| im.in_bounds(x, y) ==> r2.px(x, y) == cleaned_px(im, x, y),
    ensures
        r1.data@ =~= r2.data@,
{
    let w = im.width as int;
    let h = im.height as int;
    assert forall|i: int| 0 <= i < r1.data@.len() implies r1.data@[i] == r2.data@[i] by {
        vstd::arithmetic::div_mod::lemma_fundamental_div_mod(i, w);
        let x = i % w;
        let y = i / w;
        assert(0 <= x < w) by {
            vstd::arithmetic::div_mod::lemma_mod_bound(i, w);
        }
        assert(y < h) by (nonlinear_arith)
            requires
                i < w * h,
                i == w * y + x,
                0 <= x < w,
        ;
        assert(0 <= y) by (nonlinear_arith)
            requires
                0 <= i,
                i == w * y + x,
                0 <= x < w,
        ;
        assert(im.in_bounds(x, y));
        assert(r1.px(x, y) == r2.px(x, y));
        assert(y * w == w * y) by (nonlinear_arith);
        assert(y * w + x == i);
    }
}

} // verus!
