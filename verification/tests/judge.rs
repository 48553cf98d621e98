use glyph_clean::raster::{Raster, Rgba};
use glyph_clean::judge::{check_convert, erase_noise};
use glyph_clean::pipeline::make_output;

fn white_px() -> Rgba {
    Rgba { r: 255, g: 255, b: 255, a: 255 }
}

fn black_px() -> Rgba {
    Rgba { r: 0, g: 0, b: 0, a: 255 }
}

fn white_image(w: u32, h: u32) -> Raster {
    let data = vec![white_px(); (w * h) as usize];
    Raster::from_pixels(w, h, data).unwrap()
}

fn block(im: &mut Raster, x: u32, y: u32) {
    im.set_px(x, y, black_px());
    im.set_px(x + 1, y, black_px());
    im.set_px(x, y + 1, black_px());
    im.set_px(x + 1, y + 1, black_px());
}

/// A stroke around the block at (10, 10): left column, top row, and one
/// bottom sample, giving the block three supported sides and no trimmable
/// corner.
fn stroked_image() -> Raster {
    let mut im = white_image(16, 16);
    block(&mut im, 10, 10);
    im.set_px(9, 10, black_px());
    im.set_px(9, 11, black_px());
    im.set_px(10, 9, black_px());
    im.set_px(11, 9, black_px());
    im.set_px(11, 12, black_px());
    im
}

#[test]
fn boundary_rule_erases_blocks_touching_any_edge() {
    let mut im = white_image(8, 8);
    block(&mut im, 0, 0);
    assert_eq!(check_convert((0, 0), &im), (true, true, true, true));
    // right and bottom edge: x + 2 or y + 2 exceeds width - 1 / height - 1
    assert_eq!(check_convert((6, 3), &im), (true, true, true, true));
    assert_eq!(check_convert((3, 6), &im), (true, true, true, true));
    // a position outside the raster entirely is still judged, as noise
    assert_eq!(check_convert((100, 100), &im), (true, true, true, true));
}

#[test]
fn isolated_block_is_fully_erased() {
    let mut im = white_image(8, 8);
    block(&mut im, 3, 3);
    assert_eq!(check_convert((3, 3), &im), (true, true, true, true));
}

#[test]
fn one_supported_side_is_still_noise() {
    let mut im = white_image(8, 8);
    block(&mut im, 3, 3);
    im.set_px(2, 3, black_px());
    assert_eq!(check_convert((3, 3), &im), (true, true, true, true));
}

#[test]
fn three_supported_sides_keep_the_block_whole() {
    let im = stroked_image();
    assert_eq!(check_convert((10, 10), &im), (false, false, false, false));
}

#[test]
fn kept_block_gets_stray_corner_trimmed() {
    let mut im = white_image(16, 16);
    block(&mut im, 10, 10);
    im.set_px(9, 10, black_px());
    im.set_px(9, 11, black_px());
    im.set_px(10, 9, black_px());
    im.set_px(11, 9, black_px());
    // two supported sides (left, top); the bottom-right corner has both
    // diagonal neighbors white and is trimmed alone
    assert_eq!(check_convert((10, 10), &im), (false, false, false, true));
}

#[test]
fn stroke_survives_and_speck_is_erased_pixel_by_pixel() {
    let mut im = stroked_image();
    block(&mut im, 3, 3);
    let mut out = make_output(&im);
    let cands = vec![(10u32, 10u32), (3u32, 3u32)];
    erase_noise(&im, &mut out, &cands);
    for y in 0..16u32 {
        for x in 0..16u32 {
            let in_block = (10..=11).contains(&x) && (10..=11).contains(&y);
            let in_stroke = (x == 9 && (y == 10 || y == 11)) || (y == 9 && (x == 10 || x == 11))
                || (x == 11 && y == 12);
            let expected = if in_block || in_stroke { black_px() } else { white_px() };
            assert_eq!(out.get_px(x, y), expected, "pixel ({}, {})", x, y);
        }
    }
}

#[test]
fn edge_block_alone_is_erased_to_an_all_white_image() {
    let mut im = white_image(8, 8);
    block(&mut im, 0, 0);
    let mut out = make_output(&im);
    erase_noise(&im, &mut out, &vec![(0u32, 0u32)]);
    for y in 0..8u32 {
        for x in 0..8u32 {
            assert_eq!(out.get_px(x, y), white_px(), "pixel ({}, {})", x, y);
        }
    }
}

#[test]
fn rerunning_the_judge_on_cleaned_output_changes_nothing() {
    let mut im = stroked_image();
    block(&mut im, 3, 3);
    let mut cleaned = make_output(&im);
    let cands = vec![(10u32, 10u32), (3u32, 3u32)];
    erase_noise(&im, &mut cleaned, &cands);
    // judge the cleaned raster itself: no erasure fires, the buffer is
    // bitwise identical
    let mut again = make_output(&cleaned);
    erase_noise(&cleaned, &mut again, &cands);
    for y in 0..16u32 {
        for x in 0..16u32 {
            assert_eq!(again.get_px(x, y), cleaned.get_px(x, y), "pixel ({}, {})", x, y);
        }
    }
}
