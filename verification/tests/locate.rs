use glyph_clean::raster::{Raster, Rgba};
use glyph_clean::locate::{get_left_top_pos_of_4px, scan_left_pattern, scan_top_pattern,
    find_first_nonwhite, find_second_anchor, scan_second_left_pattern, scan_second_top_pattern};

fn white_px() -> Rgba {
    Rgba { r: 255, g: 255, b: 255, a: 255 }
}

fn black_px() -> Rgba {
    Rgba { r: 0, g: 0, b: 0, a: 255 }
}

fn white_image(w: u32, h: u32) -> Raster {
    let data = vec![white_px(); (w * h) as usize];
    Raster::from_pixels(w, h, data).unwrap()
}

fn set(im: &mut Raster, x: u32, y: u32, p: Rgba) {
    im.set_px(x, y, p);
}

fn block(im: &mut Raster, x: u32, y: u32) {
    set(im, x, y, black_px());
    set(im, x + 1, y, black_px());
    set(im, x, y + 1, black_px());
    set(im, x + 1, y + 1, black_px());
}

#[test]
fn origin_of_each_block_corner() {
    let mut im = white_image(4, 4);
    block(&mut im, 1, 1);
    // bottom-right pixel: up-left mate is black
    assert_eq!(get_left_top_pos_of_4px((2, 2), &im), (1, 1));
    // top-right pixel: up-left white, up-right white, down-left black
    assert_eq!(get_left_top_pos_of_4px((2, 1), &im), (1, 1));
    // bottom-left pixel: up-left white, up-right black
    assert_eq!(get_left_top_pos_of_4px((1, 2), &im), (1, 1));
    // top-left pixel: no dark mate among the three probes
    assert_eq!(get_left_top_pos_of_4px((1, 1), &im), (1, 1));
}

#[test]
fn origin_of_lone_pixel_is_itself() {
    let mut im = white_image(4, 4);
    set(&mut im, 2, 2, black_px());
    assert_eq!(get_left_top_pos_of_4px((2, 2), &im), (2, 2));
}

#[test]
fn border_patterns_collect_block_origins() {
    let mut im = white_image(4, 4);
    block(&mut im, 0, 0);
    assert_eq!(scan_left_pattern(&im), vec![0, 0]);
    assert_eq!(scan_top_pattern(&im), vec![0, 0]);
}

#[test]
fn border_patterns_empty_without_border_ink() {
    let mut im = white_image(6, 6);
    block(&mut im, 2, 2);
    assert_eq!(scan_left_pattern(&im), Vec::<u32>::new());
    assert_eq!(scan_top_pattern(&im), Vec::<u32>::new());
}

#[test]
fn first_nonwhite_is_found_in_raster_order() {
    let mut im = white_image(5, 5);
    set(&mut im, 2, 1, Rgba { r: 100, g: 100, b: 100, a: 255 });
    set(&mut im, 1, 3, black_px());
    assert_eq!(find_first_nonwhite(&im), Some((2, 1)));
}

#[test]
fn first_nonwhite_none_on_all_white() {
    let im = white_image(5, 5);
    assert_eq!(find_first_nonwhite(&im), None);
}

#[test]
fn second_anchor_skips_collinear_pixels() {
    let mut im = white_image(4, 4);
    set(&mut im, 1, 1, black_px());
    set(&mut im, 3, 3, black_px());
    assert_eq!(find_second_anchor(&im, (1, 1)), Some((3, 3)));
}

#[test]
fn second_anchor_none_when_all_ink_is_collinear() {
    let mut im = white_image(4, 4);
    set(&mut im, 1, 1, black_px());
    set(&mut im, 2, 1, black_px());
    assert_eq!(find_second_anchor(&im, (1, 1)), None);
}

#[test]
fn secondary_patterns_collect_along_anchor_lines() {
    let mut im = white_image(8, 8);
    block(&mut im, 4, 2);
    block(&mut im, 6, 6);
    // anchor column line {5, 6, 7} catches both blocks; row line {5, 6, 7}
    // catches only the lower one
    let rows = scan_second_left_pattern(&im, (6, 6));
    assert_eq!(rows, vec![2, 2, 6, 6, 6, 6]);
    let cols = scan_second_top_pattern(&im, (6, 6));
    assert_eq!(cols, vec![6, 6, 6, 6]);
}
