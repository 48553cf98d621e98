use glyph_clean::candidates::cartesian;

#[test]
fn cartesian_pairs_every_row_with_every_column() {
    let a: Vec<u32> = vec![1, 2];
    let b: Vec<u32> = vec![10, 20, 30];
    let r = cartesian(a.as_slice(), b.as_slice());
    assert_eq!(r, vec![(1, 10), (1, 20), (1, 30), (2, 10), (2, 20), (2, 30)]);
}

#[test]
fn cartesian_with_empty_side_is_empty() {
    let a: Vec<u32> = vec![1, 2, 3];
    let e: Vec<u32> = vec![];
    assert_eq!(cartesian(a.as_slice(), e.as_slice()), vec![]);
    assert_eq!(cartesian(e.as_slice(), a.as_slice()), vec![]);
}

#[test]
fn cartesian_keeps_duplicates() {
    let a: Vec<u32> = vec![4, 4];
    let b: Vec<u32> = vec![7];
    assert_eq!(cartesian(a.as_slice(), b.as_slice()), vec![(4, 7), (4, 7)]);
}
