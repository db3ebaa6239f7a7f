use raytracer::pixel_at;

#[test]
fn scan_starts_at_top_left() {
    assert_eq!(pixel_at(4, 3, 0), (0, 2));
}

#[test]
fn scan_walks_rows_left_to_right_from_the_top() {
    let order: Vec<(u32, u32)> = (0..12u64).map(|k| pixel_at(4, 3, k)).collect();
    assert_eq!(
        order,
        vec![
            (0, 2), (1, 2), (2, 2), (3, 2),
            (0, 1), (1, 1), (2, 1), (3, 1),
            (0, 0), (1, 0), (2, 0), (3, 0),
        ]
    );
}

#[test]
fn scan_of_single_column() {
    assert_eq!(pixel_at(1, 3, 0), (0, 2));
    assert_eq!(pixel_at(1, 3, 2), (0, 0));
}

#[test]
fn scan_ends_at_bottom_right_of_large_image() {
    let (w, h) = (1200u32, 800u32);
    assert_eq!(pixel_at(w, h, w as u64 * h as u64 - 1), (1199, 0));
}
