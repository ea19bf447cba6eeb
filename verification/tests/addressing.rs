use ray_tracing_engine::canvas::pixel_position;
use ray_tracing_engine::canvas::ray_index;

#[test]
fn pixel_position_is_column_then_row() {
    assert_eq!(pixel_position(0, 100), (0, 0));
    assert_eq!(pixel_position(99, 100), (99, 0));
    assert_eq!(pixel_position(100, 100), (0, 1));
    assert_eq!(pixel_position(205, 100), (5, 2));
    assert_eq!(pixel_position(5050, 100), (50, 50));
    assert_eq!(pixel_position(9999, 100), (99, 99));
}

#[test]
fn pixel_position_in_a_wide_image() {
    assert_eq!(pixel_position(7, 4), (3, 1));
    assert_eq!(pixel_position(7, 8), (7, 0));
    assert_eq!(pixel_position(7, 1), (0, 7));
    assert_eq!(pixel_position(usize::MAX, usize::MAX), (0, 1));
}

#[test]
fn ray_index_counts_row_by_row() {
    assert_eq!(ray_index(0, 0, 100), Some(0));
    assert_eq!(ray_index(99, 0, 100), Some(99));
    assert_eq!(ray_index(0, 1, 100), Some(100));
    assert_eq!(ray_index(5, 2, 100), Some(205));
    assert_eq!(ray_index(50, 50, 100), Some(5050));
    assert_eq!(ray_index(3, 1, 4), Some(7));
}

#[test]
fn ray_index_refuses_a_column_outside_the_image() {
    assert_eq!(ray_index(100, 0, 100), None);
    assert_eq!(ray_index(4, 1, 4), None);
    assert_eq!(ray_index(0, 0, 0), None);
}

#[test]
fn ray_index_refuses_a_number_that_does_not_fit() {
    assert_eq!(ray_index(0, usize::MAX, 2), None);
    assert_eq!(ray_index(1, usize::MAX, 2), None);
    assert_eq!(ray_index(usize::MAX - 1, 1, usize::MAX), None);
    assert_eq!(ray_index(0, 1, usize::MAX), Some(usize::MAX));
    assert_eq!(ray_index(usize::MAX - 1, 0, usize::MAX), Some(usize::MAX - 1));
}

#[test]
fn position_of_a_ray_index_is_the_pixel() {
    let (width, height) = (7usize, 5usize);
    for row in 0..height {
        for column in 0..width {
            let index = ray_index(column, row, width).unwrap();
            assert_eq!(pixel_position(index, width), (column, row));
        }
    }
}

#[test]
fn ray_indices_number_the_pixels_without_gap() {
    let (width, height) = (6usize, 4usize);
    let mut seen = vec![false; width * height];
    for row in 0..height {
        for column in 0..width {
            let index = ray_index(column, row, width).unwrap();
            assert!(index < width * height);
            assert!(!seen[index]);
            seen[index] = true;
        }
    }
    assert!(seen.iter().all(|&mark| mark));
}
