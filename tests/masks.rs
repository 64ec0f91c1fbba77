use neural_ca::masks::{self_mask_weight, sobel_x_weight, sobel_y_weight};

#[test]
fn masks_match_the_sobel_tables() {
    let x = [[-1, 0, 1], [-2, 0, 2], [-1, 0, 1]];
    let y = [[1, 2, 1], [0, 0, 0], [-1, -2, -1]];
    let s = [[0, 0, 0], [0, 1, 0], [0, 0, 0]];
    for r in 0..3 {
        for c in 0..3 {
            assert_eq!(sobel_x_weight(r, c), x[r][c]);
            assert_eq!(sobel_y_weight(r, c), y[r][c]);
            assert_eq!(self_mask_weight(r, c), s[r][c]);
        }
    }
}

#[test]
fn derivative_masks_sum_to_zero() {
    let mut sx = 0;
    let mut sy = 0;
    for r in 0..3 {
        for c in 0..3 {
            sx += sobel_x_weight(r, c);
            sy += sobel_y_weight(r, c);
        }
    }
    assert_eq!((sx, sy), (0, 0));
}
