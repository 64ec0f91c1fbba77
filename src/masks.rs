use vstd::prelude::*;

verus! {

/// Weight of the mask that isolates the centre cell, at `[row][col]`.
pub open spec fn self_mask(row: int, col: int) -> int {
    if row == 1 && col == 1 { 1 } else { 0 }
}

/// Weight of the Sobel mask estimating the derivative along x, at `[row][col]`.
pub open spec fn sobel_x(row: int, col: int) -> int {
    let r = if row == 1 { 2int } else { 1int };
    if col == 0 { -r } else if col == 2 { r } else { 0 }
}

/// Weight of the Sobel mask estimating the derivative along y, at `[row][col]`.
pub open spec fn sobel_y(row: int, col: int) -> int {
    let c = if col == 1 { 2int } else { 1int };
    if row == 0 { c } else if row == 2 { -c } else { 0 }
}

/// Looks up the centre-isolating mask; `row` and `col` are offsets plus one.
pub fn self_mask_weight(row: usize, col: usize) -> (w: i64)
    requires
        row < 3,
        col < 3,
    ensures
        w == self_mask(row as int, col as int),
{
    if row == 1 && col == 1 { 1 } else { 0 }
}

/// Looks up the x-derivative mask; `row` and `col` are offsets plus one.
pub fn sobel_x_weight(row: usize, col: usize) -> (w: i64)
    requires
        row < 3,
        col < 3,
    ensures
        w == sobel_x(row as int, col as int),
{
    let r: i64 = if row == 1 { 2 } else { 1 };
    if col == 0 { -r } else if col == 2 { r } else { 0 }
}

/// Looks up the y-derivative mask; `row` and `col` are offsets plus one.
pub fn sobel_y_weight(row: usize, col: usize) -> (w: i64)
    requires
        row < 3,
        col < 3,
    ensures
        w == sobel_y(row as int, col as int),
{
    let c: i64 = if col == 1 { 2 } else { 1 };
    if row == 0 { c } else if row == 2 { -c } else { 0 }
}

} // verus!
