use vstd::prelude::*;
use vstd::arithmetic::div_mod::{
    lemma_small_mod,
    lemma_mod_multiples_vanish,
    lemma_mod_add_multiples_vanish,
    lemma_mod_sub_multiples_vanish,
};
use crate::cell::{Cell, Gradient, all_channels};
use crate::grid::{
    GridModel,
    wrap,
    offset_x,
    offset_y,
    weighted_sum,
    neighbourhood_sum,
    mask_x,
    mask_y,
    is_update_of,
};

verus! {

/// Wrapping lands in `[0, n)` and does not change when `v` moves by a whole
/// number of periods.
pub proof fn lemma_wrap_periodic(v: int, k: int, n: int)
    requires
        n > 0,
    ensures
        0 <= wrap(v, n) < n,
        wrap(v + k * n, n) == wrap(v, n),
{
    lemma_mod_multiples_vanish(k, v, n);
    assert(v + k * n == n * k + v) by (nonlinear_arith);
}

/// Wrapping a value at most one period outside `[0, n)` moves it by at most one period.
proof fn lemma_wrap_near(v: int, n: int)
    requires
        n > 0,
        -n <= v < 2 * n,
    ensures
        wrap(v, n) == if v < 0 {
            v + n
        } else if v >= n {
            v - n
        } else {
            v
        },
{
    if v < 0 {
        lemma_mod_add_multiples_vanish(v, n);
        lemma_small_mod((n + v) as nat, n as nat);
    } else if v >= n {
        lemma_mod_sub_multiples_vanish(v, n);
        lemma_small_mod((-n + v) as nat, n as nat);
    } else {
        lemma_small_mod(v as nat, n as nat);
    }
}

/// On a grid at least three sites wide and tall, the nine neighbourhood
/// positions of any site wrap onto nine distinct sites.
pub proof fn lemma_neighbourhood_distinct(
    width: int,
    height: int,
    x: int,
    y: int,
    k1: int,
    k2: int,
)
    requires
        width >= 3,
        height >= 3,
        0 <= x < width,
        0 <= y < height,
        0 <= k1 < 9,
        0 <= k2 < 9,
        k1 != k2,
    ensures
        wrap(x + offset_x(k1), width) != wrap(x + offset_x(k2), width) || wrap(
            y + offset_y(k1),
            height,
        ) != wrap(y + offset_y(k2), height),
{
    lemma_wrap_near(x + offset_x(k1), width);
    lemma_wrap_near(x + offset_x(k2), width);
    lemma_wrap_near(y + offset_y(k1), height);
    lemma_wrap_near(y + offset_y(k2), height);
}

/// Every site gathers exactly nine neighbourhood positions, one per offset in
/// `{-1, 0, 1} x {-1, 0, 1}`.
pub proof fn lemma_neighbourhood_offsets(k: int)
    requires
        0 <= k < 9,
    ensures
        -1 <= offset_x(k) <= 1,
        -1 <= offset_y(k) <= 1,
        k == (offset_x(k) + 1) * 3 + (offset_y(k) + 1),
{
}

/// Under a rule that always returns the zero cell, one generation leaves every
/// site zero: nothing of the previous generation survives.
pub proof fn lemma_zero_rule_clears<F: Fn(&Cell, &Gradient, &Gradient) -> Cell>(
    before: GridModel,
    after: GridModel,
    f: F,
)
    requires
        before.wf(),
        is_update_of(before, after, f),
        forall|a: &Cell, b: &Gradient, c: &Gradient, r: Cell|
            #[trigger] call_ensures(f, (a, b, c), r) ==> all_channels(r, 0),
    ensures
        after.wf(),
        forall|i: int| 0 <= i < after.cells.len() ==> all_channels(#[trigger] after.cells[i], 0),
{
    assert forall|i: int| 0 <= i < after.cells.len() implies all_channels(
        #[trigger] after.cells[i],
        0,
    ) by {
        assert(crate::grid::site_updated(before, f, i, after.cells[i]));
    }
}

/// Under a rule that returns its centre cell unchanged, one generation leaves
/// the grid as it was.
pub proof fn lemma_identity_rule_keeps<F: Fn(&Cell, &Gradient, &Gradient) -> Cell>(
    before: GridModel,
    after: GridModel,
    f: F,
)
    requires
        before.wf(),
        is_update_of(before, after, f),
        forall|a: &Cell, b: &Gradient, c: &Gradient, r: Cell|
            #[trigger] call_ensures(f, (a, b, c), r) ==> r == *a,
    ensures
        after == before,
{
    assert forall|i: int| 0 <= i < after.cells.len() implies #[trigger] after.cells[i]
        == before.cells[i] by {
        assert(crate::grid::site_updated(before, f, i, after.cells[i]));
    }
    assert(after.cells =~= before.cells);
}

/// Sum of the weights of `mask` over the first `k` neighbourhood positions.
pub open spec fn mask_total(mask: spec_fn(int, int) -> int, k: int) -> int
    decreases k,
{
    if k <= 0 {
        0
    } else {
        mask_total(mask, k - 1) + mask(offset_y(k - 1) + 1, offset_x(k - 1) + 1)
    }
}

/// Both derivative masks weigh to zero in total.
pub proof fn lemma_derivative_masks_balanced()
    ensures
        mask_total(mask_x(), 9) == 0,
        mask_total(mask_y(), 9) == 0,
{
    reveal_with_fuel(mask_total, 10);
}

/// Over positions that all hold the cell `u`, a partial weighted sum is `u`'s
/// channel times the partial total of the weights.
proof fn lemma_uniform_partial(
    m: GridModel,
    x: int,
    y: int,
    u: Cell,
    mask: spec_fn(int, int) -> int,
    c: int,
    k: int,
)
    requires
        0 <= k <= 9,
        forall|j: int|
            0 <= j < 9 ==> #[trigger] m.at_wrapped(x + offset_x(j), y + offset_y(j)) == u,
    ensures
        weighted_sum(m, x, y, mask, c, k) == u.channels[c] * mask_total(mask, k),
    decreases k,
{
    if k > 0 {
        lemma_uniform_partial(m, x, y, u, mask, c, k - 1);
        assert(m.at_wrapped(x + offset_x(k - 1), y + offset_y(k - 1)) == u);
        let v = u.channels[c] as int;
        let t = mask_total(mask, k - 1);
        let w = mask(offset_y(k - 1) + 1, offset_x(k - 1) + 1);
        assert(v * t + v * w == v * (t + w)) by (nonlinear_arith);
    }
}

/// Over a neighbourhood whose nine positions all hold the same cell, a mask
/// whose weights total zero gives a zero sum in every channel; this holds of
/// both derivative masks.
pub proof fn lemma_uniform_neighbourhood_zero(
    m: GridModel,
    x: int,
    y: int,
    u: Cell,
    mask: spec_fn(int, int) -> int,
    c: int,
)
    requires
        mask_total(mask, 9) == 0,
        forall|k: int|
            0 <= k < 9 ==> #[trigger] m.at_wrapped(x + offset_x(k), y + offset_y(k)) == u,
    ensures
        neighbourhood_sum(m, x, y, mask, c) == 0,
{
    lemma_uniform_partial(m, x, y, u, mask, c, 9);
}

/// On a grid whose sites all hold the same cell, both gradients of every site
/// vanish in every channel.
pub proof fn lemma_uniform_grid_zero_gradients(m: GridModel, u: Cell, x: int, y: int, c: int)
    requires
        m.wf(),
        forall|i: int| 0 <= i < m.cells.len() ==> #[trigger] m.cells[i] == u,
    ensures
        neighbourhood_sum(m, x, y, mask_x(), c) == 0,
        neighbourhood_sum(m, x, y, mask_y(), c) == 0,
{
    lemma_derivative_masks_balanced();
    assert forall|k: int| 0 <= k < 9 implies #[trigger] m.at_wrapped(
        x + offset_x(k),
        y + offset_y(k),
    ) == u by {
        let px = wrap(x + offset_x(k), m.width as int);
        let py = wrap(y + offset_y(k), m.height as int);
        lemma_wrap_periodic(x + offset_x(k), 0, m.width as int);
        lemma_wrap_periodic(y + offset_y(k), 0, m.height as int);
        assert(0 <= py * m.width + px < m.width * m.height) by (nonlinear_arith)
            requires 0 <= px < m.width, 0 <= py < m.height;
    }
    lemma_uniform_neighbourhood_zero(m, x, y, u, mask_x(), c);
    lemma_uniform_neighbourhood_zero(m, x, y, u, mask_y(), c);
}

} // verus!
