use vstd::prelude::*;
use crate::cell::{Cell, Gradient, ONE, all_channels, in_unit_range};
use crate::masks::{sobel_x, sobel_y, sobel_x_weight, sobel_y_weight};

verus! {

/// Liveness threshold of channel 0, in the fixed-point scale (0.05).
pub const LIVENESS_THRESHOLD: i32 = 50_000;

/// Largest number of sites a grid may hold.
pub const MAX_CELLS: usize = 0xFFFF_FFFF;

/// Why a grid could not be built.
#[derive(Clone, Copy, Debug, PartialEq, Eq)]
pub enum GridError {
    /// The width or the height is zero.
    ZeroDimension,
    /// `width * height` exceeds `MAX_CELLS`.
    TooLarge,
}

/// The mathematical content of a grid: its dimensions and its row-major sites.
pub ghost struct GridModel {
    pub width: nat,
    pub height: nat,
    pub cells: Seq<Cell>,
}

impl GridModel {
    /// Positive dimensions within `MAX_CELLS`, one site per coordinate pair.
    pub open spec fn wf(self) -> bool {
        &&& self.width > 0
        &&& self.height > 0
        &&& self.width * self.height <= MAX_CELLS
        &&& self.cells.len() == self.width * self.height
    }

    /// The site at in-range coordinates `(x, y)`.
    pub open spec fn at(self, x: int, y: int) -> Cell {
        self.cells[y * self.width + x]
    }

    /// The site that wrapped coordinates `(x, y)` denote.
    pub open spec fn at_wrapped(self, x: int, y: int) -> Cell {
        self.at(wrap(x, self.width as int), wrap(y, self.height as int))
    }
}

/// Toroidal wrapping: the true (non-negative) remainder of `v` modulo `n`.
pub open spec fn wrap(v: int, n: int) -> int {
    v % n
}

/// Whether the dimensions are those of a grid that can be built.
pub open spec fn valid_dimensions(width: int, height: int) -> bool {
    width > 0 && height > 0 && width * height <= MAX_CELLS
}

/// What a constructor returns for the given dimensions, up to the sites' contents.
pub open spec fn built_as(width: int, height: int, r: Result<CellularGrid, GridError>) -> bool {
    match r {
        Ok(g) => valid_dimensions(width, height) && g@.width == width && g@.height == height
            && g@.wf(),
        Err(e) => if width == 0 || height == 0 {
            e == GridError::ZeroDimension
        } else {
            e == GridError::TooLarge && width * height > MAX_CELLS
        },
    }
}

/// The x-derivative mask as a function of `(row, col)`.
pub open spec fn mask_x() -> spec_fn(int, int) -> int {
    |row: int, col: int| sobel_x(row, col)
}

/// The y-derivative mask as a function of `(row, col)`.
pub open spec fn mask_y() -> spec_fn(int, int) -> int {
    |row: int, col: int| sobel_y(row, col)
}

/// Horizontal offset of the `k`-th of the nine neighbourhood positions.
pub open spec fn offset_x(k: int) -> int {
    k / 3 - 1
}

/// Vertical offset of the `k`-th of the nine neighbourhood positions.
pub open spec fn offset_y(k: int) -> int {
    k % 3 - 1
}

/// Channel `c` of the `mask`-weighted sum over the first `k` neighbourhood
/// positions of site `(x, y)`, neighbours taken with toroidal wrapping.
pub open spec fn weighted_sum(
    m: GridModel,
    x: int,
    y: int,
    mask: spec_fn(int, int) -> int,
    c: int,
    k: int,
) -> int
    decreases k,
{
    if k <= 0 {
        0
    } else {
        let mx = offset_x(k - 1);
        let my = offset_y(k - 1);
        weighted_sum(m, x, y, mask, c, k - 1) + m.at_wrapped(x + mx, y + my).channels[c] * mask(
            my + 1,
            mx + 1,
        )
    }
}

/// Channel `c` of the `mask`-weighted sum over the whole 3x3 neighbourhood of `(x, y)`.
pub open spec fn neighbourhood_sum(
    m: GridModel,
    x: int,
    y: int,
    mask: spec_fn(int, int) -> int,
    c: int,
) -> int {
    weighted_sum(m, x, y, mask, c, 9)
}

/// `g` holds, channel by channel, the `mask`-weighted neighbourhood sum of `(x, y)`.
pub open spec fn is_gradient(
    g: Gradient,
    m: GridModel,
    x: int,
    y: int,
    mask: spec_fn(int, int) -> int,
) -> bool {
    forall|c: int| 0 <= c < 4 ==> #[trigger] g.channels[c] == neighbourhood_sum(m, x, y, mask, c)
}

/// `r` is what `f` may return for site `i` of `m`: called on the site's cell and
/// its x and y gradients.
pub open spec fn site_updated<F: Fn(&Cell, &Gradient, &Gradient) -> Cell>(
    m: GridModel,
    f: F,
    i: int,
    r: Cell,
) -> bool {
    exists|gx: Gradient, gy: Gradient|
        #![trigger call_ensures(f, (&m.cells[i], &gx, &gy), r)]
        is_gradient(gx, m, i % m.width as int, i / m.width as int, mask_x()) && is_gradient(
            gy,
            m,
            i % m.width as int,
            i / m.width as int,
            mask_y(),
        ) && call_ensures(f, (&m.cells[i], &gx, &gy), r)
}

/// `after` is one synchronous generation of `before` under the rule `f`: same
/// dimensions, and every site computed from `before` alone.
pub open spec fn is_update_of<F: Fn(&Cell, &Gradient, &Gradient) -> Cell>(
    before: GridModel,
    after: GridModel,
    f: F,
) -> bool {
    &&& after.width == before.width
    &&& after.height == before.height
    &&& after.cells.len() == before.cells.len()
    &&& forall|i: int|
        0 <= i < before.cells.len() ==> site_updated(before, f, i, #[trigger] after.cells[i])
}

/// A toroidal grid of cells, stored row-major.
pub struct CellularGrid {
    width: usize,
    height: usize,
    grid: Vec<Cell>,
}

impl View for CellularGrid {
    type V = GridModel;

    closed spec fn view(&self) -> GridModel {
        GridModel { width: self.width as nat, height: self.height as nat, cells: self.grid@ }
    }
}

/// Checks the dimensions of a grid to be built and returns its number of sites.
fn checked_area(width: usize, height: usize) -> (r: Result<usize, GridError>)
    ensures
        match r {
            Ok(n) => valid_dimensions(width as int, height as int) && n == width * height,
            Err(e) => if width == 0 || height == 0 {
                e == GridError::ZeroDimension
            } else {
                e == GridError::TooLarge && width * height > MAX_CELLS
            },
        },
{
    if width == 0 || height == 0 {
        return Err(GridError::ZeroDimension);
    }
    match width.checked_mul(height) {
        Some(n) => if n <= MAX_CELLS {
            Ok(n)
        } else {
            Err(GridError::TooLarge)
        },
        None => Err(GridError::TooLarge),
    }
}

/// `n` copies of `cell`.
fn filled(n: usize, cell: Cell) -> (v: Vec<Cell>)
    ensures
        v@.len() == n,
        forall|i: int| 0 <= i < n ==> #[trigger] v@[i] == cell,
{
    let mut v: Vec<Cell> = Vec::new();
    let mut i: usize = 0;
    while i < n
        invariant
            i <= n,
            v@.len() == i,
            forall|j: int| 0 <= j < i ==> #[trigger] v@[j] == cell,
        decreases n - i,
    {
        v.push(cell);
        i = i + 1;
    }
    v
}

impl CellularGrid {
    /// A grid of the given dimensions whose sites are all the zero cell.
    pub fn new(width: usize, height: usize) -> (r: Result<CellularGrid, GridError>)
        ensures
            built_as(width as int, height as int, r),
            r matches Ok(g) ==> forall|i: int| 0 <= i < g@.cells.len()
                ==> all_channels(#[trigger] g@.cells[i], 0),
    {
        let n = match checked_area(width, height) {
            Ok(n) => n,
            Err(e) => return Err(e),
        };
        let grid = filled(n, Cell::new());
        Ok(CellularGrid { width, height, grid })
    }

    /// A grid of zero cells but for the all-ones cell at `(width / 2, height / 2)`.
    pub fn new_with_seed(width: usize, height: usize) -> (r: Result<CellularGrid, GridError>)
        ensures
            built_as(width as int, height as int, r),
            r matches Ok(g) ==> forall|x: int, y: int|
                0 <= x < width && 0 <= y < height ==> if x == width / 2 && y == height / 2 {
                    all_channels(#[trigger] g@.at(x, y), ONE as int)
                } else {
                    all_channels(g@.at(x, y), 0)
                },
    {
        let mut g = match CellularGrid::new(width, height) {
            Ok(g) => g,
            Err(e) => return Err(e),
        };
        let ghost before = g@;
        proof {
            lemma_dimensions_bounded(before);
        }
        let ones = Cell::new_ones();
        g.set_xy((width / 2) as i64, (height / 2) as i64, ones);
        proof {
            let cx = (width / 2) as int;
            let cy = (height / 2) as int;
            assert(wrap(cx, width as int) == cx) by (nonlinear_arith)
                requires 0 <= cx < width;
            assert(wrap(cy, height as int) == cy) by (nonlinear_arith)
                requires 0 <= cy < height;
            lemma_site_index(width as int, height as int, cx, cy);
            assert forall|x: int, y: int| 0 <= x < width && 0 <= y < height implies
                (if x == width / 2 && y == height / 2 {
                    all_channels(#[trigger] g@.at(x, y), ONE as int)
                } else {
                    all_channels(g@.at(x, y), 0)
                }) by {
                lemma_site_index(width as int, height as int, x, y);
                lemma_site_index_injective(width as int, x, y, cx, cy);
                assert(all_channels(before.cells[y * width + x], 0));
            }
        }
        Ok(g)
    }

    /// A grid whose channels are all drawn independently from `[0, 1)`.
    pub fn new_with_noise(width: usize, height: usize) -> (r: Result<CellularGrid, GridError>)
        ensures
            built_as(width as int, height as int, r),
            r matches Ok(g) ==> forall|i: int| 0 <= i < g@.cells.len()
                ==> in_unit_range(#[trigger] g@.cells[i]),
    {
        let n = match checked_area(width, height) {
            Ok(n) => n,
            Err(e) => return Err(e),
        };
        let mut grid: Vec<Cell> = Vec::new();
        let mut i: usize = 0;
        while i < n
            invariant
                i <= n,
                grid@.len() == i,
                forall|j: int| 0 <= j < i ==> in_unit_range(#[trigger] grid@[j]),
            decreases n - i,
        {
            grid.push(Cell::new_rand());
            i = i + 1;
        }
        Ok(CellularGrid { width, height, grid })
    }

    /// The dimensions `(width, height)`.
    pub fn size(&self) -> (r: (usize, usize))
        ensures
            r.0 == self@.width,
            r.1 == self@.height,
    {
        (self.width, self.height)
    }

    /// The sites, row-major: site `(x, y)` is at index `y * width + x`.
    pub fn grid_as_ref(&self) -> (r: &Vec<Cell>)
        ensures
            r@ == self@.cells,
    {
        &self.grid
    }

    /// Maps signed coordinates onto the torus: each is replaced by its true
    /// (non-negative) remainder modulo the matching dimension.
    pub fn wrap_xy(&self, x: i64, y: i64) -> (r: (usize, usize))
        requires
            self@.wf(),
        ensures
            r.0 == wrap(x as int, self@.width as int),
            r.1 == wrap(y as int, self@.height as int),
            r.0 < self@.width,
            r.1 < self@.height,
    {
        proof {
            lemma_dimensions_bounded(self@);
        }
        let wx = match x.checked_rem_euclid(self.width as i64) {
            Some(v) => v,
            None => 0,
        };
        let wy = match y.checked_rem_euclid(self.height as i64) {
            Some(v) => v,
            None => 0,
        };
        (wx as usize, wy as usize)
    }

    /// Overwrites the site that the signed coordinates `(x, y)` wrap onto.
    pub fn set_xy(&mut self, x: i64, y: i64, cell: Cell)
        requires
            old(self)@.wf(),
        ensures
            final(self)@.wf(),
            final(self)@.width == old(self)@.width,
            final(self)@.height == old(self)@.height,
            final(self)@.cells == old(self)@.cells.update(
                wrap(y as int, old(self)@.height as int) * old(self)@.width
                    + wrap(x as int, old(self)@.width as int),
                cell,
            ),
    {
        let (wx, wy) = self.wrap_xy(x, y);
        proof {
            lemma_site_index(self@.width as int, self@.height as int, wx as int, wy as int);
        }
        let index = wy * self.width + wx;
        self.grid.set(index, cell);
    }

    /// Whether the population is extinct: no site's channel 0 reaches the
    /// liveness threshold.
    pub fn has_died(&self) -> (r: bool)
        ensures
            r == forall|i: int| 0 <= i < self@.cells.len()
                ==> (#[trigger] self@.cells[i]).channels[0] < LIVENESS_THRESHOLD,
    {
        let mut i: usize = 0;
        while i < self.grid.len()
            invariant
                i <= self.grid@.len(),
                forall|j: int| 0 <= j < i ==> (#[trigger] self.grid@[j]).channels[0]
                    < LIVENESS_THRESHOLD,
            decreases self.grid@.len() - i,
        {
            if self.grid[i].channels[0] >= LIVENESS_THRESHOLD {
                assert(self@.cells[i as int].channels[0] >= LIVENESS_THRESHOLD);
                return false;
            }
            i = i + 1;
        }
        true
    }

    /// The x and y gradients of the in-range site `(x, y)`.
    fn gradients_at(&self, x: usize, y: usize) -> (r: (Gradient, Gradient))
        requires
            self@.wf(),
            x < self@.width,
            y < self@.height,
        ensures
            is_gradient(r.0, self@, x as int, y as int, mask_x()),
            is_gradient(r.1, self@, x as int, y as int, mask_y()),
    {
        proof {
            lemma_dimensions_bounded(self@);
        }
        let mut gx = Gradient::new();
        let mut gy = Gradient::new();
        let mut k: usize = 0;
        while k < 9
            invariant
                k <= 9,
                self@.wf(),
                x < self@.width,
                y < self@.height,
                self@.width <= MAX_CELLS,
                self@.height <= MAX_CELLS,
                forall|c: int|
                    0 <= c < 4 ==> #[trigger] gx.channels[c] == weighted_sum(
                        self@,
                        x as int,
                        y as int,
                        mask_x(),
                        c,
                        k as int,
                    ),
                forall|c: int|
                    0 <= c < 4 ==> #[trigger] gy.channels[c] == weighted_sum(
                        self@,
                        x as int,
                        y as int,
                        mask_y(),
                        c,
                        k as int,
                    ),
            decreases 9 - k,
        {
            let mx: i64 = (k / 3) as i64 - 1;
            let my: i64 = (k % 3) as i64 - 1;
            let (px, py) = self.wrap_xy(x as i64 + mx, y as i64 + my);
            proof {
                lemma_site_index(self@.width as int, self@.height as int, px as int, py as int);
                assert forall|c: int| 0 <= c < 4 implies -0x8_0000_0000 <= #[trigger] gx.channels[c]
                    <= 0x8_0000_0000 by {
                    lemma_weighted_sum_bound(self@, x as int, y as int, mask_x(), c, k as int);
                }
                assert forall|c: int| 0 <= c < 4 implies -0x8_0000_0000 <= #[trigger] gy.channels[c]
                    <= 0x8_0000_0000 by {
                    lemma_weighted_sum_bound(self@, x as int, y as int, mask_y(), c, k as int);
                }
            }
            let neighbour = self.grid[py * self.width + px];
            let wx = sobel_x_weight((my + 1) as usize, (mx + 1) as usize);
            let wy = sobel_y_weight((my + 1) as usize, (mx + 1) as usize);
            accumulate(&mut gx, &neighbour, wx);
            accumulate(&mut gy, &neighbour, wy);
            k = k + 1;
        }
        (gx, gy)
    }

    /// Advances the grid by one generation: every site becomes `func` of its own
    /// cell and of its x and y gradients, all read from the previous generation,
    /// and the new generation replaces the old one as a whole.
    pub fn update<F: Fn(&Cell, &Gradient, &Gradient) -> Cell>(&mut self, func: F)
        requires
            old(self)@.wf(),
            forall|a: &Cell, b: &Gradient, c: &Gradient| #[trigger] func.requires((a, b, c)),
        ensures
            final(self)@.wf(),
            is_update_of(old(self)@, final(self)@, func),
    {
        let n = self.grid.len();
        let mut new_grid: Vec<Cell> = Vec::new();
        let mut index: usize = 0;
        while index < n
            invariant
                index <= n,
                n == self@.cells.len(),
                self@.wf(),
                new_grid@.len() == index,
                forall|a: &Cell, b: &Gradient, c: &Gradient| #[trigger] func.requires((a, b, c)),
                forall|j: int|
                    0 <= j < index ==> site_updated(self@, func, j, #[trigger] new_grid@[j]),
            decreases n - index,
        {
            let x = index % self.width;
            let y = index / self.width;
            proof {
                lemma_row_of_index(self@.width as int, self@.height as int, index as int);
            }
            let (gx, gy) = self.gradients_at(x, y);
            let cell = func(&self.grid[index], &gx, &gy);
            proof {
                assert(call_ensures(func, (&self@.cells[index as int], &gx, &gy), cell));
                assert(site_updated(self@, func, index as int, cell));
            }
            let ghost prev = new_grid@;
            new_grid.push(cell);
            proof {
                assert forall|j: int| 0 <= j < index + 1 implies site_updated(
                    self@,
                    func,
                    j,
                    #[trigger] new_grid@[j],
                ) by {
                    if j < index {
                        assert(new_grid@[j] == prev[j]);
                    }
                }
            }
            index = index + 1;
        }
        self.grid = new_grid;
    }
}

/// Adds `cell`, weighted by `w`, channel by channel to `acc`.
fn accumulate(acc: &mut Gradient, cell: &Cell, w: i64)
    requires
        -2 <= w <= 2,
        forall|c: int|
            0 <= c < 4 ==> -0x8_0000_0000 <= #[trigger] old(acc).channels[c] <= 0x8_0000_0000,
    ensures
        forall|c: int|
            0 <= c < 4 ==> #[trigger] final(acc).channels[c] == old(acc).channels[c]
                + cell.channels[c] * w,
{
    proof {
        assert forall|c: int| 0 <= c < 4 implies -0x1_0000_0000 <= #[trigger] cell.channels[c] * w
            <= 0x1_0000_0000 by {
            lemma_weighted_term_bound(cell.channels[c] as int, w as int);
        }
    }
    acc.channels[0] = acc.channels[0] + cell.channels[0] as i64 * w;
    acc.channels[1] = acc.channels[1] + cell.channels[1] as i64 * w;
    acc.channels[2] = acc.channels[2] + cell.channels[2] as i64 * w;
    acc.channels[3] = acc.channels[3] + cell.channels[3] as i64 * w;
}

/// A channel value times a mask weight stays within 2^32 in magnitude.
proof fn lemma_weighted_term_bound(v: int, w: int)
    requires
        -0x8000_0000 <= v < 0x8000_0000,
        -2 <= w <= 2,
    ensures
        -0x1_0000_0000 <= v * w <= 0x1_0000_0000,
{
    assert(-0x1_0000_0000 <= v * w <= 0x1_0000_0000) by (nonlinear_arith)
        requires -0x8000_0000 <= v < 0x8000_0000, -2 <= w <= 2;
}

/// A partial neighbourhood sum over `k` positions stays within `k * 2^32` in magnitude.
proof fn lemma_weighted_sum_bound(
    m: GridModel,
    x: int,
    y: int,
    mask: spec_fn(int, int) -> int,
    c: int,
    k: int,
)
    requires
        0 <= k <= 9,
        forall|r: int, col: int| -2 <= #[trigger] mask(r, col) <= 2,
    ensures
        -k * 0x1_0000_0000 <= weighted_sum(m, x, y, mask, c, k) <= k * 0x1_0000_0000,
    decreases k,
{
    if k > 0 {
        lemma_weighted_sum_bound(m, x, y, mask, c, k - 1);
        let mx = offset_x(k - 1);
        let my = offset_y(k - 1);
        lemma_weighted_term_bound(
            m.at_wrapped(x + mx, y + my).channels[c] as int,
            mask(my + 1, mx + 1),
        );
    }
}

/// The coordinates of a buffer index are in range.
proof fn lemma_row_of_index(width: int, height: int, index: int)
    requires
        width > 0,
        0 <= index < width * height,
    ensures
        0 <= index % width < width,
        0 <= index / width < height,
        index == (index / width) * width + index % width,
{
    assert(0 <= index / width < height) by (nonlinear_arith)
        requires width > 0, 0 <= index < width * height;
    assert(index == (index / width) * width + index % width) by (nonlinear_arith)
        requires width > 0;
}

/// Each dimension of a well-formed grid is at most `MAX_CELLS`.
proof fn lemma_dimensions_bounded(m: GridModel)
    requires
        m.wf(),
    ensures
        m.width <= MAX_CELLS,
        m.height <= MAX_CELLS,
{
    assert(m.width <= m.width * m.height) by (nonlinear_arith)
        requires m.height >= 1;
    assert(m.height <= m.width * m.height) by (nonlinear_arith)
        requires m.width >= 1;
}

/// The row-major index of an in-range site lies inside the buffer.
proof fn lemma_site_index(width: int, height: int, x: int, y: int)
    requires
        0 <= x < width,
        0 <= y < height,
    ensures
        0 <= y * width + x < width * height,
{
    assert(0 <= y * width + x < width * height) by (nonlinear_arith)
        requires 0 <= x < width, 0 <= y < height;
}

/// Distinct in-range sites have distinct row-major indices.
proof fn lemma_site_index_injective(width: int, x1: int, y1: int, x2: int, y2: int)
    requires
        0 <= x1 < width,
        0 <= x2 < width,
        0 <= y1,
        0 <= y2,
    ensures
        (y1 * width + x1 == y2 * width + x2) == (x1 == x2 && y1 == y2),
{
    if y1 * width + x1 == y2 * width + x2 {
        if y1 < y2 {
            assert(y1 * width + x1 < y2 * width + x2) by (nonlinear_arith)
                requires 0 <= x1 < width, 0 <= x2, y1 < y2;
        } else if y2 < y1 {
            assert(y2 * width + x2 < y1 * width + x1) by (nonlinear_arith)
                requires 0 <= x2 < width, 0 <= x1, y2 < y1;
        }
    }
}

} // verus!
