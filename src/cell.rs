use vstd::prelude::*;
use rand::Rng;

verus! {

/// Fixed-point scale of a channel: a raw channel value of `ONE` stands for 1.0.
pub const ONE: i32 = 1_000_000;

/// Number of channels of every cell.
pub const CHANNELS: usize = 4;

/// The state of one grid site: four fixed-point channels.
/// Channel 0 is read by collaborators as the site's liveness.
#[derive(Clone, Copy, Debug, PartialEq, Eq)]
pub struct Cell {
    pub channels: [i32; 4],
}

/// A per-channel weighted sum of neighbour cells. Its channels are wider than a
/// cell's so that a sum over a whole neighbourhood cannot overflow.
#[derive(Clone, Copy, Debug, PartialEq, Eq)]
pub struct Gradient {
    pub channels: [i64; 4],
}

/// Every channel of `cell` equals `v`.
pub open spec fn all_channels(cell: Cell, v: int) -> bool {
    forall|c: int| 0 <= c < 4 ==> cell.channels[c] == v
}

/// Every channel of `cell` lies in `[0, ONE)`, the fixed-point range `[0, 1)`.
pub open spec fn in_unit_range(cell: Cell) -> bool {
    forall|c: int| 0 <= c < 4 ==> 0 <= #[trigger] cell.channels[c] < ONE
}

/// Relies on rand's `thread_rng` and `Rng::gen_range` over a half-open range:
/// the value drawn lies in the range, which is not empty here.
#[verifier::external_body]
fn random_channel() -> (r: i32)
    ensures
        0 <= r < ONE,
{
    rand::thread_rng().gen_range(0..ONE)
}

impl Cell {
    /// A cell with every channel at zero.
    pub fn new() -> (r: Cell)
        ensures
            all_channels(r, 0),
    {
        Cell { channels: [0, 0, 0, 0] }
    }

    /// A cell with every channel at one.
    pub fn new_ones() -> (r: Cell)
        ensures
            all_channels(r, ONE as int),
    {
        Cell { channels: [ONE, ONE, ONE, ONE] }
    }

    /// A cell whose channels are drawn independently and uniformly from `[0, 1)`.
    pub fn new_rand() -> (r: Cell)
        ensures
            in_unit_range(r),
    {
        let a = random_channel();
        let b = random_channel();
        let c = random_channel();
        let d = random_channel();
        Cell { channels: [a, b, c, d] }
    }
}

impl Gradient {
    /// A gradient accumulator with every channel at zero.
    pub fn new() -> (r: Gradient)
        ensures
            forall|c: int| 0 <= c < 4 ==> r.channels[c] == 0,
    {
        Gradient { channels: [0, 0, 0, 0] }
    }
}

} // verus!
