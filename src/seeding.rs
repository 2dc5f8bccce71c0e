use rand::rngs::StdRng;
use rand::{Rng, SeedableRng};
use vstd::prelude::*;

verus! {

#[verifier::external_type_specification]
#[verifier::external_body]
pub struct ExStdRng(StdRng);

/// Relies on rand's `SeedableRng::seed_from_u64` for `StdRng`: a generator
/// whose draws are fixed by the seed. Nothing is stated of its state.
#[verifier::external_body]
fn seeded_rng(seed: u64) -> StdRng {
    StdRng::seed_from_u64(seed)
}

/// Relies on rand's `Rng::gen_range(low, high)`: a value in `[low, high)`; it
/// panics unless `low < high`.
#[verifier::external_body]
fn gen_range_u32(rng: &mut StdRng, low: u32, high: u32) -> (r: u32)
    requires
        low < high,
    ensures
        low <= r < high,
{
    rng.gen_range(low, high)
}

/// Half the width of the window that starting cells are drawn from along an
/// axis of `extent` cells: an eighth of it, at least 1.
pub open spec fn half_window(extent: int) -> int {
    if extent / 8 > 1 {
        extent / 8
    } else {
        1
    }
}

/// First coordinate of the window around the middle of the axis.
pub open spec fn window_low(extent: int) -> int {
    extent / 2 - half_window(extent)
}

/// End (exclusive) of the window around the middle of the axis.
pub open spec fn window_high(extent: int) -> int {
    if extent / 2 + half_window(extent) < extent {
        extent / 2 + half_window(extent)
    } else {
        extent
    }
}

fn window(extent: u32) -> (r: (u32, u32))
    requires
        extent >= 2,
    ensures
        r.0 == window_low(extent as int),
        r.1 == window_high(extent as int),
        r.0 < r.1,
{
    let half: u32 = if extent / 8 > 1 { extent / 8 } else { 1 };
    let low = extent / 2 - half;
    let high = if extent / 2 + half < extent { extent / 2 + half } else { extent };
    (low, high)
}

/// `num_starting_cells - 1` positions (none when it is 0), drawn by a
/// generator seeded with `seed` from the window around the middle of the
/// grid. Positions may repeat.
pub fn starting_cells(seed: u32, width: u32, height: u32, num_starting_cells: u32) -> (r: Vec<
    (u32, u32),
>)
    requires
        width >= 2,
        height >= 2,
    ensures
        r@.len() == if num_starting_cells >= 1 {
            num_starting_cells - 1
        } else {
            0
        },
        forall|i: int|
            0 <= i < r@.len() ==> window_low(width as int) <= (#[trigger] r@[i]).0 < window_high(
                width as int,
            ) && window_low(height as int) <= r@[i].1 < window_high(height as int),
{
    let mut rng = seeded_rng(seed as u64);
    let (x_low, x_high) = window(width);
    let (y_low, y_high) = window(height);
    let mut live_cells: Vec<(u32, u32)> = Vec::new();
    let mut n: u32 = 1;
    while n < num_starting_cells
        invariant
            1 <= n,
            num_starting_cells >= 1 ==> n <= num_starting_cells,
            num_starting_cells == 0 ==> n == 1,
            live_cells@.len() == n - 1,
            x_low == window_low(width as int),
            x_high == window_high(width as int),
            y_low == window_low(height as int),
            y_high == window_high(height as int),
            x_low < x_high,
            y_low < y_high,
            forall|i: int|
                0 <= i < live_cells@.len() ==> x_low <= (#[trigger] live_cells@[i]).0 < x_high
                    && y_low <= live_cells@[i].1 < y_high,
        decreases num_starting_cells - n,
    {
        let x = gen_range_u32(&mut rng, x_low, x_high);
        let y = gen_range_u32(&mut rng, y_low, y_high);
        live_cells.push((x, y));
        n += 1;
    }
    live_cells
}

} // verus!
