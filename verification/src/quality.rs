use vstd::prelude::*;
use vstd::arithmetic::div_mod::{lemma_div_is_ordered, lemma_div_by_multiple};
use vstd::arithmetic::mul::lemma_mul_inequality;

verus! {

/// Fixed-point scale for the search progress `i / (n - 1)`: progress is held
/// as `i * PROGRESS_SCALE / (n - 1)`, so a full pass maps to `PROGRESS_SCALE`.
pub const PROGRESS_SCALE: u64 = 1000000;

/// The square root of `PROGRESS_SCALE`, used to undo the scaling after the
/// square root is taken.
pub const PROGRESS_ROOT: u64 = 1000;

/// The integer square root: the largest `r` with `r * r <= n`.
pub open spec fn sqrt_floor(n: nat) -> nat
    decreases n,
{
    if n == 0 {
        0
    } else {
        let r = sqrt_floor((n - 1) as nat);
        if (r + 1) * (r + 1) <= n {
            r + 1
        } else {
            r
        }
    }
}

pub proof fn lemma_sqrt_floor_bounds(n: nat)
    ensures
        sqrt_floor(n) * sqrt_floor(n) <= n,
        n < (sqrt_floor(n) + 1) * (sqrt_floor(n) + 1),
    decreases n,
{
    if n == 0 {
        assert(sqrt_floor(0) == 0);
        assert(0 * 0 == 0 && (0 + 1) * (0 + 1) == 1) by (nonlinear_arith);
    } else {
        lemma_sqrt_floor_bounds((n - 1) as nat);
        let r = sqrt_floor((n - 1) as nat);
        if (r + 1) * (r + 1) <= n {
            assert(sqrt_floor(n) == r + 1);
            assert(n <= (r + 1) * (r + 1));
            assert((r + 1) * (r + 1) < (r + 2) * (r + 2)) by (nonlinear_arith);
        } else {
            assert(sqrt_floor(n) == r);
        }
    }
}

pub proof fn lemma_sqrt_floor_unique(n: nat, r: nat)
    requires
        r * r <= n,
        n < (r + 1) * (r + 1),
    ensures
        r == sqrt_floor(n),
{
    lemma_sqrt_floor_bounds(n);
    let s = sqrt_floor(n);
    if r < s {
        assert((r + 1) * (r + 1) <= s * s) by (nonlinear_arith)
            requires r + 1 <= s;
    } else if s < r {
        assert((s + 1) * (s + 1) <= r * r) by (nonlinear_arith)
            requires s + 1 <= r;
    }
}

pub proof fn lemma_sqrt_floor_mono(a: nat, b: nat)
    requires
        a <= b,
    ensures
        sqrt_floor(a) <= sqrt_floor(b),
{
    lemma_sqrt_floor_bounds(a);
    lemma_sqrt_floor_bounds(b);
    let x = sqrt_floor(a);
    let y = sqrt_floor(b);
    if y < x {
        assert((y + 1) * (y + 1) <= x * x) by (nonlinear_arith)
            requires y + 1 <= x;
    }
}

/// The deterministic quality schedule. Iteration 0 starts at `start`; later
/// iterations fall along a square-root-weighted decay
/// `start - (start - min) * sqrt(i / (n - 1))`, held in fixed-point integer
/// arithmetic, and the floor `min` is reached by iteration `n - 1`.
pub open spec fn quality_at(i: nat, n: nat, start: u8, min: u8) -> u8 {
    if n <= 1 || i == 0 {
        if start >= min {
            start
        } else {
            min
        }
    } else {
        let range = if start >= min {
            (start - min) as nat
        } else {
            0
        };
        let s = sqrt_floor(i * (PROGRESS_SCALE as nat) / ((n - 1) as nat));
        let decay = range * s / (PROGRESS_ROOT as nat);
        if start as nat >= min as nat + decay {
            (start as nat - decay) as u8
        } else {
            min
        }
    }
}

/// Every scheduled quality lies between the floor and the starting quality.
pub proof fn lemma_quality_at_bounds(i: nat, n: nat, start: u8, min: u8)
    ensures
        min <= quality_at(i, n, start, min),
        quality_at(i, n, start, min) <= if start >= min { start } else { min },
{
}

/// From iteration `n - 1` on, the schedule sits at the quality floor.
pub proof fn lemma_quality_at_floor(i: nat, n: nat, start: u8, min: u8)
    requires
        n > 1,
        i >= n - 1,
    ensures
        quality_at(i, n, start, min) == min,
{
    let d = (n - 1) as nat;
    let scale = PROGRESS_SCALE as nat;
    let root = PROGRESS_ROOT as nat;
    let t = i * scale / d;
    lemma_mul_inequality(d as int, i as int, scale as int);
    lemma_div_is_ordered((d * scale) as int, (i * scale) as int, d as int);
    lemma_div_by_multiple(scale as int, d as int);
    assert(t >= scale);
    assert(sqrt_floor(scale) == root) by {
        assert(root * root <= scale) by (nonlinear_arith)
            requires root == 1000, scale == 1000000;
        assert(scale < (root + 1) * (root + 1)) by (nonlinear_arith)
            requires root == 1000, scale == 1000000;
        lemma_sqrt_floor_unique(scale, root);
    }
    lemma_sqrt_floor_mono(scale, t);
    let s = sqrt_floor(t);
    let range = if start >= min {
        (start - min) as nat
    } else {
        0
    };
    lemma_mul_inequality(root as int, s as int, range as int);
    lemma_div_is_ordered((range * root) as int, (range * s) as int, root as int);
    lemma_div_by_multiple(range as int, root as int);
    assert(range * s / root >= range);
}

/// The schedule is monotonically non-increasing in the iteration index.
pub proof fn lemma_quality_schedule_monotone(i: nat, j: nat, n: nat, start: u8, min: u8)
    requires
        i <= j,
    ensures
        quality_at(j, n, start, min) <= quality_at(i, n, start, min),
{
    lemma_quality_at_bounds(i, n, start, min);
    lemma_quality_at_bounds(j, n, start, min);
    if n <= 1 || i == 0 || i == j {
        // quality_at(i, ..) is the schedule's upper bound there.
    } else {
        let d = (n - 1) as nat;
        let scale = PROGRESS_SCALE as nat;
        let root = PROGRESS_ROOT as nat;
        let ti = i * scale / d;
        let tj = j * scale / d;
        lemma_mul_inequality(i as int, j as int, scale as int);
        lemma_div_is_ordered((i * scale) as int, (j * scale) as int, d as int);
        assert(ti <= tj);
        lemma_sqrt_floor_mono(ti, tj);
        let si = sqrt_floor(ti);
        let sj = sqrt_floor(tj);
        let range = if start >= min {
            (start - min) as nat
        } else {
            0
        };
        lemma_mul_inequality(si as int, sj as int, range as int);
        lemma_div_is_ordered((range * si) as int, (range * sj) as int, root as int);
        assert(range * si / root <= range * sj / root);
    }
}

/// Binary search for the integer square root of a scaled progress value.
fn isqrt_scaled(n: u64) -> (r: u64)
    requires
        n <= PROGRESS_SCALE,
    ensures
        r as nat == sqrt_floor(n as nat),
        r <= PROGRESS_ROOT,
{
    let mut lo: u64 = 0;
    let mut hi: u64 = PROGRESS_ROOT + 1;
    while lo + 1 < hi
        invariant
            lo < hi,
            hi <= PROGRESS_ROOT + 1,
            (lo as nat) * (lo as nat) <= n as nat,
            (n as nat) < (hi as nat) * (hi as nat),
        decreases hi - lo,
    {
        let mid = lo + (hi - lo) / 2;
        proof {
            assert(mid * mid <= 1001 * 1001) by (nonlinear_arith)
                requires mid <= 1001;
        }
        if mid * mid <= n {
            lo = mid;
        } else {
            hi = mid;
        }
    }
    proof {
        lemma_sqrt_floor_unique(n as nat, lo as nat);
    }
    lo
}

/// The quality for search iteration `iteration` out of `max_iterations`:
/// `start_quality` for the first attempt, then a deterministic,
/// monotonically non-increasing square-root-weighted decay down to
/// `min_quality`, reached by the final iteration.
pub fn calculate_jpeg_quality_v2(
    iteration: usize,
    max_iterations: usize,
    start_quality: u8,
    min_quality: u8,
) -> (q: u8)
    ensures
        q == quality_at(iteration as nat, max_iterations as nat, start_quality, min_quality),
        min_quality <= q,
        q <= if start_quality >= min_quality { start_quality } else { min_quality },
{
    proof {
        lemma_quality_at_bounds(
            iteration as nat, max_iterations as nat, start_quality, min_quality);
    }
    if max_iterations <= 1 || iteration == 0 {
        return if start_quality >= min_quality {
            start_quality
        } else {
            min_quality
        };
    }
    let d = max_iterations - 1;
    if iteration >= d {
        proof {
            lemma_quality_at_floor(
                iteration as nat, max_iterations as nat, start_quality, min_quality);
        }
        return min_quality;
    }
    let t128 = (iteration as u128) * (PROGRESS_SCALE as u128) / (d as u128);
    proof {
        lemma_mul_inequality(iteration as int, d as int, PROGRESS_SCALE as int);
        lemma_div_is_ordered(
            (iteration as int) * (PROGRESS_SCALE as int),
            (d as int) * (PROGRESS_SCALE as int),
            d as int,
        );
        lemma_div_by_multiple(PROGRESS_SCALE as int, d as int);
        assert(t128 <= PROGRESS_SCALE);
    }
    let t = t128 as u64;
    let s = isqrt_scaled(t);
    let range: u64 = if start_quality >= min_quality {
        (start_quality - min_quality) as u64
    } else {
        0
    };
    proof {
        assert(range * s <= 255 * 1000) by (nonlinear_arith)
            requires range <= 255, s <= 1000;
    }
    let decay = range * s / PROGRESS_ROOT;
    if (start_quality as u64) >= (min_quality as u64) + decay {
        ((start_quality as u64) - decay) as u8
    } else {
        min_quality
    }
}

} // verus!
