//! Parameters of the Monte Carlo simulation.

use vstd::prelude::*;

verus! {

/// Maximum number of simulation paths, to prevent resource exhaustion.
pub const MAX_SIMULATIONS: usize = 1_000_000;

/// Maximum time horizon in months (50 years).
pub const MAX_HORIZON_MONTHS: usize = 600;

/// Number of paths when none is requested.
pub const DEFAULT_SIMULATIONS: usize = 10_000;

/// Horizon in months when none is requested (10 years).
pub const DEFAULT_HORIZON_MONTHS: usize = 120;

/// The simulation limits and defaults: at most 1,000,000 paths and 600
/// months (50 years); 10,000 paths and 120 months (10 years) by default.
pub proof fn lemma_simulation_limits()
    ensures
        MAX_SIMULATIONS == 1_000_000,
        MAX_HORIZON_MONTHS == 600,
        DEFAULT_SIMULATIONS == 10_000,
        DEFAULT_HORIZON_MONTHS == 120,
        DEFAULT_SIMULATIONS <= MAX_SIMULATIONS,
        DEFAULT_HORIZON_MONTHS <= MAX_HORIZON_MONTHS,
{
}

/// `v` clamped into `[lo, hi]` (`v.min(hi).max(lo)`).
pub open spec fn clamp(v: int, lo: int, hi: int) -> int {
    if v > hi {
        hi
    } else if v < lo {
        lo
    } else {
        v
    }
}

/// The number of paths to simulate: the request (10,000 by default) capped
/// at `MAX_SIMULATIONS` and at least 1.
pub fn simulation_count(requested: Option<usize>) -> (n: usize)
    ensures
        n == clamp(
            match requested {
                Some(r) => r as int,
                None => DEFAULT_SIMULATIONS as int,
            },
            1,
            MAX_SIMULATIONS as int,
        ),
        1 <= n <= MAX_SIMULATIONS,
{
    let r = match requested {
        Some(r) => r,
        None => DEFAULT_SIMULATIONS,
    };
    let capped = if r > MAX_SIMULATIONS {
        MAX_SIMULATIONS
    } else {
        r
    };
    if capped < 1 {
        1
    } else {
        capped
    }
}

/// The horizon to simulate: the request (120 months by default) capped at
/// `MAX_HORIZON_MONTHS` and at least 1.
pub fn horizon_months(requested: Option<usize>) -> (n: usize)
    ensures
        n == clamp(
            match requested {
                Some(r) => r as int,
                None => DEFAULT_HORIZON_MONTHS as int,
            },
            1,
            MAX_HORIZON_MONTHS as int,
        ),
        1 <= n <= MAX_HORIZON_MONTHS,
{
    let r = match requested {
        Some(r) => r,
        None => DEFAULT_HORIZON_MONTHS,
    };
    let capped = if r > MAX_HORIZON_MONTHS {
        MAX_HORIZON_MONTHS
    } else {
        r
    };
    if capped < 1 {
        1
    } else {
        capped
    }
}

} // verus!
