//! Windows of the pairwise correlation matrix.

use vstd::prelude::*;

verus! {

/// Observation window when none is requested.
pub const DEFAULT_WINDOW_DAYS: usize = 90;

/// Without a requested window, 90 trailing observations are compared.
pub proof fn lemma_default_window()
    ensures
        DEFAULT_WINDOW_DAYS == 90,
{
}

/// The observation window of a correlation matrix: the request (90 by
/// default), at least 2.
pub fn effective_window(window_days: Option<usize>) -> (w: usize)
    ensures
        w == (match window_days {
            Some(d) => if d < 2 {
                2
            } else {
                d
            },
            None => DEFAULT_WINDOW_DAYS,
        }),
        w >= 2,
{
    let w = match window_days {
        Some(d) => d,
        None => DEFAULT_WINDOW_DAYS,
    };
    if w < 2 {
        2
    } else {
        w
    }
}

/// The trailing observations two series are compared over: `n`, the
/// overlap of the two lengths and the window, and the offsets at which the
/// last `n` observations of each series start.
pub fn trailing_window(len_x: usize, len_y: usize, window: usize) -> (r: (usize, usize, usize))
    ensures
        r.0 == vstd::math::min(vstd::math::min(len_x as int, len_y as int), window as int),
        r.1 == len_x - r.0,
        r.2 == len_y - r.0,
{
    let a = if len_x < len_y {
        len_x
    } else {
        len_y
    };
    let n = if a < window {
        a
    } else {
        window
    };
    (n, len_x - n, len_y - n)
}

} // verus!
