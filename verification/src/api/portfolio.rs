//! Portfolio analytics endpoints. The analytics themselves are floating
//! point and run in the application; this module holds the request checks:
//! the validation of the holdings, made from what the application reads of
//! each number, and the checks on the integer and text parameters, which run
//! after the holdings have been validated.

use vstd::prelude::*;
use crate::api::import_api::NumClass;
use crate::text::{decimal, join, usize_to_decimal};

verus! {

/// Error body of the portfolio endpoints.
pub struct ApiError {
    pub error: String,
    pub code: String,
}

/// Whether `r` failed with this status, message and code.
pub open spec fn fails_with(r: Result<(), (u16, ApiError)>, status: u16, msg: Seq<char>, code: Seq<char>) -> bool {
    r matches Err((s, e)) && s == status && e.error@ == msg && e.code@ == code
}

/// Whether `r` failed with a 400 carrying this message and code.
pub open spec fn rejects(r: Result<(), (u16, ApiError)>, msg: Seq<char>, code: Seq<char>) -> bool {
    fails_with(r, 400, msg, code)
}

/// A 400 response for a validation failure.
pub fn bad_request(msg: &str, code: &str) -> (r: (u16, ApiError))
    ensures
        r.0 == 400,
        r.1.error@ == msg@,
        r.1.code@ == code@,
{
    (400, ApiError { error: msg.to_owned(), code: code.to_owned() })
}

/// What the validation reads of one holding of a request.
pub struct HoldingFacts {
    pub symbol: String,
    /// How the weight compares.
    pub weight: NumClass,
    /// The weight as displayed text.
    pub weight_text: String,
    /// How the market value compares.
    pub market_value: NumClass,
    /// The market value as displayed text.
    pub market_value_text: String,
    /// Number of observations in the return series.
    pub returns_len: usize,
    /// Index of the first return that is NaN or infinite.
    pub first_bad_return: Option<usize>,
}

/// The message and code of the first thing wrong with the `i`-th holding,
/// checked in order: an empty symbol, a negative weight, a NaN or infinite
/// weight, a negative market value, a NaN or infinite market value, no
/// returns, a NaN or infinite return.
pub open spec fn holding_fault(i: int, h: HoldingFacts) -> Option<(Seq<char>, Seq<char>)> {
    let named = "Holding '"@ + h.symbol@ + "' "@;
    if h.symbol@.len() == 0 {
        Some(("Holding at index "@ + decimal(i as nat) + " has an empty symbol"@, "EMPTY_SYMBOL"@))
    } else if h.weight.below_zero() {
        Some((named + "has negative weight: "@ + h.weight_text@, "NEGATIVE_WEIGHT"@))
    } else if h.weight.not_finite() {
        Some((named + "has non-finite weight"@, "INVALID_WEIGHT"@))
    } else if h.market_value.below_zero() {
        Some((named + "has negative market_value: "@ + h.market_value_text@, "NEGATIVE_MARKET_VALUE"@))
    } else if h.market_value.not_finite() {
        Some((named + "has non-finite market_value"@, "INVALID_MARKET_VALUE"@))
    } else if h.returns_len == 0 {
        Some((named + "has no return data"@, "EMPTY_RETURNS"@))
    } else {
        match h.first_bad_return {
            Some(j) => Some((named + "return at index "@ + decimal(j as nat) + " is non-finite"@, "INVALID_RETURN"@)),
            None => None,
        }
    }
}

/// The first fault among the first `k` holdings.
pub open spec fn first_fault(hs: Seq<HoldingFacts>, k: int) -> Option<(Seq<char>, Seq<char>)>
    decreases k,
{
    if k <= 0 {
        None
    } else {
        match first_fault(hs, k - 1) {
            Some(f) => Some(f),
            None => holding_fault(k - 1, hs[k - 1]),
        }
    }
}

/// Once a fault is found, later holdings do not change it.
proof fn lemma_first_fault_stays(hs: Seq<HoldingFacts>, k: int, m: int)
    requires
        0 <= k <= m,
        first_fault(hs, k) is Some,
    ensures
        first_fault(hs, m) == first_fault(hs, k),
    decreases m - k,
{
    if m > k {
        lemma_first_fault_stays(hs, k, m - 1);
    }
}

fn holding_fault_exec(i: usize, h: &HoldingFacts) -> (r: Option<(String, &'static str)>)
    ensures
        match holding_fault(i as int, *h) {
            Some((m, c)) => r matches Some((x, y)) && x@ == m && y@ == c,
            None => r is None,
        },
{
    if h.symbol.as_str().is_empty() {
        let a = join("Holding at index ", usize_to_decimal(i).as_str());
        return Some((join(a.as_str(), " has an empty symbol"), "EMPTY_SYMBOL"));
    }
    let named = join(join("Holding '", h.symbol.as_str()).as_str(), "' ");
    let weight_negative = match h.weight {
        NumClass::Nan => false,
        NumClass::Infinite { negative } => negative,
        NumClass::Finite { negative } => negative,
    };
    if weight_negative {
        let a = join(named.as_str(), "has negative weight: ");
        return Some((join(a.as_str(), h.weight_text.as_str()), "NEGATIVE_WEIGHT"));
    }
    let weight_finite = match h.weight {
        NumClass::Finite { .. } => true,
        _ => false,
    };
    if !weight_finite {
        return Some((join(named.as_str(), "has non-finite weight"), "INVALID_WEIGHT"));
    }
    let negative = match h.market_value {
        NumClass::Nan => false,
        NumClass::Infinite { negative } => negative,
        NumClass::Finite { negative } => negative,
    };
    if negative {
        let a = join(named.as_str(), "has negative market_value: ");
        return Some((join(a.as_str(), h.market_value_text.as_str()), "NEGATIVE_MARKET_VALUE"));
    }
    let finite = match h.market_value {
        NumClass::Finite { .. } => true,
        _ => false,
    };
    if !finite {
        return Some((join(named.as_str(), "has non-finite market_value"), "INVALID_MARKET_VALUE"));
    }
    if h.returns_len == 0 {
        return Some((join(named.as_str(), "has no return data"), "EMPTY_RETURNS"));
    }
    match h.first_bad_return {
        Some(j) => {
            let a = join(named.as_str(), "return at index ");
            let b = join(a.as_str(), usize_to_decimal(j).as_str());
            Some((join(b.as_str(), " is non-finite"), "INVALID_RETURN"))
        },
        None => None,
    }
}

/// Validates the holdings of an analytics request: there must be at least
/// one, none may have a fault (`holding_fault`; the first one found is
/// reported), and the total market value must be positive
/// (`total_not_positive` tells whether the sum is at most zero; once every
/// market value is finite and not negative, that is when all are zero, which
/// is answered with 422).
pub fn validate_holdings(holdings: &Vec<HoldingFacts>, total_not_positive: bool) -> (r: Result<(), (u16, ApiError)>)
    ensures
        holdings@.len() == 0 ==> rejects(r, "Holdings array must not be empty"@, "EMPTY_HOLDINGS"@),
        holdings@.len() > 0 ==> match first_fault(holdings@, holdings@.len() as int) {
            Some((m, c)) => rejects(r, m, c),
            None => if total_not_positive {
                fails_with(r, 422, "Total portfolio market value must be positive"@, "ZERO_TOTAL_VALUE"@)
            } else {
                r is Ok
            },
        },
{
    if holdings.len() == 0 {
        return Err(bad_request("Holdings array must not be empty", "EMPTY_HOLDINGS"));
    }
    let mut i: usize = 0;
    while i < holdings.len()
        invariant
            i <= holdings@.len(),
            first_fault(holdings@, i as int) is None,
        decreases holdings@.len() - i,
    {
        match holding_fault_exec(i, &holdings[i]) {
            Some((m, c)) => {
                proof {
                    lemma_first_fault_stays(holdings@, i + 1, holdings@.len() as int);
                }
                return Err((400, ApiError { error: m, code: c.to_owned() }));
            },
            None => {},
        }
        i += 1;
    }
    if total_not_positive {
        return Err((422, ApiError {
            error: "Total portfolio market value must be positive".to_owned(),
            code: "ZERO_TOTAL_VALUE".to_owned(),
        }));
    }
    Ok(())
}

/// A stress test needs a scenario name or custom shocks.
pub fn check_stress_request(scenario: &str, has_custom_shocks: bool) -> (r: Result<(), (u16, ApiError)>)
    ensures
        scenario@.len() == 0 && !has_custom_shocks ==> rejects(
            r,
            "Either scenario name or custom_shocks must be provided"@,
            "MISSING_SCENARIO"@,
        ),
        scenario@.len() > 0 || has_custom_shocks ==> r is Ok,
{
    if scenario.is_empty() && !has_custom_shocks {
        return Err(bad_request("Either scenario name or custom_shocks must be provided", "MISSING_SCENARIO"));
    }
    Ok(())
}

/// Custom shocks, given by their asset classes and whether each shock is a
/// finite number, must all be finite; the first that is not is reported.
pub fn check_custom_shocks(asset_classes: &Vec<String>, finite: &Vec<bool>) -> (r: Result<(), (u16, ApiError)>)
    requires
        asset_classes@.len() == finite@.len(),
    ensures
        (forall|k: int| 0 <= k < finite@.len() ==> finite@[k]) ==> r is Ok,
        !(forall|k: int| 0 <= k < finite@.len() ==> finite@[k]) ==> exists|k: int| {
            &&& 0 <= k < finite@.len()
            &&& !finite@[k]
            &&& (forall|l: int| 0 <= l < k ==> finite@[l])
            &&& rejects(r, "Shock for '"@ + asset_classes@[k]@ + "' has non-finite value"@, "INVALID_SHOCK"@)
        },
{
    let mut i: usize = 0;
    while i < finite.len()
        invariant
            i <= finite@.len(),
            asset_classes@.len() == finite@.len(),
            forall|l: int| 0 <= l < i ==> finite@[l],
        decreases finite@.len() - i,
    {
        if !finite[i] {
            let a = join("Shock for '", asset_classes[i].as_str());
            let m = join(a.as_str(), "' has non-finite value");
            let r = Err((400u16, ApiError { error: m, code: "INVALID_SHOCK".to_owned() }));
            proof {
                assert(!finite@[i as int]);
            }
            return r;
        }
        i += 1;
    }
    Ok(())
}

/// Smallest observation window a correlation request may ask for.
pub const MIN_WINDOW_DAYS: usize = 2;

/// Largest observation window a correlation request may ask for.
pub const MAX_WINDOW_DAYS: usize = 10_000;

/// A correlation matrix needs at least two holdings and, when a window is
/// given, a window of 2 to 10,000 observations.
pub fn check_correlation_request(num_holdings: usize, window_days: Option<usize>) -> (r: Result<(), (u16, ApiError)>)
    ensures
        num_holdings < 2 ==> rejects(r, "Correlation matrix requires at least 2 holdings"@, "INSUFFICIENT_HOLDINGS"@),
        num_holdings >= 2 && (window_days matches Some(w) && (w < MIN_WINDOW_DAYS || w > MAX_WINDOW_DAYS))
            ==> rejects(r, "window_days must be between 2 and 10000"@, "INVALID_WINDOW"@),
        num_holdings >= 2 && !(window_days matches Some(w) && (w < MIN_WINDOW_DAYS || w > MAX_WINDOW_DAYS))
            ==> r is Ok,
{
    if num_holdings < 2 {
        return Err(bad_request("Correlation matrix requires at least 2 holdings", "INSUFFICIENT_HOLDINGS"));
    }
    if let Some(w) = window_days {
        if w < MIN_WINDOW_DAYS || w > MAX_WINDOW_DAYS {
            return Err(bad_request("window_days must be between 2 and 10000", "INVALID_WINDOW"));
        }
    }
    Ok(())
}

/// A Monte Carlo request needs a positive finite initial value
/// (`initial_value_ok`) and, when given, between 1 and 1,000,000 simulations
/// and a horizon of 1 to 600 months.
pub fn check_monte_carlo_request(
    initial_value_ok: bool,
    num_simulations: Option<usize>,
    time_horizon_months: Option<usize>,
) -> (r: Result<(), (u16, ApiError)>)
    ensures
        !initial_value_ok ==> rejects(
            r,
            "initial_value must be a positive finite number"@,
            "INVALID_INITIAL_VALUE"@,
        ),
        initial_value_ok && (num_simulations matches Some(n) && (n == 0 || n > 1_000_000)) ==> rejects(
            r,
            "num_simulations must be between 1 and 1,000,000"@,
            "INVALID_NUM_SIMULATIONS"@,
        ),
        initial_value_ok && !(num_simulations matches Some(n) && (n == 0 || n > 1_000_000))
            && (time_horizon_months matches Some(h) && (h == 0 || h > 600)) ==> rejects(
            r,
            "time_horizon_months must be between 1 and 600 (50 years)"@,
            "INVALID_HORIZON"@,
        ),
        initial_value_ok && !(num_simulations matches Some(n) && (n == 0 || n > 1_000_000))
            && !(time_horizon_months matches Some(h) && (h == 0 || h > 600)) ==> r is Ok,
{
    if !initial_value_ok {
        return Err(bad_request("initial_value must be a positive finite number", "INVALID_INITIAL_VALUE"));
    }
    if let Some(n) = num_simulations {
        if n == 0 || n > 1_000_000 {
            return Err(bad_request("num_simulations must be between 1 and 1,000,000", "INVALID_NUM_SIMULATIONS"));
        }
    }
    if let Some(h) = time_horizon_months {
        if h == 0 || h > 600 {
            return Err(bad_request("time_horizon_months must be between 1 and 600 (50 years)", "INVALID_HORIZON"));
        }
    }
    Ok(())
}

} // verus!
