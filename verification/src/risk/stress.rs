//! Scenario shock profiles and asset classification of the stress test.
//! Shocks are whole percentage points (`-50` for a 50% fall); every
//! historical profile is a whole number of points.

use vstd::prelude::*;
use crate::text::str_eq;

verus! {

/// Shock, in percentage points, applied to a holding whose asset class has
/// no shock in the profile.
pub const DEFAULT_SHOCK_PCT: i64 = -10;

/// The shock profile of a named historical scenario, in percentage points
/// per asset class; any other name gets a moderate default profile.
pub open spec fn scenario_profile(name: Seq<char>) -> Seq<(Seq<char>, int)> {
    if name == "gfc_2008"@ {
        seq![("equity"@, -50), ("fixed_income"@, 5), ("commodity"@, -35), ("real_estate"@, -30), ("preferred"@, -25)]
    } else if name == "covid_2020"@ {
        seq![("equity"@, -34), ("fixed_income"@, 2), ("commodity"@, -25), ("real_estate"@, -15), ("preferred"@, -20)]
    } else if name == "rate_shock_2022"@ {
        seq![("equity"@, -25), ("fixed_income"@, -15), ("commodity"@, 10), ("real_estate"@, -10), ("preferred"@, -15)]
    } else if name == "dotcom_2000"@ {
        seq![("equity"@, -45), ("fixed_income"@, 10), ("commodity"@, -5), ("real_estate"@, 5), ("preferred"@, -10)]
    } else if name == "stagflation_1970s"@ {
        seq![("equity"@, -40), ("fixed_income"@, -10), ("commodity"@, 30), ("real_estate"@, -15), ("preferred"@, -20)]
    } else if name == "black_monday_1987"@ {
        seq![("equity"@, -22), ("fixed_income"@, 3), ("commodity"@, -5), ("real_estate"@, -5), ("preferred"@, -10)]
    } else if name == "oil_shock_2020"@ {
        seq![("equity"@, -15), ("fixed_income"@, 2), ("commodity"@, -60), ("real_estate"@, -5), ("preferred"@, -10)]
    } else {
        seq![("equity"@, -20), ("fixed_income"@, -5), ("commodity"@, -10), ("real_estate"@, -10), ("preferred"@, -10)]
    }
}

/// The shock tables of the scenarios: every scenario shocks the same five
/// asset classes in the same order, each shock within -100 to +100 points;
/// each documented historical scenario has its own profile (the values
/// observed in that event), which differs from the moderate default that
/// every other name gets.
pub proof fn lemma_scenario_profiles(name: Seq<char>)
    ensures
        scenario_profile(name).len() == 5,
        scenario_profile(name)[0].0 == "equity"@,
        scenario_profile(name)[1].0 == "fixed_income"@,
        scenario_profile(name)[2].0 == "commodity"@,
        scenario_profile(name)[3].0 == "real_estate"@,
        scenario_profile(name)[4].0 == "preferred"@,
        forall|i: int| 0 <= i < 5 ==> -100 <= #[trigger] scenario_profile(name)[i].1 <= 100,
        name == "gfc_2008"@ ==> scenario_profile(name).map_values(|p: (Seq<char>, int)| p.1) == seq![-50int, 5, -35, -30, -25],
        name == "covid_2020"@ ==> scenario_profile(name).map_values(|p: (Seq<char>, int)| p.1) == seq![-34int, 2, -25, -15, -20],
        name == "rate_shock_2022"@ ==> scenario_profile(name).map_values(|p: (Seq<char>, int)| p.1) == seq![-25int, -15, 10, -10, -15],
        name == "dotcom_2000"@ ==> scenario_profile(name).map_values(|p: (Seq<char>, int)| p.1) == seq![-45int, 10, -5, 5, -10],
        name == "stagflation_1970s"@ ==> scenario_profile(name).map_values(|p: (Seq<char>, int)| p.1) == seq![-40int, -10, 30, -15, -20],
        name == "black_monday_1987"@ ==> scenario_profile(name).map_values(|p: (Seq<char>, int)| p.1) == seq![-22int, 3, -5, -5, -10],
        name == "oil_shock_2020"@ ==> scenario_profile(name).map_values(|p: (Seq<char>, int)| p.1) == seq![-15int, 2, -60, -5, -10],
        ({
            let documented = name == "gfc_2008"@ || name == "covid_2020"@ || name == "rate_shock_2022"@
                || name == "dotcom_2000"@ || name == "stagflation_1970s"@ || name == "black_monday_1987"@
                || name == "oil_shock_2020"@;
            let is_default = scenario_profile(name).map_values(|p: (Seq<char>, int)| p.1) == seq![-20int, -5, -10, -10, -10];
            documented <==> !is_default
        }),
{
    reveal_strlit("gfc_2008");
    reveal_strlit("covid_2020");
    reveal_strlit("rate_shock_2022");
    reveal_strlit("dotcom_2000");
    reveal_strlit("stagflation_1970s");
    reveal_strlit("black_monday_1987");
    reveal_strlit("oil_shock_2020");
    assert("gfc_2008"@.len() == 8);
    assert("covid_2020"@.len() == 10);
    assert("rate_shock_2022"@.len() == 15);
    assert("dotcom_2000"@.len() == 11);
    assert("stagflation_1970s"@.len() == 17);
    assert("black_monday_1987"@.len() == 17);
    assert("oil_shock_2020"@.len() == 14);
    assert("stagflation_1970s"@[0] != "black_monday_1987"@[0]);
    let p = scenario_profile(name);
    let v = p.map_values(|q: (Seq<char>, int)| q.1);
    let d = seq![-20int, -5, -10, -10, -10];
    assert(v.len() == 5);
    assert(v[0] == p[0].1);
    assert(v[1] == p[1].1);
    assert(v[2] == p[2].1);
    assert(v[3] == p[3].1);
    assert(v[4] == p[4].1);
    if v =~= d {
        assert(v[0] == -20 && v[1] == -5 && v[2] == -10);
    }
    if name == "gfc_2008"@ {
        assert(v =~= seq![-50int, 5, -35, -30, -25]);
    } else if name == "covid_2020"@ {
        assert(v =~= seq![-34int, 2, -25, -15, -20]);
    } else if name == "rate_shock_2022"@ {
        assert(v =~= seq![-25int, -15, 10, -10, -15]);
    } else if name == "dotcom_2000"@ {
        assert(v =~= seq![-45int, 10, -5, 5, -10]);
    } else if name == "stagflation_1970s"@ {
        assert(v =~= seq![-40int, -10, 30, -15, -20]);
    } else if name == "black_monday_1987"@ {
        assert(v =~= seq![-22int, 3, -5, -5, -10]);
    } else if name == "oil_shock_2020"@ {
        assert(v =~= seq![-15int, 2, -60, -5, -10]);
    } else {
        assert(v =~= d);
    }
}

/// Views of a shock table.
pub open spec fn table_view(t: Seq<(&'static str, i64)>) -> Seq<(Seq<char>, int)> {
    t.map_values(|p: (&'static str, i64)| (p.0@, p.1 as int))
}

fn profile(e: i64, f: i64, c: i64, r: i64, p: i64) -> (t: Vec<(&'static str, i64)>)
    ensures
        table_view(t@) == seq![("equity"@, e as int), ("fixed_income"@, f as int), ("commodity"@, c as int), ("real_estate"@, r as int), ("preferred"@, p as int)],
{
    let t = vec![("equity", e), ("fixed_income", f), ("commodity", c), ("real_estate", r), ("preferred", p)];
    proof {
        assert(table_view(t@) =~= seq![("equity"@, e as int), ("fixed_income"@, f as int), ("commodity"@, c as int), ("real_estate"@, r as int), ("preferred"@, p as int)]);
    }
    t
}

/// The shock profile of a scenario, in percentage points per asset class.
pub fn get_scenario_shocks(name: &str) -> (t: Vec<(&'static str, i64)>)
    ensures
        table_view(t@) == scenario_profile(name@),
{
    if str_eq(name, "gfc_2008") {
        profile(-50, 5, -35, -30, -25)
    } else if str_eq(name, "covid_2020") {
        profile(-34, 2, -25, -15, -20)
    } else if str_eq(name, "rate_shock_2022") {
        profile(-25, -15, 10, -10, -15)
    } else if str_eq(name, "dotcom_2000") {
        profile(-45, 10, -5, 5, -10)
    } else if str_eq(name, "stagflation_1970s") {
        profile(-40, -10, 30, -15, -20)
    } else if str_eq(name, "black_monday_1987") {
        profile(-22, 3, -5, -5, -10)
    } else if str_eq(name, "oil_shock_2020") {
        profile(-15, 2, -60, -5, -10)
    } else {
        profile(-20, -5, -10, -10, -10)
    }
}

/// The asset class of a holding. Every holding is classed as equity until
/// holdings carry classification metadata.
pub fn classify_asset(symbol: &str) -> (c: &'static str)
    ensures
        c@ == "equity"@,
{
    "equity"
}

/// The index of the last entry of `classes` equal to `class`, or `None`.
/// Shock lists are looked up as a map built from the list, so a later entry
/// for an asset class overrides an earlier one.
pub open spec fn last_index_of(classes: Seq<Seq<char>>, class: Seq<char>) -> Option<usize>
    decreases classes.len(),
{
    if classes.len() == 0 {
        None
    } else if classes.last() == class {
        Some((classes.len() - 1) as usize)
    } else {
        last_index_of(classes.drop_last(), class)
    }
}

/// The shock that applies to a class is the last one given for it: the
/// index found holds that class and no later entry does, and nothing is
/// found only when no entry holds it.
pub proof fn lemma_last_index_of(classes: Seq<Seq<char>>, class: Seq<char>)
    requires
        classes.len() <= usize::MAX,
    ensures
        last_index_of(classes, class) matches Some(k) ==> k < classes.len() && classes[k as int] == class
            && forall|j: int| k < j < classes.len() ==> #[trigger] classes[j] != class,
        last_index_of(classes, class) is None ==> forall|j: int| 0 <= j < classes.len() ==> #[trigger] classes[j] != class,
    decreases classes.len(),
{
    if classes.len() > 0 && classes.last() != class {
        let d = classes.drop_last();
        lemma_last_index_of(d, class);
        assert forall|j: int| 0 <= j < d.len() implies #[trigger] classes[j] == d[j] by {}
    }
}

/// Which shock of a list (given by its asset classes) applies to `class`:
/// the last one for that class.
pub fn resolve_shock_index(classes: &Vec<String>, class: &str) -> (r: Option<usize>)
    ensures
        r == last_index_of(classes@.map_values(|s: String| s@), class@),
{
    let ghost cs = classes@.map_values(|s: String| s@);
    let mut k: usize = classes.len();
    proof {
        assert(cs.take(k as int) =~= cs);
    }
    while k > 0
        invariant
            k <= classes.len(),
            cs == classes@.map_values(|s: String| s@),
            last_index_of(cs, class@) == last_index_of(cs.take(k as int), class@),
        decreases k,
    {
        proof {
            assert(cs.take(k as int).drop_last() =~= cs.take(k - 1));
            assert(cs.take(k as int).last() == classes@[k - 1]@);
        }
        if str_eq(classes[k - 1].as_str(), class) {
            return Some(k - 1);
        }
        k -= 1;
    }
    None
}

} // verus!
