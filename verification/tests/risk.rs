use pae_engine::risk::correlation::{effective_window, trailing_window};
use pae_engine::risk::montecarlo::{horizon_months, simulation_count, MAX_SIMULATIONS};
use pae_engine::risk::stress::{classify_asset, get_scenario_shocks, resolve_shock_index};

#[test]
fn simulation_parameters_are_clamped() {
    assert_eq!(simulation_count(Some(2_000_000)), MAX_SIMULATIONS);
    assert_eq!(simulation_count(None), 10_000);
    assert_eq!(simulation_count(Some(0)), 1);
    assert_eq!(simulation_count(Some(1000)), 1000);
    assert_eq!(horizon_months(None), 120);
    assert_eq!(horizon_months(Some(1000)), 600);
    assert_eq!(horizon_months(Some(12)), 12);
}

#[test]
fn correlation_windows() {
    assert_eq!(effective_window(None), 90);
    assert_eq!(effective_window(Some(1)), 2);
    assert_eq!(effective_window(Some(30)), 30);
    assert_eq!(trailing_window(5, 3, 10), (3, 2, 0));
    assert_eq!(trailing_window(5, 7, 4), (4, 1, 3));
}

#[test]
fn scenario_profiles() {
    let gfc = get_scenario_shocks("gfc_2008");
    assert_eq!(gfc[0], ("equity", -50));
    assert_eq!(gfc.len(), 5);
    let unknown = get_scenario_shocks("unknown_scenario_xyz");
    assert_eq!(unknown[0], ("equity", -20));
    assert_eq!(get_scenario_shocks("oil_shock_2020")[2], ("commodity", -60));
    assert_eq!(classify_asset("SPY"), "equity");
}

#[test]
fn later_shock_for_a_class_wins() {
    let classes = vec!["equity".to_string(), "commodity".to_string(), "equity".to_string()];
    assert_eq!(resolve_shock_index(&classes, "equity"), Some(2));
    assert_eq!(resolve_shock_index(&classes, "commodity"), Some(1));
    assert_eq!(resolve_shock_index(&classes, "preferred"), None);
}
