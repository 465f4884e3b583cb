use ridesim::scenario_settings::{normalized_settings, ScenarioSettings};

fn settings() -> ScenarioSettings {
    ScenarioSettings {
        num_riders: 500,
        num_drivers: 100,
        initial_rider_count: 300,
        initial_driver_count: 100,
        request_window_hours: 12,
        driver_spread_hours: 12,
        simulation_duration_hours: 24,
        rider_cancel_min_mins: 5,
        rider_cancel_max_mins: 10,
        batch_interval_secs: 5,
        surge_radius_k: 1,
        max_acceptable_eta_min: 10,
        max_quote_rejections: 3,
        start_year: 2026,
        start_month: 2,
        start_day: 14,
        start_hour: 8,
        start_minute: 30,
        osrm_endpoint: "http://localhost:5000".to_string(),
    }
}

#[test]
fn out_of_range_settings_are_brought_into_range() {
    let mut s = settings();
    s.num_riders = 0;
    s.request_window_hours = 0;
    s.simulation_duration_hours = 500;
    s.rider_cancel_min_mins = 900;
    s.rider_cancel_max_mins = 0;
    s.start_month = 99;
    s.start_minute = 99;
    s.osrm_endpoint = "   ".to_string();
    let n = normalized_settings(s, "http://localhost:5000");
    assert_eq!(n.num_riders, 1);
    assert_eq!(n.request_window_hours, 1);
    assert_eq!(n.simulation_duration_hours, 168);
    assert_eq!(n.rider_cancel_min_mins, 600);
    assert_eq!(n.rider_cancel_max_mins, 600);
    assert_eq!(n.start_month, 12);
    assert_eq!(n.start_minute, 59);
    assert_eq!(n.osrm_endpoint, "http://localhost:5000");
}

#[test]
fn settings_in_range_are_kept() {
    let n = normalized_settings(settings(), "http://default");
    assert_eq!(n, settings());
}

#[test]
fn each_limit_holds_at_both_ends() {
    let mut s = settings();
    s.num_drivers = 20_000;
    s.initial_rider_count = 0;
    s.batch_interval_secs = 0;
    s.surge_radius_k = 9;
    s.max_acceptable_eta_min = 61;
    s.max_quote_rejections = 0;
    s.start_year = 1900;
    s.start_day = 0;
    s.start_hour = 24;
    let n = normalized_settings(s, "x");
    assert_eq!(n.num_drivers, 10_000);
    assert_eq!(n.initial_rider_count, 0);
    assert_eq!(n.batch_interval_secs, 1);
    assert_eq!(n.surge_radius_k, 5);
    assert_eq!(n.max_acceptable_eta_min, 60);
    assert_eq!(n.max_quote_rejections, 1);
    assert_eq!(n.start_year, 1970);
    assert_eq!(n.start_day, 1);
    assert_eq!(n.start_hour, 23);
}
