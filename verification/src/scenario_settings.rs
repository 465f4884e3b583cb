use vstd::prelude::*;
use crate::text::{is_blank, owned, trim_ws};

verus! {

/// The whole-number and text settings of a scenario preset; the fractional ones are
/// kept beside them by the caller.
#[derive(Debug, Clone, PartialEq, Eq)]
pub struct ScenarioSettings {
    pub num_riders: usize,
    pub num_drivers: usize,
    pub initial_rider_count: usize,
    pub initial_driver_count: usize,
    pub request_window_hours: u64,
    pub driver_spread_hours: u64,
    pub simulation_duration_hours: u64,
    pub rider_cancel_min_mins: u64,
    pub rider_cancel_max_mins: u64,
    pub batch_interval_secs: u64,
    pub surge_radius_k: u32,
    pub max_acceptable_eta_min: u64,
    pub max_quote_rejections: u32,
    pub start_year: i32,
    pub start_month: u32,
    pub start_day: u32,
    pub start_hour: u32,
    pub start_minute: u32,
    pub osrm_endpoint: String,
}

/// `x` brought into `lo..=hi`.
pub open spec fn clamp(x: int, lo: int, hi: int) -> int {
    if x < lo {
        lo
    } else if x > hi {
        hi
    } else {
        x
    }
}

pub open spec fn max(a: int, b: int) -> int {
    if a >= b {
        a
    } else {
        b
    }
}

fn clamp_usize(x: usize, lo: usize, hi: usize) -> (r: usize)
    requires
        lo <= hi,
    ensures
        r == clamp(x as int, lo as int, hi as int),
{
    if x < lo {
        lo
    } else if x > hi {
        hi
    } else {
        x
    }
}

fn clamp_u64(x: u64, lo: u64, hi: u64) -> (r: u64)
    requires
        lo <= hi,
    ensures
        r == clamp(x as int, lo as int, hi as int),
{
    if x < lo {
        lo
    } else if x > hi {
        hi
    } else {
        x
    }
}

fn clamp_u32(x: u32, lo: u32, hi: u32) -> (r: u32)
    requires
        lo <= hi,
    ensures
        r == clamp(x as int, lo as int, hi as int),
{
    if x < lo {
        lo
    } else if x > hi {
        hi
    } else {
        x
    }
}

fn clamp_i32(x: i32, lo: i32, hi: i32) -> (r: i32)
    requires
        lo <= hi,
    ensures
        r == clamp(x as int, lo as int, hi as int),
{
    if x < lo {
        lo
    } else if x > hi {
        hi
    } else {
        x
    }
}

/// The settings a preset is applied with: each number brought into its range, the
/// latest cancellation no earlier than the earliest, and a blank routing endpoint
/// replaced by the default one.
pub fn normalized_settings(s: ScenarioSettings, default_endpoint: &str) -> (n: ScenarioSettings)
    ensures
        n.num_riders == clamp(s.num_riders as int, 1, 10_000),
        n.num_drivers == clamp(s.num_drivers as int, 1, 10_000),
        n.initial_rider_count == clamp(s.initial_rider_count as int, 0, 10_000),
        n.initial_driver_count == clamp(s.initial_driver_count as int, 0, 10_000),
        n.request_window_hours == clamp(s.request_window_hours as int, 1, 24),
        n.driver_spread_hours == clamp(s.driver_spread_hours as int, 1, 24),
        n.simulation_duration_hours == clamp(s.simulation_duration_hours as int, 1, 168),
        n.rider_cancel_min_mins == clamp(s.rider_cancel_min_mins as int, 1, 600),
        n.rider_cancel_max_mins == max(
            clamp(s.rider_cancel_max_mins as int, 1, 600),
            clamp(s.rider_cancel_min_mins as int, 1, 600),
        ),
        n.batch_interval_secs == clamp(s.batch_interval_secs as int, 1, 120),
        n.surge_radius_k == clamp(s.surge_radius_k as int, 1, 5),
        n.max_acceptable_eta_min == clamp(s.max_acceptable_eta_min as int, 1, 60),
        n.max_quote_rejections == clamp(s.max_quote_rejections as int, 1, 10),
        n.start_year == clamp(s.start_year as int, 1970, 2100),
        n.start_month == clamp(s.start_month as int, 1, 12),
        n.start_day == clamp(s.start_day as int, 1, 31),
        n.start_hour == clamp(s.start_hour as int, 0, 23),
        n.start_minute == clamp(s.start_minute as int, 0, 59),
        n.osrm_endpoint@ == if trim_ws(s.osrm_endpoint@).len() == 0 {
            default_endpoint@
        } else {
            s.osrm_endpoint@
        },
{
    let rider_cancel_min_mins = clamp_u64(s.rider_cancel_min_mins, 1, 600);
    let capped_max = clamp_u64(s.rider_cancel_max_mins, 1, 600);
    let rider_cancel_max_mins = if capped_max >= rider_cancel_min_mins {
        capped_max
    } else {
        rider_cancel_min_mins
    };
    let osrm_endpoint = if is_blank(s.osrm_endpoint.as_str()) {
        owned(default_endpoint)
    } else {
        s.osrm_endpoint
    };
    ScenarioSettings {
        num_riders: clamp_usize(s.num_riders, 1, 10_000),
        num_drivers: clamp_usize(s.num_drivers, 1, 10_000),
        initial_rider_count: clamp_usize(s.initial_rider_count, 0, 10_000),
        initial_driver_count: clamp_usize(s.initial_driver_count, 0, 10_000),
        request_window_hours: clamp_u64(s.request_window_hours, 1, 24),
        driver_spread_hours: clamp_u64(s.driver_spread_hours, 1, 24),
        simulation_duration_hours: clamp_u64(s.simulation_duration_hours, 1, 168),
        rider_cancel_min_mins,
        rider_cancel_max_mins,
        batch_interval_secs: clamp_u64(s.batch_interval_secs, 1, 120),
        surge_radius_k: clamp_u32(s.surge_radius_k, 1, 5),
        max_acceptable_eta_min: clamp_u64(s.max_acceptable_eta_min, 1, 60),
        max_quote_rejections: clamp_u32(s.max_quote_rejections, 1, 10),
        start_year: clamp_i32(s.start_year, 1970, 2100),
        start_month: clamp_u32(s.start_month, 1, 12),
        start_day: clamp_u32(s.start_day, 1, 31),
        start_hour: clamp_u32(s.start_hour, 0, 23),
        start_minute: clamp_u32(s.start_minute, 0, 59),
        osrm_endpoint,
    }
}

} // verus!
