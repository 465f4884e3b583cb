use ridesim::trips::{last_updated_time, newest_first, trip_state_label, TripState, TripTimes};

fn trip(requested_at: u64, matched_at: u64, pickup_at: Option<u64>, dropoff_at: Option<u64>, cancelled_at: Option<u64>) -> TripTimes {
    TripTimes { requested_at, matched_at, pickup_at, dropoff_at, cancelled_at }
}

#[test]
fn the_last_update_is_the_latest_time_a_trip_has() {
    assert_eq!(last_updated_time(&trip(5, 7, None, None, None)), 7);
    assert_eq!(last_updated_time(&trip(9, 7, None, None, None)), 9);
    assert_eq!(last_updated_time(&trip(5, 7, Some(10), Some(30), None)), 30);
    assert_eq!(last_updated_time(&trip(5, 7, Some(10), None, Some(12))), 12);
    assert_eq!(last_updated_time(&trip(50, 7, Some(10), None, Some(12))), 50);
}

#[test]
fn the_trip_table_lists_newest_first_and_keeps_ties_in_order() {
    let trips = vec![
        trip(1, 2, None, None, None),
        trip(1, 2, Some(8), None, None),
        trip(1, 2, Some(3), Some(8), None),
        trip(1, 5, None, None, None),
    ];
    assert_eq!(newest_first(&trips), vec![1, 2, 3, 0]);
    assert!(newest_first(&vec![]).is_empty());
}

#[test]
fn trip_states_have_table_labels() {
    assert_eq!(trip_state_label(TripState::EnRoute), "EnRoute");
    assert_eq!(trip_state_label(TripState::OnTrip), "OnTrip");
    assert_eq!(trip_state_label(TripState::Completed), "Completed");
    assert_eq!(trip_state_label(TripState::Cancelled), "Cancelled");
}
