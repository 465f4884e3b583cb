use vstd::prelude::*;

verus! {

/// Where a trip stands.
#[derive(Debug, Clone, Copy, PartialEq, Eq, Structural)]
pub enum TripState {
    EnRoute,
    OnTrip,
    Completed,
    Cancelled,
}

/// The label of a trip state in the trip table.
pub fn trip_state_label(state: TripState) -> (s: &'static str)
    ensures
        s@ == match state {
            TripState::EnRoute => "EnRoute"@,
            TripState::OnTrip => "OnTrip"@,
            TripState::Completed => "Completed"@,
            TripState::Cancelled => "Cancelled"@,
        },
{
    match state {
        TripState::EnRoute => "EnRoute",
        TripState::OnTrip => "OnTrip",
        TripState::Completed => "Completed",
        TripState::Cancelled => "Cancelled",
    }
}

/// When a trip was requested and matched, and when it was picked up, dropped off or
/// cancelled, where it was.
#[derive(Debug, Clone, Copy, PartialEq, Eq, Structural)]
pub struct TripTimes {
    pub requested_at: u64,
    pub matched_at: u64,
    pub pickup_at: Option<u64>,
    pub dropoff_at: Option<u64>,
    pub cancelled_at: Option<u64>,
}

pub open spec fn max_u64(a: u64, b: u64) -> u64 {
    if a >= b {
        a
    } else {
        b
    }
}

pub open spec fn max_with(a: u64, b: Option<u64>) -> u64 {
    match b {
        Some(v) => max_u64(a, v),
        None => a,
    }
}

/// The latest of a trip's times.
pub open spec fn last_update(t: TripTimes) -> u64 {
    max_with(
        max_with(max_with(max_u64(t.requested_at, t.matched_at), t.pickup_at), t.dropoff_at),
        t.cancelled_at,
    )
}

/// The latest of a trip's times.
pub fn last_updated_time(trip: &TripTimes) -> (t: u64)
    ensures
        t == last_update(*trip),
{
    let mut max_time = if trip.requested_at >= trip.matched_at {
        trip.requested_at
    } else {
        trip.matched_at
    };
    if let Some(pickup_at) = trip.pickup_at {
        if pickup_at > max_time {
            max_time = pickup_at;
        }
    }
    if let Some(dropoff_at) = trip.dropoff_at {
        if dropoff_at > max_time {
            max_time = dropoff_at;
        }
    }
    if let Some(cancelled_at) = trip.cancelled_at {
        if cancelled_at > max_time {
            max_time = cancelled_at;
        }
    }
    max_time
}

/// `order` lists the trips newest first: each of the `n` trips once, by latest time
/// from the most recent down, trips updated at the same time in their given order.
pub open spec fn newest_first_order(trips: Seq<TripTimes>, order: Seq<usize>) -> bool {
    &&& order.len() == trips.len()
    &&& forall|i: int| 0 <= i < order.len() ==> #[trigger] order[i] < trips.len()
    &&& forall|i: int, j: int| 0 <= i < j < order.len() ==> order[i] != order[j]
    &&& forall|i: int, j: int|
        0 <= i < j < order.len() ==> last_update(trips[order[i] as int]) >= last_update(
            trips[order[j] as int],
        )
    &&& forall|i: int, j: int|
        0 <= i < j < order.len() && last_update(trips[order[i] as int]) == last_update(
            trips[order[j] as int],
        ) ==> order[i] < order[j]
}

/// The order of the trip table: the positions of the trips, newest first.
pub fn newest_first(trips: &Vec<TripTimes>) -> (order: Vec<usize>)
    ensures
        newest_first_order(trips@, order@),
{
    let n = trips.len();
    let mut keys: Vec<u64> = Vec::new();
    let mut k: usize = 0;
    while k < n
        invariant
            k <= n == trips@.len(),
            keys@.len() == k,
            forall|i: int| 0 <= i < k ==> keys@[i] == last_update(#[trigger] trips@[i]),
        decreases n - k,
    {
        keys.push(last_updated_time(&trips[k]));
        k = k + 1;
    }
    let mut order: Vec<usize> = Vec::new();
    let mut k: usize = 0;
    while k < n
        invariant
            k <= n == trips@.len() == keys@.len(),
            forall|i: int| 0 <= i < n ==> keys@[i] == last_update(#[trigger] trips@[i]),
            order@.len() == k,
            forall|i: int| 0 <= i < order@.len() ==> #[trigger] order@[i] < k,
            forall|i: int, j: int| 0 <= i < j < order@.len() ==> order@[i] != order@[j],
            forall|i: int, j: int|
                0 <= i < j < order@.len() ==> keys@[order@[i] as int] >= keys@[order@[j] as int],
            forall|i: int, j: int|
                0 <= i < j < order@.len() && keys@[order@[i] as int] == keys@[order@[j] as int]
                    ==> order@[i] < order@[j],
        decreases n - k,
    {
        let key = keys[k];
        let mut p: usize = 0;
        while p < order.len() && keys[order[p]] >= key
            invariant
                k < n == keys@.len(),
                forall|i: int| 0 <= i < order@.len() ==> #[trigger] order@[i] < k,
                p <= order@.len(),
                key == keys@[k as int],
                forall|i: int| 0 <= i < p ==> keys@[#[trigger] order@[i] as int] >= key,
            decreases order@.len() - p,
        {
            p = p + 1;
        }
        let ghost before = order@;
        order.insert(p, k);
        proof {
            assert(order@ =~= before.take(p as int).push(k).add(before.skip(p as int)));
            assert forall|i: int| 0 <= i < order@.len() implies #[trigger] order@[i] < k + 1 by {
                if i < p {
                    assert(order@[i] == before[i]);
                } else if i > p {
                    assert(order@[i] == before[i - 1]);
                }
            }
            assert forall|i: int, j: int| 0 <= i < j < order@.len() implies order@[i] != order@[j] by {
                if i < p && j < p {
                    assert(order@[i] == before[i] && order@[j] == before[j]);
                } else if i < p && j == p {
                    assert(order@[i] == before[i]);
                } else if i < p && j > p {
                    assert(order@[i] == before[i] && order@[j] == before[j - 1]);
                } else if i == p {
                    assert(order@[j] == before[j - 1]);
                } else {
                    assert(order@[i] == before[i - 1] && order@[j] == before[j - 1]);
                }
            }
            assert forall|i: int, j: int| 0 <= i < j < order@.len() implies keys@[order@[i] as int]
                >= keys@[order@[j] as int] by {
                if i < p && j < p {
                    assert(order@[i] == before[i] && order@[j] == before[j]);
                } else if i < p && j == p {
                    assert(order@[i] == before[i]);
                } else if i < p && j > p {
                    assert(order@[i] == before[i] && order@[j] == before[j - 1]);
                    assert(keys@[before[i] as int] >= keys@[before[j - 1] as int]);
                } else if i == p {
                    assert(order@[j] == before[j - 1]);
                    if p < before.len() {
                        assert(keys@[before[p as int] as int] < key);
                        if j - 1 > p {
                            assert(keys@[before[p as int] as int] >= keys@[before[j - 1] as int]);
                        }
                    }
                } else {
                    assert(order@[i] == before[i - 1] && order@[j] == before[j - 1]);
                }
            }
            assert forall|i: int, j: int|
                0 <= i < j < order@.len() && keys@[order@[i] as int] == keys@[order@[j] as int]
                    implies order@[i] < order@[j] by {
                if i < p && j < p {
                    assert(order@[i] == before[i] && order@[j] == before[j]);
                } else if i < p && j == p {
                    assert(order@[i] == before[i]);
                } else if i < p && j > p {
                    assert(order@[i] == before[i] && order@[j] == before[j - 1]);
                } else if i == p {
                    assert(order@[j] == before[j - 1]);
                    if p < before.len() {
                        assert(keys@[before[p as int] as int] < key);
                        if j - 1 > p {
                            assert(keys@[before[p as int] as int] >= keys@[before[j - 1] as int]);
                        }
                    }
                } else {
                    assert(order@[i] == before[i - 1] && order@[j] == before[j - 1]);
                }
            }
        }
        k = k + 1;
    }
    order
}

} // verus!
