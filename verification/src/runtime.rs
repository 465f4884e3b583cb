use vstd::prelude::*;
use crate::text::{owned, push_str, str_eq};

verus! {

/// A record of an event that reached the sweep runtime, as far as the runtime reads it:
/// its `eventSource` and its `body`, each where it is a string.
pub struct EventRecord {
    pub event_source: Option<String>,
    pub body: Option<String>,
}

/// The record comes from `aws:sqs`.
pub open spec fn from_sqs(record: EventRecord) -> bool {
    match record.event_source {
        Some(s) => s@ == "aws:sqs"@,
        None => false,
    }
}

/// The record's body is a string that `parse` read as `t`.
pub open spec fn decoded_as<T, F: Fn(&String) -> Result<T, String>>(
    parse: F,
    record: EventRecord,
    t: T,
) -> bool {
    match record.body {
        Some(b) => parse.ensures((&b,), Ok::<T, String>(t)),
        None => false,
    }
}

/// Decoding stops at record `i`: every record before it has a string body, and record
/// `i` has none (`e` says so), or `parse` refused its body (`e` carries why).
pub open spec fn decode_stops_at<T, F: Fn(&String) -> Result<T, String>>(
    parse: F,
    r: Seq<EventRecord>,
    i: int,
    e: Seq<char>,
) -> bool {
    &&& 0 <= i < r.len()
    &&& forall|k: int| 0 <= k < i ==> (#[trigger] r[k]).body is Some
    &&& match r[i].body {
        None => e == "SQS record body must be a string"@,
        Some(b) => exists|pe: String|
            parse.ensures((&b,), Err::<T, String>(pe)) && e == "invalid child shard payload: "@
                + pe@,
    }
}

/// An event is an SQS delivery when it has a non-empty `Records` array whose records all
/// come from `aws:sqs`.
pub open spec fn is_sqs_delivery(records: Option<Seq<EventRecord>>) -> bool {
    match records {
        Some(r) => r.len() > 0 && forall|i: int|
            0 <= i < r.len() ==> from_sqs(#[trigger] r[i]),
        None => false,
    }
}

pub open spec fn records_view(records: Option<Vec<EventRecord>>) -> Option<Seq<EventRecord>> {
    match records {
        Some(r) => Some(r@),
        None => None,
    }
}

/// Whether the event whose `Records` array is `records` (none when it has no such
/// array) is an SQS delivery.
pub fn is_sqs_event(records: &Option<Vec<EventRecord>>) -> (b: bool)
    ensures
        b == is_sqs_delivery(records_view(*records)),
{
    let r = match records {
        Some(r) => r,
        None => {
            return false;
        },
    };
    assert(records_view(*records) == Some(r@));
    if r.len() == 0 {
        return false;
    }
    let mut i: usize = 0;
    while i < r.len()
        invariant
            i <= r@.len(),
            records_view(*records) == Some(r@),
            forall|k: int|
                0 <= k < i ==> from_sqs(#[trigger] r@[k]),
        decreases r@.len() - i,
    {
        let ok = match &r[i].event_source {
            Some(s) => str_eq(s.as_str(), "aws:sqs"),
            None => false,
        };
        if !ok {
            assert(!from_sqs(r@[i as int]));
            assert(records_view(*records) == Some(r@));
            return false;
        }
        i = i + 1;
    }
    true
}

/// The shard payloads of an SQS delivery, in record order: each record's body, which
/// must be a string, read by `parse`. The first failure ends the decoding: a missing
/// `Records` array, a body that is no string, or a body that `parse` refuses.
pub fn decode_sqs_payloads<T, F: Fn(&String) -> Result<T, String>>(
    records: &Option<Vec<EventRecord>>,
    parse: &F,
) -> (res: Result<Vec<T>, String>)
    requires
        forall|b: &String| parse.requires((b,)),
    ensures
        res is Ok ==> records_view(*records) is Some && res->Ok_0@.len() == records_view(
            *records,
        )->0.len() && forall|i: int|
            0 <= i < res->Ok_0@.len() ==> decoded_as(
                *parse,
                #[trigger] records_view(*records)->0[i],
                res->Ok_0@[i],
            ),
        res is Err && records_view(*records) is None ==> res->Err_0@
            == "SQS event must include Records array"@,
        res is Err && records_view(*records) is Some ==> exists|i: int|
            decode_stops_at(*parse, records_view(*records)->0, i, res->Err_0@),
{
    let r = match records {
        Some(r) => r,
        None => {
            return Err(owned("SQS event must include Records array"));
        },
    };
    let mut payloads: Vec<T> = Vec::new();
    let mut i: usize = 0;
    while i < r.len()
        invariant
            i <= r@.len(),
            records_view(*records) == Some(r@),
            payloads@.len() == i,
            forall|b: &String| parse.requires((b,)),
            forall|k: int|
                0 <= k < i ==> decoded_as(*parse, #[trigger] r@[k], payloads@[k]),
        decreases r@.len() - i,
    {
        let body = match &r[i].body {
            Some(b) => b,
            None => {
                let e = owned("SQS record body must be a string");
                proof {
                    assert(records_view(*records)->0 == r@);
                    assert(decode_stops_at(*parse, records_view(*records)->0, i as int, e@));
                    assert(Err::<Vec<T>, String>(e)->Err_0@ == e@);
                }
                return Err(e);
            },
        };
        match parse(body) {
            Ok(p) => {
                payloads.push(p);
            },
            Err(pe) => {
                let mut m = owned("invalid child shard payload: ");
                push_str(&mut m, pe.as_str());
                proof {
                    assert(parse.ensures((body,), Err::<T, String>(pe)));
                    assert(records_view(*records)->0 == r@);
                    assert(decode_stops_at(*parse, records_view(*records)->0, i as int, m@));
                }
                assert(Err::<Vec<T>, String>(m)->Err_0@ == m@);
                return Err(m);
            },
        }
        i = i + 1;
    }
    Ok(payloads)
}

} // verus!
