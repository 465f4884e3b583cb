use ridesim::contract::{Dimensions, SweepRequest};
use std::cell::RefCell;

use ridesim::adapters::ChildInvoker;
use ridesim::contract::ChildShardPayload;
use ridesim::parent::{
    normalize_apigw_event, prepare_parent_dispatch, DispatchStop, EventBody, ParentRejection,
    RequestSource,
};

/// Records what it is handed and refuses the payload at `refuse_at`, if any.
struct RecordingInvoker {
    received: RefCell<Vec<Vec<u8>>>,
    refuse_at: Option<usize>,
}

impl ChildInvoker for RecordingInvoker {
    fn invoke_child_async(&self, payload: &[u8]) -> Result<(), String> {
        let mut received = self.received.borrow_mut();
        received.push(payload.to_vec());
        if Some(received.len() - 1) == self.refuse_at {
            Err("queue unavailable".to_string())
        } else {
            Ok(())
        }
    }
}

fn encode(p: &ChildShardPayload) -> Result<Vec<u8>, String> {
    Ok(format!("{}:{}-{}", p.shard_id, p.start_index, p.end_index_exclusive).into_bytes())
}

fn three_shard_request() -> SweepRequest {
    SweepRequest {
        run_id: "run".to_string(),
        dimensions: dims(&[("num_riders", &["1", "2", "3", "4", "5", "6"])]),
        shard_count: Some(3),
        shard_size: None,
        max_shards: 10,
        seed: 0,
        failure_injection_shards: Vec::new(),
    }
}

fn dims(entries: &[(&str, &[&str])]) -> Dimensions {
    let mut d = Dimensions::new();
    for (name, values) in entries {
        d.insert(name.to_string(), values.iter().map(|v| v.to_string()).collect());
    }
    d
}

#[test]
fn rejects_invalid_payload_without_dispatching() {
    let request = SweepRequest {
        run_id: "missing-dimensions".to_string(),
        dimensions: Dimensions::new(),
        shard_count: None,
        shard_size: None,
        max_shards: 1000,
        seed: 0,
        failure_injection_shards: Vec::new(),
    };
    let rejection = match prepare_parent_dispatch(request, Some("arn:aws:lambda:example:child")) {
        Ok(_) => panic!("request should be rejected"),
        Err(rejection) => rejection,
    };
    assert_eq!(rejection.status_code(), 400);
    assert!(matches!(rejection, ParentRejection::Validation(_)));
}

#[test]
fn dispatches_reproducible_child_payloads() {
    let request = SweepRequest {
        run_id: "dispatch-run".to_string(),
        dimensions: dims(&[("commission_rate", &["0.1", "0.2"]), ("num_drivers", &["100", "200"])]),
        shard_count: Some(2),
        shard_size: None,
        max_shards: 1000,
        seed: 7,
        failure_injection_shards: vec![1],
    };
    let mut dispatch = match prepare_parent_dispatch(request, Some("arn:aws:lambda:example:child")) {
        Ok(d) => d,
        Err(_) => panic!("request should be accepted"),
    };
    let mut payloads = Vec::new();
    while let Some(p) = dispatch.next_payload() {
        payloads.push((p.run_id.clone(), p.start_index, p.end_index_exclusive, p.failure_injection_shards.clone()));
        dispatch.record_dispatched();
    }
    let response = dispatch.finish();
    assert_eq!(response.shards_dispatched, 2);
    assert_eq!(payloads.len(), 2);
    assert_eq!(payloads[0].0, "dispatch-run");
    assert_eq!(payloads[0].2, payloads[1].1);
    assert_eq!(payloads[1].3, vec![1]);
    assert!(response.dispatches.iter().all(|d| d.status_code == 202));
    assert_eq!(response.status, "dispatch_submitted");
    assert_eq!(response.total_points, 4);
}

#[test]
fn missing_or_blank_dispatch_target_is_a_misconfiguration() {
    for target in [None, Some("   ")] {
        let request = SweepRequest {
            run_id: "r".to_string(),
            dimensions: dims(&[("a", &["1"])]),
            shard_count: Some(1),
            shard_size: None,
            max_shards: 10,
            seed: 0,
            failure_injection_shards: Vec::new(),
        };
        match prepare_parent_dispatch(request, target) {
            Ok(_) => panic!("should be refused"),
            Err(r) => {
                assert_eq!(r, ParentRejection::Misconfiguration);
                assert_eq!(r.status_code(), 500);
            }
        }
    }
}

#[test]
fn plan_errors_are_validation_errors() {
    let request = SweepRequest {
        run_id: "r".to_string(),
        dimensions: dims(&[("a", &["1", "2", "3"])]),
        shard_count: None,
        shard_size: Some(1),
        max_shards: 2,
        seed: 0,
        failure_injection_shards: Vec::new(),
    };
    match prepare_parent_dispatch(request, Some("queue")) {
        Ok(_) => panic!("should be refused"),
        Err(r) => assert_eq!(
            r,
            ParentRejection::Validation("Computed shard count 3 exceeds max_shards=2".to_string())
        ),
    }
}

#[test]
fn api_events_name_where_their_request_is() {
    assert!(matches!(normalize_apigw_event(true, EventBody::Absent), Ok(RequestSource::WholeEvent)));
    assert!(matches!(normalize_apigw_event(true, EventBody::Null), Ok(RequestSource::EmptyObject)));
    assert!(matches!(normalize_apigw_event(true, EventBody::Object), Ok(RequestSource::BodyObject)));
    match normalize_apigw_event(true, EventBody::Text("{\"run_id\":\"r\"}".to_string())) {
        Ok(RequestSource::BodyText(t)) => assert_eq!(t, "{\"run_id\":\"r\"}"),
        _ => panic!("a text body is parsed"),
    }
    match normalize_apigw_event(true, EventBody::Other) {
        Err(e) => assert_eq!(e, "Request body must be a JSON object"),
        Ok(_) => panic!("a numeric body is refused"),
    }
    match normalize_apigw_event(false, EventBody::Absent) {
        Err(e) => assert_eq!(e, "Request payload must be a JSON object"),
        Ok(_) => panic!("a non-object event is refused"),
    }
}

#[test]
fn dispatch_all_hands_every_payload_in_order() {
    let dispatch = prepare_parent_dispatch(three_shard_request(), Some("queue")).ok().unwrap();
    let invoker = RecordingInvoker { received: RefCell::new(Vec::new()), refuse_at: None };
    let response = dispatch.dispatch_all(&encode, &invoker).ok().unwrap();
    assert_eq!(
        invoker.received.into_inner(),
        vec![b"0:0-2".to_vec(), b"1:2-4".to_vec(), b"2:4-6".to_vec()]
    );
    assert_eq!(response.shards_dispatched, 3);
    assert_eq!(
        response.dispatches.iter().map(|d| (d.shard_id, d.status_code)).collect::<Vec<_>>(),
        vec![(0, 202), (1, 202), (2, 202)]
    );
}

#[test]
fn dispatch_all_stops_at_the_first_refusal() {
    let dispatch = prepare_parent_dispatch(three_shard_request(), Some("queue")).ok().unwrap();
    let invoker = RecordingInvoker { received: RefCell::new(Vec::new()), refuse_at: Some(1) };
    match dispatch.dispatch_all(&encode, &invoker) {
        Err(stop) => assert_eq!(stop, DispatchStop::Refused("queue unavailable".to_string())),
        Ok(_) => panic!("the second shard is refused"),
    }
    assert_eq!(invoker.received.into_inner().len(), 2);
}

#[test]
fn dispatch_all_reports_a_payload_that_cannot_be_encoded() {
    let dispatch = prepare_parent_dispatch(three_shard_request(), Some("queue")).ok().unwrap();
    let invoker = RecordingInvoker { received: RefCell::new(Vec::new()), refuse_at: None };
    let failing = |p: &ChildShardPayload| {
        if p.shard_id == 2 { Err("cannot encode".to_string()) } else { encode(p) }
    };
    match dispatch.dispatch_all(&failing, &invoker) {
        Err(stop) => assert_eq!(stop, DispatchStop::Encoding("cannot encode".to_string())),
        Ok(_) => panic!("the third payload cannot be encoded"),
    }
    assert_eq!(invoker.received.into_inner().len(), 2);
}
