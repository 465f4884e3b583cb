use vstd::prelude::*;
use crate::contract::{
    normalize_error, normalize_request, is_normalization_of, ChildShardPayload, DispatchRecord,
    NormalizedSweepRequest, ParentAcceptedResponse, ShardAssignment, SweepRequest,
    ORCHESTRATION_SCHEMA_VERSION,
};
use crate::sharding::{compute_shard_plan, plan_error, planned_shard, planned_shard_count};
use crate::adapters::{invoker_answered, ChildInvoker};
use crate::text::{is_blank, owned, trim_ws};

verus! {

/// The `body` of an API event, by its JSON kind.
pub enum EventBody {
    /// The event has no `body` field.
    Absent,
    Null,
    Object,
    Text(String),
    /// A number, a boolean or an array.
    Other,
}

/// Where the sweep request of an API event is to be read from.
pub enum RequestSource {
    /// The event itself is the request.
    WholeEvent,
    /// A null body stands for an empty request object.
    EmptyObject,
    /// The body is the request object.
    BodyObject,
    /// The body is JSON text holding the request.
    BodyText(String),
}

/// Where the request of an event is read from: the event must be a JSON object; without a
/// body the event itself is the request; a null body is an empty request; an object body
/// is the request; a text body is parsed; any other body is refused.
pub fn normalize_apigw_event(event_is_object: bool, body: EventBody) -> (res: Result<
    RequestSource,
    String,
>)
    ensures
        match res {
            Ok(RequestSource::WholeEvent) => event_is_object && body is Absent,
            Ok(RequestSource::EmptyObject) => event_is_object && body is Null,
            Ok(RequestSource::BodyObject) => event_is_object && body is Object,
            Ok(RequestSource::BodyText(t)) => event_is_object && (body matches EventBody::Text(b)
                && b == t),
            Err(e) => (!event_is_object && e@ == "Request payload must be a JSON object"@) || (
            event_is_object && body is Other && e@ == "Request body must be a JSON object"@),
        },
{
    if !event_is_object {
        return Err(owned("Request payload must be a JSON object"));
    }
    match body {
        EventBody::Absent => Ok(RequestSource::WholeEvent),
        EventBody::Null => Ok(RequestSource::EmptyObject),
        EventBody::Object => Ok(RequestSource::BodyObject),
        EventBody::Text(t) => Ok(RequestSource::BodyText(t)),
        EventBody::Other => Err(owned("Request body must be a JSON object")),
    }
}

/// Why the parent turned a sweep request away, before dispatching anything.
#[derive(Debug, Clone, PartialEq, Eq)]
pub enum ParentRejection {
    /// The request breaks a rule; the message says which.
    Validation(String),
    /// No dispatch target is configured.
    Misconfiguration,
}

impl ParentRejection {
    /// The HTTP status of the answer: 400 for an invalid request, 500 for a
    /// misconfigured deployment.
    pub fn status_code(&self) -> (code: u16)
        ensures
            code == (match self {
                ParentRejection::Validation(_) => 400u16,
                ParentRejection::Misconfiguration => 500u16,
            }),
    {
        match self {
            ParentRejection::Validation(_) => 400,
            ParentRejection::Misconfiguration => 500,
        }
    }
}

/// A dispatch target is configured: present and not blank.
pub open spec fn target_configured(dispatch_target: Option<&str>) -> bool {
    dispatch_target is Some && trim_ws(dispatch_target->0@).len() > 0
}

/// `p` is the payload of shard `a` of the normalized request `n`.
pub open spec fn is_payload_for(n: NormalizedSweepRequest, a: ShardAssignment, p: ChildShardPayload) -> bool {
    &&& p.run_id@ == n.run_id@
    &&& p.run_date is None
    &&& p.dimensions@ == n.dimensions@
    &&& p.total_points == n.total_points
    &&& p.shard_id == a.shard_id
    &&& p.start_index == a.start_index
    &&& p.end_index_exclusive == a.end_index_exclusive
    &&& p.seed == n.seed
    &&& p.failure_injection_shards@ == n.failure_injection_shards@
}

/// The shard count that the plan of `n` has.
pub open spec fn plan_count(n: NormalizedSweepRequest) -> nat {
    planned_shard_count(n.total_points as nat, n.shard_count, n.shard_size)->0
}

/// A sweep that passed every check and is being dispatched shard by shard, in shard order.
pub struct ParentDispatch {
    normalized: NormalizedSweepRequest,
    payloads: Vec<ChildShardPayload>,
    dispatches: Vec<DispatchRecord>,
}

impl ParentDispatch {
    #[verifier::type_invariant]
    spec fn consistent(&self) -> bool {
        &&& self.dispatches@.len() <= self.payloads@.len()
        &&& forall|i: int|
            0 <= i < self.dispatches@.len() ==> #[trigger] self.dispatches@[i] == DispatchRecord {
                shard_id: self.payloads@[i].shard_id,
                status_code: 202,
            }
    }

    /// The request in normal form.
    pub closed spec fn spec_normalized(&self) -> NormalizedSweepRequest {
        self.normalized
    }

    /// The payload of each shard, in shard order.
    pub closed spec fn spec_payloads(&self) -> Seq<ChildShardPayload> {
        self.payloads@
    }

    /// The dispatches made so far.
    pub closed spec fn spec_dispatches(&self) -> Seq<DispatchRecord> {
        self.dispatches@
    }

    /// The request in normal form.
    pub fn normalized(&self) -> (n: &NormalizedSweepRequest)
        ensures
            *n == self.spec_normalized(),
    {
        &self.normalized
    }

    /// How many shards have been dispatched.
    pub fn dispatched_count(&self) -> (k: usize)
        ensures
            k == self.spec_dispatches().len(),
            k <= self.spec_payloads().len(),
    {
        proof {
            use_type_invariant(self);
        }
        self.dispatches.len()
    }

    /// The payload to dispatch next, or none once every shard went out.
    pub fn next_payload(&self) -> (p: Option<&ChildShardPayload>)
        ensures
            self.spec_dispatches().len() < self.spec_payloads().len() ==> p == Some(
                &self.spec_payloads()[self.spec_dispatches().len() as int],
            ),
            self.spec_dispatches().len() >= self.spec_payloads().len() ==> p is None,
    {
        let k = self.dispatches.len();
        if k < self.payloads.len() {
            Some(&self.payloads[k])
        } else {
            None
        }
    }

    /// Notes that the next payload was handed to its child, with status 202.
    pub fn record_dispatched(&mut self)
        requires
            old(self).spec_dispatches().len() < old(self).spec_payloads().len(),
        ensures
            final(self).spec_normalized() == old(self).spec_normalized(),
            final(self).spec_payloads() == old(self).spec_payloads(),
            final(self).spec_dispatches() == old(self).spec_dispatches().push(
                DispatchRecord {
                    shard_id: old(self).spec_payloads()[old(self).spec_dispatches().len() as int].shard_id,
                    status_code: 202,
                },
            ),
    {
        proof {
            use_type_invariant(&*self);
        }
        let k = self.dispatches.len();
        let shard_id = self.payloads[k].shard_id;
        let mut dispatches = Vec::new();
        std::mem::swap(&mut dispatches, &mut self.dispatches);
        dispatches.push(DispatchRecord { shard_id, status_code: 202 });
        self.dispatches = dispatches;
    }

    /// Hands `body`, the serialized next payload, to its child and, when the child took
    /// it, notes the dispatch; when it did not, nothing changes and its error comes back.
    pub fn dispatch_next<I: ChildInvoker>(&mut self, body: &[u8], invoker: &I) -> (res: Result<
        (),
        String,
    >)
        requires
            old(self).spec_dispatches().len() < old(self).spec_payloads().len(),
        ensures
            final(self).spec_normalized() == old(self).spec_normalized(),
            final(self).spec_payloads() == old(self).spec_payloads(),
            exists|answer: Result<(), String>|
                #[trigger] invoker_answered(invoker, body@, answer) && answer == res,
            res is Ok ==> final(self).spec_dispatches() == old(self).spec_dispatches().push(
                DispatchRecord {
                    shard_id: old(self).spec_payloads()[old(self).spec_dispatches().len() as int].shard_id,
                    status_code: 202,
                },
            ),
            res is Err ==> final(self).spec_dispatches() == old(self).spec_dispatches(),
    {
        let answer = invoker.invoke_child_async(body);
        let ghost a = answer;
        proof {
            assert(invoker_answered(invoker, body@, a));
        }
        if answer.is_ok() {
            self.record_dispatched();
        }
        answer
    }

    /// The answer once every shard was dispatched: the run, its number of points, one
    /// dispatch record per shard in shard order, and the submitted status.
    pub fn finish(self) -> (r: ParentAcceptedResponse)
        requires
            self.spec_dispatches().len() == self.spec_payloads().len(),
        ensures
            r.run_id@ == self.spec_normalized().run_id@,
            r.total_points == self.spec_normalized().total_points,
            r.shards_dispatched == self.spec_payloads().len(),
            r.dispatches@ == self.spec_dispatches(),
            r.status@ == "dispatch_submitted"@,
            r.schema_version@ == ORCHESTRATION_SCHEMA_VERSION@,
    {
        proof {
            use_type_invariant(&self);
        }
        let ParentDispatch { normalized, payloads, dispatches } = self;
        let shards_dispatched = dispatches.len();
        ParentAcceptedResponse {
            run_id: normalized.run_id,
            total_points: normalized.total_points,
            shards_dispatched,
            dispatches,
            status: owned("dispatch_submitted"),
            schema_version: owned(ORCHESTRATION_SCHEMA_VERSION),
        }
    }
}

/// Why dispatching stopped before every shard went out.
#[derive(Debug, Clone, PartialEq, Eq)]
pub enum DispatchStop {
    /// A shard's payload could not be serialized; the message says why.
    Encoding(String),
    /// A child refused its payload; the message is the child's error.
    Refused(String),
}

/// The dispatch record of payload `p`, handed to its child.
pub open spec fn sent_record(p: ChildShardPayload) -> DispatchRecord {
    DispatchRecord { shard_id: p.shard_id, status_code: 202 }
}

/// Payload `p` was serialized by `encode` and the bytes were handed to `invoker`, which
/// answered `answer`.
pub open spec fn payload_handed<I: ChildInvoker, F: Fn(&ChildShardPayload) -> Result<Vec<u8>, String>>(
    encode: &F,
    invoker: &I,
    p: ChildShardPayload,
    answer: Result<(), String>,
) -> bool {
    exists|bytes: Vec<u8>|
        #[trigger] encode.ensures((&p,), Ok::<Vec<u8>, String>(bytes)) && invoker_answered(
            invoker,
            bytes@,
            answer,
        )
}

/// The payloads `ps[start..k]` were each serialized and taken by their child.
pub open spec fn handed_until<I: ChildInvoker, F: Fn(&ChildShardPayload) -> Result<Vec<u8>, String>>(
    encode: &F,
    invoker: &I,
    ps: Seq<ChildShardPayload>,
    start: int,
    k: int,
) -> bool {
    &&& start <= k <= ps.len()
    &&& forall|i: int| start <= i < k ==> payload_handed(encode, invoker, #[trigger] ps[i], Ok(()))
}

impl ParentDispatch {
    /// Dispatches every shard not yet dispatched, in shard order: each payload is
    /// serialized with `encode` and the bytes are handed to `invoker`. Stops at the first
    /// payload that cannot be serialized or that its child refuses; otherwise answers
    /// with one dispatch record per shard.
    pub fn dispatch_all<I: ChildInvoker, F: Fn(&ChildShardPayload) -> Result<Vec<u8>, String>>(
        self,
        encode: &F,
        invoker: &I,
    ) -> (res: Result<ParentAcceptedResponse, DispatchStop>)
        requires
            forall|p: &ChildShardPayload| encode.requires((p,)),
        ensures
            ({
                let ps = self.spec_payloads();
                let start = self.spec_dispatches().len() as int;
                match res {
                    Ok(r) => {
                        &&& handed_until(encode, invoker, ps, start, ps.len() as int)
                        &&& r.run_id@ == self.spec_normalized().run_id@
                        &&& r.total_points == self.spec_normalized().total_points
                        &&& r.shards_dispatched == ps.len()
                        &&& r.dispatches@ == ps.map_values(|p: ChildShardPayload| sent_record(p))
                        &&& r.status@ == "dispatch_submitted"@
                        &&& r.schema_version@ == ORCHESTRATION_SCHEMA_VERSION@
                    },
                    Err(DispatchStop::Refused(e)) => exists|k: int|
                        #[trigger] handed_until(encode, invoker, ps, start, k) && k < ps.len()
                            && payload_handed(encode, invoker, ps[k], Err(e)),
                    Err(DispatchStop::Encoding(e)) => exists|k: int|
                        #[trigger] handed_until(encode, invoker, ps, start, k) && k < ps.len()
                            && encode.ensures((&ps[k],), Err::<Vec<u8>, String>(e)),
                }
            }),
    {
        proof {
            use_type_invariant(&self);
        }
        let ghost ps = self.spec_payloads();
        let ghost start = self.spec_dispatches().len() as int;
        let mut this = self;
        loop
            invariant
                forall|p: &ChildShardPayload| encode.requires((p,)),
                ps == self.spec_payloads(),
                start == self.spec_dispatches().len() as int,
                this.spec_payloads() == ps,
                this.spec_normalized() == self.spec_normalized(),
                start <= this.spec_dispatches().len() <= ps.len(),
                forall|i: int|
                    0 <= i < this.spec_dispatches().len() ==> #[trigger] this.spec_dispatches()[i]
                        == sent_record(ps[i]),
                forall|i: int|
                    start <= i < this.spec_dispatches().len() ==> payload_handed(
                        encode,
                        invoker,
                        #[trigger] ps[i],
                        Ok(()),
                    ),
            ensures
                this.spec_payloads() == ps,
                this.spec_normalized() == self.spec_normalized(),
                this.spec_dispatches().len() == ps.len(),
                forall|i: int|
                    0 <= i < ps.len() ==> #[trigger] this.spec_dispatches()[i] == sent_record(ps[i]),
                forall|i: int| start <= i < ps.len() ==> payload_handed(encode, invoker, #[trigger] ps[i], Ok(())),
            decreases ps.len() - this.spec_dispatches().len(),
        {
            proof {
                use_type_invariant(&this);
            }
            let k = this.dispatched_count();
            let encoded = match this.next_payload() {
                Some(p) => encode(p),
                None => {
                    break;
                },
            };
            let bytes = match encoded {
                Ok(b) => b,
                Err(e) => {
                    assert(encode.ensures((&ps[k as int],), Err::<Vec<u8>, String>(e)));
                    assert(handed_until(encode, invoker, ps, start, k as int));
                    return Err(DispatchStop::Encoding(e));
                },
            };
            let ghost b = bytes;
            assert(encode.ensures((&ps[k as int],), Ok::<Vec<u8>, String>(b)));
            let sent = this.dispatch_next(bytes.as_slice(), invoker);
            let ghost sv = sent;
            assert(invoker_answered(invoker, b@, sv));
            match sent {
                Ok(()) => {
                    // The unit inside is the only one there is.
                    assert(sv->Ok_0 == ());
                    assert(payload_handed(encode, invoker, ps[k as int], Ok(())));
                },
                Err(e) => {
                    assert(payload_handed(encode, invoker, ps[k as int], Err(e)));
                    assert(handed_until(encode, invoker, ps, start, k as int));
                    return Err(DispatchStop::Refused(e));
                },
            }
        }
        assert(handed_until(encode, invoker, ps, start, ps.len() as int));
        let r = this.finish();
        assert(r.dispatches@ =~= ps.map_values(|p: ChildShardPayload| sent_record(p)));
        Ok(r)
    }
}

fn copy_usizes(v: &Vec<usize>) -> (r: Vec<usize>)
    ensures
        r@ == v@,
{
    let mut r: Vec<usize> = Vec::new();
    let mut i: usize = 0;
    while i < v.len()
        invariant
            i <= v.len(),
            r@ == v@.take(i as int),
        decreases v.len() - i,
    {
        r.push(v[i]);
        i = i + 1;
        assert(r@ =~= v@.take(i as int));
    }
    assert(v@.take(v@.len() as int) =~= v@);
    r
}

/// The payload of one shard of a normalized request.
pub fn child_payload(n: &NormalizedSweepRequest, a: ShardAssignment) -> (p: ChildShardPayload)
    ensures
        is_payload_for(*n, a, p),
{
    ChildShardPayload {
        run_id: n.run_id.clone(),
        run_date: None,
        dimensions: n.dimensions.duplicate(),
        total_points: n.total_points,
        shard_id: a.shard_id,
        start_index: a.start_index,
        end_index_exclusive: a.end_index_exclusive,
        seed: n.seed,
        failure_injection_shards: copy_usizes(&n.failure_injection_shards),
    }
}

/// Everything the parent decides before it dispatches: the request is checked and
/// normalized, the dispatch target must be configured, and the shard plan is turned into
/// one payload per shard, in shard order.
pub fn prepare_parent_dispatch(request: SweepRequest, dispatch_target: Option<&str>) -> (res:
    Result<ParentDispatch, ParentRejection>)
    ensures
        match res {
            Ok(d) => {
                let n = d.spec_normalized();
                &&& normalize_error(request) is None
                &&& is_normalization_of(request, n)
                &&& target_configured(dispatch_target)
                &&& plan_error(n.total_points as nat, n.shard_count, n.shard_size, n.max_shards as nat) is None
                &&& d.spec_dispatches().len() == 0
                &&& d.spec_payloads().len() == plan_count(n)
                &&& forall|i: int|
                    0 <= i < d.spec_payloads().len() ==> is_payload_for(
                        n,
                        planned_shard(n.total_points as nat, plan_count(n), i as nat),
                        #[trigger] d.spec_payloads()[i],
                    )
            },
            Err(ParentRejection::Validation(m)) => normalize_error(request) == Some(m@) || (
            normalize_error(request) is None && target_configured(dispatch_target) && exists|
                n: NormalizedSweepRequest,
            |
                is_normalization_of(request, n) && plan_error(
                    n.total_points as nat,
                    n.shard_count,
                    n.shard_size,
                    n.max_shards as nat,
                ) == Some(m@)),
            Err(ParentRejection::Misconfiguration) => normalize_error(request) is None
                && !target_configured(dispatch_target),
        },
{
    let normalized = match normalize_request(request) {
        Ok(n) => n,
        Err(e) => {
            return Err(ParentRejection::Validation(owned(e.message())));
        },
    };
    match dispatch_target {
        Some(target) => {
            if is_blank(target) {
                return Err(ParentRejection::Misconfiguration);
            }
        },
        None => {
            return Err(ParentRejection::Misconfiguration);
        },
    }
    let plan = match compute_shard_plan(&normalized) {
        Ok(plan) => plan,
        Err(e) => {
            return Err(ParentRejection::Validation(owned(e.message())));
        },
    };
    let mut payloads: Vec<ChildShardPayload> = Vec::with_capacity(plan.len());
    let mut i: usize = 0;
    while i < plan.len()
        invariant
            i <= plan@.len(),
            payloads@.len() == i,
            forall|k: int| 0 <= k < i ==> is_payload_for(normalized, plan@[k], #[trigger] payloads@[k]),
        decreases plan@.len() - i,
    {
        payloads.push(child_payload(&normalized, plan[i]));
        i = i + 1;
    }
    let d = ParentDispatch { normalized, payloads, dispatches: Vec::new() };
    Ok(d)
}

} // verus!
