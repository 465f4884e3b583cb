use vstd::prelude::*;

verus! {

/// Hands a serialized shard payload to a child, which processes it asynchronously.
pub trait ChildInvoker {
    fn invoke_child_async(&self, payload: &[u8]) -> Result<(), String>;
}

/// Where a child writes its outcome objects, by key.
pub trait OutcomeStore {
    fn write_object(&self, key: &str, body: &[u8]) -> Result<(), String>;

    fn delete_object(&self, key: &str) -> Result<(), String>;
}

/// `r` is an answer that `invoker` gave when handed the bytes `payload`.
pub open spec fn invoker_answered<I: ChildInvoker>(
    invoker: &I,
    payload: Seq<u8>,
    r: Result<(), String>,
) -> bool {
    exists|p: &[u8]| p@ == payload && #[trigger] I::invoke_child_async.ensures((invoker, p), r)
}

/// `r` is an answer that `store` gave to a write of `body` under `key`.
pub open spec fn store_answered<S: OutcomeStore>(
    store: &S,
    key: Seq<char>,
    body: Seq<u8>,
    r: Result<(), String>,
) -> bool {
    exists|k: &str, b: &[u8]|
        k@ == key && b@ == body && #[trigger] S::write_object.ensures((store, k, b), r)
}

} // verus!
