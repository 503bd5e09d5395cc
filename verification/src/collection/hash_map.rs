//! The decisions of a get-or-create on a concurrent hash map that hands the
//! value to a call, looking again until the call accepts it.
use vstd::prelude::*;

verus! {

/// What the last action of a hash map get-or-create came to.
#[derive(Debug, Clone, Copy, PartialEq, Eq)]
pub enum HashMapEvent<V, R> {
    /// The look-up of the key: the value under it, if any.
    Got(Option<V>),
    /// A value was made.
    Created(V),
    /// The insert of a made value is over: the value made when it went in,
    /// the value handed back when the key was taken meanwhile.
    Inserted(V),
    /// The call on the value: its result, or `None` when it did not take it.
    Called(Option<R>),
}

/// What the caller of a hash map get-or-create does next.
#[derive(Debug, Clone, Copy, PartialEq, Eq)]
pub enum HashMapAction<V, R> {
    /// Look the key up.
    Get,
    /// Make a new value.
    Create,
    /// Insert this value under the key.
    Insert(V),
    /// Hand this value to the call.
    Call(V),
    /// The get-or-create is over with this result of the call.
    Return(R),
}

/// The next action of a hash map get-or-create once its last action came
/// to `event`.
pub open spec fn hash_map_next<V, R>(event: HashMapEvent<V, R>) -> HashMapAction<V, R> {
    match event {
        HashMapEvent::Got(Some(v)) => HashMapAction::Call(v),
        HashMapEvent::Got(None) => HashMapAction::Create,
        HashMapEvent::Created(v) => HashMapAction::Insert(v),
        HashMapEvent::Inserted(v) => HashMapAction::Call(v),
        HashMapEvent::Called(Some(r)) => HashMapAction::Return(r),
        HashMapEvent::Called(None) => HashMapAction::Get,
    }
}

/// The decisions of a hash map get-or-create: the value found under the key
/// goes to the call; with none, a value is made and inserted, and the value
/// that the insert leaves goes to the call. The call's result ends the
/// get-or-create; a call that does not take the value starts it over.
pub fn hash_map_get_or_create_step<V, R>(event: HashMapEvent<V, R>) -> (r: HashMapAction<V, R>)
    ensures
        r == hash_map_next(event),
{
    match event {
        HashMapEvent::Got(Some(v)) => HashMapAction::Call(v),
        HashMapEvent::Got(None) => HashMapAction::Create,
        HashMapEvent::Created(v) => HashMapAction::Insert(v),
        HashMapEvent::Inserted(v) => HashMapAction::Call(v),
        HashMapEvent::Called(Some(r)) => HashMapAction::Return(r),
        HashMapEvent::Called(None) => HashMapAction::Get,
    }
}

} // verus!
