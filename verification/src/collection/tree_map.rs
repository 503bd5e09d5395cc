//! The decisions of a get-or-create on a concurrent ordered map: look the
//! key up, return a valid value, or make one and insert it, retrying when
//! another thread inserted first.
use vstd::prelude::*;

verus! {

/// What a look-up of the key found.
#[derive(Debug, Clone, Copy, PartialEq, Eq)]
pub enum Peeked<V> {
    /// A value that the caller accepts.
    Valid(V),
    /// A value that the caller does not accept.
    Invalid,
    /// No value.
    Absent,
}

/// A get-or-create in progress: the value that was made for the key and
/// that the map refused, kept for the next insert.
#[derive(Debug, Clone, Copy, PartialEq, Eq)]
pub struct GetOrCreate<V> {
    pub held: Option<V>,
}

/// What the last action of a get-or-create came to.
#[derive(Debug, PartialEq, Eq)]
pub enum GetOrCreateEvent<V> {
    /// The look-up of the key.
    Peeked(Peeked<V>),
    /// A value was made.
    Created(V),
    /// The insert of a value: `Ok` with the value when it went in, `Err`
    /// with the value handed back when the key was taken meanwhile.
    Inserted(Result<V, V>),
}

/// What the caller of a get-or-create does next.
#[derive(Debug, Clone, Copy, PartialEq, Eq)]
pub enum GetOrCreateAction<V> {
    /// Look the key up.
    Peek,
    /// Make a new value.
    Create,
    /// Insert this value under the key.
    Insert(V),
    /// The get-or-create is over with this value.
    Return(V),
}

/// A get-or-create that has made no value yet.
pub fn get_or_create_start<V>() -> (r: GetOrCreate<V>)
    ensures
        r.held is None,
{
    GetOrCreate { held: None }
}

/// The next state and action of a get-or-create in `state` once its last
/// action came to `event`.
pub open spec fn tree_map_next<V>(state: GetOrCreate<V>, event: GetOrCreateEvent<V>) -> (GetOrCreate<V>, GetOrCreateAction<V>) {
    match event {
        GetOrCreateEvent::Peeked(Peeked::Valid(v)) => (state, GetOrCreateAction::Return(v)),
        GetOrCreateEvent::Peeked(Peeked::Invalid) => (state, GetOrCreateAction::Peek),
        GetOrCreateEvent::Peeked(Peeked::Absent) => match state.held {
            Some(v) => (GetOrCreate { held: None }, GetOrCreateAction::Insert(v)),
            None => (state, GetOrCreateAction::Create),
        },
        GetOrCreateEvent::Created(v) => (state, GetOrCreateAction::Insert(v)),
        GetOrCreateEvent::Inserted(Ok(v)) => (state, GetOrCreateAction::Return(v)),
        GetOrCreateEvent::Inserted(Err(v)) => (GetOrCreate { held: Some(v) }, GetOrCreateAction::Peek),
    }
}

/// The decisions of a get-or-create: a valid value found is returned, an
/// invalid one is looked up again, and with no value under the key the value
/// made before is inserted, or a new one made and inserted when there is
/// none. A value that went in is returned; one handed back is kept and the
/// key looked up again.
pub fn tree_map_get_or_create_step<V>(state: GetOrCreate<V>, event: GetOrCreateEvent<V>) -> (r: (
    GetOrCreate<V>,
    GetOrCreateAction<V>,
))
    ensures
        r == tree_map_next(state, event),
{
    match event {
        GetOrCreateEvent::Peeked(Peeked::Valid(v)) => (state, GetOrCreateAction::Return(v)),
        GetOrCreateEvent::Peeked(Peeked::Invalid) => (state, GetOrCreateAction::Peek),
        GetOrCreateEvent::Peeked(Peeked::Absent) => match state.held {
            Some(v) => (GetOrCreate { held: None }, GetOrCreateAction::Insert(v)),
            None => (GetOrCreate { held: None }, GetOrCreateAction::Create),
        },
        GetOrCreateEvent::Created(v) => (state, GetOrCreateAction::Insert(v)),
        GetOrCreateEvent::Inserted(Ok(v)) => (state, GetOrCreateAction::Return(v)),
        GetOrCreateEvent::Inserted(Err(v)) => (GetOrCreate { held: Some(v) }, GetOrCreateAction::Peek),
    }
}

/// A value is made at most once per get-or-create: a new one is asked for
/// only while no value is held, a value that the map handed back is held,
/// and a held value is the one inserted next.
pub proof fn lemma_value_made_at_most_once<V>(state: GetOrCreate<V>, event: GetOrCreateEvent<V>)
    ensures
        tree_map_next(state, event).1 is Create ==> state.held is None,
        event matches GetOrCreateEvent::Inserted(Err(v)) ==> tree_map_next(state, event).0.held == Some(v),
        event == GetOrCreateEvent::<V>::Peeked(Peeked::Absent) ==> (state.held matches Some(v) ==> tree_map_next(
            state,
            event,
        ) == (GetOrCreate::<V> { held: None }, GetOrCreateAction::Insert(v))),
{
}

} // verus!
