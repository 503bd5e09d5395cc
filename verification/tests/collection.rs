use mudu_kernel::collection::hash_map::{hash_map_get_or_create_step, HashMapAction, HashMapEvent};
use mudu_kernel::collection::tree_map::{
    get_or_create_start, tree_map_get_or_create_step, GetOrCreateAction, GetOrCreateEvent, Peeked,
};

#[test]
fn tree_map_returns_a_valid_value_found() {
    let s = get_or_create_start::<u32>();
    let (s, a) = tree_map_get_or_create_step(s, GetOrCreateEvent::Peeked(Peeked::Valid(7)));
    assert_eq!(a, GetOrCreateAction::Return(7));
    assert_eq!(s.held, None);
}

#[test]
fn tree_map_looks_again_past_an_invalid_value() {
    let s = get_or_create_start::<u32>();
    let (_, a) = tree_map_get_or_create_step(s, GetOrCreateEvent::Peeked(Peeked::Invalid));
    assert_eq!(a, GetOrCreateAction::Peek);
}

#[test]
fn tree_map_makes_a_value_once_and_reuses_it_after_a_refused_insert() {
    let s = get_or_create_start::<u32>();
    let (s, a) = tree_map_get_or_create_step(s, GetOrCreateEvent::Peeked(Peeked::Absent));
    assert_eq!(a, GetOrCreateAction::Create);
    let (s, a) = tree_map_get_or_create_step(s, GetOrCreateEvent::Created(5));
    assert_eq!(a, GetOrCreateAction::Insert(5));
    let (s, a) = tree_map_get_or_create_step(s, GetOrCreateEvent::Inserted(Err(5)));
    assert_eq!(a, GetOrCreateAction::Peek);
    assert_eq!(s.held, Some(5));
    let (s, a) = tree_map_get_or_create_step(s, GetOrCreateEvent::Peeked(Peeked::Absent));
    assert_eq!(a, GetOrCreateAction::Insert(5));
    assert_eq!(s.held, None);
    let (_, a) = tree_map_get_or_create_step(s, GetOrCreateEvent::Inserted(Ok(5)));
    assert_eq!(a, GetOrCreateAction::Return(5));
}

#[test]
fn hash_map_calls_with_the_value_found_or_made() {
    assert_eq!(hash_map_get_or_create_step::<u32, u8>(HashMapEvent::Got(Some(3))), HashMapAction::Call(3));
    assert_eq!(hash_map_get_or_create_step::<u32, u8>(HashMapEvent::Got(None)), HashMapAction::Create);
    assert_eq!(hash_map_get_or_create_step::<u32, u8>(HashMapEvent::Created(4)), HashMapAction::Insert(4));
    assert_eq!(hash_map_get_or_create_step::<u32, u8>(HashMapEvent::Inserted(4)), HashMapAction::Call(4));
    assert_eq!(hash_map_get_or_create_step::<u32, u8>(HashMapEvent::Called(Some(9))), HashMapAction::Return(9));
    assert_eq!(hash_map_get_or_create_step::<u32, u8>(HashMapEvent::Called(None)), HashMapAction::Get);
}
