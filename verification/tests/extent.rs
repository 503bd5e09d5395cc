use mudu_kernel::storage::extent::{QuadBitmap, QuadState};

// Example usage and demonstration
#[test]
fn test() {
    // Test case: Mixed states
    let mut bitmap = QuadBitmap::new(10);

    // Set various states
    bitmap.set(0, QuadState::State3).unwrap(); // Skip this one
    bitmap.set(1, QuadState::State3).unwrap(); // Skip this one
    bitmap.set(2, QuadState::State1).unwrap(); // First State0/1/2
    bitmap.set(3, QuadState::State3).unwrap(); // Skip
    bitmap.set(4, QuadState::State0).unwrap(); // Second State0/1/2
    bitmap.set(5, QuadState::State2).unwrap(); // Third State0/1/2
    bitmap.set(6, QuadState::State3).unwrap(); // Skip
    bitmap.set(7, QuadState::State3).unwrap(); // Skip

    println!("Bitmap: {}", bitmap.debug_string());

    // Find first State0, State1, or State2
    if let Some((pos, state)) = bitmap.find_first_state012() {
        println!("First State0/1/2 at position {}: {:?}", pos, state); // Expected: position 2, State1
    } else {
        println!("No State0, State1, or State2 found");
    }

    // Find from specific position
    if let Some((pos, state)) = bitmap.find_first_state012_from(3) {
        println!("First State0/1/2 from position 3: {} - {:?}", pos, state); // Expected: position 4, State0
    }

    // Find all State0/1/2 positions
    let all_state012 = bitmap.find_all_state012();
    println!("All State0/1/2 positions: {:?}", all_state012); // Expected: [(2, State1), (4, State0), (5, State2)]

    // Test case: Only State3
    let mut bitmap2 = QuadBitmap::new(4);
    bitmap2.set(0, QuadState::State3).unwrap();
    bitmap2.set(1, QuadState::State3).unwrap();
    bitmap2.set(2, QuadState::State3).unwrap();
    bitmap2.set(3, QuadState::State3).unwrap();

    match bitmap2.find_first_state012() {
        Some((pos, state)) => println!("Found {:?} at {}", state, pos),
        None => println!("No State0, State1, or State2 found in bitmap2"), // Expected output
    }

    // Test optimized version
    if let Some((pos, state)) = bitmap.find_first_state012_fast() {
        println!("Fast search found: {} - {:?}", pos, state);
    }
}

#[test]
fn test_find_first_state012() {
    let mut bitmap = QuadBitmap::new(6);
    bitmap.set(0, QuadState::State3).unwrap();
    bitmap.set(1, QuadState::State3).unwrap();
    bitmap.set(2, QuadState::State1).unwrap(); // First match
    bitmap.set(3, QuadState::State0).unwrap();
    bitmap.set(4, QuadState::State3).unwrap();
    bitmap.set(5, QuadState::State2).unwrap();

    let result = bitmap.find_first_state012();
    assert_eq!(result, Some((2, QuadState::State1)));
}

#[test]
fn test_find_first_state012_from() {
    let mut bitmap = QuadBitmap::new(8);
    bitmap.set(1, QuadState::State0).unwrap();
    bitmap.set(3, QuadState::State1).unwrap();
    bitmap.set(5, QuadState::State2).unwrap();

    assert_eq!(bitmap.find_first_state012_from(5), Some((5, QuadState::State2)));
}

#[test]
fn test_find_first_state012_only_state3() {
    let mut bitmap = QuadBitmap::new(3);
    bitmap.set(0, QuadState::State3).unwrap();
    bitmap.set(1, QuadState::State3).unwrap();
    bitmap.set(2, QuadState::State3).unwrap();

    assert_eq!(bitmap.find_first_state012(), None);
    assert_eq!(bitmap.find_first_state012_from(1), None);
}

#[test]
fn test_find_all_state012() {
    let bitmap = QuadBitmap::from_slice(&[
        QuadState::State3,
        QuadState::State0,
        QuadState::State3,
        QuadState::State1,
        QuadState::State2,
        QuadState::State3,
    ]);

    let expected = vec![
        (1, QuadState::State0),
        (3, QuadState::State1),
        (4, QuadState::State2),
    ];
    assert_eq!(bitmap.find_all_state012(), expected);
}

#[test]
fn test_find_first_state() {
    let mut bitmap = QuadBitmap::new(5);
    bitmap.set(0, QuadState::State0).unwrap();
    bitmap.set(1, QuadState::State1).unwrap();
    bitmap.set(2, QuadState::State0).unwrap();
    bitmap.set(3, QuadState::State2).unwrap();
    bitmap.set(4, QuadState::State0).unwrap();

    assert_eq!(bitmap.find_first_state(QuadState::State0), Some(0));
    assert_eq!(bitmap.find_first_state(QuadState::State1), Some(1));
    assert_eq!(bitmap.find_first_state(QuadState::State2), Some(3));
    assert_eq!(bitmap.find_first_state(QuadState::State3), None);
    assert_eq!(bitmap.find_first_state_from(QuadState::State0, 1), Some(2));
}

#[test]
fn test_fast_vs_normal_search() {
    let mut bitmap = QuadBitmap::new(10);
    bitmap.set(7, QuadState::State1).unwrap();

    // Both methods should return the same result
    assert_eq!(bitmap.find_first_state012(), bitmap.find_first_state012_fast());
    assert_eq!(bitmap.find_first_state012_from(3), bitmap.find_first_state012_from_fast(3));
}
