use brainfucklib::vm::{default_range, MemoryPointer};

#[test]
fn default_range_is_sixteen_bits() {
    assert_eq!(default_range(), 65535);
}

#[test]
fn new_pointer_is_at_the_first_cell() {
    assert_eq!(MemoryPointer::new().pointer(), 0);
    assert_eq!(MemoryPointer::default().pointer(), 0);
}

#[test]
fn increment_steps_right() {
    let mut pointer = MemoryPointer::new();
    assert!(!pointer.increment(10, true));
    assert_eq!(pointer.pointer(), 1);
    assert!(!pointer.increment(10, false));
    assert_eq!(pointer.pointer(), 2);
}

#[test]
fn increment_wraps_at_the_end_of_a_fixed_tape() {
    let mut pointer = MemoryPointer::new();
    for _ in 0..4 {
        assert!(!pointer.increment(5, true));
    }
    assert_eq!(pointer.pointer(), 4);
    assert!(!pointer.increment(5, true));
    assert_eq!(pointer.pointer(), 0);
}

#[test]
fn increment_asks_for_growth_at_the_end_of_a_growing_tape() {
    let mut pointer = MemoryPointer::new();
    for _ in 0..4 {
        assert!(!pointer.increment(5, false));
    }
    assert!(pointer.increment(5, false));
    assert_eq!(pointer.pointer(), 5);
}

#[test]
fn increment_on_a_tape_of_one_cell() {
    let mut pointer = MemoryPointer::new();
    assert!(!pointer.increment(1, true));
    assert_eq!(pointer.pointer(), 0);
    assert!(pointer.increment(1, false));
    assert_eq!(pointer.pointer(), 1);
}

#[test]
fn increment_from_beyond_the_end() {
    let mut pointer = MemoryPointer::new();
    assert!(pointer.increment(1, false));
    assert!(pointer.increment(1, false));
    assert_eq!(pointer.pointer(), 1);
    assert!(!pointer.increment(1, true));
    assert_eq!(pointer.pointer(), 0);
}

#[test]
fn decrement_steps_left() {
    let mut pointer = MemoryPointer::new();
    pointer.increment(10, true);
    pointer.increment(10, true);
    pointer.decrement(10);
    assert_eq!(pointer.pointer(), 1);
}

#[test]
fn decrement_wraps_from_the_first_cell_to_the_last() {
    for length in [1usize, 2, 7, 65535] {
        let mut pointer = MemoryPointer::new();
        pointer.decrement(length);
        assert_eq!(pointer.pointer(), length - 1);
    }
}

#[test]
fn decrement_from_beyond_the_end_goes_to_the_last_cell() {
    let mut pointer = MemoryPointer::new();
    assert!(pointer.increment(1, false));
    assert_eq!(pointer.pointer(), 1);
    pointer.decrement(1);
    assert_eq!(pointer.pointer(), 0);
    let mut pointer = MemoryPointer::new();
    for _ in 0..3 {
        pointer.increment(3, false);
    }
    assert_eq!(pointer.pointer(), 3);
    pointer.decrement(2);
    assert_eq!(pointer.pointer(), 1);
}

#[test]
fn to_zero_goes_back_to_the_first_cell() {
    let mut pointer = MemoryPointer::new();
    pointer.increment(10, true);
    pointer.to_zero();
    assert_eq!(pointer.pointer(), 0);
}

#[test]
fn pointers_are_ordered_by_their_index() {
    let mut further = MemoryPointer::new();
    further.increment(10, true);
    assert!(MemoryPointer::new() < further);
    assert_eq!(MemoryPointer::new(), MemoryPointer::default());
}
