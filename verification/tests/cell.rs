use brainfucklib::vm::{default_lower, default_upper, CellNumber, MemoryCell};

#[test]
fn default_bounds_are_a_byte() {
    assert_eq!(default_lower(), 0);
    assert_eq!(default_upper(), 255);
}

#[test]
fn cell_compares_with_bounds() {
    let cell = MemoryCell::new(5);
    assert!(cell.at_lowest(5));
    assert!(!cell.at_lowest(4));
    assert!(cell.below_lowest(6));
    assert!(!cell.below_lowest(5));
    assert!(cell.at_highest(5));
    assert!(cell.above_highest(4));
    assert!(!cell.above_highest(5));
}

#[test]
fn wrap_leaves_a_cell_between_the_bounds_alone() {
    let mut cell = MemoryCell::new(200);
    cell.wrap(0, 256);
    assert_eq!(cell.number(), 200);
}

#[test]
fn wrap_folds_at_the_limit() {
    let mut cell = MemoryCell::new(256);
    cell.wrap(0, 256);
    assert_eq!(cell.number(), 0);
}

#[test]
fn wrap_folds_above_the_limit() {
    let mut cell = MemoryCell::new(600);
    cell.wrap(0, 256);
    assert_eq!(cell.number(), 88);
    let mut cell = MemoryCell::new(30);
    cell.wrap(10, 21);
    assert_eq!(cell.number(), 19);
}

#[test]
fn wrap_folds_below_the_lower_bound_with_the_sign() {
    let mut cell = MemoryCell::new(-5);
    cell.wrap(-3, 4);
    assert_eq!(cell.number(), -4);
    let mut cell = MemoryCell::new(7);
    cell.wrap(10, 21);
    assert_eq!(cell.number(), 17);
}

#[test]
fn increment_steps_up() {
    let mut cell = MemoryCell::new(41);
    assert!(cell.increment(0, 256).is_ok());
    assert_eq!(cell.number(), 42);
}

#[test]
fn increment_wraps_from_the_upper_bound_to_the_lower() {
    let mut cell = MemoryCell::new(255);
    assert!(cell.increment(0, 256).is_ok());
    assert_eq!(cell.number(), 0);
    let mut cell = MemoryCell::new(20);
    assert!(cell.increment(10, 21).is_ok());
    assert_eq!(cell.number(), 10);
}

#[test]
fn increment_guards_the_greatest_number() {
    let mut cell = MemoryCell::maximum();
    assert!(cell.can_increment(0, 256));
    assert!(cell.increment(0, 256).is_ok());
    assert_eq!(cell.number(), 1);
}

#[test]
fn increment_returns_after_one_round() {
    for (lower, upper) in [(0 as CellNumber, 255 as CellNumber), (10, 20), (-7, 3), (-20, -5)] {
        for start in lower..=upper {
            let mut cell = MemoryCell::new(start);
            for _ in 0..(upper - lower + 1) {
                assert!(cell.can_increment(lower, upper + 1));
                assert!(cell.increment(lower, upper + 1).is_ok());
                assert!(lower <= cell.number() && cell.number() <= upper);
            }
            assert_eq!(cell.number(), start);
        }
    }
}

#[test]
fn decrement_steps_down() {
    let mut cell = MemoryCell::new(42);
    assert!(cell.decrement(0, 256).is_ok());
    assert_eq!(cell.number(), 41);
}

#[test]
fn decrement_wraps_from_the_lower_bound_to_the_upper() {
    let mut cell = MemoryCell::new(0);
    assert!(cell.decrement(0, 256).is_ok());
    assert_eq!(cell.number(), 255);
    let mut cell = MemoryCell::new(10);
    assert!(cell.decrement(10, 21).is_ok());
    assert_eq!(cell.number(), 20);
}

#[test]
fn decrement_wraps_a_cell_below_the_lower_bound() {
    let mut cell = MemoryCell::new(3);
    assert!(cell.decrement(10, 21).is_ok());
    assert_eq!(cell.number(), 13);
}

#[test]
fn decrement_undoes_increment_between_the_bounds() {
    for start in 0..=255 {
        let mut cell = MemoryCell::new(start);
        assert!(cell.increment(0, 256).is_ok());
        assert!(cell.decrement(0, 256).is_ok());
        assert_eq!(cell.number(), start);
    }
}

#[test]
fn flatten_sets_the_lower_bound() {
    let mut cell = MemoryCell::new(99);
    cell.flatten(-4);
    assert_eq!(cell.number(), -4);
}

#[test]
fn to_char_shows_the_character_of_the_number() {
    let mut output = ' ';
    assert!(MemoryCell::new(65).to_char(&mut output).is_ok());
    assert_eq!(output, 'A');
    assert!(MemoryCell::new(0x1F600).to_char(&mut output).is_ok());
    assert_eq!(output, '\u{1F600}');
}

#[test]
fn to_char_replaces_what_is_no_character() {
    let mut output = ' ';
    assert!(MemoryCell::new(0xD800).to_char(&mut output).is_ok());
    assert_eq!(output, '\u{FFFD}');
    assert!(MemoryCell::new(0x110000).to_char(&mut output).is_ok());
    assert_eq!(output, '\u{FFFD}');
    assert!(MemoryCell::new(-1).to_char(&mut output).is_ok());
    assert_eq!(output, '\u{FFFD}');
}

#[test]
fn to_char_takes_the_low_bits() {
    let mut output = ' ';
    assert!(MemoryCell::new(0x1_0000_0041).to_char(&mut output).is_ok());
    assert_eq!(output, 'A');
}

#[test]
fn from_char_takes_the_number_of_the_character() {
    let mut cell = MemoryCell::new(0);
    assert!(cell.from_char('A', 0, 256).is_ok());
    assert_eq!(cell.number(), 65);
}

#[test]
fn from_char_folds_a_character_outside_the_bounds() {
    let mut cell = MemoryCell::new(0);
    assert!(cell.from_char('\u{12C}', 0, 256).is_ok());
    assert_eq!(cell.number(), 44);
    assert!(cell.from_char('\u{5}', 10, 21).is_ok());
    assert_eq!(cell.number(), 15);
}

#[test]
fn char_round_trip_is_identity() {
    for value in 0..255 {
        let mut output = ' ';
        assert!(MemoryCell::new(value).to_char(&mut output).is_ok());
        let mut cell = MemoryCell::new(0);
        assert!(cell.from_char(output, 0, 256).is_ok());
        assert_eq!(cell.number(), value);
    }
    for value in [0xE000 as CellNumber, 0xFFFF, 0x10000, 0x10FFFE] {
        let mut output = ' ';
        assert!(MemoryCell::new(value).to_char(&mut output).is_ok());
        let mut cell = MemoryCell::new(0);
        assert!(cell.from_char(output, 0, 0x10FFFF).is_ok());
        assert_eq!(cell.number(), value);
    }
}

#[test]
fn extreme_cells() {
    assert_eq!(MemoryCell::minimum().number(), CellNumber::MIN);
    assert_eq!(MemoryCell::maximum().number(), CellNumber::MAX);
}

#[test]
fn cell_converts_to_and_from_its_number() {
    let cell = MemoryCell::from(12);
    assert_eq!(cell.number(), 12);
    let number: CellNumber = cell.into();
    assert_eq!(number, 12);
    assert_eq!(MemoryCell::default().number(), 0);
}

#[test]
fn cell_shows_its_number() {
    assert_eq!(MemoryCell::new(0).to_string(), "0");
    assert_eq!(MemoryCell::new(255).to_string(), "255");
    assert_eq!(MemoryCell::new(-1204).to_string(), "-1204");
    assert_eq!(MemoryCell::minimum().to_string(), CellNumber::MIN.to_string());
    assert_eq!(MemoryCell::maximum().to_string(), CellNumber::MAX.to_string());
}

#[test]
fn cells_are_ordered_by_their_number() {
    assert!(MemoryCell::new(1) < MemoryCell::new(2));
    assert_eq!(MemoryCell::new(3), MemoryCell::new(3));
}

#[test]
fn can_wrap_refuses_a_limit_of_zero() {
    assert!(!MemoryCell::new(5).can_wrap(-10, 0));
    assert!(MemoryCell::new(-5).can_wrap(-10, 0));
    assert!(!MemoryCell::new(-1).can_increment(-10, 0));
    assert!(MemoryCell::new(-2).can_increment(-10, 0));
}

#[test]
fn can_wrap_refuses_what_a_cell_cannot_hold() {
    assert!(!MemoryCell::new(20).can_wrap(CellNumber::MAX - 10, CellNumber::MAX));
    assert!(MemoryCell::new(5).can_wrap(CellNumber::MAX - 10, CellNumber::MAX));
    assert!(!MemoryCell::minimum().can_wrap(0, -1));
    assert!(!MemoryCell::maximum().can_increment(CellNumber::MAX, 5));
}

#[test]
fn can_decrement_and_can_take() {
    assert!(MemoryCell::new(0).can_decrement(0, 256));
    assert!(!MemoryCell::minimum().can_decrement(CellNumber::MIN, CellNumber::MIN));
    assert!(MemoryCell::new(3).can_decrement(0, 0));
    assert!(!MemoryCell::new(-3).can_decrement(0, 0));
    assert!(MemoryCell::can_take('A', 0, 256));
    assert!(MemoryCell::can_take('\u{10FFFF}', 0, 256));
    assert!(!MemoryCell::can_take('A', 0, 0));
    assert!(!MemoryCell::can_take('A', CellNumber::MAX, 7));
}
