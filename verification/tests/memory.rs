use brainfucklib::code::command_traits::Request;
use brainfucklib::code::CommandRunner;
use brainfucklib::debug::{Event, OkEvent};
use brainfucklib::vm::{CellNumber, Memory, MemoryOptions};

fn small(length: usize, variable: bool) -> Memory {
    let mut options = MemoryOptions::new();
    options.initial_length(length).variable_length(variable);
    Memory::new(options)
}

fn status_text(event: &Event) -> String {
    match event {
        Ok(OkEvent::Status(status)) => status.description().to_string(),
        _ => panic!("no status"),
    }
}

fn current(memory: &Memory) -> CellNumber {
    memory.get().unwrap().number()
}

#[test]
fn default_options() {
    let options = MemoryOptions::new();
    assert_eq!(options.lowest(), 0);
    assert_eq!(options.highest(), 256);
    assert!(options.is_valid());
    let memory = options.assume_and_generate();
    assert_eq!(memory.len(), 65535);
    assert_eq!(memory.pointer(), 0);
    assert_eq!(current(&memory), 0);
    assert!(memory.options().is_valid());
    assert_eq!(memory.options().highest(), 256);
    let other = MemoryOptions::default();
    assert_eq!(other.lowest(), 0);
    assert_eq!(other.highest(), 256);
}

#[test]
fn setters_chain() {
    let mut options = MemoryOptions::new();
    options.lower_bound(-5).upper_bound(5).initial_length(3).variable_length(true);
    assert_eq!(options.lowest(), -5);
    assert_eq!(options.highest(), 6);
    let memory = Memory::new(options);
    assert_eq!(memory.len(), 3);
    assert_eq!(current(&memory), -5);
}

#[test]
fn highest_is_one_above_the_upper_bound() {
    let mut options = MemoryOptions::new();
    options.upper_bound(99);
    assert_eq!(options.highest(), 100);
    options.upper_bound(-1);
    assert_eq!(options.highest(), 0);
    options.upper_bound(CellNumber::MAX - 1);
    assert_eq!(options.highest(), CellNumber::MAX);
}

#[test]
fn highest_of_the_greatest_upper_bound_is_itself() {
    let mut options = MemoryOptions::new();
    options.upper_bound(CellNumber::MAX);
    assert_eq!(options.highest(), CellNumber::MAX);
}

#[test]
fn options_with_bounds_in_the_wrong_order_are_invalid() {
    let mut options = MemoryOptions::new();
    options.lower_bound(10).upper_bound(10);
    assert!(!options.is_valid());
    options.upper_bound(9);
    assert!(!options.is_valid());
    options.upper_bound(11);
    assert!(options.is_valid());
}

#[test]
fn options_with_the_greatest_upper_bound_are_valid() {
    let mut options = MemoryOptions::new();
    options.lower_bound(CellNumber::MAX).upper_bound(CellNumber::MAX);
    assert!(options.is_valid());
}

#[test]
fn options_without_a_cell_are_invalid() {
    let mut options = MemoryOptions::new();
    options.initial_length(0);
    assert!(!options.is_valid());
    options.upper_bound(CellNumber::MAX);
    assert!(!options.is_valid());
    options.initial_length(1);
    assert!(options.is_valid());
}

#[test]
fn generate_fails_on_invalid_options() {
    let mut options = MemoryOptions::new();
    options.lower_bound(300);
    let error = options.generate().unwrap_err();
    assert_eq!(error.kind(), std::io::ErrorKind::InvalidData);
    let text = format!("{}", error);
    assert!(text.starts_with("This set of MemoryOptions is invalid: MemoryOptions {"));
    assert!(text.contains("lower_bound: 300"));
    let error = Memory::with_validation(options).unwrap_err();
    assert_eq!(error.kind(), std::io::ErrorKind::InvalidData);
}

#[test]
fn generate_makes_a_memory_from_valid_options() {
    let mut options = MemoryOptions::new();
    options.initial_length(4).lower_bound(2);
    options.validate();
    let memory = options.generate().unwrap();
    assert_eq!(memory.len(), 4);
    assert_eq!(memory.pointer(), 0);
    assert_eq!(current(&memory), 2);
    let memory = Memory::with_validation(options).unwrap();
    assert_eq!(memory.len(), 4);
    assert_eq!(current(&memory), 2);
}

#[test]
fn increment_and_decrement_change_the_current_cell() {
    let mut memory = small(3, false);
    assert_eq!(status_text(&memory.increment()), "Increment successful");
    assert_eq!(status_text(&memory.increment()), "Increment successful");
    assert_eq!(current(&memory), 2);
    assert_eq!(status_text(&memory.decrement()), "Decrement successful");
    assert_eq!(current(&memory), 1);
    assert!(memory.next().is_ok());
    assert_eq!(current(&memory), 0);
    assert!(memory.previous().is_ok());
    assert_eq!(current(&memory), 1);
}

#[test]
fn decrement_at_lower_bound_wraps_to_upper_bound() {
    let mut memory = small(1, false);
    assert!(memory.decrement().is_ok());
    assert_eq!(current(&memory), 255);
    assert!(memory.increment().is_ok());
    assert_eq!(current(&memory), 0);
}

#[test]
fn previous_from_the_first_cell_goes_to_the_last() {
    for length in [1usize, 2, 9] {
        let mut memory = small(length, false);
        assert_eq!(
            status_text(&memory.previous()),
            "Successfully moved pointer to the previous cell."
        );
        assert_eq!(memory.pointer(), length - 1);
        assert_eq!(memory.len(), length);
    }
}

#[test]
fn next_from_the_last_cell_of_a_fixed_tape_goes_to_the_first() {
    let mut memory = small(3, false);
    assert!(memory.next().is_ok());
    assert!(memory.next().is_ok());
    assert_eq!(memory.pointer(), 2);
    assert_eq!(
        status_text(&memory.next()),
        "Successfully moved pointer to the next cell."
    );
    assert_eq!(memory.pointer(), 0);
    assert_eq!(memory.len(), 3);
}

#[test]
fn next_from_the_last_cell_of_a_growing_tape_adds_a_cell() {
    let mut options = MemoryOptions::new();
    options.initial_length(2).variable_length(true).lower_bound(-3);
    let mut memory = Memory::new(options);
    assert!(memory.next().is_ok());
    assert_eq!(memory.len(), 2);
    assert!(memory.increment().is_ok());
    assert!(memory.next().is_ok());
    assert_eq!(memory.pointer(), 2);
    assert_eq!(memory.len(), 3);
    assert_eq!(current(&memory), -3);
    assert!(memory.previous().is_ok());
    assert_eq!(current(&memory), -2);
    assert!(memory.previous().is_ok());
    assert!(memory.previous().is_ok());
    assert_eq!(memory.pointer(), 2);
}

#[test]
fn read_out_shows_the_current_cell() {
    let mut memory = small(1, false);
    for _ in 0..66 {
        assert!(memory.increment().is_ok());
    }
    let mut output = ' ';
    assert_eq!(status_text(&memory.read_out(&mut output)), "Output char: OK");
    assert_eq!(output, 'B');
}

#[test]
fn write_in_takes_a_character() {
    let mut memory = small(1, false);
    assert_eq!(status_text(&memory.write_in('z')), "Input char: OK");
    assert_eq!(current(&memory), 122);
    assert!(memory.write_in('\u{101}').is_ok());
    assert_eq!(current(&memory), 1);
}

#[test]
fn is_zero_and_is_not_zero() {
    let mut memory = small(1, false);
    let mut zero = false;
    assert!(memory.is_zero(&mut zero).is_ok());
    assert!(zero);
    let mut not_zero = true;
    assert!(memory.is_not_zero(&mut not_zero).is_ok());
    assert!(!not_zero);
    assert!(memory.increment().is_ok());
    assert!(memory.is_zero(&mut zero).is_ok());
    assert!(!zero);
    assert!(memory.is_not_zero(&mut not_zero).is_ok());
    assert!(not_zero);
}

#[test]
fn flatten_resets_every_cell() {
    let mut options = MemoryOptions::new();
    options.initial_length(3).lower_bound(4).upper_bound(9);
    let mut memory = Memory::new(options);
    assert!(memory.increment().is_ok());
    assert!(memory.next().is_ok());
    assert!(memory.decrement().is_ok());
    assert_eq!(current(&memory), 9);
    memory.flatten();
    assert_eq!(memory.pointer(), 1);
    for _ in 0..3 {
        assert_eq!(current(&memory), 4);
        assert!(memory.next().is_ok());
    }
}

#[test]
fn clone_is_independent() {
    let mut memory = small(2, false);
    assert!(memory.increment().is_ok());
    let copy = memory.clone();
    assert!(memory.increment().is_ok());
    assert_eq!(current(&copy), 1);
    assert_eq!(current(&memory), 2);
    assert_eq!(copy.len(), 2);
}

#[test]
fn cells_stay_between_ordinary_bounds() {
    let mut options = MemoryOptions::new();
    options.initial_length(2).lower_bound(-2).upper_bound(2);
    let mut memory = Memory::new(options);
    let inputs = ['a', '\u{0}', '\u{10FFFF}', '~'];
    for round in 0..40 {
        let request = match round % 4 {
            0 => Request::Increment,
            1 => Request::WriteIn(inputs[(round / 4) % 4]),
            2 => Request::Decrement,
            _ => Request::Next,
        };
        assert!(memory.permits(request));
        let event = match request {
            Request::Increment => memory.increment(),
            Request::Decrement => memory.decrement(),
            Request::WriteIn(input) => memory.write_in(input),
            _ => memory.next(),
        };
        assert!(event.is_ok());
        let value = current(&memory);
        assert!(-2 <= value && value <= 2);
    }
}

#[test]
fn permits_refuses_arithmetic_that_does_not_fit() {
    let mut options = MemoryOptions::new();
    options.initial_length(1).lower_bound(-5).upper_bound(-1);
    let mut memory = Memory::new(options);
    for _ in 0..4 {
        assert!(memory.permits(Request::Increment));
        assert!(memory.increment().is_ok());
    }
    assert_eq!(current(&memory), -1);
    assert!(!memory.permits(Request::Increment));
    assert!(memory.permits(Request::Decrement));
    assert!(!memory.permits(Request::WriteIn('a')));
    assert!(memory.permits(Request::Next));
    assert!(memory.permits(Request::Previous));
    assert!(memory.permits(Request::ReadOut));
    assert!(memory.permits(Request::IsZero));
}
