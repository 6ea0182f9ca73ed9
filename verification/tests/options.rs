use brainfucklib::app::{AppOptions, ArgValues, ProgramOptions};
use brainfucklib::code::CommandRunner;
use brainfucklib::vm::CellNumber;

fn nothing() -> ArgValues {
    ArgValues {
        input: None,
        raw: None,
        verbose: 0,
        celllower: None,
        cellupper: None,
        memorysize: None,
        variablelength: None,
        newparser: false,
    }
}

fn text(value: &str) -> Option<String> {
    Some(value.to_string())
}

#[test]
fn options_need_a_program() {
    let error = AppOptions::from_matches(&nothing()).unwrap_err();
    assert_eq!(error.kind(), std::io::ErrorKind::InvalidInput);
    assert_eq!(error.to_string(), "No input program detected.");
}

#[test]
fn a_path_comes_before_a_raw_program() {
    let mut values = nothing();
    values.input = text("hello.bf");
    values.raw = text("+.");
    let options = AppOptions::from_matches(&values).unwrap();
    match options.program {
        ProgramOptions::Path(path) => assert_eq!(path, "hello.bf"),
        ProgramOptions::Raw(_) => panic!("raw"),
    }
    values.input = None;
    let options = AppOptions::from_matches(&values).unwrap();
    match options.program {
        ProgramOptions::Raw(program) => assert_eq!(program, "+."),
        ProgramOptions::Path(_) => panic!("path"),
    }
}

#[test]
fn options_default_to_the_default_memory() {
    let mut values = nothing();
    values.raw = text("+");
    let options = AppOptions::from_matches(&values).unwrap();
    assert_eq!(options.verbosity, 0);
    assert!(!options.new_parser);
    assert_eq!(options.memory_options.lowest(), 0);
    assert_eq!(options.memory_options.highest(), 256);
    assert_eq!(options.memory_options.assume_and_generate().len(), 65535);
}

#[test]
fn options_read_what_was_written() {
    let mut values = nothing();
    values.raw = text("+");
    values.verbose = 3;
    values.celllower = text("-12");
    values.cellupper = text("+40");
    values.memorysize = text("7");
    values.variablelength = text("true");
    values.newparser = true;
    let options = AppOptions::from_matches(&values).unwrap();
    assert_eq!(options.verbosity, 3);
    assert!(options.new_parser);
    assert_eq!(options.memory_options.lowest(), -12);
    assert_eq!(options.memory_options.highest(), 41);
    let mut memory = options.memory_options.assume_and_generate();
    assert_eq!(memory.len(), 7);
    for _ in 0..7 {
        assert!(memory.next().is_ok());
    }
    assert_eq!(memory.len(), 8);
    assert_eq!(memory.pointer(), 7);
}

#[test]
fn verbosity_keeps_the_low_bits() {
    let mut values = nothing();
    values.raw = text("+");
    values.verbose = 258;
    assert_eq!(AppOptions::from_matches(&values).unwrap().verbosity, 2);
}

#[test]
fn what_cannot_be_read_is_invalid_data() {
    for field in 0..4 {
        let mut values = nothing();
        values.raw = text("+");
        match field {
            0 => values.celllower = text("low"),
            1 => values.cellupper = text("1.5"),
            2 => values.memorysize = text("-1"),
            _ => values.variablelength = text("yes"),
        }
        let error = AppOptions::from_matches(&values).unwrap_err();
        assert_eq!(error.kind(), std::io::ErrorKind::InvalidData);
        assert!(!error.to_string().is_empty());
    }
}

#[test]
fn numbers_are_read_in_full() {
    let mut values = nothing();
    values.raw = text("+");
    values.celllower = text(&CellNumber::MIN.to_string());
    values.cellupper = text(&(CellNumber::MAX - 1).to_string());
    values.variablelength = text("false");
    let options = AppOptions::from_matches(&values).unwrap();
    assert_eq!(options.memory_options.lowest(), CellNumber::MIN);
    assert_eq!(options.memory_options.highest(), CellNumber::MAX);
    values.cellupper = text("170141183460469231731687303715884105728");
    assert!(AppOptions::from_matches(&values).is_err());
}

#[test]
fn from_parsed_takes_what_was_read() {
    let options = AppOptions::from_parsed(
        None,
        text("+"),
        1,
        Some(Ok(5)),
        None,
        Some(Ok(2)),
        Some(Ok(true)),
        true,
    )
    .unwrap();
    assert_eq!(options.verbosity, 1);
    assert_eq!(options.memory_options.lowest(), 5);
    assert_eq!(options.memory_options.highest(), 256);
    assert_eq!(options.memory_options.assume_and_generate().len(), 2);
    let error = AppOptions::from_parsed(
        text("a.bf"),
        None,
        0,
        None,
        Some(Err("not a number".to_string())),
        None,
        None,
        false,
    )
    .unwrap_err();
    assert_eq!(error.kind(), std::io::ErrorKind::InvalidData);
    assert_eq!(error.to_string(), "not a number");
}

#[test]
fn with_verbosity_calls_back_from_the_minimum_on() {
    let mut values = nothing();
    values.raw = text("+");
    values.verbose = 2;
    let options = AppOptions::from_matches(&values).unwrap();
    let mut calls = Vec::new();
    options.with_verbosity(1, |options| calls.push(options.verbosity));
    options.with_verbosity(2, |options| calls.push(options.verbosity + 10));
    options.with_verbosity(3, |options| calls.push(options.verbosity + 20));
    assert_eq!(calls, vec![2, 12]);
}
