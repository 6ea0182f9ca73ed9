use brainfucklib::code::BfCommand;
use brainfucklib::debug::{BfError, BfErrorKind, ErrEvent, OkEvent, Status, Warning};

#[test]
fn status_shows_its_description() {
    let status = Status::new("all well");
    assert_eq!(status.description(), "all well");
    assert_eq!(status.to_string(), "Status: all well");
    assert_eq!(status.clone().description(), "all well");
}

#[test]
fn warning_shows_its_description() {
    let warning = Warning::new("mind the gap");
    assert_eq!(warning.description(), "mind the gap");
    assert_eq!(warning.to_string(), "Warning: mind the gap");
    assert_eq!(warning.clone().description(), "mind the gap");
}

#[test]
fn error_shows_kind_and_description() {
    let error = BfError::new(BfErrorKind::OutOfBounds, "Could not get cell with pointer");
    assert_eq!(error.kind(), BfErrorKind::OutOfBounds);
    assert_eq!(error.description(), "Could not get cell with pointer");
    assert_eq!(error.to_string(), "OutOfBounds: Could not get cell with pointer");
    assert_eq!(error.clone().to_string(), error.to_string());
}

#[test]
fn every_kind_has_its_name() {
    let kinds = [
        (BfErrorKind::UnrecognizedCommand, "UnrecognizedCommand"),
        (BfErrorKind::UnmatchedLeftBracket, "UnmatchedLeftBracket"),
        (BfErrorKind::UnmatchedRightBracket, "UnmatchedRightBracket"),
        (BfErrorKind::BadProgram, "BadProgram"),
        (BfErrorKind::ParsingError, "ParsingError"),
        (BfErrorKind::OutOfBounds, "OutOfBounds"),
        (BfErrorKind::PointerError, "PointerError"),
        (BfErrorKind::CellOverflow, "CellOverflow"),
        (BfErrorKind::Other, "Other"),
    ];
    for (kind, name) in kinds {
        assert_eq!(kind.as_str(), name);
        assert_eq!(kind.to_string(), name);
    }
}

#[test]
fn events_show_what_they_carry() {
    assert_eq!(OkEvent::Status(Status::new("a")).to_string(), "Status: a");
    assert_eq!(OkEvent::Warning(Warning::new("b")).to_string(), "Warning: b");
    assert_eq!(ErrEvent::Warning(Warning::new("c")).to_string(), "Warning: c");
    assert_eq!(
        ErrEvent::Error(BfError::new(BfErrorKind::Other, "d")).to_string(),
        "Other: d"
    );
    assert_eq!(OkEvent::Status(Status::new("a")).clone().to_string(), "Status: a");
    assert_eq!(ErrEvent::Warning(Warning::new("c")).clone().to_string(), "Warning: c");
}

#[test]
fn command_from_its_string() {
    let commands = [
        ("+", BfCommand::Increment),
        ("-", BfCommand::Decrement),
        ("<", BfCommand::Previous),
        (">", BfCommand::Next),
        (".", BfCommand::Read),
        (",", BfCommand::Write),
        ("[", BfCommand::IfZero),
        ("]", BfCommand::IfNotZero),
    ];
    for (text, command) in commands {
        assert_eq!(BfCommand::new(text).unwrap(), command);
        assert_eq!(command.as_str(), text);
        assert_eq!(command.to_string(), text);
        assert_eq!(BfCommand::from_char(command.to_char()), Some(command));
    }
}

#[test]
fn unknown_command_is_refused() {
    for text in ["x", "", "++", "é", "+ "] {
        let error = BfCommand::new(text).unwrap_err();
        assert_eq!(error.kind(), BfErrorKind::UnrecognizedCommand);
        assert_eq!(error.description(), format!("{} is not a valid command.", text));
    }
    assert_eq!(BfCommand::from_char('x'), None);
}
