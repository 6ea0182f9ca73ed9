use brainfucklib::code::runner::settle;
use brainfucklib::code::{BfCommand, BfProgram, BfRunner, BfToken, CommandRunner, Span};
use brainfucklib::debug::{
    BfDebugger, BfError, BfErrorKind, Debugger, ErrEvent, ErrorLog, Event, OkEvent, Status,
};
use brainfucklib::parser::{BfParser, NormalParser};
use brainfucklib::vm::{Memory, MemoryOptions};

fn prepared(source: &str) -> BfProgram {
    let mut program = BfProgram::new();
    assert!(NormalParser::parse_string(source, &mut program).is_ok());
    assert!(program.populate_map().is_ok());
    assert!(program.calculate_map().is_ok());
    program
}

fn engine(source: &str, options: MemoryOptions) -> BfRunner {
    BfRunner::new(
        Box::new(prepared(source)),
        Box::new(Memory::new(options)),
        Some(BfDebugger::new().with_max_length(1000)),
    )
}

fn short_tape() -> MemoryOptions {
    let mut options = MemoryOptions::new();
    options.initial_length(8);
    options
}

fn run_all(runner: &mut BfRunner, input: &str) -> (String, usize) {
    let mut input = input.chars();
    let mut shown = String::new();
    let mut steps = 0;
    loop {
        let next = match runner.current_command() {
            Some(BfCommand::Write) => input.next(),
            _ => None,
        };
        assert!(runner.can_run_once(next));
        let mut output = None;
        let result = runner.run_once(next, &mut output);
        if let Some(character) = output {
            shown.push(character);
        }
        if result.is_none() {
            return (shown, steps);
        }
        steps += 1;
        assert!(steps < 1_000_000);
    }
}

fn last_error(runner: &BfRunner) -> BfError {
    match runner.get_debugger().unwrap().last_event() {
        Some(Err(ErrEvent::Error(error))) => error.clone(),
        _ => panic!("no error"),
    }
}

#[test]
fn two_increments_and_a_read_show_code_point_two() {
    let mut runner = engine("++.", MemoryOptions::new());
    let (shown, steps) = run_all(&mut runner, "");
    assert_eq!(shown, "\u{2}");
    assert_eq!(steps, 3);
    assert_eq!(runner.program_pointer(), 3);
    assert_eq!(runner.get_memory().get().unwrap().number(), 2);
    let debugger = runner.get_debugger().unwrap();
    assert_eq!(debugger.total_events(), 3);
    assert!(debugger.all_ok());
}

#[test]
fn empty_loop_on_zero_cell_takes_two_steps() {
    let mut runner = engine("[]", short_tape());
    let mut output = None;
    assert_eq!(runner.run_once(None, &mut output), Some(()));
    assert_eq!(output, None);
    assert_eq!(runner.program_pointer(), 2);
    assert_eq!(runner.run_once(None, &mut output), None);
    assert_eq!(runner.program_pointer(), 2);
    let debugger = runner.get_debugger().unwrap();
    assert_eq!(debugger.total_events(), 1);
    assert_eq!(debugger.total_err(), 0);
    assert_eq!(runner.get_memory().pointer(), 0);
    assert_eq!(runner.get_memory().get().unwrap().number(), 0);
}

#[test]
fn empty_loop_completes_without_errors() {
    let mut runner = engine("[]", short_tape());
    let (shown, steps) = run_all(&mut runner, "");
    assert_eq!(shown, "");
    assert!(steps <= 2);
    assert!(runner.get_debugger().unwrap().all_ok());
    assert_eq!(runner.get_memory().pointer(), 0);
    assert_eq!(runner.get_memory().get().unwrap().number(), 0);
    assert_eq!(runner.current_command(), None);
}

#[test]
fn unmatched_open_never_reaches_the_engine() {
    let mut program = BfProgram::new();
    assert!(NormalParser::parse_string("[", &mut program).is_ok());
    assert!(program.populate_map().is_ok());
    match program.calculate_map() {
        Err(ErrEvent::Error(error)) => {
            assert_eq!(error.kind(), BfErrorKind::UnmatchedLeftBracket);
            assert_eq!(error.description(), "Unmatched [ at 0");
        }
        _ => panic!("no error"),
    }
}

#[test]
fn decrement_at_zero_wraps_to_the_upper_bound() {
    let mut runner = engine("-", short_tape());
    let (_, steps) = run_all(&mut runner, "");
    assert_eq!(steps, 1);
    assert_eq!(runner.get_memory().get().unwrap().number(), 255);
    let mut options = short_tape();
    options.upper_bound(9);
    let mut runner = engine("-", options);
    run_all(&mut runner, "");
    assert_eq!(runner.get_memory().get().unwrap().number(), 9);
}

#[test]
fn loop_runs_until_the_cell_is_zero() {
    let mut runner = engine("+++[>++<-]>.", short_tape());
    let (shown, steps) = run_all(&mut runner, "");
    assert_eq!(shown, "\u{6}");
    assert_eq!(steps, 3 + 1 + 3 * 6 + 2);
    assert_eq!(runner.get_memory().pointer(), 1);
}

#[test]
fn loop_is_skipped_on_a_zero_cell() {
    let mut runner = engine("[+++.]+.", short_tape());
    let (shown, steps) = run_all(&mut runner, "");
    assert_eq!(shown, "\u{1}");
    assert_eq!(steps, 3);
}

#[test]
fn nested_loops_multiply() {
    let mut runner = engine("++[>+++[>++++<-]<-]>>.", short_tape());
    let (shown, _) = run_all(&mut runner, "");
    assert_eq!(shown, "\u{18}");
}

#[test]
fn hello() {
    let source = "++++++++[>++++[>++>+++>+++>+<<<<-]>+>+>->>+[<]<-]>>.>---.+++++++..+++.";
    let mut options = MemoryOptions::new();
    options.initial_length(30);
    let mut runner = engine(source, options);
    let (shown, _) = run_all(&mut runner, "");
    assert_eq!(shown, "Hello");
}

#[test]
fn write_takes_the_input() {
    let mut runner = engine(",+.,.", short_tape());
    let (shown, steps) = run_all(&mut runner, "ax");
    assert_eq!(shown, "bx");
    assert_eq!(steps, 5);
}

#[test]
fn write_without_input_is_an_error() {
    let mut runner = engine("+,+", short_tape());
    let (shown, steps) = run_all(&mut runner, "");
    assert_eq!(shown, "");
    assert_eq!(steps, 1);
    let error = last_error(&runner);
    assert_eq!(error.kind(), BfErrorKind::Other);
    assert_eq!(error.description(), "Could not read user input.");
    assert_eq!(runner.program_pointer(), 2);
    assert_eq!(runner.get_memory().get().unwrap().number(), 1);
    let debugger = runner.get_debugger().unwrap();
    assert_eq!(debugger.total_events(), 2);
    assert_eq!(debugger.total_err(), 1);
    assert!(debugger.is_err());
}

#[test]
fn bracket_without_partner_is_a_fatal_error() {
    let mut program = BfProgram::new();
    assert!(NormalParser::parse_string("  [", &mut program).is_ok());
    let mut runner: BfRunner =
        BfRunner::new(Box::new(program), Box::new(Memory::new(short_tape())), Some(BfDebugger::new()));
    let mut output = None;
    assert_eq!(runner.run_once(None, &mut output), None);
    let error = last_error(&runner);
    assert_eq!(error.kind(), BfErrorKind::UnmatchedLeftBracket);
    assert_eq!(error.description(), "Could not get matching right bracket for 2");
    assert_eq!(runner.program_pointer(), 1);

    let mut program = BfProgram::new();
    assert!(NormalParser::parse_string("+ ]", &mut program).is_ok());
    let mut runner: BfRunner =
        BfRunner::new(Box::new(program), Box::new(Memory::new(short_tape())), Some(BfDebugger::new()));
    assert_eq!(runner.run_once(None, &mut output), Some(()));
    assert_eq!(runner.run_once(None, &mut output), None);
    let error = last_error(&runner);
    assert_eq!(error.kind(), BfErrorKind::UnmatchedRightBracket);
    assert_eq!(error.description(), "Could not get matching left bracket for 2");
}

#[test]
fn bracket_without_partner_passes_where_it_does_not_jump() {
    let mut program = BfProgram::new();
    assert!(NormalParser::parse_string("+[+", &mut program).is_ok());
    let mut runner: BfRunner =
        BfRunner::new(Box::new(program), Box::new(Memory::new(short_tape())), Some(BfDebugger::new()));
    let (_, steps) = run_all(&mut runner, "");
    assert_eq!(steps, 3);
    assert!(runner.get_debugger().unwrap().all_ok());
    assert_eq!(runner.get_memory().get().unwrap().number(), 2);

    let mut program = BfProgram::new();
    assert!(NormalParser::parse_string("]+", &mut program).is_ok());
    let mut runner: BfRunner =
        BfRunner::new(Box::new(program), Box::new(Memory::new(short_tape())), Some(BfDebugger::new()));
    let (_, steps) = run_all(&mut runner, "");
    assert_eq!(steps, 2);
    assert!(runner.get_debugger().unwrap().all_ok());
}

#[test]
fn settle_decides_event_and_next_command() {
    let open = BfToken::new(BfCommand::IfZero, Span::new(40, 41));
    let close = BfToken::new(BfCommand::IfNotZero, Span::new(50, 51));
    let plain = BfToken::new(BfCommand::Increment, Span::new(60, 61));
    let fine = || -> Event { Ok(OkEvent::Status(Status::new("fine"))) };
    let failed = || -> Event { Err(ErrEvent::Warning(brainfucklib::debug::Warning::new("no"))) };

    let (event, next) = settle(open, 3, Some(9), fine(), true);
    assert!(event.is_ok());
    assert_eq!(next, 10);
    let (event, next) = settle(open, 3, Some(9), fine(), false);
    assert!(event.is_ok());
    assert_eq!(next, 4);
    let (event, next) = settle(close, 9, Some(3), fine(), false);
    assert!(event.is_ok());
    assert_eq!(next, 4);
    let (event, next) = settle(close, 9, Some(3), fine(), true);
    assert!(event.is_ok());
    assert_eq!(next, 10);
    let (event, next) = settle(plain, 5, Some(1), fine(), true);
    assert!(event.is_ok());
    assert_eq!(next, 6);
    let (event, next) = settle(open, 3, Some(9), failed(), true);
    assert_eq!(event.unwrap_err().to_string(), "Warning: no");
    assert_eq!(next, 4);
    let (event, next) = settle(open, 3, None, fine(), false);
    assert!(event.is_ok());
    assert_eq!(next, 4);
    let (event, next) = settle(open, 3, None, fine(), true);
    assert_eq!(
        event.unwrap_err().to_string(),
        "UnmatchedLeftBracket: Could not get matching right bracket for 40"
    );
    assert_eq!(next, 4);
    let (event, next) = settle(close, 9, None, fine(), false);
    assert_eq!(
        event.unwrap_err().to_string(),
        "UnmatchedRightBracket: Could not get matching left bracket for 50"
    );
    assert_eq!(next, 10);
}

#[test]
fn engine_without_a_sink() {
    let mut runner: BfRunner =
        BfRunner::new(Box::new(prepared("+++.")), Box::new(Memory::new(short_tape())), None);
    assert!(runner.get_debugger().is_none());
    let (shown, steps) = run_all(&mut runner, "");
    assert_eq!(shown, "\u{3}");
    assert_eq!(steps, 4);
    assert_eq!(runner.get_program().len(), 4);
}

#[test]
fn pointer_moves_wrap_on_a_fixed_tape() {
    let mut runner = engine("<+>>>>>>>>.", short_tape());
    let (shown, _) = run_all(&mut runner, "");
    assert_eq!(shown, "\u{1}");
    assert_eq!(runner.get_memory().pointer(), 7);
    assert_eq!(runner.get_memory().len(), 8);
}

#[test]
fn pointer_moves_grow_a_variable_tape() {
    let mut options = MemoryOptions::new();
    options.initial_length(2).variable_length(true);
    let mut runner = engine(">>>+.", options);
    let (shown, _) = run_all(&mut runner, "");
    assert_eq!(shown, "\u{1}");
    assert_eq!(runner.get_memory().pointer(), 3);
    assert_eq!(runner.get_memory().len(), 4);
}

#[test]
fn can_run_once_refuses_what_the_machine_cannot_do() {
    let mut options = MemoryOptions::new();
    options.initial_length(1).lower_bound(-3).upper_bound(-1);
    let mut runner = engine("+++", options);
    let mut output = None;
    assert!(runner.can_run_once(None));
    assert_eq!(runner.run_once(None, &mut output), Some(()));
    assert!(runner.can_run_once(None));
    assert_eq!(runner.run_once(None, &mut output), Some(()));
    assert_eq!(runner.get_memory().get().unwrap().number(), -1);
    assert!(!runner.can_run_once(None));
}

struct Counter {
    value: u8,
    asked: usize,
}

impl CommandRunner for Counter {
    fn increment(&mut self) -> Event {
        self.asked += 1;
        self.value = self.value.wrapping_add(1);
        Ok(OkEvent::Status(Status::new("up")))
    }

    fn decrement(&mut self) -> Event {
        self.asked += 1;
        if self.value == 0 {
            return Err(ErrEvent::Error(BfError::new(BfErrorKind::CellOverflow, "below zero")));
        }
        self.value -= 1;
        Ok(OkEvent::Status(Status::new("down")))
    }

    fn previous(&mut self) -> Event {
        self.asked += 1;
        Err(ErrEvent::Error(BfError::new(BfErrorKind::PointerError, "one cell only")))
    }

    fn next(&mut self) -> Event {
        self.asked += 1;
        Err(ErrEvent::Error(BfError::new(BfErrorKind::PointerError, "one cell only")))
    }

    fn read_out(&self, output: &mut char) -> Event {
        *output = (b'0' + self.value % 10) as char;
        Ok(OkEvent::Status(Status::new("shown")))
    }

    fn write_in(&mut self, input: char) -> Event {
        self.asked += 1;
        self.value = input as u8;
        Ok(OkEvent::Status(Status::new("taken")))
    }

    fn is_zero(&self, output: &mut bool) -> Event {
        *output = self.value == 0;
        Ok(OkEvent::Status(Status::new("asked")))
    }
}

struct Tally {
    good: usize,
    bad: usize,
    last: Option<Event>,
}

impl Debugger for Tally {
    fn clear(&mut self) {
        self.last = None;
    }

    fn push(&mut self, event: Event) {
        if event.is_ok() {
            self.good += 1;
        } else {
            self.bad += 1;
        }
        self.last = Some(event);
    }

    fn total_events(&self) -> usize {
        self.good + self.bad
    }

    fn total_ok(&self) -> usize {
        self.good
    }

    fn to_err_log(&self, error_log: &mut ErrorLog) {
        if let Some(Err(error)) = &self.last {
            error_log.push(self.good + self.bad - 1, error.clone());
        }
    }

    fn last_event(&self) -> Option<&Event> {
        self.last.as_ref()
    }

    fn is_ok(&self) -> bool {
        matches!(self.last, Some(Ok(_)))
    }
}

#[test]
fn engine_runs_on_another_machine_and_sink() {
    let machine = Counter { value: 0, asked: 0 };
    let sink = Tally { good: 0, bad: 0, last: None };
    let mut runner = BfRunner::new(Box::new(prepared("+++[-]+.>+")), Box::new(machine), Some(sink));
    let mut shown = String::new();
    let mut steps = 0;
    loop {
        let mut output = None;
        let result = runner.run_once(None, &mut output);
        if let Some(character) = output {
            shown.push(character);
        }
        if result.is_none() {
            break;
        }
        steps += 1;
    }
    assert_eq!(shown, "1");
    assert_eq!(steps, 3 + 1 + 3 * 2 + 2);
    assert_eq!(runner.program_pointer(), 9);
    assert_eq!(runner.get_memory().value, 1);
    let sink = runner.get_debugger().unwrap();
    assert_eq!(sink.total_events(), 13);
    assert_eq!(sink.total_ok(), 12);
    assert_eq!(sink.total_err(), 1);
    assert!(sink.is_err());
    assert!(!sink.all_ok());
    let mut errors = ErrorLog::new();
    sink.to_err_log(&mut errors);
    assert_eq!(errors.entries().len(), 1);
    assert_eq!(errors.entries()[0].0, 12);
}

#[test]
fn is_not_zero_is_the_opposite_of_is_zero() {
    let machine = Counter { value: 0, asked: 0 };
    let mut answer = true;
    assert!(machine.is_not_zero(&mut answer).is_ok());
    assert!(!answer);
    let machine = Counter { value: 4, asked: 0 };
    assert!(machine.is_not_zero(&mut answer).is_ok());
    assert!(answer);
    assert_eq!(machine.asked, 0);
}

#[test]
fn a_token_of_the_engine_is_what_was_pushed() {
    let mut program = BfProgram::new();
    program.push(BfToken::new(BfCommand::Read, Span::new(4, 5)));
    let runner: BfRunner =
        BfRunner::new(Box::new(program), Box::new(Memory::new(short_tape())), None);
    assert_eq!(runner.current_command(), Some(BfCommand::Read));
    assert_eq!(runner.program_pointer(), 0);
}
