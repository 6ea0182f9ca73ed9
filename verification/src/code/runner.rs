//! The engine: it runs the commands of a program on a machine, one at a
//! time, and reports each step to a sink if it has one.

use vstd::prelude::*;
use vstd::string::StringExecFns;
use crate::debug::debugger::{pushed, BfDebugger, Debugger};
use crate::debug::{BfError, BfErrorKind, ErrEvent, Event};
use crate::text::{decimal, write_position};
use crate::vm::Memory;
use super::brackets::Bracket;
use super::command_traits::{is_character, CommandRunner, Reply, Request};
use super::commands::{BfCommand, BfToken};
use super::program::{BfProgram, ProgramView};

verus! {

/// What the machine is asked to do for `command`. To write, a character of
/// input is needed; without one nothing is asked.
pub open spec fn request_of(command: BfCommand, input: Option<char>) -> Option<Request> {
    match command {
        BfCommand::Increment => Some(Request::Increment),
        BfCommand::Decrement => Some(Request::Decrement),
        BfCommand::Previous => Some(Request::Previous),
        BfCommand::Next => Some(Request::Next),
        BfCommand::Read => Some(Request::ReadOut),
        BfCommand::Write => match input {
            Some(input) => Some(Request::WriteIn(input)),
            None => None,
        },
        BfCommand::IfZero => Some(Request::IsZero),
        BfCommand::IfNotZero => Some(Request::IsZero),
    }
}

/// What the machine is asked to do for `command`, with `input` as the
/// character to write if there is one.
pub fn request_for(command: BfCommand, input: Option<char>) -> (request: Option<Request>)
    ensures
        request == request_of(command, input),
{
    match command {
        BfCommand::Increment => Some(Request::Increment),
        BfCommand::Decrement => Some(Request::Decrement),
        BfCommand::Previous => Some(Request::Previous),
        BfCommand::Next => Some(Request::Next),
        BfCommand::Read => Some(Request::ReadOut),
        BfCommand::Write => match input {
            Some(input) => Some(Request::WriteIn(input)),
            None => None,
        },
        BfCommand::IfZero => Some(Request::IsZero),
        BfCommand::IfNotZero => Some(Request::IsZero),
    }
}

/// Whether `command` is a bracket.
pub open spec fn is_loop(command: BfCommand) -> bool {
    command == BfCommand::IfZero || command == BfCommand::IfNotZero
}

/// Whether `command` jumps to its partner when the current cell is zero or
/// not, as `zero` says: `[` jumps on zero, `]` on anything else.
pub open spec fn jumps(command: BfCommand, zero: bool) -> bool {
    command == BfCommand::IfZero && zero || command == BfCommand::IfNotZero && !zero
}

/// Whether the step of `command` fails for want of a partner: the machine
/// answered without an error, the bracket is to jump, and the table has no
/// partner for it.
pub open spec fn lost(
    command: BfCommand,
    counterpart: Option<usize>,
    answer: Event,
    zero: bool,
) -> bool {
    answer is Ok && jumps(command, zero) && counterpart is None
}

/// The description of the error for a bracket without a partner whose token
/// starts at `start`.
pub open spec fn lost_text(command: BfCommand, start: usize) -> Seq<char> {
    if command == BfCommand::IfZero {
        "Could not get matching right bracket for "@ + decimal(start as nat)
    } else {
        "Could not get matching left bracket for "@ + decimal(start as nat)
    }
}

/// Whether `event` is what the step of `token` reports when the machine
/// answered `answer`: the answer itself, or, for a bracket that is to jump
/// and has no partner, an error that names the bracket.
pub open spec fn settles(
    token: BfToken,
    counterpart: Option<usize>,
    answer: Event,
    zero: bool,
    event: Event,
) -> bool {
    if lost(token.command(), counterpart, answer, zero) {
        &&& event matches Err(ErrEvent::Error(error))
        &&& error.kind() == if token.command() == BfCommand::IfZero {
            BfErrorKind::UnmatchedLeftBracket
        } else {
            BfErrorKind::UnmatchedRightBracket
        }
        &&& error.spec_description() == lost_text(token.command(), token.span().start())
    } else {
        event == answer
    }
}

/// The position of the command that comes after the step of `command` at
/// `counter`: the one after the partner where the bracket jumps, the next
/// one otherwise.
pub open spec fn next_counter(
    command: BfCommand,
    counter: usize,
    counterpart: Option<usize>,
    answer: Event,
    zero: bool,
) -> int {
    if answer is Ok && jumps(command, zero) && counterpart is Some {
        counterpart->0 + 1
    } else {
        counter + 1
    }
}

/// In a program that knows every jump no bracket fails for want of a
/// partner.
pub proof fn lemma_resolved_never_lost(program: ProgramView, at: usize, answer: Event, zero: bool)
    requires
        program.resolved(),
        at < program.commands.len(),
    ensures
        !lost(program.commands[at as int].command(), program.counterpart(at), answer, zero),
{
    broadcast use Bracket::lemma_unpaired;

    if jumps(program.commands[at as int].command(), zero) {
        assert(program.resolved_at(at));
    }
}

/// Whether `event` is the error that reports that no input could be had.
pub open spec fn no_input(event: Event) -> bool {
    &&& event matches Err(ErrEvent::Error(error))
    &&& error.kind() == BfErrorKind::Other
    &&& error.spec_description() == "Could not read user input."@
}

/// Decides what the step of `token` at `counter` comes to, once the machine
/// has answered `answer` and, for a bracket, said by `zero` whether the
/// current cell holds zero. `counterpart` is the position of the bracket's
/// partner, if the table has one. The result is the event that the step
/// reports and the position of the command that comes next.
///
/// `[` jumps if the cell holds zero, `]` if it does not, and neither jumps
/// after an error of the machine. A bracket that jumps goes on after its
/// partner; without a partner it reports an error, `UnmatchedLeftBracket` for
/// `[` and `UnmatchedRightBracket` for `]`. In every other case the event is
/// the answer of the machine, and the next command is the one after
/// `counter`.
pub fn settle(
    token: BfToken,
    counter: usize,
    counterpart: Option<usize>,
    answer: Event,
    zero: bool,
) -> (settled: (Event, usize))
    requires
        counter < usize::MAX,
        counterpart matches Some(partner) ==> partner < usize::MAX,
    ensures
        settles(token, counterpart, answer, zero, settled.0),
        settled.1 == next_counter(token.command(), counter, counterpart, answer, zero),
{
    let jump = match token.command() {
        BfCommand::IfZero => zero,
        BfCommand::IfNotZero => !zero,
        _ => false,
    };
    if !jump || answer.is_err() {
        return (answer, counter + 1);
    }
    match counterpart {
        Some(counterpart) => (answer, counterpart + 1),
        None => {
            let (kind, lead) = match token.command() {
                BfCommand::IfZero => (
                    BfErrorKind::UnmatchedLeftBracket,
                    "Could not get matching right bracket for ",
                ),
                _ => (BfErrorKind::UnmatchedRightBracket, "Could not get matching left bracket for "),
            };
            let description = String::from_str(lead).concat(
                write_position(token.span().start()).as_str(),
            );
            (Err(ErrEvent::Error(BfError::new(kind, description.as_str()))), counter + 1)
        },
    }
}

/// The engine: a program, the position of the command that comes next, the
/// machine that the commands are run on, and perhaps a sink for the events.
#[derive(Debug)]
pub struct BfRunner<D = BfDebugger, M = Memory> where D: Debugger, M: CommandRunner {
    program: Box<BfProgram>,
    program_pointer: usize,
    memory: Box<M>,
    debugger: Option<D>,
}

impl<D, M> BfRunner<D, M> where D: Debugger, M: CommandRunner {
    /// The program that is run.
    pub closed spec fn program(&self) -> ProgramView {
        self.program@
    }

    /// The position of the command that comes next.
    pub closed spec fn counter(&self) -> usize {
        self.program_pointer
    }

    /// The machine.
    pub closed spec fn memory(&self) -> M {
        *self.memory
    }

    /// The sink, if there is one.
    pub closed spec fn debugger(&self) -> Option<D> {
        self.debugger
    }

    /// The command that comes next, if the program has not ended.
    pub open spec fn pending(&self) -> Option<BfToken> {
        if self.counter() < self.program().commands.len() {
            Some(self.program().commands[self.counter() as int])
        } else {
            None
        }
    }

    /// What holds of the engine between two steps: the table of the program
    /// speaks of its commands, and machine and sink are as they ask to be.
    pub open spec fn wf(&self) -> bool {
        &&& self.program().wf()
        &&& self.memory().wf()
        &&& self.debugger() matches Some(debugger) ==> debugger.wf()
    }

    /// Whether the next step can be taken with `input`: the machine can do
    /// what the command asks of it, and the sink can count one more event.
    pub open spec fn ready(&self, input: Option<char>) -> bool {
        &&& self.wf()
        &&& self.pending() matches Some(token) ==> {
            &&& request_of(token.command(), input) matches Some(request) ==> self.memory().accepts(
                request,
            )
            &&& self.debugger() matches Some(debugger) ==> debugger.seen() < usize::MAX
        }
    }

    /// Whether one step with `input` may lead from this engine to `after`,
    /// with `output` shown and `result` as the answer, where the machine
    /// answered `answer` and `reply` and the step reported `event`.
    pub open spec fn steps(
        &self,
        input: Option<char>,
        after: &Self,
        output: Option<char>,
        result: Option<()>,
        answer: Event,
        reply: Reply,
        event: Event,
    ) -> bool {
        let token = self.pending()->0;
        let command = token.command();
        let counterpart = self.program().counterpart(self.counter());
        &&& self.pending() is Some
        &&& match request_of(command, input) {
            Some(request) => self.memory().follows(request, &after.memory(), answer, reply),
            None => after.memory() == self.memory() && no_input(answer) && reply == Reply::Nothing,
        }
        &&& is_loop(command) ==> reply is Zero
        &&& output == if command == BfCommand::Read && reply is Character {
            Some(reply->Character_0)
        } else {
            None
        }
        &&& settles(token, counterpart, answer, reply is Zero && reply->Zero_0, event)
        &&& after.counter() == next_counter(
            command,
            self.counter(),
            counterpart,
            answer,
            reply is Zero && reply->Zero_0,
        )
        &&& after.program() == self.program()
        &&& match self.debugger() {
            Some(before) => after.debugger() matches Some(sink) && pushed(&before, event, &sink),
            None => after.debugger() is None,
        }
        &&& result == if event is Ok {
            Some(())
        } else {
            None::<()>
        }
        &&& after.wf()
    }

    /// Whether one step with `input` may lead from this engine to `after`,
    /// with `output` shown and `result` as the answer.
    ///
    /// Where the program has ended, nothing changes, nothing is shown and
    /// the answer is `None`. Otherwise the machine is asked to do what the
    /// command says; a bracket jumps to its partner if the current cell
    /// says so; the engine moves on by one command; the sink, if there is
    /// one, is given the event; and the answer is `Some` unless the event is
    /// an error.
    pub open spec fn run(
        &self,
        input: Option<char>,
        after: &Self,
        output: Option<char>,
        result: Option<()>,
    ) -> bool {
        if self.pending() is None {
            *after == *self && output is None && result is None
        } else {
            exists|answer: Event, reply: Reply, event: Event| #[trigger]
                self.steps(input, after, output, result, answer, reply, event)
        }
    }

    /// An engine that is about to run the first command of `program` on
    /// `memory`, and reports to `debugger` if there is one.
    pub fn new(program: Box<BfProgram>, memory: Box<M>, debugger: Option<D>) -> (runner: Self)
        ensures
            runner.program() == program@,
            runner.counter() == 0,
            runner.memory() == *memory,
            runner.debugger() == debugger,
    {
        Self { program, program_pointer: 0, memory, debugger }
    }

    /// Takes one step: see [`BfRunner::run`].
    ///
    /// `input` is the character that a command that writes takes in; without
    /// one such a command fails with an error of the kind `Other`. `output`
    /// receives the character that a command that reads shows, and `None`
    /// after any other command. The answer is `None` where the program has
    /// ended or the step reported an error: then no further step is to be
    /// taken.
    pub fn run_once(&mut self, input: Option<char>, output: &mut Option<char>) -> (result: Option<
        (),
    >)
        requires
            old(self).ready(input),
        ensures
            old(self).run(input, final(self), *final(output), result),
            *final(output) matches Some(shown) ==> is_character(shown),
    {
        *output = None;
        let token = match self.program.current_command(self.program_pointer) {
            Some(token) => token,
            None => return None,
        };
        let command = token.command();
        let mut is_zero = false;
        let mut shown: char = 'f';
        let answer = match command {
            BfCommand::Increment => self.memory.increment(),
            BfCommand::Decrement => self.memory.decrement(),
            BfCommand::Previous => self.memory.previous(),
            BfCommand::Next => self.memory.next(),
            BfCommand::Read => {
                let answer = self.memory.read_out(&mut shown);
                *output = Some(shown);
                answer
            },
            BfCommand::Write => match input {
                Some(input) => self.memory.write_in(input),
                None => Err(
                    ErrEvent::Error(BfError::new(BfErrorKind::Other, "Could not read user input.")),
                ),
            },
            BfCommand::IfZero => self.memory.is_zero(&mut is_zero),
            BfCommand::IfNotZero => self.memory.is_zero(&mut is_zero),
        };
        let ghost reply = match command {
            BfCommand::Read => Reply::Character(shown),
            BfCommand::IfZero => Reply::Zero(is_zero),
            BfCommand::IfNotZero => Reply::Zero(is_zero),
            _ => Reply::Nothing,
        };
        let ghost answered = answer;
        let counterpart = self.program.get_counterpart(self.program_pointer);
        let (event, counter) = settle(token, self.program_pointer, counterpart, answer, is_zero);
        self.program_pointer = counter;
        let ghost reported = event;
        let ok = event.is_ok();
        match &mut self.debugger {
            Some(debugger) => debugger.push(event),
            None => {},
        }
        let result = match ok {
            true => Some(()),
            false => None,
        };
        assert(old(self).steps(input, self, *output, result, answered, reply, reported));
        result
    }

    /// The sink, if there is one.
    pub fn get_debugger(&self) -> (debugger: Option<&D>)
        ensures
            match debugger {
                Some(debugger) => self.debugger() == Some(*debugger),
                None => self.debugger() is None,
            },
    {
        self.debugger.as_ref()
    }

    /// The machine.
    pub fn get_memory(&self) -> (memory: &M)
        ensures
            *memory == self.memory(),
    {
        &self.memory
    }

    /// The program.
    pub fn get_program(&self) -> (program: &BfProgram)
        ensures
            program@ == self.program(),
    {
        &self.program
    }

    /// The position of the command that comes next.
    pub fn program_pointer(&self) -> (counter: usize)
        ensures
            counter == self.counter(),
    {
        self.program_pointer
    }

    /// The command that comes next, if the program has not ended.
    pub fn current_command(&self) -> (command: Option<BfCommand>)
        ensures
            command == match self.pending() {
                Some(token) => Some(token.command()),
                None => None,
            },
    {
        match self.program.current_command(self.program_pointer) {
            Some(token) => Some(token.command()),
            None => None,
        }
    }
}

impl<D> BfRunner<D, Memory> where D: Debugger {
    /// Whether the next step can be taken with `input`: whether the
    /// arithmetic that the command asks for stays within the numbers that a
    /// cell can hold, and the sink can count one more event.
    pub fn can_run_once(&self, input: Option<char>) -> (can: bool)
        requires
            self.wf(),
        ensures
            can == self.ready(input),
    {
        let command = match self.current_command() {
            Some(command) => command,
            None => return true,
        };
        let request = request_for(command, input);
        let machine = match request {
            Some(request) => self.memory.permits(request),
            None => true,
        };
        let sink = match &self.debugger {
            Some(debugger) => debugger.total_events() < usize::MAX,
            None => true,
        };
        machine && sink
    }
}

} // verus!
