//! What a machine must offer so that commands can be run on it.

use vstd::prelude::*;
use crate::debug::Event;

verus! {

/// What can be asked of a [`CommandRunner`].
#[derive(Clone, Copy, Debug)]
pub enum Request {
    /// Step the current cell up.
    Increment,
    /// Step the current cell down.
    Decrement,
    /// Move to the cell on the left.
    Previous,
    /// Move to the cell on the right.
    Next,
    /// Show the current cell as a character.
    ReadOut,
    /// Take this character into the current cell.
    WriteIn(char),
    /// Say whether the current cell holds zero.
    IsZero,
}

/// What a [`CommandRunner`] hands back besides the event.
#[derive(Clone, Copy, Debug)]
pub enum Reply {
    /// Nothing: the request only changes the runner.
    Nothing,
    /// The character that the current cell is shown as.
    Character(char),
    /// Whether the current cell holds zero.
    Zero(bool),
}

/// Whether `character` is the number of a character: of every character
/// this holds.
pub open spec fn is_character(character: char) -> bool {
    let code = character as int;
    0 <= code < 0xD800 || 0xE000 <= code <= 0x10FFFF
}

/// A machine that the commands of a program can be run on.
///
/// An implementation says for itself, by `accepts` and `follows`, when a
/// request can be made and what it leads to; each method then makes one
/// request. One that says nothing accepts every request and promises
/// nothing of it.
pub trait CommandRunner {
    /// What holds of the runner between two requests.
    open spec fn wf(&self) -> bool {
        true
    }

    /// Whether `request` can be made of the runner as it is.
    open spec fn accepts(&self, request: Request) -> bool {
        true
    }

    /// Whether `request`, made of the runner as it is, may leave the runner
    /// as `after` and hand back `event` and `reply`.
    open spec fn follows(&self, request: Request, after: &Self, event: Event, reply: Reply) -> bool {
        true
    }

    /// Steps the current cell up.
    fn increment(&mut self) -> (event: Event)
        requires
            old(self).wf(),
            old(self).accepts(Request::Increment),
        ensures
            final(self).wf(),
            old(self).follows(Request::Increment, final(self), event, Reply::Nothing),
    ;

    /// Steps the current cell down.
    fn decrement(&mut self) -> (event: Event)
        requires
            old(self).wf(),
            old(self).accepts(Request::Decrement),
        ensures
            final(self).wf(),
            old(self).follows(Request::Decrement, final(self), event, Reply::Nothing),
    ;

    /// Moves to the cell on the left.
    fn previous(&mut self) -> (event: Event)
        requires
            old(self).wf(),
            old(self).accepts(Request::Previous),
        ensures
            final(self).wf(),
            old(self).follows(Request::Previous, final(self), event, Reply::Nothing),
    ;

    /// Moves to the cell on the right.
    fn next(&mut self) -> (event: Event)
        requires
            old(self).wf(),
            old(self).accepts(Request::Next),
        ensures
            final(self).wf(),
            old(self).follows(Request::Next, final(self), event, Reply::Nothing),
    ;

    /// Writes to `output` the character that the current cell is shown as.
    fn read_out(&self, output: &mut char) -> (event: Event)
        requires
            self.wf(),
            self.accepts(Request::ReadOut),
        ensures
            self.follows(Request::ReadOut, self, event, Reply::Character(*final(output))),
            is_character(*final(output)),
    ;

    /// Takes the character `input` into the current cell.
    fn write_in(&mut self, input: char) -> (event: Event)
        requires
            old(self).wf(),
            old(self).accepts(Request::WriteIn(input)),
        ensures
            final(self).wf(),
            old(self).follows(Request::WriteIn(input), final(self), event, Reply::Nothing),
    ;

    /// Writes to `output` whether the current cell holds zero.
    fn is_zero(&self, output: &mut bool) -> (event: Event)
        requires
            self.wf(),
            self.accepts(Request::IsZero),
        ensures
            self.follows(Request::IsZero, self, event, Reply::Zero(*final(output))),
    ;

    /// Writes to `output` whether the current cell holds something other
    /// than zero: the opposite of what [`CommandRunner::is_zero`] writes.
    fn is_not_zero(&self, output: &mut bool) -> (event: Event)
        requires
            self.wf(),
            self.accepts(Request::IsZero),
        ensures
            self.follows(Request::IsZero, self, event, Reply::Zero(!*final(output))),
    {
        let mut out = false;
        let event = self.is_zero(&mut out);
        *output = !out;
        event
    }
}

} // verus!
