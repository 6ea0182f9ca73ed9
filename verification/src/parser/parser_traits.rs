//! What a parser of programs offers.

use vstd::prelude::*;
use vstd::string::StringSliceAdditionalSpecFns;
use crate::code::commands::{BfCommand, BfToken};
use crate::code::context::Span;
use crate::code::program::BfProgram;
use crate::debug::Event;

verus! {

/// The command that the byte `byte` stands for, if it stands for one.
pub open spec fn command_of_byte(byte: u8) -> Option<BfCommand> {
    BfCommand::of_symbol(byte as char)
}

/// The token of `command` where it stands at the byte `at` of the text.
pub open spec fn token_at(command: BfCommand, at: int) -> BfToken {
    BfToken::of(command, Span::of(at as usize, (at + 1) as usize))
}

/// A parser: it reads the commands of a program from its text.
///
/// An implementation says by `parsed` what it adds to a program. One that
/// says nothing promises nothing of the program.
pub trait BfParser {
    /// Whether `after` is the program `before` once the text `script` was
    /// read into it.
    open spec fn parsed(script: &str, before: &BfProgram, after: &BfProgram) -> bool {
        true
    }

    /// Reads `script` and adds its commands to `program`.
    fn parse_string(script: &str, program: &mut BfProgram) -> (event: Event)
        ensures
            event is Ok ==> Self::parsed(script, old(program), final(program)),
    ;
}

} // verus!
