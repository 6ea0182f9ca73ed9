//! The plain parser: every character that is a command is taken, every other
//! character is passed over.

use vstd::prelude::*;
use vstd::string::StringSliceAdditionalSpecFns;
use crate::code::commands::{BfCommand, BfToken};
use crate::code::context::Span;
use crate::code::program::BfProgram;
use crate::debug::{reports, Event, OkEvent, Status};
use super::parser_traits::{command_of_byte, token_at, BfParser};

verus! {

/// The tokens of the text `bytes`: one for every byte that stands for a
/// command, in the order of the text, each with the place of its byte.
pub open spec fn lexed(bytes: Seq<u8>) -> Seq<BfToken>
    decreases bytes.len(),
{
    if bytes.len() == 0 {
        Seq::empty()
    } else {
        let before = lexed(bytes.drop_last());
        match command_of_byte(bytes.last()) {
            Some(command) => before.push(token_at(command, bytes.len() - 1)),
            None => before,
        }
    }
}

/// Whether `token` is the token of the byte at `at` of the text `bytes`: the
/// byte stands for the command of the token, and the token's place is that
/// of the byte.
pub open spec fn token_of_byte(bytes: Seq<u8>, token: BfToken, at: int) -> bool {
    &&& 0 <= at < bytes.len()
    &&& command_of_byte(bytes[at]) == Some(token.command())
    &&& token.span().start() == at
    &&& token.span().end() == at + 1
}

/// The tokens of a text are its commands: every token is the token of a
/// byte of the text that stands for a command, every such byte has its
/// token, and the tokens stand in the order of their bytes.
pub proof fn lemma_lexed(bytes: Seq<u8>)
    requires
        bytes.len() <= usize::MAX,
    ensures
        forall|i: int|
            0 <= i < lexed(bytes).len() ==> token_of_byte(
                bytes,
                #[trigger] lexed(bytes)[i],
                lexed(bytes)[i].span().start() as int,
            ),
        forall|i: int, j: int|
            0 <= i < j < lexed(bytes).len() ==> (#[trigger] lexed(bytes)[i]).span().start() < (
            #[trigger] lexed(bytes)[j]).span().start(),
        forall|at: int|
            0 <= at < bytes.len() && command_of_byte(#[trigger] bytes[at]) is Some ==> exists|
                i: int,
            |
                0 <= i < lexed(bytes).len() && (#[trigger] lexed(bytes)[i]).span().start() == at,
    decreases bytes.len(),
{
    broadcast use {BfToken::lemma_of, Span::lemma_of};

    if bytes.len() > 0 {
        let before = bytes.drop_last();
        let last = bytes.len() - 1;
        lemma_lexed(before);
        let tokens = lexed(bytes);
        let earlier = lexed(before);
        assert forall|i: int| 0 <= i < earlier.len() implies (#[trigger] earlier[i]).span().start()
            < last by {
            assert(token_of_byte(before, earlier[i], earlier[i].span().start() as int));
        }
        assert forall|i: int| 0 <= i < tokens.len() implies token_of_byte(
            bytes,
            #[trigger] tokens[i],
            tokens[i].span().start() as int,
        ) by {
            if i < earlier.len() {
                assert(token_of_byte(before, earlier[i], earlier[i].span().start() as int));
            }
        }
        assert forall|at: int|
            0 <= at < bytes.len() && command_of_byte(#[trigger] bytes[at]) is Some implies exists|
            i: int,
        |
            0 <= i < tokens.len() && (#[trigger] tokens[i]).span().start() == at by {
            if at < last {
                assert(command_of_byte(before[at]) is Some);
                let i = choose|i: int|
                    0 <= i < earlier.len() && (#[trigger] earlier[i]).span().start() == at;
                assert(tokens[i].span().start() == at);
            } else {
                assert(tokens[earlier.len() as int].span().start() == at);
            }
        }
    }
}

/// The plain parser.
#[derive(Clone, Copy, Debug)]
pub struct NormalParser;

impl NormalParser {
    /// Reads the text `bytes` and adds its commands at the end of `program`:
    /// one token for every byte that stands for a command. The table of
    /// brackets is left as it is.
    pub fn parse_ast(bytes: &[u8], program: &mut BfProgram) -> (event: Event)
        ensures
            final(program)@.commands == old(program)@.commands + lexed(bytes@),
            final(program)@.brackets == old(program)@.brackets,
            old(program)@.wf() ==> final(program)@.wf(),
            reports(event, "Parse AST: OK"@),
    {
        let mut at: usize = 0;
        assert(old(program)@.commands + lexed(bytes@.take(0)) =~= old(program)@.commands);
        while at < bytes.len()
            invariant
                at <= bytes.len(),
                program@.commands == old(program)@.commands + lexed(bytes@.take(at as int)),
                program@.brackets == old(program)@.brackets,
                old(program)@.wf() ==> program@.wf(),
            decreases bytes.len() - at,
        {
            proof {
                assert(bytes@.take(at + 1).drop_last() =~= bytes@.take(at as int));
                assert(bytes@.take(at + 1).last() == bytes@[at as int]);
            }
            match BfCommand::from_char(bytes[at] as char) {
                Some(command) => {
                    program.push(BfToken::new(command, Span::new(at, at + 1)));
                    assert(program@.commands =~= old(program)@.commands + lexed(
                        bytes@.take(at + 1),
                    ));
                },
                None => {},
            }
            at += 1;
        }
        assert(bytes@.take(at as int) =~= bytes@);
        Ok(OkEvent::Status(Status::new("Parse AST: OK")))
    }
}

impl BfParser for NormalParser {
    open spec fn parsed(script: &str, before: &BfProgram, after: &BfProgram) -> bool {
        &&& after@.commands == before@.commands + lexed(script.spec_bytes())
        &&& after@.brackets == before@.brackets
        &&& before@.wf() ==> after@.wf()
    }

    /// Reads `script` and adds its commands at the end of `program`, as
    /// [`NormalParser::parse_ast`] does with the bytes of `script`.
    fn parse_string(script: &str, program: &mut BfProgram) -> (event: Event)
        ensures
            final(program)@.commands == old(program)@.commands + lexed(script.spec_bytes()),
            final(program)@.brackets == old(program)@.brackets,
            old(program)@.wf() ==> final(program)@.wf(),
            reports(event, "Parse AST: OK"@),
    {
        Self::parse_ast(script.as_bytes(), program)
    }
}

} // verus!
