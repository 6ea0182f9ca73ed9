//! The parser that knows comments: on every line, what follows a `#` is
//! passed over, command characters included.

use vstd::prelude::*;
use vstd::string::StringSliceAdditionalSpecFns;
use crate::code::commands::{BfCommand, BfToken};
use crate::code::context::Span;
use crate::code::program::BfProgram;
use crate::debug::{reports, Event, OkEvent, Status};
use super::parser_traits::{command_of_byte, token_at, BfParser};
use super::sparser::{lexed, token_of_byte};

verus! {

/// The byte that starts a comment: `#`.
pub const COMMENT: u8 = 35;

/// The byte that ends a line, and with it a comment.
pub const NEWLINE: u8 = 10;

/// Whether the text `bytes` ends inside a comment: a `#` stands in it with
/// no end of line after it.
pub open spec fn in_comment(bytes: Seq<u8>) -> bool
    decreases bytes.len(),
{
    if bytes.len() == 0 {
        false
    } else if bytes.last() == COMMENT {
        true
    } else if bytes.last() == NEWLINE {
        false
    } else {
        in_comment(bytes.drop_last())
    }
}

/// The tokens of the text `bytes`: one for every byte that stands for a
/// command and is not part of a comment, in the order of the text, each
/// with the place of its byte.
pub open spec fn lexed_outside_comments(bytes: Seq<u8>) -> Seq<BfToken>
    decreases bytes.len(),
{
    if bytes.len() == 0 {
        Seq::empty()
    } else {
        let before = lexed_outside_comments(bytes.drop_last());
        if in_comment(bytes.drop_last()) {
            before
        } else {
            match command_of_byte(bytes.last()) {
                Some(command) => before.push(token_at(command, bytes.len() - 1)),
                None => before,
            }
        }
    }
}

/// Whether the byte at `at` of the text `bytes` is a command outside any
/// comment.
pub open spec fn is_command_at(bytes: Seq<u8>, at: int) -> bool {
    &&& 0 <= at < bytes.len()
    &&& command_of_byte(bytes[at]) is Some
    &&& !in_comment(bytes.take(at))
}

/// The tokens of a text are its commands outside comments: every token is
/// the token of such a command, every such command has its token, and the
/// tokens stand in the order of their bytes.
pub proof fn lemma_lexed_outside_comments(bytes: Seq<u8>)
    requires
        bytes.len() <= usize::MAX,
    ensures
        forall|i: int|
            0 <= i < lexed_outside_comments(bytes).len() ==> {
                let token = #[trigger] lexed_outside_comments(bytes)[i];
                &&& token_of_byte(bytes, token, token.span().start() as int)
                &&& is_command_at(bytes, token.span().start() as int)
            },
        forall|i: int, j: int|
            0 <= i < j < lexed_outside_comments(bytes).len() ==> (
            #[trigger] lexed_outside_comments(bytes)[i]).span().start() < (
            #[trigger] lexed_outside_comments(bytes)[j]).span().start(),
        forall|at: int| #[trigger]
            is_command_at(bytes, at) ==> exists|i: int|
                0 <= i < lexed_outside_comments(bytes).len() && (
                #[trigger] lexed_outside_comments(bytes)[i]).span().start() == at,
    decreases bytes.len(),
{
    broadcast use {BfToken::lemma_of, Span::lemma_of};

    if bytes.len() > 0 {
        let before = bytes.drop_last();
        let last = bytes.len() - 1;
        lemma_lexed_outside_comments(before);
        let tokens = lexed_outside_comments(bytes);
        let earlier = lexed_outside_comments(before);
        assert(bytes.take(last) =~= before);
        assert forall|at: int| 0 <= at <= last implies #[trigger] before.take(at) == bytes.take(
            at,
        ) by {
            assert(before.take(at) =~= bytes.take(at));
        }
        assert forall|i: int| 0 <= i < earlier.len() implies (#[trigger] earlier[i]).span().start()
            < last by {
            assert(token_of_byte(before, earlier[i], earlier[i].span().start() as int));
        }
        assert forall|i: int| 0 <= i < tokens.len() implies {
            let token = #[trigger] tokens[i];
            &&& token_of_byte(bytes, token, token.span().start() as int)
            &&& is_command_at(bytes, token.span().start() as int)
        } by {
            if i < earlier.len() {
                let at = earlier[i].span().start() as int;
                assert(token_of_byte(before, earlier[i], at));
                assert(is_command_at(before, at));
                assert(before.take(at) == bytes.take(at));
            }
        }
        assert forall|at: int| #[trigger] is_command_at(bytes, at) implies exists|i: int|
            0 <= i < tokens.len() && (#[trigger] tokens[i]).span().start() == at by {
            if at < last {
                assert(before.take(at) == bytes.take(at));
                assert(is_command_at(before, at));
                let i = choose|i: int|
                    0 <= i < earlier.len() && (#[trigger] earlier[i]).span().start() == at;
                assert(tokens[i].span().start() == at);
            } else {
                assert(tokens[earlier.len() as int].span().start() == at);
            }
        }
    }
}

/// Without a `#`, a text reads as the plain parser reads it.
pub proof fn lemma_no_comments(bytes: Seq<u8>)
    requires
        forall|at: int| 0 <= at < bytes.len() ==> bytes[at] != COMMENT,
    ensures
        !in_comment(bytes),
        lexed_outside_comments(bytes) == lexed(bytes),
    decreases bytes.len(),
{
    if bytes.len() > 0 {
        lemma_no_comments(bytes.drop_last());
    }
}

/// The parser that knows comments.
#[derive(Clone, Copy, Debug)]
pub struct NewParser;

impl NewParser {
    /// Reads the text `bytes` and adds its commands at the end of `program`:
    /// one token for every byte that stands for a command and is not part
    /// of a comment. The table of brackets is left as it is.
    pub fn parse_ast(bytes: &[u8], program: &mut BfProgram) -> (event: Event)
        ensures
            final(program)@.commands == old(program)@.commands + lexed_outside_comments(bytes@),
            final(program)@.brackets == old(program)@.brackets,
            old(program)@.wf() ==> final(program)@.wf(),
            reports(event, "Parse AST: OK"@),
    {
        let mut at: usize = 0;
        let mut commented = false;
        assert(old(program)@.commands + lexed_outside_comments(bytes@.take(0)) =~= old(
            program,
        )@.commands);
        while at < bytes.len()
            invariant
                at <= bytes.len(),
                commented == in_comment(bytes@.take(at as int)),
                program@.commands == old(program)@.commands + lexed_outside_comments(
                    bytes@.take(at as int),
                ),
                program@.brackets == old(program)@.brackets,
                old(program)@.wf() ==> program@.wf(),
            decreases bytes.len() - at,
        {
            proof {
                assert(bytes@.take(at + 1).drop_last() =~= bytes@.take(at as int));
                assert(bytes@.take(at + 1).last() == bytes@[at as int]);
            }
            let byte = bytes[at];
            if !commented {
                match BfCommand::from_char(byte as char) {
                    Some(command) => {
                        program.push(BfToken::new(command, Span::new(at, at + 1)));
                        assert(program@.commands =~= old(program)@.commands
                            + lexed_outside_comments(bytes@.take(at + 1)));
                    },
                    None => {},
                }
            }
            if byte == COMMENT {
                commented = true;
            } else if byte == NEWLINE {
                commented = false;
            }
            at += 1;
        }
        assert(bytes@.take(at as int) =~= bytes@);
        Ok(OkEvent::Status(Status::new("Parse AST: OK")))
    }
}

impl BfParser for NewParser {
    open spec fn parsed(script: &str, before: &BfProgram, after: &BfProgram) -> bool {
        &&& after@.commands == before@.commands + lexed_outside_comments(script.spec_bytes())
        &&& after@.brackets == before@.brackets
        &&& before@.wf() ==> after@.wf()
    }

    /// Reads `script` and adds its commands at the end of `program`, as
    /// [`NewParser::parse_ast`] does with the bytes of `script`.
    fn parse_string(script: &str, program: &mut BfProgram) -> (event: Event)
        ensures
            final(program)@.commands == old(program)@.commands + lexed_outside_comments(
                script.spec_bytes(),
            ),
            final(program)@.brackets == old(program)@.brackets,
            old(program)@.wf() ==> final(program)@.wf(),
            reports(event, "Parse AST: OK"@),
    {
        Self::parse_ast(script.as_bytes(), program)
    }
}

} // verus!
