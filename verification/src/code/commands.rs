//! The eight commands of the language, and a command with its place in the
//! source text.

use vstd::prelude::*;
use vstd::string::{StrSliceExecFns, StringExecFns};
use crate::debug::{BfError, BfErrorKind, BfResult};
use super::brackets::{BType, Bracket};
use super::context::Span;

verus! {

/// A command of the language.
#[derive(Clone, Copy, Debug, PartialEq, Eq, Structural)]
pub enum BfCommand {
    /// `+`
    Increment,
    /// `-`
    Decrement,
    /// `<`
    Previous,
    /// `>`
    Next,
    /// `.`
    Read,
    /// `,`
    Write,
    /// `[`
    IfZero,
    /// `]`
    IfNotZero,
}

impl BfCommand {
    /// The character that stands for the command in a program.
    pub open spec fn symbol(self) -> char {
        match self {
            BfCommand::Increment => '+',
            BfCommand::Decrement => '-',
            BfCommand::Previous => '<',
            BfCommand::Next => '>',
            BfCommand::Read => '.',
            BfCommand::Write => ',',
            BfCommand::IfZero => '[',
            BfCommand::IfNotZero => ']',
        }
    }

    /// The command that `symbol` stands for, if it stands for one.
    pub open spec fn of_symbol(symbol: char) -> Option<BfCommand> {
        if symbol == '+' {
            Some(BfCommand::Increment)
        } else if symbol == '-' {
            Some(BfCommand::Decrement)
        } else if symbol == '<' {
            Some(BfCommand::Previous)
        } else if symbol == '>' {
            Some(BfCommand::Next)
        } else if symbol == '.' {
            Some(BfCommand::Read)
        } else if symbol == ',' {
            Some(BfCommand::Write)
        } else if symbol == '[' {
            Some(BfCommand::IfZero)
        } else if symbol == ']' {
            Some(BfCommand::IfNotZero)
        } else {
            None
        }
    }

    /// The command that the string `command` stands for. A string that is
    /// not one of the eight characters is refused as `UnrecognizedCommand`.
    pub fn new(command: &str) -> (made: BfResult<Self>)
        ensures
            made is Ok <==> command@.len() == 1 && BfCommand::of_symbol(command@[0]) is Some,
            made matches Ok(made) ==> BfCommand::of_symbol(command@[0]) == Some(made),
            made matches Err(error) ==> error.kind() == BfErrorKind::UnrecognizedCommand
                && error.spec_description() == command@ + " is not a valid command."@,
    {
        if command.unicode_len() == 1 {
            match BfCommand::from_char(command.get_char(0)) {
                Some(made) => return Ok(made),
                None => {},
            }
        }
        let description = String::from_str(command).concat(" is not a valid command.");
        Err(BfError::new(BfErrorKind::UnrecognizedCommand, description.as_str()))
    }

    /// The command that the character `symbol` stands for, if it stands for
    /// one.
    pub fn from_char(symbol: char) -> (made: Option<Self>)
        ensures
            made == BfCommand::of_symbol(symbol),
    {
        match symbol {
            '+' => Some(BfCommand::Increment),
            '-' => Some(BfCommand::Decrement),
            '<' => Some(BfCommand::Previous),
            '>' => Some(BfCommand::Next),
            '.' => Some(BfCommand::Read),
            ',' => Some(BfCommand::Write),
            '[' => Some(BfCommand::IfZero),
            ']' => Some(BfCommand::IfNotZero),
            _ => None,
        }
    }

    /// The character that stands for the command in a program.
    pub fn to_char(&self) -> (symbol: char)
        ensures
            symbol == self.symbol(),
    {
        match self {
            BfCommand::Increment => '+',
            BfCommand::Decrement => '-',
            BfCommand::Previous => '<',
            BfCommand::Next => '>',
            BfCommand::Read => '.',
            BfCommand::Write => ',',
            BfCommand::IfZero => '[',
            BfCommand::IfNotZero => ']',
        }
    }

    /// The command as it is written in a program.
    pub fn as_str(&self) -> (text: &'static str)
        ensures
            text@ == seq![self.symbol()],
    {
        proof {
            reveal_strlit("+");
            reveal_strlit("-");
            reveal_strlit("<");
            reveal_strlit(">");
            reveal_strlit(".");
            reveal_strlit(",");
            reveal_strlit("[");
            reveal_strlit("]");
        }
        let text = match self {
            BfCommand::Increment => "+",
            BfCommand::Decrement => "-",
            BfCommand::Previous => "<",
            BfCommand::Next => ">",
            BfCommand::Read => ".",
            BfCommand::Write => ",",
            BfCommand::IfZero => "[",
            BfCommand::IfNotZero => "]",
        };
        assert(text@ =~= seq![self.symbol()]);
        text
    }

    /// The command as it is shown to a reader: as it is written in a
    /// program.
    pub fn to_string(&self) -> (text: String)
        ensures
            text@ == seq![self.symbol()],
    {
        String::from_str(self.as_str())
    }

    /// The family of the bracket that the command is, if it is one. `[` and
    /// `]` are of the family 1.
    pub fn bracket_kind(&self) -> (kind: Option<u8>)
        ensures
            kind == match *self {
                BfCommand::IfZero => Some(1u8),
                BfCommand::IfNotZero => Some(1u8),
                _ => None,
            },
    {
        match self {
            BfCommand::IfZero => Some(1),
            BfCommand::IfNotZero => Some(1),
            _ => None,
        }
    }

    /// The side of the bracket that the command is, if it is one: `[`
    /// opens and `]` closes.
    pub fn bracket_side(&self) -> (side: Option<BType>)
        ensures
            side == match *self {
                BfCommand::IfZero => Some(BType::Left),
                BfCommand::IfNotZero => Some(BType::Right),
                _ => None,
            },
    {
        match self {
            BfCommand::IfZero => Some(BType::Left),
            BfCommand::IfNotZero => Some(BType::Right),
            _ => None,
        }
    }

    /// The bracket that the command is, if it is one.
    pub open spec fn spec_bracket(&self) -> Option<Bracket> {
        match *self {
            BfCommand::IfZero => Some(Bracket::unpaired(BType::Left, 1)),
            BfCommand::IfNotZero => Some(Bracket::unpaired(BType::Right, 1)),
            _ => None,
        }
    }

    /// The bracket that the command is, if it is one: it has no partner yet.
    #[verifier::when_used_as_spec(spec_bracket)]
    pub fn bracket(&self) -> (bracket: Option<Bracket>)
        ensures
            bracket == self.bracket(),
    {
        let side = match self.bracket_side() {
            Some(side) => side,
            None => return None,
        };
        let kind = match self.bracket_kind() {
            Some(kind) => kind,
            None => return None,
        };
        Some(Bracket::new(side, kind))
    }
}

/// A command and the place in the source text where it stands.
#[derive(Clone, Copy, Debug)]
pub struct BfToken {
    command: BfCommand,
    span: Span,
}

impl BfToken {
    /// The command of the token.
    pub closed spec fn spec_command(&self) -> BfCommand {
        self.command
    }

    /// The place of the token.
    pub closed spec fn spec_span(&self) -> Span {
        self.span
    }

    /// The token of `command` at `span`.
    pub closed spec fn of(command: BfCommand, span: Span) -> BfToken {
        BfToken { command, span }
    }

    /// What a token holds.
    pub broadcast proof fn lemma_of(command: BfCommand, span: Span)
        ensures
            (#[trigger] BfToken::of(command, span)).command() == command,
            BfToken::of(command, span).span() == span,
    {
    }

    /// The token of `command` at `span`.
    pub fn new(command: BfCommand, span: Span) -> (token: Self)
        ensures
            token == BfToken::of(command, span),
            token.command() == command,
            token.span() == span,
    {
        Self { command, span }
    }

    /// The command of the token.
    #[verifier::when_used_as_spec(spec_command)]
    pub fn command(&self) -> (command: BfCommand)
        ensures
            command == self.command(),
    {
        self.command
    }

    /// The place of the token.
    #[verifier::when_used_as_spec(spec_span)]
    pub fn span(&self) -> (span: Span)
        ensures
            span == self.span(),
    {
        self.span
    }
}

} // verus!
