//! The errors of the interpreter: what kind of failure, and a description.

use vstd::prelude::*;
use vstd::string::StringExecFns;

verus! {

/// What went wrong.
#[derive(Clone, Copy, Debug, PartialEq, Eq, Structural)]
pub enum BfErrorKind {
    /// A command that is none of the eight.
    UnrecognizedCommand,
    /// A `[` with no `]` to close it.
    UnmatchedLeftBracket,
    /// A `]` with no `[` to open it.
    UnmatchedRightBracket,
    /// A program text that cannot be read as a program.
    BadProgram,
    /// A fault while the program text was turned into commands.
    ParsingError,
    /// The pointer is past the end of the tape.
    OutOfBounds,
    /// The pointer could not be moved.
    PointerError,
    /// A cell cannot hold the value asked of it.
    CellOverflow,
    /// Anything else, such as input that could not be had.
    Other,
}

impl BfErrorKind {
    /// The name of the kind, spelled as the variant is.
    pub open spec fn name(self) -> Seq<char> {
        match self {
            BfErrorKind::UnrecognizedCommand => "UnrecognizedCommand"@,
            BfErrorKind::UnmatchedLeftBracket => "UnmatchedLeftBracket"@,
            BfErrorKind::UnmatchedRightBracket => "UnmatchedRightBracket"@,
            BfErrorKind::BadProgram => "BadProgram"@,
            BfErrorKind::ParsingError => "ParsingError"@,
            BfErrorKind::OutOfBounds => "OutOfBounds"@,
            BfErrorKind::PointerError => "PointerError"@,
            BfErrorKind::CellOverflow => "CellOverflow"@,
            BfErrorKind::Other => "Other"@,
        }
    }

    /// The name of the kind as a string slice.
    pub fn as_str(&self) -> (text: &'static str)
        ensures
            text@ == self.name(),
    {
        match self {
            BfErrorKind::UnrecognizedCommand => "UnrecognizedCommand",
            BfErrorKind::UnmatchedLeftBracket => "UnmatchedLeftBracket",
            BfErrorKind::UnmatchedRightBracket => "UnmatchedRightBracket",
            BfErrorKind::BadProgram => "BadProgram",
            BfErrorKind::ParsingError => "ParsingError",
            BfErrorKind::OutOfBounds => "OutOfBounds",
            BfErrorKind::PointerError => "PointerError",
            BfErrorKind::CellOverflow => "CellOverflow",
            BfErrorKind::Other => "Other",
        }
    }

    /// The name of the kind as it is shown to a reader.
    pub fn to_string(&self) -> (text: String)
        ensures
            text@ == self.name(),
    {
        String::from_str(self.as_str())
    }
}

/// An error: its kind, and a description of what went wrong.
#[derive(Debug)]
pub struct BfError {
    kind: BfErrorKind,
    description: String,
}

impl Clone for BfError {
    fn clone(&self) -> (copy: Self)
        ensures
            copy == *self,
    {
        BfError { kind: self.kind, description: self.description.clone() }
    }
}

impl BfError {
    /// The kind of the error.
    pub closed spec fn spec_kind(&self) -> BfErrorKind {
        self.kind
    }

    /// The description of the error.
    pub closed spec fn spec_description(&self) -> Seq<char> {
        self.description@
    }

    /// An error of the given kind that carries `description`.
    pub fn new(kind: BfErrorKind, description: &str) -> (error: Self)
        ensures
            error.kind() == kind,
            error.spec_description() == description@,
    {
        BfError { kind, description: description.to_string() }
    }

    /// The kind of the error.
    #[verifier::when_used_as_spec(spec_kind)]
    pub fn kind(&self) -> (kind: BfErrorKind)
        ensures
            kind == self.kind(),
    {
        self.kind
    }

    /// The description of the error.
    pub fn description(&self) -> (text: &str)
        ensures
            text@ == self.spec_description(),
    {
        self.description.as_str()
    }

    /// The error as it is shown to a reader: the name of the kind, a colon
    /// and the description.
    pub fn to_string(&self) -> (text: String)
        ensures
            text@ == self.kind().name() + ": "@ + self.spec_description(),
    {
        self.kind.to_string().concat(": ").concat(self.description.as_str())
    }
}

} // verus!
