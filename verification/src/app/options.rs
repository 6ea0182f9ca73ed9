//! What was asked for on the command line, and the options made from it.

use vstd::prelude::*;
use crate::stdlib::{
    invalid_data, invalid_input, parse_cell_number, parse_flag, parse_range, parsed_cell_number,
    parsed_flag, parsed_range,
};
use crate::vm::cell::CellNumber;
use crate::vm::memory::{MemoryOptions, OptionValues};
use crate::vm::pointer::MemoryRange;

verus! {

/// Where the program comes from.
#[derive(Debug)]
pub enum ProgramOptions {
    /// The path of a file that holds the program.
    Path(String),
    /// The text of the program itself.
    Raw(String),
}

impl Clone for ProgramOptions {
    fn clone(&self) -> (copy: Self)
        ensures
            copy == *self,
    {
        match self {
            ProgramOptions::Path(path) => ProgramOptions::Path(path.clone()),
            ProgramOptions::Raw(text) => ProgramOptions::Raw(text.clone()),
        }
    }
}

/// The options of a run.
#[derive(Debug)]
pub struct AppOptions {
    /// Where the program comes from.
    pub program: ProgramOptions,
    /// How much is told about the run: the higher, the more.
    pub verbosity: u8,
    /// The options of the memory.
    pub memory_options: MemoryOptions,
    /// Whether the parser that knows comments is used.
    pub new_parser: bool,
}

impl Clone for AppOptions {
    fn clone(&self) -> (copy: Self)
        ensures
            copy == *self,
    {
        Self {
            program: self.program.clone(),
            verbosity: self.verbosity,
            memory_options: self.memory_options,
            new_parser: self.new_parser,
        }
    }
}

/// The values of the arguments of the command line, as far as each was
/// given.
#[derive(Debug)]
pub struct ArgValues {
    /// The path of the file that holds the program.
    pub input: Option<String>,
    /// The text of the program.
    pub raw: Option<String>,
    /// How often more telling was asked for.
    pub verbose: u64,
    /// The lower bound of a cell, as it was written.
    pub celllower: Option<String>,
    /// The upper bound of a cell, as it was written.
    pub cellupper: Option<String>,
    /// The number of cells of the tape, as it was written.
    pub memorysize: Option<String>,
    /// Whether the tape grows, as it was written.
    pub variablelength: Option<String>,
    /// Whether the parser that knows comments was asked for.
    pub newparser: bool,
}

impl Clone for ArgValues {
    fn clone(&self) -> (copy: Self)
        ensures
            copy == *self,
    {
        Self {
            input: self.input.clone(),
            raw: self.raw.clone(),
            verbose: self.verbose,
            celllower: self.celllower.clone(),
            cellupper: self.cellupper.clone(),
            memorysize: self.memorysize.clone(),
            variablelength: self.variablelength.clone(),
            newparser: self.newparser,
        }
    }
}

/// The value that was read, where one was written; `fallback` where none
/// was.
pub open spec fn chosen<T>(read: Option<Result<T, String>>, fallback: T) -> T {
    match read {
        Some(Ok(value)) => value,
        _ => fallback,
    }
}

/// Whether something was written that could not be read.
pub open spec fn unread<T>(read: Option<Result<T, String>>) -> bool {
    read matches Some(Err(_))
}

/// The source of the program: the file if a path was given, else the text if
/// one was given.
pub open spec fn source(input: Option<String>, raw: Option<String>) -> Option<ProgramOptions> {
    match (input, raw) {
        (Some(path), _) => Some(ProgramOptions::Path(path)),
        (None, Some(text)) => Some(ProgramOptions::Raw(text)),
        (None, None) => None,
    }
}

impl AppOptions {
    /// Puts the options together from what was read on the command line.
    ///
    /// The program is the file at `input` if a path was given, else the text
    /// `raw`; without either there are no options. The verbosity is the low
    /// eight bits of `verbose`. The memory has the default options but for
    /// what was written; a value that was written and could not be read
    /// leaves no options.
    pub fn from_parsed(
        input: Option<String>,
        raw: Option<String>,
        verbose: u64,
        lower: Option<Result<CellNumber, String>>,
        upper: Option<Result<CellNumber, String>>,
        size: Option<Result<MemoryRange, String>>,
        variable: Option<Result<bool, String>>,
        new_parser: bool,
    ) -> (made: Result<Self, std::io::Error>)
        ensures
            made is Ok <==> source(input, raw) is Some && !unread(lower) && !unread(upper)
                && !unread(size) && !unread(variable),
            made matches Ok(options) ==> {
                &&& Some(options.program) == source(input, raw)
                &&& options.verbosity == verbose as u8
                &&& options.memory_options@ == (OptionValues {
                    variable_length: chosen(variable, false),
                    wrap: true,
                    lower_bound: chosen(lower, 0),
                    upper_bound: chosen(upper, 255),
                    initial_length: chosen(size, 0xFFFF),
                })
                &&& options.new_parser == new_parser
            },
    {
        let program = match input {
            Some(path) => ProgramOptions::Path(path),
            None => match raw {
                Some(text) => ProgramOptions::Raw(text),
                None => {
                    return Err(invalid_input("No input program detected.".to_string()));
                },
            },
        };
        let verbosity = #[verifier::truncate] (verbose as u8);
        let mut memory_options = MemoryOptions::default();
        match lower {
            Some(Ok(lower)) => {
                memory_options.lower_bound(lower);
            },
            Some(Err(message)) => return Err(invalid_data(message)),
            None => {},
        }
        match upper {
            Some(Ok(upper)) => {
                memory_options.upper_bound(upper);
            },
            Some(Err(message)) => return Err(invalid_data(message)),
            None => {},
        }
        match size {
            Some(Ok(size)) => {
                memory_options.initial_length(size);
            },
            Some(Err(message)) => return Err(invalid_data(message)),
            None => {},
        }
        match variable {
            Some(Ok(variable)) => {
                memory_options.variable_length(variable);
            },
            Some(Err(message)) => return Err(invalid_data(message)),
            None => {},
        }
        Ok(Self { program, verbosity, memory_options, new_parser })
    }

    /// Makes the options from the values of the arguments: each value that
    /// was written is read as the standard library reads a number or a
    /// flag, and the options are put together as [`AppOptions::from_parsed`]
    /// does.
    pub fn from_matches(matches: &ArgValues) -> (made: Result<Self, std::io::Error>)
        ensures
            made is Ok <==> {
                &&& source(matches.input, matches.raw) is Some
                &&& matches.celllower matches Some(text) ==> parsed_cell_number(text@) is Some
                &&& matches.cellupper matches Some(text) ==> parsed_cell_number(text@) is Some
                &&& matches.memorysize matches Some(text) ==> parsed_range(text@) is Some
                &&& matches.variablelength matches Some(text) ==> parsed_flag(text@) is Some
            },
            made matches Ok(options) ==> {
                &&& Some(options.program) == source(matches.input, matches.raw)
                &&& options.verbosity == matches.verbose as u8
                &&& options.memory_options@ == (OptionValues {
                    variable_length: match matches.variablelength {
                        Some(text) => parsed_flag(text@)->0,
                        None => false,
                    },
                    wrap: true,
                    lower_bound: match matches.celllower {
                        Some(text) => parsed_cell_number(text@)->0,
                        None => 0,
                    },
                    upper_bound: match matches.cellupper {
                        Some(text) => parsed_cell_number(text@)->0,
                        None => 255,
                    },
                    initial_length: match matches.memorysize {
                        Some(text) => parsed_range(text@)->0,
                        None => 0xFFFF,
                    },
                })
                &&& options.new_parser == matches.newparser
            },
    {
        let lower = match &matches.celllower {
            Some(text) => Some(parse_cell_number(text.as_str())),
            None => None,
        };
        let upper = match &matches.cellupper {
            Some(text) => Some(parse_cell_number(text.as_str())),
            None => None,
        };
        let size = match &matches.memorysize {
            Some(text) => Some(parse_range(text.as_str())),
            None => None,
        };
        let variable = match &matches.variablelength {
            Some(text) => Some(parse_flag(text.as_str())),
            None => None,
        };
        Self::from_parsed(
            matches.input.clone(),
            matches.raw.clone(),
            matches.verbose,
            lower,
            upper,
            size,
            variable,
            matches.newparser,
        )
    }

    /// Calls `callback` on the options if the verbosity is at least
    /// `minimum`, and does nothing otherwise.
    pub fn with_verbosity<F>(&self, minimum: u8, callback: F) where F: FnOnce(&Self) -> ()
        requires
            self.verbosity >= minimum ==> callback.requires((self,)),
        ensures
            self.verbosity >= minimum ==> callback.ensures((self,), ()),
    {
        if self.verbosity >= minimum {
            callback(self);
        }
    }
}

} // verus!
