//! The options of the interpreter as a program.

pub mod options;

pub use self::options::{AppOptions, ArgValues, ProgramOptions};
