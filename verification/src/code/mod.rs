//! Programs and what runs them.

pub mod brackets;
pub mod command_traits;
pub mod commands;
pub mod context;
pub mod program;
pub mod runner;

pub use self::brackets::{BType, Bracket, BracketMap};
pub use self::command_traits::CommandRunner;
pub use self::commands::{BfCommand, BfToken};
pub use self::context::Span;
pub use self::program::BfProgram;
pub use self::runner::BfRunner;
