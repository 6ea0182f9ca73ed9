//! From the text of a program to its commands.
//!
//! [`NormalParser`] takes every character that is a command and passes over
//! the rest. [`NewParser`] does the same, but also passes over what follows
//! a `#` on a line, so that a program can carry comments that hold command
//! characters.

pub mod nparser;
pub mod parser_traits;
pub mod sparser;

pub use self::nparser::NewParser;
pub use self::parser_traits::BfParser;
pub use self::sparser::NormalParser;
