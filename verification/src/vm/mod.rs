//! The machine that a program runs on: a tape of bounded cells and a pointer
//! to one of them.

pub mod cell;
pub mod memory;
pub mod pointer;

pub use self::cell::{default_lower, default_upper, CellNumber, MemoryCell};
pub use self::memory::{Memory, MemoryOptions};
pub use self::pointer::{default_range, MemoryPointer, MemoryRange};
