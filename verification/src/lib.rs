//! An interpreter for Brainfuck programs: a jump table that pairs the loop
//! brackets, a bounded memory tape, and an engine that runs one command at a
//! time and reports each step as an event.

pub mod app;
pub mod code;
pub mod debug;
pub mod parser;
pub mod stdlib;
pub mod text;
pub mod vm;
