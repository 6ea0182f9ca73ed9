//! Events raised while a program is prepared and run, and the log that keeps
//! them.

use vstd::prelude::*;

pub mod debugger;
pub mod event;

pub use self::debugger::{BfDebugger, Debugger, ErrorLog};
pub use self::event::{
    reports, BfError, BfErrorKind, BfResult, ErrEvent, Event, OkEvent, Status, Warning,
};

verus! {

/// Whether an action went well, without saying what went wrong when it did
/// not.
pub type CurrentStatus = bool;

} // verus!
