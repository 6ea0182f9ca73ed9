//! The events themselves: a [`Status`] for what went well, a [`Warning`] for
//! what may be passed over, a [`BfError`] for what may not.

use vstd::prelude::*;

pub mod error;
pub mod event;
pub mod status;
pub mod warning;

pub use self::error::{BfError, BfErrorKind};
pub use self::event::{reports, ErrEvent, Event, OkEvent};
pub use self::status::Status;
pub use self::warning::Warning;

verus! {

/// The result of an operation that fails with a [`BfError`].
pub type BfResult<T> = Result<T, self::error::BfError>;

} // verus!
