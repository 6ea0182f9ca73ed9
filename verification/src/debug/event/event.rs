//! The outcome of one operation: an [`OkEvent`] or an [`ErrEvent`].

use vstd::prelude::*;
use super::{BfError, Status, Warning};

verus! {

/// What an operation of the interpreter reports.
pub type Event = Result<OkEvent, ErrEvent>;

/// An event after which the work goes on.
#[derive(Debug)]
pub enum OkEvent {
    /// The operation succeeded.
    Status(Status),
    /// The operation succeeded, though something about it is doubtful.
    Warning(Warning),
}

/// An event that ends the work.
#[derive(Debug)]
pub enum ErrEvent {
    /// Something doubtful that must be dealt with.
    Warning(Warning),
    /// A failure.
    Error(BfError),
}

/// Whether `event` is the status with the description `text`.
pub open spec fn reports(event: Event, text: Seq<char>) -> bool {
    event matches Ok(OkEvent::Status(status)) && status@ == text
}

impl Clone for OkEvent {
    fn clone(&self) -> (copy: Self)
        ensures
            copy == *self,
    {
        match self {
            OkEvent::Status(status) => OkEvent::Status(status.clone()),
            OkEvent::Warning(warning) => OkEvent::Warning(warning.clone()),
        }
    }
}

impl Clone for ErrEvent {
    fn clone(&self) -> (copy: Self)
        ensures
            copy == *self,
    {
        match self {
            ErrEvent::Warning(warning) => ErrEvent::Warning(warning.clone()),
            ErrEvent::Error(error) => ErrEvent::Error(error.clone()),
        }
    }
}

impl OkEvent {
    /// The text of the event as it is shown to a reader.
    pub open spec fn text(&self) -> Seq<char> {
        match self {
            OkEvent::Status(status) => "Status: "@ + status@,
            OkEvent::Warning(warning) => "Warning: "@ + warning@,
        }
    }

    /// The event as it is shown to a reader.
    pub fn to_string(&self) -> (text: String)
        ensures
            text@ == self.text(),
    {
        match self {
            OkEvent::Status(status) => status.to_string(),
            OkEvent::Warning(warning) => warning.to_string(),
        }
    }
}

impl ErrEvent {
    /// The text of the event as it is shown to a reader.
    pub open spec fn text(&self) -> Seq<char> {
        match self {
            ErrEvent::Warning(warning) => "Warning: "@ + warning@,
            ErrEvent::Error(error) => error.kind().name() + ": "@ + error.spec_description(),
        }
    }

    /// The event as it is shown to a reader.
    pub fn to_string(&self) -> (text: String)
        ensures
            text@ == self.text(),
    {
        match self {
            ErrEvent::Warning(warning) => warning.to_string(),
            ErrEvent::Error(error) => error.to_string(),
        }
    }
}

} // verus!
