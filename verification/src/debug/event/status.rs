//! A note that an operation went well.

use vstd::prelude::*;
use vstd::string::StringExecFns;

verus! {

/// The report of an operation that succeeded.
#[derive(Debug)]
pub struct Status {
    description: String,
}

impl View for Status {
    type V = Seq<char>;

    /// The description the status was made with.
    closed spec fn view(&self) -> Seq<char> {
        self.description@
    }
}

impl Clone for Status {
    fn clone(&self) -> (copy: Self)
        ensures
            copy == *self,
    {
        Status { description: self.description.clone() }
    }
}

impl Status {
    /// A status that carries `description`.
    pub fn new(description: &str) -> (status: Self)
        ensures
            status@ == description@,
    {
        Status { description: description.to_string() }
    }

    /// The description.
    pub fn description(&self) -> (text: &str)
        ensures
            text@ == self@,
    {
        self.description.as_str()
    }

    /// The status as it is shown to a reader: the word `Status`, a colon and
    /// the description.
    pub fn to_string(&self) -> (text: String)
        ensures
            text@ == "Status: "@ + self@,
    {
        String::from_str("Status: ").concat(self.description.as_str())
    }
}

} // verus!
