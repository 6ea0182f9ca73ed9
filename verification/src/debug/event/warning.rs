//! A note that something may have gone wrong without stopping the work.

use vstd::prelude::*;
use vstd::string::StringExecFns;

verus! {

/// The report of something doubtful that, unlike an error, may be passed
/// over.
#[derive(Debug)]
pub struct Warning {
    description: String,
}

impl View for Warning {
    type V = Seq<char>;

    /// The description the warning was made with.
    closed spec fn view(&self) -> Seq<char> {
        self.description@
    }
}

impl Clone for Warning {
    fn clone(&self) -> (copy: Self)
        ensures
            copy == *self,
    {
        Warning { description: self.description.clone() }
    }
}

impl Warning {
    /// A warning that carries `description`.
    pub fn new(description: &str) -> (warning: Self)
        ensures
            warning@ == description@,
    {
        Warning { description: description.to_string() }
    }

    /// The description.
    pub fn description(&self) -> (text: &str)
        ensures
            text@ == self@,
    {
        self.description.as_str()
    }

    /// The warning as it is shown to a reader: the word `Warning`, a colon
    /// and the description.
    pub fn to_string(&self) -> (text: String)
        ensures
            text@ == "Warning: "@ + self@,
    {
        String::from_str("Warning: ").concat(self.description.as_str())
    }
}

} // verus!
