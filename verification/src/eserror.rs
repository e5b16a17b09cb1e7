use vstd::prelude::*;

verus! {

/// An engine-level failure reported to host code: the embedded engine raised
/// an exception while running a piece of submitted work, or the work itself
/// reported a domain error.
#[derive(Debug)]
pub struct EsError {
    message: String,
}

impl EsError {
    /// The error's message text.
    pub closed spec fn message_spec(&self) -> Seq<char> {
        self.message@
    }

    pub fn new_string(message: String) -> (r: EsError)
        ensures
            r.message_spec() == message@,
    {
        EsError { message }
    }

    pub fn new_str(message: &str) -> (r: EsError)
        ensures
            r.message_spec() == message@,
    {
        EsError { message: message.to_owned() }
    }

    pub fn get_message(&self) -> (r: &str)
        ensures
            r@ == self.message_spec(),
    {
        self.message.as_str()
    }
}

} // verus!
