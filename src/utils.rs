use vstd::prelude::*;

verus! {

/// An error carrying a human-readable description.
#[derive(Debug)]
pub struct GenericError {
    details: String,
}

impl GenericError {
    pub closed spec fn view(&self) -> Seq<char> {
        self.details@
    }

    /// Builds an error whose description is `msg`.
    pub fn new(msg: &str) -> (r: GenericError)
        ensures
            r@ == msg@,
    {
        GenericError { details: msg.to_string() }
    }

    /// The description given at construction.
    pub fn description(&self) -> (r: String)
        ensures
            r@ == self@,
    {
        self.details.clone()
    }
}

} // verus!
