use vstd::prelude::*;

verus! {

/// A list of events (errors) raised by the collaborators of the gates.
#[derive(Debug)]
pub enum Event {
    UnexpectedError(String),
    UnableToConnect(String),
}

} // verus!
