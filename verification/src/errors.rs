//! Error types raised by the persistence primitives.

use vstd::prelude::*;

verus! {

/// An error raised by a persistence primitive itself: a lock conflict, a
/// sequencing violation, use of a closed handle, or a malformed persisted
/// value.
///
/// Its view is the sequence of characters of its message.
#[derive(Clone, Debug, PartialEq, Eq)]
pub struct Error {
    message: String,
}

impl View for Error {
    type V = Seq<char>;

    closed spec fn view(&self) -> Seq<char> {
        self.message@
    }
}

impl Error {
    /// Creates an error carrying the given message.
    pub fn new(message: &str) -> (r: Error)
        ensures
            r@ == message@,
    {
        Error { message: message.to_owned() }
    }

    /// Creates an error carrying the given message.
    pub fn from_string(message: String) -> (r: Error)
        ensures
            r@ == message@,
    {
        Error { message }
    }

    /// The error's message.
    pub fn message(&self) -> (r: &str)
        ensures
            r@ == self@,
    {
        self.message.as_str()
    }
}

impl From<String> for Error {
    fn from(message: String) -> (r: Error)
        ensures
            r@ == message@,
    {
        Error { message }
    }
}

impl vstd::std_specs::convert::FromSpecImpl<String> for Error {
    closed spec fn obeys_from_spec() -> bool {
        true
    }

    closed spec fn from_spec(message: String) -> Error {
        Error { message }
    }
}

/// An error coming from an underlying durability system (a disk, an object
/// store) or from invalid data received from one.
///
/// The two variants separate failures after which the operation definitely
/// did not take effect from failures after which it may or may not have taken
/// effect, so that callers retrying a conditional update can re-read the
/// current state instead of blindly retrying.
///
/// Its view is the sequence of characters of its message.
#[derive(Clone, Debug, PartialEq, Eq)]
pub enum ExternalError {
    /// The operation definitely did not take effect.
    Determinate { message: String },
    /// The operation may or may not have taken effect (a timeout, a lost
    /// connection).
    Indeterminate { message: String },
}

impl View for ExternalError {
    type V = Seq<char>;

    closed spec fn view(&self) -> Seq<char> {
        match self {
            ExternalError::Determinate { message } => message@,
            ExternalError::Indeterminate { message } => message@,
        }
    }
}

impl ExternalError {
    /// Creates an error after which the operation definitely did not happen.
    pub fn determinate(message: String) -> (r: ExternalError)
        ensures
            r == (ExternalError::Determinate { message }),
            r@ == message@,
    {
        ExternalError::Determinate { message }
    }

    /// Creates an error after which the operation may or may not have
    /// happened.
    pub fn indeterminate(message: String) -> (r: ExternalError)
        ensures
            r == (ExternalError::Indeterminate { message }),
            r@ == message@,
    {
        ExternalError::Indeterminate { message }
    }

    /// The error's message.
    pub fn message(&self) -> (r: &str)
        ensures
            r@ == self@,
    {
        match self {
            ExternalError::Determinate { message } => message.as_str(),
            ExternalError::Indeterminate { message } => message.as_str(),
        }
    }
}

impl From<Error> for ExternalError {
    fn from(e: Error) -> (r: ExternalError)
        ensures
            r@ == e@,
            r is Determinate,
    {
        let Error { message } = e;
        ExternalError::Determinate { message }
    }
}

impl vstd::std_specs::convert::FromSpecImpl<Error> for ExternalError {
    open spec fn obeys_from_spec() -> bool {
        true
    }

    closed spec fn from_spec(e: Error) -> ExternalError {
        ExternalError::Determinate { message: e.message }
    }
}

} // verus!
