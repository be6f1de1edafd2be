//! The failures that can cross the boundary, and the text each one carries.

use vstd::prelude::*;

verus! {

/// How a failure is classified.
#[derive(Clone, Copy, Debug, PartialEq, Eq, Structural, Hash)]
pub enum ErrorKind {
    /// The host object's type tag is incompatible with the requested native kind.
    TypeMismatch,
    /// A scalar was requested from a vector whose length is not one.
    LengthMismatch,
    /// A number does not fit the target, or a missing value has no native form.
    OutOfRange,
    /// The host's own evaluator raised a condition.
    HostSignaled,
    /// A programming error: a malformed routine table or a misused protection stack.
    Internal,
}

/// A failure: its classification and the message shown to the user.
#[derive(Clone, Debug, PartialEq, Eq)]
pub struct Error {
    pub kind: ErrorKind,
    pub message: String,
}

impl ErrorKind {
    /// The message that an error of this kind carries when the library raises it.
    pub open spec fn spec_text(self) -> Seq<char> {
        match self {
            ErrorKind::TypeMismatch => "type mismatch: the object cannot be read as the requested kind"@,
            ErrorKind::LengthMismatch => "length mismatch: a single value needs a vector of length one"@,
            ErrorKind::OutOfRange => "out of range: the value cannot be represented in the target kind"@,
            ErrorKind::HostSignaled => "the host signaled a condition"@,
            ErrorKind::Internal => "internal error: the registration table or the protection stack was misused"@,
        }
    }

    /// The message for this kind.
    pub fn text(self) -> (t: &'static str)
        ensures
            t@ == self.spec_text(),
    {
        match self {
            ErrorKind::TypeMismatch => "type mismatch: the object cannot be read as the requested kind",
            ErrorKind::LengthMismatch => "length mismatch: a single value needs a vector of length one",
            ErrorKind::OutOfRange => "out of range: the value cannot be represented in the target kind",
            ErrorKind::HostSignaled => "the host signaled a condition",
            ErrorKind::Internal => "internal error: the registration table or the protection stack was misused",
        }
    }
}

impl Error {
    /// Whether this is the error that the library raises for `kind`:
    /// that classification, with the kind's own message.
    pub open spec fn is_standard(self, kind: ErrorKind) -> bool {
        self.kind == kind && self.message@ == kind.spec_text()
    }

    /// The library's error of the given kind.
    pub fn new(kind: ErrorKind) -> (e: Error)
        ensures
            e.is_standard(kind),
    {
        Error { kind, message: kind.text().to_owned() }
    }

    /// A condition raised by the host's evaluator, with the host's message.
    pub fn host_signaled(message: String) -> (e: Error)
        ensures
            e.kind == ErrorKind::HostSignaled,
            e.message == message,
    {
        Error { kind: ErrorKind::HostSignaled, message }
    }
}

} // verus!
