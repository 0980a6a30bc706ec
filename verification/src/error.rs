//! The error type shared by the codec and the cache.
use vstd::prelude::*;
use vstd::string::StringExecFns;

verus! {

/// What went wrong.
#[derive(Debug, Clone, Copy, PartialEq, Eq, Structural)]
pub enum ErrorKind {
    /// A frame whose bytes do not form a message.
    InvalidData,
    /// A message of the wrong shape for what was asked of it.
    BadMessage,
    /// An operation byte that names no operation.
    UnknownOp,
    /// A failure inside the cache.
    Other,
}

impl ErrorKind {
    /// The name of the kind, as it is printed.
    pub open spec fn name(self) -> Seq<char> {
        match self {
            ErrorKind::InvalidData => "InvalidData"@,
            ErrorKind::BadMessage => "BadMessage"@,
            ErrorKind::UnknownOp => "UnknownOp"@,
            ErrorKind::Other => "Other"@,
        }
    }

    /// Returns the name of the kind.
    pub fn as_str(&self) -> (s: &'static str)
        ensures
            s@ == self.name(),
    {
        match self {
            ErrorKind::InvalidData => "InvalidData",
            ErrorKind::BadMessage => "BadMessage",
            ErrorKind::UnknownOp => "UnknownOp",
            ErrorKind::Other => "Other",
        }
    }
}

/// An error: its kind and a description for people.
#[derive(Debug)]
pub struct Error {
    kind: ErrorKind,
    description: String,
}

impl Error {
    /// The kind of the error.
    pub closed spec fn spec_kind(&self) -> ErrorKind {
        self.kind
    }

    /// The description of the error, as characters.
    pub closed spec fn spec_description(&self) -> Seq<char> {
        self.description@
    }

    /// The error as it is printed: the kind's name, a colon, the description.
    pub open spec fn text(&self) -> Seq<char> {
        self.spec_kind().name() + ": "@ + self.spec_description()
    }

    /// Makes an error of the given kind with the given description.
    pub fn new(kind: ErrorKind, description: &str) -> (e: Error)
        ensures
            e.spec_kind() == kind,
            e.spec_description() == description@,
    {
        Error { kind, description: description.to_owned() }
    }

    /// Returns the kind of the error.
    #[verifier::when_used_as_spec(spec_kind)]
    pub fn kind(&self) -> (k: ErrorKind)
        ensures
            k == self.spec_kind(),
    {
        self.kind
    }

    /// Returns the description of the error.
    pub fn description(&self) -> (d: &str)
        ensures
            d@ == self.spec_description(),
    {
        self.description.as_str()
    }

    /// Renders the error as `kind: description`.
    pub fn to_string(&self) -> (s: String)
        ensures
            s@ == self.text(),
    {
        let mut s = String::from_str(self.kind.as_str());
        s.append(": ");
        s.append(self.description.as_str());
        s
    }
}

} // verus!
