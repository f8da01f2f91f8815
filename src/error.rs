//! Error kinds surfaced by the canonical model, the router and the adapters.

use vstd::prelude::*;

verus! {

/// The kind of an [`Error`], without its message.
#[derive(Debug, Clone, Copy, PartialEq, Eq, Structural)]
pub enum ErrorKind {
    Serialization,
    Http,
    Platform,
    Function,
    Requirements,
    Unexpected,
}

/// Error type of the framework: a kind and a message.
#[derive(Debug)]
pub enum Error {
    /// Encoding or decoding of a body or of metadata failed.
    Serialization(String),
    /// A request lacks what dispatch needs (method, URI).
    Http(String),
    /// A native event has a shape the adapter does not expect.
    Platform(String),
    /// A handler reported a failure.
    Function(String),
    /// A resource or requirement declaration is malformed.
    Requirements(String),
    /// Anything else, contained faults included.
    Unexpected(String),
}

/// Result type of the framework.
pub type Result<T> = core::result::Result<T, Error>;

impl Error {
    pub open spec fn spec_kind(&self) -> ErrorKind {
        match self {
            Error::Serialization(_) => ErrorKind::Serialization,
            Error::Http(_) => ErrorKind::Http,
            Error::Platform(_) => ErrorKind::Platform,
            Error::Function(_) => ErrorKind::Function,
            Error::Requirements(_) => ErrorKind::Requirements,
            Error::Unexpected(_) => ErrorKind::Unexpected,
        }
    }

    pub open spec fn spec_message(&self) -> Seq<char> {
        match self {
            Error::Serialization(m) => m@,
            Error::Http(m) => m@,
            Error::Platform(m) => m@,
            Error::Function(m) => m@,
            Error::Requirements(m) => m@,
            Error::Unexpected(m) => m@,
        }
    }

    /// The text that introduces a message of the given kind.
    pub open spec fn kind_prefix(k: ErrorKind) -> Seq<char> {
        match k {
            ErrorKind::Serialization => "Serialization error: "@,
            ErrorKind::Http => "HTTP error: "@,
            ErrorKind::Platform => "Platform error: "@,
            ErrorKind::Function => "Function error: "@,
            ErrorKind::Requirements => "Requirements error: "@,
            ErrorKind::Unexpected => "Unexpected error: "@,
        }
    }

    /// Creates a serialization error.
    pub fn serialization(msg: &str) -> (r: Error)
        ensures
            r.spec_kind() == ErrorKind::Serialization,
            r.spec_message() == msg@,
    {
        Error::Serialization(msg.to_owned())
    }

    /// Creates an HTTP error.
    pub fn http(msg: &str) -> (r: Error)
        ensures
            r.spec_kind() == ErrorKind::Http,
            r.spec_message() == msg@,
    {
        Error::Http(msg.to_owned())
    }

    /// Creates a platform error.
    pub fn platform(msg: &str) -> (r: Error)
        ensures
            r.spec_kind() == ErrorKind::Platform,
            r.spec_message() == msg@,
    {
        Error::Platform(msg.to_owned())
    }

    /// Creates a function error.
    pub fn function(msg: &str) -> (r: Error)
        ensures
            r.spec_kind() == ErrorKind::Function,
            r.spec_message() == msg@,
    {
        Error::Function(msg.to_owned())
    }

    /// Creates a requirements error.
    pub fn requirements(msg: &str) -> (r: Error)
        ensures
            r.spec_kind() == ErrorKind::Requirements,
            r.spec_message() == msg@,
    {
        Error::Requirements(msg.to_owned())
    }

    /// Creates an unexpected error.
    pub fn unexpected(msg: &str) -> (r: Error)
        ensures
            r.spec_kind() == ErrorKind::Unexpected,
            r.spec_message() == msg@,
    {
        Error::Unexpected(msg.to_owned())
    }

    /// The kind of this error.
    pub fn kind(&self) -> (r: ErrorKind)
        ensures
            r == self.spec_kind(),
    {
        match self {
            Error::Serialization(_) => ErrorKind::Serialization,
            Error::Http(_) => ErrorKind::Http,
            Error::Platform(_) => ErrorKind::Platform,
            Error::Function(_) => ErrorKind::Function,
            Error::Requirements(_) => ErrorKind::Requirements,
            Error::Unexpected(_) => ErrorKind::Unexpected,
        }
    }

    /// The message this error carries.
    pub fn message(&self) -> (r: &str)
        ensures
            r@ == self.spec_message(),
    {
        match self {
            Error::Serialization(m) => m.as_str(),
            Error::Http(m) => m.as_str(),
            Error::Platform(m) => m.as_str(),
            Error::Function(m) => m.as_str(),
            Error::Requirements(m) => m.as_str(),
            Error::Unexpected(m) => m.as_str(),
        }
    }

    /// The human-readable text of this error: its kind's prefix, then its message.
    pub fn to_string(&self) -> (r: String)
        ensures
            r@ == Error::kind_prefix(self.spec_kind()) + self.spec_message(),
    {
        let prefix: &str = match self {
            Error::Serialization(_) => "Serialization error: ",
            Error::Http(_) => "HTTP error: ",
            Error::Platform(_) => "Platform error: ",
            Error::Function(_) => "Function error: ",
            Error::Requirements(_) => "Requirements error: ",
            Error::Unexpected(_) => "Unexpected error: ",
        };
        let mut out = prefix.to_owned();
        out.append(self.message());
        out
    }
}

} // verus!
