//! Errors reported by the interpreter and the embedding API.

use vstd::prelude::*;
use vstd::string::StringExecFns;

verus! {

/// The bare kind of a [`JabroniError`], with the human-readable message
/// stripped off. Contracts throughout the crate are stated over kinds:
/// the message text is documentation for people, not part of the semantics.
#[derive(Clone, Copy, Debug, PartialEq, Eq, Structural)]
pub enum ErrorKind {
    /// Problem parsing source text or a literal.
    Parse,
    /// Type mismatch: wrong operand kind, tag mismatch on assignment,
    /// or reassignment of an immutable binding.
    Type,
    /// An identifier is not bound in any visible scope.
    Reference,
    /// A subroutine was called with the wrong number of arguments.
    InvalidArguments,
    /// A name was defined twice in the same scope frame.
    DoubleDefinition,
    /// A failure raised by the host or by exhausting the call-depth budget.
    Exception,
}

/// The error type used throughout this crate. Each variant carries a
/// human-readable message; the variant itself is what the contracts track.
#[derive(Debug, Clone, PartialEq)]
pub enum JabroniError {
    /// Problem parsing.
    Parse(String),
    /// Type mismatch.
    Type(String),
    /// Binding doesn't exist.
    Reference(String),
    /// Bad arguments.
    InvalidArguments(String),
    /// Defining a variable or constant twice.
    DoubleDefinition(String),
    /// Exception thrown in code.
    Exception(String),
}

impl View for JabroniError {
    type V = ErrorKind;

    open spec fn view(&self) -> ErrorKind {
        match self {
            JabroniError::Parse(_) => ErrorKind::Parse,
            JabroniError::Type(_) => ErrorKind::Type,
            JabroniError::Reference(_) => ErrorKind::Reference,
            JabroniError::InvalidArguments(_) => ErrorKind::InvalidArguments,
            JabroniError::DoubleDefinition(_) => ErrorKind::DoubleDefinition,
            JabroniError::Exception(_) => ErrorKind::Exception,
        }
    }
}

impl JabroniError {
    /// The kind of this error, without its message.
    pub fn kind(&self) -> (k: ErrorKind)
        ensures
            k == self@,
    {
        match self {
            JabroniError::Parse(_) => ErrorKind::Parse,
            JabroniError::Type(_) => ErrorKind::Type,
            JabroniError::Reference(_) => ErrorKind::Reference,
            JabroniError::InvalidArguments(_) => ErrorKind::InvalidArguments,
            JabroniError::DoubleDefinition(_) => ErrorKind::DoubleDefinition,
            JabroniError::Exception(_) => ErrorKind::Exception,
        }
    }

    /// The human-readable message carried by this error.
    pub open spec fn message_spec(&self) -> Seq<char> {
        match self {
            JabroniError::Parse(m) => m@,
            JabroniError::Type(m) => m@,
            JabroniError::Reference(m) => m@,
            JabroniError::InvalidArguments(m) => m@,
            JabroniError::DoubleDefinition(m) => m@,
            JabroniError::Exception(m) => m@,
        }
    }

    /// The human-readable message carried by this error.
    pub fn message(&self) -> (m: &String)
        ensures
            m@ == self.message_spec(),
    {
        match self {
            JabroniError::Parse(m) => m,
            JabroniError::Type(m) => m,
            JabroniError::Reference(m) => m,
            JabroniError::InvalidArguments(m) => m,
            JabroniError::DoubleDefinition(m) => m,
            JabroniError::Exception(m) => m,
        }
    }

    /// The label under which this kind of error is reported.
    pub open spec fn label_spec(kind: ErrorKind) -> Seq<char> {
        match kind {
            ErrorKind::Parse => "ParseError: "@,
            ErrorKind::Type => "TypeError: "@,
            ErrorKind::Reference => "ReferenceError: "@,
            ErrorKind::InvalidArguments => "InvalidArgumentsError: "@,
            ErrorKind::DoubleDefinition => "DoubleDefinitionError: "@,
            ErrorKind::Exception => "Uncaught exception: "@,
        }
    }

    /// Render the error as its label followed by its message,
    /// e.g. `TypeError: Type mismatch`.
    pub fn describe(&self) -> (s: String)
        ensures
            s@ == Self::label_spec(self@) + self.message_spec(),
    {
        let label: &str = match self {
            JabroniError::Parse(_) => "ParseError: ",
            JabroniError::Type(_) => "TypeError: ",
            JabroniError::Reference(_) => "ReferenceError: ",
            JabroniError::InvalidArguments(_) => "InvalidArgumentsError: ",
            JabroniError::DoubleDefinition(_) => "DoubleDefinitionError: ",
            JabroniError::Exception(_) => "Uncaught exception: ",
        };
        let mut s = String::from_str(label);
        s.append(self.message().as_str());
        s
    }
}

/// The result type used throughout this crate.
pub type JabroniResult<T = ()> = Result<T, JabroniError>;

} // verus!
