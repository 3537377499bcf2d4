//! Evaluation and compilation errors. Every failure is a value returned
//! to the caller; the engine never recovers or retries.

use vstd::prelude::*;

verus! {

/// Model of an error.
pub enum ErrV {
    Syntax { pos: int },
    Undefined { name: Seq<char> },
    UnknownFilter { name: Seq<char> },
    UnknownFunction { name: Seq<char> },
    TypeErr,
    ArgumentTypeErr { param: Seq<char> },
    MissingArgument { param: Seq<char> },
    UnusedKeywordArgument { name: Seq<char> },
    InvalidContext,
    Arithmetic,
    TooManyArguments,
    NotFound { name: Seq<char> },
}

#[derive(Debug)]
/// An engine error: compile-time syntax failures, name-resolution
/// failures, value-shape mismatches, and call-binding violations.
pub enum Error {
    /// The template text is malformed; `pos` is the character position
    /// of the tag that failed.
    Syntax { pos: usize },
    /// An undefined name reached a position demanding a concrete value.
    Undefined { name: String },
    /// A filter name is not registered.
    UnknownFilter { name: String },
    /// A function name is not registered.
    UnknownFunction { name: String },
    /// A value had the wrong shape for an operation.
    TypeErr,
    /// A supplied argument had the wrong shape for its parameter.
    ArgumentTypeErr { param: String },
    /// A required parameter was not supplied.
    MissingArgument { param: String },
    /// A keyword argument matched no parameter and no collector.
    UnusedKeywordArgument { name: String },
    /// The render-time context value is not map-shaped.
    InvalidContext,
    /// Integer arithmetic overflowed.
    Arithmetic,
    /// More positional arguments than parameters, with no collector.
    TooManyArguments,
    /// No template is registered under the requested name.
    NotFound { name: String },
}

impl View for Error {
    type V = ErrV;

    open spec fn view(&self) -> ErrV {
        match self {
            Error::Syntax { pos } => ErrV::Syntax { pos: *pos as int },
            Error::Undefined { name } => ErrV::Undefined { name: name@ },
            Error::UnknownFilter { name } => ErrV::UnknownFilter { name: name@ },
            Error::UnknownFunction { name } => ErrV::UnknownFunction { name: name@ },
            Error::TypeErr => ErrV::TypeErr,
            Error::ArgumentTypeErr { param } => ErrV::ArgumentTypeErr { param: param@ },
            Error::MissingArgument { param } => ErrV::MissingArgument { param: param@ },
            Error::UnusedKeywordArgument { name } => ErrV::UnusedKeywordArgument { name: name@ },
            Error::InvalidContext => ErrV::InvalidContext,
            Error::Arithmetic => ErrV::Arithmetic,
            Error::TooManyArguments => ErrV::TooManyArguments,
            Error::NotFound { name } => ErrV::NotFound { name: name@ },
        }
    }
}

} // verus!
