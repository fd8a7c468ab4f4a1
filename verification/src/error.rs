//! Evaluation errors as the front end reports them.
use vstd::prelude::*;

verus! {

/// An error raised while evaluating Scheme source.
#[derive(Debug, PartialEq, Eq)]
pub enum SchemeError {
    /// A procedure was called with the wrong number of arguments.
    Arity { name: String, expected: usize, got: usize },
    /// A runtime error with its message.
    Runtime(String),
    /// An unbound symbol.
    Undefined(String),
    /// The source could not be parsed.
    ParseError(String),
    /// An error from the actor network or the host.
    MaError(String),
}

} // verus!
