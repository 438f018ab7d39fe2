//! Errors of the runtime.

use vstd::prelude::*;

verus! {

/// A runtime error, after the error kinds of the language.
#[derive(Debug, Clone)]
pub enum TsError {
    /// A syntax error.
    SyntaxError(String),
    /// A type error.
    TypeError(String),
    /// A reference to an undefined name.
    ReferenceError(String),
    /// A value out of its allowed range.
    RangeError(String),
    /// Any other error.
    Other(String),
}

} // verus!
