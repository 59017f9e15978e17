//! The library's error type.

use vstd::prelude::*;

verus! {

/// An error of the assistant.
#[derive(Debug)]
pub enum AppError {
    /// The language-model API could not give an answer; the text says why.
    ApiError(String),
}

} // verus!
