//! Everything that can end a request, as one error type.
//!
//! No error is retried and none is passed over: each one ends the request it
//! belongs to and reaches the caller as it is.

use vstd::prelude::*;
use vstd::std_specs::convert::FromSpecImpl;
use crate::context::LoadError;
use crate::sampler::SampleError;
use crate::tokenizer::TokenizeError;

verus! {

/// Why a request ended without its result.
#[derive(Clone, Copy, Debug, PartialEq, Eq)]
pub enum Error {
    /// The model could not be loaded.
    Load(LoadError),
    /// The text could not be turned into tokens.
    Tokenize(TokenizeError),
    /// The engine failed to evaluate a batch and returned this status.
    Evaluate { status: i32 },
    /// The sampler had no token to give.
    Sample(SampleError),
}

impl Error {
    /// The error in words.
    pub open spec fn text(self) -> Seq<char> {
        match self {
            Error::Load(e) => e.text(),
            Error::Tokenize(e) => e.text(),
            Error::Evaluate { .. } => "Failed to eval"@,
            Error::Sample(e) => e.text(),
        }
    }

    /// The error in words.
    pub fn message(&self) -> (message: &'static str)
        ensures
            message@ == self.text(),
    {
        match self {
            Error::Load(e) => e.message(),
            Error::Tokenize(e) => e.message(),
            Error::Evaluate { .. } => "Failed to eval",
            Error::Sample(e) => e.message(),
        }
    }
}

impl From<LoadError> for Error {
    fn from(e: LoadError) -> (error: Error) {
        Error::Load(e)
    }
}

impl FromSpecImpl<LoadError> for Error {
    open spec fn obeys_from_spec() -> bool {
        true
    }

    open spec fn from_spec(e: LoadError) -> Error {
        Error::Load(e)
    }
}

impl From<TokenizeError> for Error {
    fn from(e: TokenizeError) -> (error: Error) {
        Error::Tokenize(e)
    }
}

impl FromSpecImpl<TokenizeError> for Error {
    open spec fn obeys_from_spec() -> bool {
        true
    }

    open spec fn from_spec(e: TokenizeError) -> Error {
        Error::Tokenize(e)
    }
}

impl From<SampleError> for Error {
    fn from(e: SampleError) -> (error: Error) {
        Error::Sample(e)
    }
}

impl FromSpecImpl<SampleError> for Error {
    open spec fn obeys_from_spec() -> bool {
        true
    }

    open spec fn from_spec(e: SampleError) -> Error {
        Error::Sample(e)
    }
}

} // verus!
