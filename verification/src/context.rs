//! The loaded model context as the library sees it.

use vstd::prelude::*;
use vstd::string::StringSliceAdditionalSpecFns;
use crate::cstr::has_nul;
use crate::cstr::nul_terminated;

verus! {

/// Default size of the context window.
pub const DEFAULT_N_CTX: usize = 512;

/// Options that a model context is created with.
#[derive(Clone, Copy, Debug, PartialEq, Eq)]
pub struct ContextParams {
    /// Size of the context window, in tokens.
    pub n_ctx: usize,
}

impl ContextParams {
    /// The default options: a window of 512 tokens.
    pub fn new() -> (params: ContextParams)
        ensures
            params.n_ctx == DEFAULT_N_CTX,
    {
        ContextParams { n_ctx: DEFAULT_N_CTX }
    }
}

/// Why a model context could not be had.
#[derive(Clone, Copy, Debug, PartialEq, Eq)]
pub enum LoadError {
    /// The path holds a zero byte and cannot be handed to the engine.
    InvalidPath,
    /// The engine could not open or read the model file.
    InitFailed,
}

impl LoadError {
    /// The error in words.
    pub open spec fn text(self) -> Seq<char> {
        match self {
            LoadError::InvalidPath => "Failed to convert path to CString"@,
            LoadError::InitFailed => "Failed to initialize Llama context from file"@,
        }
    }

    /// The error in words.
    pub fn message(&self) -> (message: &'static str)
        ensures
            message@ == self.text(),
    {
        match self {
            LoadError::InvalidPath => "Failed to convert path to CString",
            LoadError::InitFailed => "Failed to initialize Llama context from file",
        }
    }
}

/// The path of a model file as the engine takes it, or the reason why it
/// cannot be handed over.
pub fn model_path(path: &str) -> (out: Result<Vec<u8>, LoadError>)
    ensures
        match out {
            Ok(bytes) => !has_nul(path.spec_bytes()) && bytes@ == path.spec_bytes().push(0),
            Err(e) => e == LoadError::InvalidPath && has_nul(path.spec_bytes()),
        },
{
    match nul_terminated(path.as_bytes()) {
        Some(bytes) => Ok(bytes),
        None => Err(LoadError::InvalidPath),
    }
}

/// One loaded model context: the handle by which the engine knows it, which
/// is never zero, and the options it was created with.
///
/// The context is owned by whoever drives the engine with it. Giving it up
/// with [`LlamaContext::release`] hands back the handle, once, for the engine
/// to free.
pub struct LlamaContext {
    handle: usize,
    params: ContextParams,
}

impl LlamaContext {
    /// The invariant of the representation: the handle is not zero.
    pub closed spec fn wf(&self) -> bool {
        self.handle != 0
    }

    /// The handle by which the engine knows the context.
    pub closed spec fn spec_handle(&self) -> usize {
        self.handle
    }

    /// The options the context was created with.
    pub closed spec fn spec_params(&self) -> ContextParams {
        self.params
    }

    /// Takes the engine's answer to the request to load the model at `path`
    /// with `params`: `handle` is what the engine returned, zero if it could
    /// not load the file. A path that cannot be handed to the engine fails
    /// first, whatever the handle.
    pub fn new_from_file(path: &str, params: ContextParams, handle: usize) -> (out: Result<
        LlamaContext,
        LoadError,
    >)
        ensures
            match out {
                Ok(context) => {
                    &&& !has_nul(path.spec_bytes())
                    &&& handle != 0
                    &&& context.wf()
                    &&& context.spec_handle() == handle
                    &&& context.spec_params() == params
                },
                Err(LoadError::InvalidPath) => has_nul(path.spec_bytes()),
                Err(LoadError::InitFailed) => !has_nul(path.spec_bytes()) && handle == 0,
            },
    {
        match model_path(path) {
            Err(e) => Err(e),
            Ok(_) => {
                if handle == 0 {
                    Err(LoadError::InitFailed)
                } else {
                    Ok(LlamaContext { handle, params })
                }
            },
        }
    }

    /// Whether the context has no engine state behind it. It always has.
    pub fn is_null(&self) -> (null: bool)
        requires
            self.wf(),
        ensures
            !null,
    {
        self.handle == 0
    }

    /// The handle by which the engine knows the context.
    pub fn handle(&self) -> (handle: usize)
        requires
            self.wf(),
        ensures
            handle == self.spec_handle(),
            handle != 0,
    {
        self.handle
    }

    /// The options the context was created with.
    pub fn params(&self) -> (params: ContextParams)
        ensures
            params == self.spec_params(),
    {
        self.params
    }

    /// Gives the context up and hands back its handle for the engine to
    /// free. The context is consumed, so this happens once.
    pub fn release(self) -> (handle: usize)
        requires
            self.wf(),
        ensures
            handle == self.spec_handle(),
            handle != 0,
    {
        self.handle
    }
}

} // verus!
