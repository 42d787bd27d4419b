//! Framing of the tokenizer calls.
//!
//! The vocabulary lives in the engine. What is decided here is what goes
//! into a call and what is made of its answer: the text as the engine takes
//! it, the room the engine gets for its answer, how the answer is read, and
//! how the text of single tokens is put together again.

use vstd::prelude::*;
use vstd::string::StringSliceAdditionalSpecFns;
use crate::cstr::has_nul;
use crate::cstr::nul_terminated;
use crate::token::Token;
use crate::token::FILL_TOKEN;

verus! {

/// Why text could not be turned into tokens.
#[derive(Clone, Copy, Debug, PartialEq, Eq)]
pub enum TokenizeError {
    /// The text holds a zero byte and cannot be handed to the engine.
    InvalidText,
    /// The text is too long for the count of its tokens to be told.
    TooLong,
    /// The engine reported failure, with this negative count.
    Failed { code: i32 },
}

impl TokenizeError {
    /// The error in words.
    pub open spec fn text(self) -> Seq<char> {
        match self {
            TokenizeError::InvalidText => "Failed to convert input_text to CString"@,
            TokenizeError::TooLong => "Input text is too long"@,
            TokenizeError::Failed { .. } => "Tokenization failed"@,
        }
    }

    /// The error in words.
    pub fn message(&self) -> (message: &'static str)
        ensures
            message@ == self.text(),
    {
        match self {
            TokenizeError::InvalidText => "Failed to convert input_text to CString",
            TokenizeError::TooLong => "Input text is too long",
            TokenizeError::Failed { .. } => "Tokenization failed",
        }
    }
}

/// Number of tokens that text of `text_len` bytes can give at most: one per
/// byte, and one more for the beginning-of-sequence token if it is asked for.
pub open spec fn token_room(text_len: nat, add_bos: bool) -> nat {
    if add_bos {
        text_len + 1
    } else {
        text_len
    }
}

/// What goes into one call of the engine's tokenizer.
#[derive(Debug, PartialEq, Eq)]
pub struct TokenizeRequest {
    /// The text, closed by a zero byte.
    pub text: Vec<u8>,
    /// Number of tokens that the engine may write.
    pub max_tokens: usize,
    /// Whether the tokens are to start with the beginning-of-sequence token.
    pub add_bos: bool,
}

/// Largest number of tokens that one call can be given room for.
pub const MAX_TOKENS: usize = 0x7fff_ffff;

/// Number of tokens to make room for when text of `text_len` bytes is turned
/// into tokens, or `TooLong` if that number is more than the engine can be
/// told.
pub fn token_capacity(text_len: usize, add_bos: bool) -> (out: Result<usize, TokenizeError>)
    ensures
        match out {
            Ok(capacity) => {
                &&& capacity == token_room(text_len as nat, add_bos)
                &&& capacity <= MAX_TOKENS
            },
            Err(e) => {
                &&& e == TokenizeError::TooLong
                &&& token_room(text_len as nat, add_bos) > MAX_TOKENS
            },
        },
{
    let extra: usize = if add_bos {
        1
    } else {
        0
    };
    if text_len > MAX_TOKENS - extra {
        Err(TokenizeError::TooLong)
    } else {
        Ok(text_len + extra)
    }
}

/// Prepares the call that turns `text` into tokens. Text with a zero byte
/// is refused first, then text that is too long.
pub fn tokenize_request(text: &str, add_bos: bool) -> (out: Result<TokenizeRequest, TokenizeError>)
    ensures
        match out {
            Ok(request) => {
                &&& !has_nul(text.spec_bytes())
                &&& token_room(text.spec_bytes().len(), add_bos) <= MAX_TOKENS
                &&& request.text@ == text.spec_bytes().push(0)
                &&& request.max_tokens == token_room(text.spec_bytes().len(), add_bos)
                &&& request.add_bos == add_bos
            },
            Err(TokenizeError::InvalidText) => has_nul(text.spec_bytes()),
            Err(TokenizeError::TooLong) => {
                &&& !has_nul(text.spec_bytes())
                &&& token_room(text.spec_bytes().len(), add_bos) > MAX_TOKENS
            },
            Err(TokenizeError::Failed { .. }) => false,
        },
{
    let bytes: &[u8] = text.as_bytes();
    match nul_terminated(bytes) {
        None => Err(TokenizeError::InvalidText),
        Some(terminated) => match token_capacity(bytes.len(), add_bos) {
            Err(e) => Err(e),
            Ok(max_tokens) => Ok(TokenizeRequest { text: terminated, max_tokens, add_bos }),
        },
    }
}

/// The room that the engine writes the tokens of `request` to: as many fill
/// tokens as it may write.
pub fn token_buffer(request: &TokenizeRequest) -> (buffer: Vec<Token>)
    ensures
        buffer@ == Seq::new(request.max_tokens as nat, |i: int| FILL_TOKEN),
{
    let buffer: Vec<Token> = vec![FILL_TOKEN; request.max_tokens];
    assert(buffer@ =~= Seq::new(request.max_tokens as nat, |i: int| FILL_TOKEN));
    buffer
}

/// The first `count` entries of `buffer`, with fill tokens where the buffer
/// is shorter.
pub open spec fn resized(buffer: Seq<Token>, count: nat) -> Seq<Token> {
    Seq::new(
        count,
        |i: int|
            if i < buffer.len() {
                buffer[i]
            } else {
                FILL_TOKEN
            },
    )
}

/// Reads the engine's answer: `written` is the count it returned, negative
/// for failure, and `buffer` is what it wrote to. The tokens are the first
/// `written` entries of the buffer.
pub fn tokenize_reply(buffer: Vec<Token>, written: i32) -> (out: Result<Vec<Token>, TokenizeError>)
    ensures
        match out {
            Ok(tokens) => written >= 0 && tokens@ == resized(buffer@, written as nat),
            Err(e) => written < 0 && e == (TokenizeError::Failed { code: written }),
        },
{
    if written < 0 {
        return Err(TokenizeError::Failed { code: written });
    }
    let mut tokens: Vec<Token> = buffer;
    tokens.resize(written as usize, FILL_TOKEN);
    assert(tokens@ =~= resized(buffer@, written as nat));
    Ok(tokens)
}

/// The fragments one after the other.
pub open spec fn joined(fragments: Seq<Seq<u8>>) -> Seq<u8>
    decreases fragments.len(),
{
    if fragments.len() == 0 {
        Seq::empty()
    } else {
        joined(fragments.drop_last()) + fragments.last()
    }
}

/// Puts the text of single tokens together, in their order. A fragment need
/// not be text by itself: a character can be spread over several tokens, so
/// only the whole is fit to be read as text.
pub fn detokenize(fragments: &Vec<Vec<u8>>) -> (text: Vec<u8>)
    ensures
        text@ == joined(fragments.deep_view()),
{
    let mut text: Vec<u8> = Vec::new();
    let mut i: usize = 0;
    while i < fragments.len()
        invariant
            i <= fragments.len(),
            text@ == joined(fragments.deep_view().take(i as int)),
        decreases fragments.len() - i,
    {
        let fragment: &Vec<u8> = &fragments[i];
        let ghost before = text@;
        let mut j: usize = 0;
        while j < fragment.len()
            invariant
                j <= fragment.len(),
                text@ == before + fragment@.take(j as int),
            decreases fragment.len() - j,
        {
            text.push(fragment[j]);
            j = j + 1;
            assert(text@ =~= before + fragment@.take(j as int));
        }
        proof {
            let all = fragments.deep_view();
            assert(fragment@.take(fragment.len() as int) =~= fragment@);
            assert(all.take(i + 1).drop_last() =~= all.take(i as int));
            assert(all.take(i + 1).last() == fragment@);
        }
        i = i + 1;
    }
    assert(fragments.deep_view().take(fragments.len() as int) =~= fragments.deep_view());
    text
}

} // verus!
