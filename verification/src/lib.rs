//! Verified core of an autoregressive text-generation driver.
//!
//! The crate holds the decisions that surround a language-model evaluation
//! engine: the rolling history of recent tokens ([`history`]), the
//! bookkeeping of the context window and its truncation ([`window`]), the
//! generation loop as a state machine ([`generate`], with what holds of its
//! runs in [`run`]), the sampler ([`sampler`], [`scores`], [`ranking`],
//! [`nucleus`], [`draw`]), the framing of tokenizer calls ([`tokenizer`]) and
//! the record of a loaded model ([`context`]). The engine itself is reached
//! by the caller; everything here works on plain values, and every function
//! is proved to do what its contract says.

pub mod token;
pub mod cstr;
pub mod context;
pub mod history;
pub mod window;
pub mod generate;
pub mod run;
pub mod ranking;
pub mod nucleus;
pub mod draw;
pub mod sampler;
pub mod scores;
pub mod tokenizer;
pub mod error;
