//! Token identifiers.

use vstd::prelude::*;

verus! {

/// Identifier of one vocabulary entry.
pub type Token = i32;

/// Value that fills the history before any token has been recorded.
pub const FILL_TOKEN: Token = 0;

} // verus!
