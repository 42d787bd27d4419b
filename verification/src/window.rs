//! Context-window bookkeeping: how many tokens the engine has evaluated, and
//! what happens when the next batch would not fit.

use vstd::prelude::*;
use crate::token::Token;
use crate::history::HistoryRing;
use crate::history::padded_with_fill;
use crate::history::pushed;

verus! {

/// Whether a batch of `batch_len` tokens on top of `n_past` evaluated ones
/// exceeds a window of `n_ctx` tokens.
pub open spec fn overflows(n_past: nat, batch_len: nat, n_ctx: nat) -> bool {
    n_past + batch_len > n_ctx
}

/// Number of evaluated tokens that a truncation discards.
pub open spec fn n_left(n_past: nat, n_keep: nat) -> int {
    n_past - n_keep
}

/// Number of history entries that a truncation puts in front of the batch:
/// half of what it discards, as far as the history reaches.
pub open spec fn reseed_count(n_past: nat, n_keep: nat, available: nat) -> nat {
    let left = n_left(n_past, n_keep);
    if left <= 0 {
        0
    } else if left / 2 <= available {
        (left / 2) as nat
    } else {
        available
    }
}

/// Mathematical state of a [`ContextWindow`].
pub struct WindowView {
    /// Size of the context window.
    pub n_ctx: nat,
    /// Number of evaluated tokens that survive a truncation.
    pub n_keep: nat,
    /// Number of tokens evaluated since the last reset.
    pub n_past: nat,
    /// The recorded tokens, oldest first, at most `n_ctx` of them.
    pub history: Seq<Token>,
}

impl WindowView {
    /// The history padded with the fill token to `n_ctx` entries.
    pub open spec fn padded(self) -> Seq<Token> {
        padded_with_fill(self.history, (self.n_ctx - self.history.len()) as nat)
    }

    /// Whether a batch of this length triggers the truncation policy.
    pub open spec fn must_truncate(self, batch_len: nat) -> bool {
        overflows(self.n_past, batch_len, self.n_ctx)
    }

    /// Whether the truncation policy changes anything for a batch of this
    /// length: it is triggered and there is something to discard.
    pub open spec fn rewinds(self, batch_len: nat) -> bool {
        self.must_truncate(batch_len) && n_left(self.n_past, self.n_keep) > 0
    }

    /// The tokens that a truncation puts in front of the batch.
    pub open spec fn reseed(self) -> Seq<Token> {
        self.padded().take(reseed_count(self.n_past, self.n_keep, self.n_ctx) as int)
    }

    /// The batch as it is submitted after the window check.
    pub open spec fn fitted_batch(self, batch: Seq<Token>) -> Seq<Token> {
        if self.rewinds(batch.len()) {
            self.reseed() + batch
        } else {
            batch
        }
    }

    /// The window after the check for a batch of this length.
    pub open spec fn fitted(self, batch_len: nat) -> WindowView {
        if self.rewinds(batch_len) {
            WindowView { n_past: self.n_keep, ..self }
        } else {
            self
        }
    }

    /// The window after `count` more tokens have been evaluated.
    pub open spec fn advanced(self, count: nat) -> WindowView {
        WindowView { n_past: self.n_past + count, ..self }
    }

    /// The window after `token` has been recorded in the history.
    pub open spec fn recorded(self, token: Token) -> WindowView {
        WindowView { history: pushed(self.history, self.n_ctx, token), ..self }
    }
}

/// The evaluated-token count of one model context together with the history
/// of recent tokens, and the policy that keeps a batch inside the window.
pub struct ContextWindow {
    n_ctx: usize,
    n_keep: usize,
    n_past: usize,
    history: HistoryRing,
}

impl View for ContextWindow {
    type V = WindowView;

    closed spec fn view(&self) -> WindowView {
        WindowView {
            n_ctx: self.n_ctx as nat,
            n_keep: self.n_keep as nat,
            n_past: self.n_past as nat,
            history: self.history@,
        }
    }
}

impl ContextWindow {
    /// The invariant of the representation.
    pub closed spec fn wf(&self) -> bool {
        &&& self.history.wf()
        &&& self.history.spec_capacity() == self.n_ctx
    }

    /// Facts that hold of every well-formed window.
    pub proof fn lemma_wf(&self)
        requires
            self.wf(),
        ensures
            self@.n_ctx <= usize::MAX,
            self@.n_keep <= usize::MAX,
            self@.n_past <= usize::MAX,
            self@.history.len() <= self@.n_ctx,
            self@.padded().len() == self@.n_ctx,
    {
        self.history.lemma_len_bound();
    }

    /// A window of `n_ctx` tokens with nothing evaluated and nothing recorded.
    pub fn new(n_ctx: usize, n_keep: usize) -> (window: ContextWindow)
        ensures
            window.wf(),
            window@ == (WindowView {
                n_ctx: n_ctx as nat,
                n_keep: n_keep as nat,
                n_past: 0,
                history: Seq::empty(),
            }),
    {
        ContextWindow { n_ctx, n_keep, n_past: 0, history: HistoryRing::new(n_ctx) }
    }

    /// Size of the context window.
    pub fn n_ctx(&self) -> (n: usize)
        ensures
            n == self@.n_ctx,
    {
        self.n_ctx
    }

    /// Number of evaluated tokens that survive a truncation.
    pub fn n_keep(&self) -> (n: usize)
        ensures
            n == self@.n_keep,
    {
        self.n_keep
    }

    /// Number of tokens evaluated since the last reset.
    pub fn n_past(&self) -> (n: usize)
        ensures
            n == self@.n_past,
    {
        self.n_past
    }

    /// The recorded tokens.
    pub fn history(&self) -> (history: &HistoryRing)
        requires
            self.wf(),
        ensures
            history.wf(),
            history@ == self@.history,
            history.spec_capacity() == self@.n_ctx,
    {
        &self.history
    }

    /// Records `token` as the most recent one of the history.
    pub fn record(&mut self, token: Token)
        requires
            old(self).wf(),
        ensures
            final(self).wf(),
            final(self)@ == old(self)@.recorded(token),
    {
        self.history.push(token);
    }

    /// Checks the window before `batch` is evaluated.
    ///
    /// Nothing changes while the batch fits. When it does not, and more tokens
    /// have been evaluated than are kept, the count of evaluated tokens falls
    /// back to `n_keep` and the first half as many entries of the padded
    /// history as were discarded are put in front of the batch. The result
    /// says whether the batch did not fit.
    pub fn make_room(&mut self, batch: &mut Vec<Token>) -> (truncated: bool)
        requires
            old(self).wf(),
        ensures
            final(self).wf(),
            truncated == old(self)@.must_truncate(old(batch)@.len()),
            final(self)@ == old(self)@.fitted(old(batch)@.len()),
            final(batch)@ == old(self)@.fitted_batch(old(batch)@),
    {
        proof {
            self.lemma_wf();
        }
        if batch.len() <= self.n_ctx && self.n_past <= self.n_ctx - batch.len() {
            return false;
        }
        if self.n_past > self.n_keep {
            let discarded: usize = self.n_past - self.n_keep;
            let mut fitted: Vec<Token> = self.history.padded_prefix(discarded / 2);
            fitted.append(batch);
            *batch = fitted;
            self.n_past = self.n_keep;
        }
        true
    }

    /// Counts `count` more tokens as evaluated.
    pub fn advance(&mut self, count: usize)
        requires
            old(self).wf(),
            old(self)@.n_past + count <= usize::MAX,
        ensures
            final(self).wf(),
            final(self)@ == old(self)@.advanced(count as nat),
    {
        self.n_past = self.n_past + count;
    }
}

/// A triggered truncation leaves at most `n_keep` tokens counted as
/// evaluated.
pub proof fn lemma_truncation_resets_past(window: WindowView, batch: Seq<Token>)
    requires
        window.must_truncate(batch.len()),
    ensures
        window.fitted(batch.len()).n_past <= window.n_keep,
{
}

/// A triggered truncation puts exactly `n_left / 2` history entries in front
/// of the batch, whenever the count of evaluated tokens is inside the window
/// and not below `n_keep`.
pub proof fn lemma_truncation_reseeds_half(window: WindowView, batch: Seq<Token>)
    requires
        window.history.len() <= window.n_ctx,
        window.n_past <= window.n_ctx,
        window.n_keep <= window.n_past,
        window.must_truncate(batch.len()),
    ensures
        window.fitted_batch(batch).len() == n_left(window.n_past, window.n_keep) / 2 + batch.len(),
        window.fitted_batch(batch) == window.padded().take(
            n_left(window.n_past, window.n_keep) / 2,
        ) + batch,
{
}

/// After a triggered truncation the batch fits the window, provided the kept
/// tokens, the reseeded half and the batch together do.
pub proof fn lemma_truncation_fits(window: WindowView, batch: Seq<Token>)
    requires
        window.history.len() <= window.n_ctx,
        window.n_past <= window.n_ctx,
        window.n_keep <= window.n_past,
        window.must_truncate(batch.len()),
        window.n_keep + n_left(window.n_past, window.n_keep) / 2 + batch.len() <= window.n_ctx,
    ensures
        !overflows(
            window.fitted(batch.len()).n_past,
            window.fitted_batch(batch).len(),
            window.n_ctx,
        ),
{
}

} // verus!
