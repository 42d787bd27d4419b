//! The sampler: from the scores of the model to one token.
//!
//! The steps of the sampler that work on whole numbers are decided in this
//! library: whether the scores can be used at all and which tokens count as
//! recent (here), how recent tokens are weakened and the scores divided by
//! the temperature ([`crate::scores`]), which candidates are the `top_k`
//! heaviest ([`crate::ranking`]), how many of them form the nucleus of share
//! `top_p` ([`crate::nucleus`]), and on which of those a random draw lands
//! ([`crate::draw`]). Turning the prepared scores into probabilities takes
//! the exponential function and is left to the caller, who hands the
//! probabilities over as integer weights, one per vocabulary entry.

use vstd::prelude::*;
use crate::token::Token;
use crate::ranking::is_ranking;
use crate::ranking::outranks;
use crate::ranking::top_candidates;
use crate::ranking::top_count;
use crate::ranking::top_k;
use crate::ranking::lemma_ranking_unique;
use crate::ranking::lemma_top_candidates;
use crate::nucleus::mass;
use crate::nucleus::nucleus;
use crate::nucleus::nucleus_from;
use crate::nucleus::nucleus_len;
use crate::nucleus::reaches;
use crate::nucleus::lemma_mass_bounds;
use crate::nucleus::lemma_mass_positive;
use crate::nucleus::lemma_nucleus_least;
use crate::draw::draw_candidate;
use crate::draw::draw_target;
use crate::draw::landing;
use crate::draw::landing_from;
use crate::draw::lemma_landing_bound;

verus! {

/// The scale of the fractions among the sampler options and of the scores:
/// a value of `PER_MILLION` stands for one.
pub const PER_MILLION: u32 = 1_000_000;

/// Options of the sampler. The three fractions are given in millionths.
#[derive(Clone, Copy, Debug, PartialEq, Eq)]
pub struct SampleParams {
    /// Number of best candidates that are retained.
    pub top_k: usize,
    /// Share of the retained mass that the nucleus has to reach, in
    /// millionths; between one millionth and the whole.
    pub top_p: u32,
    /// What the scores are divided by, in millionths; more than zero.
    pub temperature: u32,
    /// What the scores of recent tokens are weakened by, in millionths; at
    /// least one.
    pub repeat_penalty: u32,
    /// Number of trailing history tokens that count as recent.
    pub repeat_last_n: usize,
}

impl SampleParams {
    /// Whether the fractions are in their ranges.
    pub open spec fn valid(self) -> bool {
        &&& 1 <= self.top_p <= PER_MILLION
        &&& self.temperature >= 1
        &&& self.repeat_penalty >= PER_MILLION
    }

    /// Whether the fractions are in their ranges.
    pub fn is_valid(&self) -> (ok: bool)
        ensures
            ok == self.valid(),
    {
        1 <= self.top_p && self.top_p <= PER_MILLION && self.temperature >= 1
            && self.repeat_penalty >= PER_MILLION
    }

    /// The default options: the 40 best candidates, a nucleus of 0.9, a
    /// temperature of 0.8 and a penalty of 1.1 on the last 64 tokens.
    pub fn new() -> (params: SampleParams)
        ensures
            params.valid(),
            params == (SampleParams {
                top_k: 40,
                top_p: 900_000,
                temperature: 800_000,
                repeat_penalty: 1_100_000,
                repeat_last_n: 64,
            }),
    {
        SampleParams {
            top_k: 40,
            top_p: 900_000,
            temperature: 800_000,
            repeat_penalty: 1_100_000,
            repeat_last_n: 64,
        }
    }
}

/// Why the sampler has no token to give.
#[derive(Clone, Copy, Debug, PartialEq, Eq)]
pub enum SampleError {
    /// The score at `index` is infinite or not a number.
    NonFinite { index: usize },
    /// No candidate with a weight above zero is left after filtering.
    NoCandidates,
}

impl SampleError {
    /// The error in words.
    pub open spec fn text(self) -> Seq<char> {
        match self {
            SampleError::NonFinite { .. } => "Scores are not finite"@,
            SampleError::NoCandidates => "No candidate is left to sample"@,
        }
    }

    /// The error in words.
    pub fn message(&self) -> (message: &'static str)
        ensures
            message@ == self.text(),
    {
        match self {
            SampleError::NonFinite { .. } => "Scores are not finite",
            SampleError::NoCandidates => "No candidate is left to sample",
        }
    }
}

/// The bits of the exponent in the bit pattern of a single-precision number.
pub const EXPONENT_BITS: u32 = 0x7f80_0000;

/// Whether `bits` is the bit pattern of a finite single-precision number:
/// the bits of the exponent are not all set.
pub open spec fn is_finite_bits(bits: u32) -> bool {
    bits & EXPONENT_BITS != EXPONENT_BITS
}

/// Checks the scores of the model, given by their bit patterns, before they
/// are used: a score that is infinite or not a number is a fault of the
/// evaluation and is reported, the first one by its index.
pub fn check_scores(scores: &Vec<u32>) -> (out: Result<(), SampleError>)
    ensures
        match out {
            Ok(_) => forall|i: int| 0 <= i < scores.len() ==> is_finite_bits(#[trigger] scores[i]),
            Err(SampleError::NonFinite { index }) => {
                &&& index < scores.len()
                &&& !is_finite_bits(scores[index as int])
                &&& forall|i: int| 0 <= i < index ==> is_finite_bits(#[trigger] scores[i])
            },
            Err(SampleError::NoCandidates) => false,
        },
{
    let mut i: usize = 0;
    while i < scores.len()
        invariant
            i <= scores.len(),
            forall|j: int| 0 <= j < i ==> is_finite_bits(#[trigger] scores[j]),
        decreases scores.len() - i,
    {
        if scores[i] & EXPONENT_BITS == EXPONENT_BITS {
            return Err(SampleError::NonFinite { index: i });
        }
        i = i + 1;
    }
    Ok(())
}

/// Whether `id` occurs in `window`.
pub open spec fn occurs(window: Seq<Token>, id: int) -> bool {
    exists|j: int| 0 <= j < window.len() && #[trigger] window[j] as int == id
}

/// Marks the vocabulary entries that the repetition penalty applies to:
/// those that occur in `window`. Tokens of the window that are no vocabulary
/// entries are passed over.
pub fn penalized(window: &Vec<Token>, n_vocab: usize) -> (marks: Vec<bool>)
    ensures
        marks.len() == n_vocab,
        forall|id: int| 0 <= id < n_vocab ==> #[trigger] marks[id] == occurs(window@, id),
{
    let mut marks: Vec<bool> = vec![false; n_vocab];
    let mut j: usize = 0;
    while j < window.len()
        invariant
            j <= window.len(),
            marks.len() == n_vocab,
            forall|id: int|
                0 <= id < n_vocab ==> #[trigger] marks[id] == occurs(window@.take(j as int), id),
        decreases window.len() - j,
    {
        let token: Token = window[j];
        let ghost before = marks@;
        if token >= 0 && (token as usize) < n_vocab {
            marks.set(token as usize, true);
        }
        proof {
            let shorter = window@.take(j as int);
            let longer = window@.take(j + 1);
            assert forall|id: int| 0 <= id < n_vocab implies #[trigger] marks[id] == occurs(
                longer,
                id,
            ) by {
                if occurs(shorter, id) {
                    let i = choose|i: int| 0 <= i < shorter.len() && shorter[i] as int == id;
                    assert(longer[i] as int == id);
                }
                if token as int == id {
                    assert(longer[j as int] as int == id);
                }
                if occurs(longer, id) {
                    let i = choose|i: int| 0 <= i < longer.len() && longer[i] as int == id;
                    if i < j {
                        assert(shorter[i] as int == id);
                    }
                }
            }
        }
        j = j + 1;
    }
    assert(window@.take(window.len() as int) =~= window@);
    marks
}

/// Whether the filters leave a candidate to draw: at least one candidate is
/// retained, the nucleus has a share to reach, and some weight is above zero.
pub open spec fn can_sample(weights: Seq<u32>, top_k: nat, top_p: nat) -> bool {
    &&& top_k >= 1
    &&& top_p >= 1
    &&& exists|i: int| 0 <= i < weights.len() && #[trigger] weights[i] > 0
}

/// The token that the sampler gives for these weights, options and draw.
pub open spec fn sample_spec(weights: Seq<u32>, top_k: nat, top_p: nat, draw: u32) -> Result<
    Token,
    SampleError,
> {
    let order = top_candidates(weights, top_k);
    let count = nucleus_len(weights, order, top_p);
    if mass(weights, order, count) == 0 {
        Err(SampleError::NoCandidates)
    } else {
        Ok(order[landing(weights, order, count, draw) as int] as Token)
    }
}

/// Picks the next token: retains the `top_k` heaviest candidates, of those
/// the nucleus of share `top_p`, and draws one of the nucleus in proportion
/// to its weight. `weights` holds one weight per vocabulary entry and `draw`
/// is a uniform random number; the same inputs give the same token.
pub fn sample(weights: &Vec<u32>, params: &SampleParams, draw: u32) -> (picked: Result<
    Token,
    SampleError,
>)
    requires
        weights.len() <= i32::MAX,
    ensures
        picked == sample_spec(weights@, params.top_k as nat, params.top_p as nat, draw),
        picked is Ok <==> can_sample(weights@, params.top_k as nat, params.top_p as nat),
        picked matches Ok(token) ==> 0 <= token < weights.len(),
{
    let order: Vec<usize> = top_k(weights, params.top_k);
    let count: usize = nucleus(weights, &order, params.top_p);
    proof {
        lemma_nucleus_holds_mass(weights@, order@, params.top_k as nat, params.top_p as nat);
        lemma_landing_bound(
            weights@,
            order@,
            count as nat,
            draw_target(draw, mass(weights@, order@, count as nat)),
            0,
        );
    }
    match draw_candidate(weights, &order, count, draw) {
        Some(id) => Ok(id as Token),
        None => Err(SampleError::NoCandidates),
    }
}

/// The nucleus of a ranking holds mass exactly when there is something to
/// sample.
pub proof fn lemma_nucleus_holds_mass(
    weights: Seq<u32>,
    order: Seq<usize>,
    top_k: nat,
    top_p: nat,
)
    requires
        weights.len() <= usize::MAX,
        is_ranking(weights, order),
        order.len() == top_count(top_k, weights.len()),
    ensures
        mass(weights, order, nucleus_len(weights, order, top_p)) > 0 <==> can_sample(
            weights,
            top_k,
            top_p,
        ),
{
    let count = nucleus_len(weights, order, top_p);
    lemma_nucleus_least(weights, order, top_p, 0);
    lemma_mass_bounds(weights, order, count, order.len());
    if mass(weights, order, count) > 0 {
        lemma_mass_positive(weights, order, count);
        assert(top_p >= 1) by {
            if top_p == 0 {
                assert(top_p * mass(weights, order, order.len()) == 0) by (nonlinear_arith)
                    requires
                        top_p == 0,
                ;
                assert(reaches(weights, order, top_p, 0));
            }
        }
    }
    if can_sample(weights, top_k, top_p) {
        let i = choose|i: int| 0 <= i < weights.len() && #[trigger] weights[i] > 0;
        assert(order.len() >= 1);
        assert(weights[order[0] as int] > 0) by {
            let c = i as usize;
            if order[0] != c {
                if order.contains(c) {
                    let s = choose|s: int| 0 <= s < order.len() && order[s] == c;
                    assert(outranks(weights, order[0] as int, order[s] as int));
                } else {
                    assert(outranks(weights, order[0] as int, c as int));
                }
            }
        }
        reveal_with_fuel(mass, 2);
        lemma_mass_bounds(weights, order, 1, order.len());
        assert(mass(weights, order, order.len()) > 0);
        assert(top_p * mass(weights, order, order.len()) > 0) by (nonlinear_arith)
            requires
                top_p >= 1,
                mass(weights, order, order.len()) > 0,
        ;
        assert(!reaches(weights, order, top_p, 0));
        assert(count >= 1);
        lemma_mass_bounds(weights, order, 1, count);
    }
}

/// The sampler gives a token exactly when there is something to sample, and
/// the token is then a vocabulary entry.
pub proof fn lemma_sample_succeeds(weights: Seq<u32>, top_k: nat, top_p: nat, draw: u32)
    requires
        weights.len() <= i32::MAX,
    ensures
        sample_spec(weights, top_k, top_p, draw) is Ok <==> can_sample(weights, top_k, top_p),
        sample_spec(weights, top_k, top_p, draw) matches Ok(token) ==> 0 <= token < weights.len(),
{
    let order = top_candidates(weights, top_k);
    let count = nucleus_len(weights, order, top_p);
    lemma_top_candidates(weights, top_k);
    lemma_nucleus_holds_mass(weights, order, top_k, top_p);
    lemma_nucleus_least(weights, order, top_p, 0);
    lemma_landing_bound(weights, order, count, draw_target(draw, mass(weights, order, count)), 0);
}

/// With `top_k` at one the sampler is greedy: whatever the draw, it gives
/// the candidate that ranks before all others, provided that candidate has a
/// weight above zero and the nucleus has a share to reach.
pub proof fn lemma_top_one_is_greedy(weights: Seq<u32>, top_p: nat, draw: u32, best: usize)
    requires
        best < weights.len(),
        weights[best as int] > 0,
        top_p >= 1,
        forall|c: int| 0 <= c < weights.len() && c != best ==> outranks(weights, best as int, c),
    ensures
        sample_spec(weights, 1, top_p, draw) == Ok::<Token, SampleError>(best as Token),
{
    let only = seq![best];
    assert(is_ranking(weights, only)) by {
        assert forall|r: int, c: usize|
            #![trigger only[r], only.contains(c)]
            0 <= r < only.len() && c < weights.len() && !only.contains(c) implies outranks(
            weights,
            only[r] as int,
            c as int,
        ) by {
            if c == best {
                assert(only[0] == c);
            }
        }
    }
    let order = top_candidates(weights, 1);
    lemma_ranking_unique(weights, only, order);
    reveal_with_fuel(mass, 2);
    reveal_with_fuel(nucleus_from, 2);
    reveal_with_fuel(landing_from, 2);
    assert(top_p * (weights[best as int] as nat) > 0) by (nonlinear_arith)
        requires
            top_p >= 1,
            weights[best as int] > 0,
    ;
}

} // verus!
