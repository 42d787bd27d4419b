//! The scores of the model as fixed-point numbers, and what the sampler does
//! to them before they become probabilities.
//!
//! A score is held in millionths, as the fractions of the sampler options
//! are. Scores of recent tokens are weakened by the repetition penalty,
//! towards less likely whatever their sign: a positive score is divided by
//! the penalty, any other is multiplied by it. Then all scores are divided by
//! the temperature. Quotients are rounded down, and results that do not fit
//! a score stop at its bounds.

use vstd::prelude::*;
use vstd::arithmetic::div_mod::lemma_fundamental_div_mod;
use vstd::arithmetic::div_mod::lemma_fundamental_div_mod_converse_div;
use crate::sampler::PER_MILLION;
use crate::sampler::SampleParams;
use crate::sampler::occurs;
use crate::sampler::penalized;
use crate::token::Token;

verus! {

/// A score of the model in millionths.
pub type Score = i64;

/// `value`, or the bound of a score that it lies beyond.
pub open spec fn clamped(value: int) -> int {
    if value < i64::MIN {
        i64::MIN as int
    } else if value > i64::MAX {
        i64::MAX as int
    } else {
        value
    }
}

/// `score` times `numerator` over `denominator`, rounded down.
pub open spec fn scaled(score: int, numerator: int, denominator: int) -> int {
    score * numerator / denominator
}

/// The score of a recent token after the penalty, given in millionths: a
/// positive score is divided by it, any other is multiplied by it.
pub open spec fn weakened(score: int, penalty: int) -> int {
    if score > 0 {
        scaled(score, PER_MILLION as int, penalty)
    } else {
        scaled(score, penalty, PER_MILLION as int)
    }
}

/// The score divided by the temperature, given in millionths.
pub open spec fn cooled(score: int, temperature: int) -> int {
    scaled(score, PER_MILLION as int, temperature)
}

/// What the sampler makes of one score: weakened if the token is recent,
/// then cooled, within the bounds of a score at each step.
pub open spec fn prepared(score: Score, recent: bool, params: SampleParams) -> int {
    let after_penalty = if recent {
        clamped(weakened(score as int, params.repeat_penalty as int))
    } else {
        score as int
    };
    clamped(cooled(after_penalty, params.temperature as int))
}

/// Rounding down a negative quotient is rounding up its opposite.
proof fn lemma_floor_of_negative(a: int, d: int)
    requires
        a >= 0,
        d > 0,
    ensures
        (-a) / d == -((a + d - 1) / d),
{
    let k = a / d;
    let r = a % d;
    lemma_fundamental_div_mod(a, d);
    assert(a == d * k + r);
    if r == 0 {
        assert(-a == (-k) * d + 0) by (nonlinear_arith)
            requires
                a == d * k,
        ;
        lemma_fundamental_div_mod_converse_div(-a, d, -k, 0);
        assert(a + d - 1 == k * d + (d - 1)) by (nonlinear_arith)
            requires
                a == d * k,
        ;
        lemma_fundamental_div_mod_converse_div(a + d - 1, d, k, d - 1);
    } else {
        assert(-a == (-k - 1) * d + (d - r)) by (nonlinear_arith)
            requires
                a == d * k + r,
        ;
        lemma_fundamental_div_mod_converse_div(-a, d, -k - 1, d - r);
        assert(a + d - 1 == (k + 1) * d + (r - 1)) by (nonlinear_arith)
            requires
                a == d * k + r,
        ;
        lemma_fundamental_div_mod_converse_div(a + d - 1, d, k + 1, r - 1);
    }
}

/// `score` times `numerator` over `denominator`, rounded down and kept within
/// the bounds of a score.
pub fn scale(score: Score, numerator: u32, denominator: u32) -> (out: Score)
    requires
        denominator >= 1,
    ensures
        out == clamped(scaled(score as int, numerator as int, denominator as int)),
{
    if score >= 0 {
        let product: u128 = {
            assert(score as u128 * numerator as u128 <= u128::MAX) by (nonlinear_arith)
                requires
                    0 <= score <= i64::MAX,
                    numerator <= u32::MAX,
            ;
            score as u128 * numerator as u128
        };
        let quotient: u128 = product / denominator as u128;
        if quotient > i64::MAX as u128 {
            i64::MAX
        } else {
            quotient as i64
        }
    } else {
        let size: u128 = (-(score as i128)) as u128;
        let product: u128 = {
            assert(size * numerator as u128 + denominator as u128 <= u128::MAX) by (nonlinear_arith)
                requires
                    size <= 0x8000_0000_0000_0000,
                    numerator <= u32::MAX,
                    denominator <= u32::MAX,
            ;
            size * numerator as u128
        };
        let quotient: u128 = (product + denominator as u128 - 1) / denominator as u128;
        proof {
            lemma_floor_of_negative(product as int, denominator as int);
            assert(score as int * numerator as int == -(product as int)) by (nonlinear_arith)
                requires
                    product == size * numerator,
                    size == -(score as int),
            ;
        }
        if quotient > 0x8000_0000_0000_0000 {
            i64::MIN
        } else {
            (-(quotient as i128)) as i64
        }
    }
}

/// The score of a recent token after the penalty, within the bounds of a
/// score.
pub fn weaken(score: Score, penalty: u32) -> (out: Score)
    requires
        penalty >= 1,
    ensures
        out == clamped(weakened(score as int, penalty as int)),
{
    if score > 0 {
        scale(score, PER_MILLION, penalty)
    } else {
        scale(score, penalty, PER_MILLION)
    }
}

/// The score divided by the temperature, within the bounds of a score.
pub fn cool(score: Score, temperature: u32) -> (out: Score)
    requires
        temperature >= 1,
    ensures
        out == clamped(cooled(score as int, temperature as int)),
{
    scale(score, PER_MILLION, temperature)
}

/// Prepares the scores for being turned into probabilities: the scores of
/// the tokens that occur in `window` are weakened by the repetition penalty,
/// then all scores are divided by the temperature.
pub fn prepare(scores: &mut Vec<Score>, window: &Vec<Token>, params: &SampleParams)
    requires
        params.valid(),
    ensures
        final(scores)@.len() == old(scores)@.len(),
        forall|id: int|
            0 <= id < old(scores)@.len() ==> #[trigger] final(scores)@[id] == prepared(
                old(scores)@[id],
                occurs(window@, id),
                *params,
            ),
{
    let marks: Vec<bool> = penalized(window, scores.len());
    let mut i: usize = 0;
    while i < scores.len()
        invariant
            params.valid(),
            i <= scores.len(),
            scores.len() == old(scores)@.len(),
            marks.len() == scores.len(),
            forall|id: int| 0 <= id < marks.len() ==> #[trigger] marks[id] == occurs(window@, id),
            forall|id: int|
                0 <= id < i ==> #[trigger] scores@[id] == prepared(
                    old(scores)@[id],
                    occurs(window@, id),
                    *params,
                ),
            forall|id: int| i <= id < scores.len() ==> #[trigger] scores@[id] == old(scores)@[id],
        decreases scores.len() - i,
    {
        let score: Score = scores[i];
        let after_penalty: Score = if marks[i] {
            weaken(score, params.repeat_penalty)
        } else {
            score
        };
        scores.set(i, cool(after_penalty, params.temperature));
        i = i + 1;
    }
}

/// A penalty above one makes every score but zero strictly smaller, so that
/// the token becomes less likely; a penalty of one changes no score.
pub proof fn lemma_penalty_weakens(score: int, penalty: int)
    requires
        penalty >= PER_MILLION,
    ensures
        penalty == PER_MILLION ==> weakened(score, penalty) == score,
        penalty > PER_MILLION && score != 0 ==> weakened(score, penalty) < score,
        weakened(score, penalty) <= score,
        weakened(0, penalty) == 0,
{
    let unit = PER_MILLION as int;
    if score > 0 {
        let q = score * unit / penalty;
        lemma_fundamental_div_mod(score * unit, penalty);
        assert(penalty * q <= score * unit);
        if penalty == unit {
            lemma_fundamental_div_mod_converse_div(score * unit, unit, score, 0);
        } else {
            assert(q < score) by (nonlinear_arith)
                requires
                    penalty * q <= score * unit,
                    penalty > unit,
                    unit > 0,
                    score > 0,
            ;
        }
    } else {
        let q = score * penalty / unit;
        lemma_fundamental_div_mod(score * penalty, unit);
        assert(unit * q <= score * penalty);
        if penalty == unit {
            lemma_fundamental_div_mod_converse_div(score * unit, unit, score, 0);
        } else if score < 0 {
            assert(q < score) by (nonlinear_arith)
                requires
                    unit * q <= score * penalty,
                    penalty > unit,
                    unit > 0,
                    score < 0,
            ;
        } else {
            assert(score * penalty == 0) by (nonlinear_arith)
                requires
                    score == 0,
            ;
        }
    }
}

/// Dividing by the temperature keeps the order of the scores.
pub proof fn lemma_cooling_keeps_order(lower: int, higher: int, temperature: int)
    requires
        lower <= higher,
        temperature >= 1,
    ensures
        cooled(lower, temperature) <= cooled(higher, temperature),
{
    let unit = PER_MILLION as int;
    assert(lower * unit <= higher * unit) by (nonlinear_arith)
        requires
            lower <= higher,
            unit > 0,
    ;
    vstd::arithmetic::div_mod::lemma_div_is_ordered(lower * unit, higher * unit, temperature);
}

/// A recent token never ends with a higher prepared score than it would
/// have had without being recent.
pub proof fn lemma_recent_scores_lower(score: Score, params: SampleParams)
    requires
        params.valid(),
    ensures
        prepared(score, true, params) <= prepared(score, false, params),
{
    lemma_penalty_weakens(score as int, params.repeat_penalty as int);
    lemma_cooling_keeps_order(
        clamped(weakened(score as int, params.repeat_penalty as int)),
        score as int,
        params.temperature as int,
    );
}

} // verus!
