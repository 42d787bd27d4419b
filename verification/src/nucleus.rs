//! Top-p filter: the nucleus of a ranking.
//!
//! The nucleus is the shortest run of leading candidates that together hold
//! a given share of the mass of all ranked candidates.

use vstd::prelude::*;
use crate::sampler::PER_MILLION;

verus! {

/// Whether every entry of `order` is the index of a weight.
pub open spec fn indexes(weights: Seq<u32>, order: Seq<usize>) -> bool {
    forall|r: int| 0 <= r < order.len() ==> #[trigger] order[r] < weights.len()
}

/// Sum of the weights of the first `count` candidates of `order`.
pub open spec fn mass(weights: Seq<u32>, order: Seq<usize>, count: nat) -> nat
    decreases count,
{
    if count == 0 {
        0
    } else {
        mass(weights, order, (count - 1) as nat) + weights[order[count - 1] as int] as nat
    }
}

/// Whether the first `count` candidates of `order` hold at least the share
/// `top_p`, in millionths, of the mass of all of `order`.
pub open spec fn reaches(weights: Seq<u32>, order: Seq<usize>, top_p: nat, count: nat) -> bool {
    mass(weights, order, count) * PER_MILLION >= top_p * mass(weights, order, order.len())
}

/// The smallest count from `from` on that reaches the share `top_p`, or the
/// length of `order` if none does.
pub open spec fn nucleus_from(weights: Seq<u32>, order: Seq<usize>, top_p: nat, from: nat) -> nat
    decreases order.len() - from,
{
    if from >= order.len() {
        order.len()
    } else if reaches(weights, order, top_p, from) {
        from
    } else {
        nucleus_from(weights, order, top_p, from + 1)
    }
}

/// Size of the nucleus: the length of the shortest prefix of `order` whose
/// mass is at least the share `top_p` of the whole, or the length of `order`
/// if no prefix reaches it.
pub open spec fn nucleus_len(weights: Seq<u32>, order: Seq<usize>, top_p: nat) -> nat {
    nucleus_from(weights, order, top_p, 0)
}

/// The mass grows with the count, and each candidate adds at most the
/// largest weight there is.
pub proof fn lemma_mass_bounds(weights: Seq<u32>, order: Seq<usize>, fewer: nat, more: nat)
    requires
        fewer <= more,
    ensures
        mass(weights, order, fewer) <= mass(weights, order, more),
        mass(weights, order, more) <= more * u32::MAX,
    decreases more,
{
    if more > 0 {
        if fewer < more {
            lemma_mass_bounds(weights, order, fewer, (more - 1) as nat);
        } else {
            lemma_mass_bounds(weights, order, (more - 1) as nat, (more - 1) as nat);
        }
    }
}

/// A prefix with mass holds a candidate with a weight above zero.
pub proof fn lemma_mass_positive(weights: Seq<u32>, order: Seq<usize>, count: nat)
    requires
        indexes(weights, order),
        count <= order.len(),
        mass(weights, order, count) > 0,
    ensures
        count >= 1,
        exists|i: int| 0 <= i < weights.len() && #[trigger] weights[i] > 0,
    decreases count,
{
    if count > 0 {
        if weights[order[count - 1] as int] > 0 {
        } else {
            lemma_mass_positive(weights, order, (count - 1) as nat);
        }
    }
}

/// The nucleus is the shortest prefix that reaches the share.
pub proof fn lemma_nucleus_least(weights: Seq<u32>, order: Seq<usize>, top_p: nat, from: nat)
    requires
        from <= order.len(),
    ensures
        from <= nucleus_from(weights, order, top_p, from) <= order.len(),
        nucleus_from(weights, order, top_p, from) < order.len() ==> reaches(
            weights,
            order,
            top_p,
            nucleus_from(weights, order, top_p, from),
        ),
        forall|count: nat|
            from <= count < nucleus_from(weights, order, top_p, from) ==> !reaches(
                weights,
                order,
                top_p,
                count,
            ),
    decreases order.len() - from,
{
    if from < order.len() && !reaches(weights, order, top_p, from) {
        lemma_nucleus_least(weights, order, top_p, from + 1);
    }
}

/// Sum of the weights of the first `count` candidates of `order`.
pub(crate) fn mass_of(weights: &Vec<u32>, order: &Vec<usize>, count: usize) -> (total: u128)
    requires
        indexes(weights@, order@),
        count <= order.len(),
    ensures
        total == mass(weights@, order@, count as nat),
        total <= count * u32::MAX,
{
    let mut total: u128 = 0;
    let mut i: usize = 0;
    while i < count
        invariant
            indexes(weights@, order@),
            i <= count <= order.len(),
            total == mass(weights@, order@, i as nat),
            total <= i * u32::MAX,
        decreases count - i,
    {
        let weight: u32 = weights[order[i]];
        total = total + weight as u128;
        i = i + 1;
    }
    total
}

/// `held` times the scale of `top_p`.
fn in_millionths(held: u128) -> (scaled: u128)
    requires
        held <= 0xffff_ffff_ffff_ffff_ffff_ffff,
    ensures
        scaled == held * PER_MILLION,
{
    assert(held * PER_MILLION <= u128::MAX) by (nonlinear_arith)
        requires
            held <= 0xffff_ffff_ffff_ffff_ffff_ffff,
            PER_MILLION == 1_000_000,
    ;
    held * (PER_MILLION as u128)
}

/// Top-p filter: the number of leading candidates of `order` that form the
/// nucleus of share `top_p`, given in millionths of the mass of `order`.
pub fn nucleus(weights: &Vec<u32>, order: &Vec<usize>, top_p: u32) -> (count: usize)
    requires
        indexes(weights@, order@),
    ensures
        count == nucleus_len(weights@, order@, top_p as nat),
        count <= order.len(),
{
    let total: u128 = mass_of(weights, order, order.len());
    let needed: u128 = {
        assert(top_p as u128 * total <= u128::MAX) by (nonlinear_arith)
            requires
                top_p <= u32::MAX,
                total <= usize::MAX * u32::MAX,
                usize::MAX <= u64::MAX,
        ;
        top_p as u128 * total
    };
    let mut held: u128 = 0;
    let mut count: usize = 0;
    while count < order.len() && in_millionths(held) < needed
        invariant
            indexes(weights@, order@),
            count <= order.len(),
            held == mass(weights@, order@, count as nat),
            held <= count * u32::MAX,
            held <= 0xffff_ffff_ffff_ffff_ffff_ffff,
            needed == top_p * mass(weights@, order@, order@.len()),
            nucleus_len(weights@, order@, top_p as nat) == nucleus_from(
                weights@,
                order@,
                top_p as nat,
                count as nat,
            ),
        decreases order.len() - count,
    {
        let weight: u32 = weights[order[count]];
        held = held + weight as u128;
        count = count + 1;
    }
    count
}

} // verus!
