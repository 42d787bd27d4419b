//! The random draw among weighted candidates.
//!
//! The random number comes from the caller. What is decided here is which
//! candidate a given number picks.

use vstd::prelude::*;
use crate::nucleus::indexes;
use crate::nucleus::mass;
use crate::nucleus::mass_of;

verus! {

/// Number of values that a random draw can take.
pub const DRAW_RANGE: u64 = 0x1_0000_0000;

/// The point of the mass `total` that the draw falls on: the draw is taken
/// as a fraction of `DRAW_RANGE`.
pub open spec fn draw_target(draw: u32, total: nat) -> nat {
    (draw as nat * total / (DRAW_RANGE as nat)) as nat
}

/// The first position from `from` on whose candidates, together with those
/// before, hold more than `target`; the last of the `count` positions if
/// none does.
pub open spec fn landing_from(
    weights: Seq<u32>,
    order: Seq<usize>,
    count: nat,
    target: nat,
    from: nat,
) -> nat
    decreases count - from,
{
    if from + 1 >= count || mass(weights, order, from + 1) > target {
        from
    } else {
        landing_from(weights, order, count, target, from + 1)
    }
}

/// The position among the first `count` candidates of `order` that the draw
/// picks: each candidate is picked in proportion to its weight.
pub open spec fn landing(weights: Seq<u32>, order: Seq<usize>, count: nat, draw: u32) -> nat {
    landing_from(weights, order, count, draw_target(draw, mass(weights, order, count)), 0)
}

/// The draw lands on one of the `count` positions.
pub proof fn lemma_landing_bound(
    weights: Seq<u32>,
    order: Seq<usize>,
    count: nat,
    target: nat,
    from: nat,
)
    requires
        from < count || (from == 0 && count == 0),
    ensures
        from <= landing_from(weights, order, count, target, from),
        count > 0 ==> landing_from(weights, order, count, target, from) < count,
    decreases count - from,
{
    if !(from + 1 >= count || mass(weights, order, from + 1) > target) {
        lemma_landing_bound(weights, order, count, target, from + 1);
    }
}

/// From a position that the target has not passed, the landing is the
/// position whose stretch of the mass holds the target.
proof fn lemma_landing_from(
    weights: Seq<u32>,
    order: Seq<usize>,
    count: nat,
    target: nat,
    from: nat,
)
    requires
        from < count,
        mass(weights, order, from) <= target < mass(weights, order, count),
    ensures
        ({
            let at = landing_from(weights, order, count, target, from);
            &&& from <= at < count
            &&& mass(weights, order, at) <= target < mass(weights, order, at + 1)
        }),
    decreases count - from,
{
    if !(from + 1 >= count || mass(weights, order, from + 1) > target) {
        lemma_landing_from(weights, order, count, target, from + 1);
    }
}

/// The draw picks in proportion to the weights: laid end to end in their
/// order, each candidate covers a stretch of the mass as long as its weight,
/// the draw points into the mass, and the candidate picked is the one whose
/// stretch the draw points into.
pub proof fn lemma_landing_interval(weights: Seq<u32>, order: Seq<usize>, count: nat, draw: u32)
    requires
        mass(weights, order, count) > 0,
    ensures
        ({
            let total = mass(weights, order, count);
            let target = draw_target(draw, total);
            let at = landing(weights, order, count, draw);
            &&& target < total
            &&& at < count
            &&& mass(weights, order, at) <= target < mass(weights, order, at + 1)
        }),
{
    let total = mass(weights, order, count);
    let target = draw_target(draw, total);
    assert(draw as nat * total / (DRAW_RANGE as nat) < total) by (nonlinear_arith)
        requires
            draw < DRAW_RANGE,
            DRAW_RANGE > 0,
            total > 0,
    ;
    lemma_landing_from(weights, order, count, target, 0);
}

/// Draws one of the first `count` candidates of `order` in proportion to
/// its weight. `draw` is a uniform random number; the same draw gives the
/// same candidate. There is nothing to draw from when the candidates hold no
/// mass.
pub fn draw_candidate(weights: &Vec<u32>, order: &Vec<usize>, count: usize, draw: u32) -> (picked:
    Option<usize>)
    requires
        indexes(weights@, order@),
        count <= order.len(),
    ensures
        picked == if mass(weights@, order@, count as nat) == 0 {
            None
        } else {
            Some(order@[landing(weights@, order@, count as nat, draw) as int])
        },
{
    let total: u128 = mass_of(weights, order, count);
    if total == 0 {
        return None;
    }
    let target: u128 = {
        assert(draw as u128 * total <= u128::MAX) by (nonlinear_arith)
            requires
                draw <= u32::MAX,
                total <= usize::MAX * u32::MAX,
                usize::MAX <= u64::MAX,
        ;
        draw as u128 * total / (DRAW_RANGE as u128)
    };
    let mut held: u128 = weights[order[0]] as u128;
    let mut at: usize = 0;
    proof {
        reveal_with_fuel(mass, 2);
    }
    while at + 1 < count && held <= target
        invariant
            indexes(weights@, order@),
            at < count <= order.len(),
            held == mass(weights@, order@, (at + 1) as nat),
            held <= (at + 1) * u32::MAX,
            target == draw_target(draw, mass(weights@, order@, count as nat)),
            landing(weights@, order@, count as nat, draw) == landing_from(
                weights@,
                order@,
                count as nat,
                target as nat,
                at as nat,
            ),
        decreases count - at,
    {
        at = at + 1;
        let weight: u32 = weights[order[at]];
        held = held + weight as u128;
    }
    Some(order[at])
}

} // verus!
