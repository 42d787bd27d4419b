//! Top-k filter: ranking the candidates by weight.
//!
//! A candidate is a vocabulary entry, known by its index into the weights.
//! Candidates are ranked by weight, the heavier first; of two with the same
//! weight the one with the smaller index comes first, so that the ranking of
//! given weights is one and the same everywhere.

use vstd::prelude::*;

verus! {

/// Whether candidate `a` ranks before candidate `b`: it has the larger
/// weight, or the same weight and the smaller identifier.
pub open spec fn outranks(weights: Seq<u32>, a: int, b: int) -> bool {
    weights[a] > weights[b] || (weights[a] == weights[b] && a < b)
}

/// Whether `order` lists the best `order.len()` candidates, best first: its
/// entries are candidates, each ranks before the ones after it, and each
/// ranks before every candidate that is not listed.
pub open spec fn is_ranking(weights: Seq<u32>, order: Seq<usize>) -> bool {
    &&& forall|r: int| 0 <= r < order.len() ==> #[trigger] order[r] < weights.len()
    &&& forall|r: int, s: int|
        0 <= r < s < order.len() ==> outranks(
            weights,
            #[trigger] order[r] as int,
            #[trigger] order[s] as int,
        )
    &&& forall|r: int, c: usize|
        #![trigger order[r], order.contains(c)]
        0 <= r < order.len() && c < weights.len() && !order.contains(c) ==> outranks(
            weights,
            order[r] as int,
            c as int,
        )
}

/// Number of candidates that a top-`k` filter retains out of `n`.
pub open spec fn top_count(k: nat, n: nat) -> nat {
    if k <= n {
        k
    } else {
        n
    }
}

/// The `k` best candidates, best first, or all of them if there are fewer.
pub open spec fn top_candidates(weights: Seq<u32>, k: nat) -> Seq<usize> {
    choose|order: Seq<usize>|
        is_ranking(weights, order) && order.len() == top_count(k, weights.len())
}

/// Two rankings of the same length over the same weights are the same.
pub proof fn lemma_ranking_unique(weights: Seq<u32>, first: Seq<usize>, second: Seq<usize>)
    requires
        is_ranking(weights, first),
        is_ranking(weights, second),
        first.len() == second.len(),
    ensures
        first == second,
{
    assert forall|r: int| 0 <= r < first.len() implies first[r] == second[r] by {
        lemma_ranking_agrees(weights, first, second, r);
    }
    assert(first =~= second);
}

/// Two rankings of the same length agree at every position.
proof fn lemma_ranking_agrees(weights: Seq<u32>, first: Seq<usize>, second: Seq<usize>, r: int)
    requires
        is_ranking(weights, first),
        is_ranking(weights, second),
        first.len() == second.len(),
        0 <= r < first.len(),
    ensures
        first[r] == second[r],
    decreases r,
{
    if r > 0 {
        lemma_ranking_agrees(weights, first, second, r - 1);
    }
    assert forall|q: int| 0 <= q < r implies first[q] == second[q] by {
        lemma_ranking_agrees(weights, first, second, q);
    }
    if first[r] != second[r] {
        lemma_not_before(weights, first, second, r);
        lemma_not_before(weights, second, first, r);
    }
}

/// If two rankings agree before position `r`, the entry of the first at `r`
/// does not rank after the entry of the second at `r`.
proof fn lemma_not_before(weights: Seq<u32>, first: Seq<usize>, second: Seq<usize>, r: int)
    requires
        is_ranking(weights, first),
        is_ranking(weights, second),
        first.len() == second.len(),
        0 <= r < first.len(),
        forall|q: int| 0 <= q < r ==> first[q] == second[q],
        first[r] != second[r],
    ensures
        outranks(weights, first[r] as int, second[r] as int),
{
    let a = first[r];
    let b = second[r];
    if first.contains(b) {
        let s = choose|s: int| 0 <= s < first.len() && first[s] == b;
        if s < r {
            // then `b` stands twice in `second`, which is strictly ordered
            assert(second[s] == b);
            assert(outranks(weights, second[s] as int, second[r] as int));
        } else {
            assert(outranks(weights, first[r] as int, first[s] as int));
        }
    } else {
        assert(outranks(weights, first[r] as int, b as int));
    }
}

/// A sequence in which every number below `n` occurs has at least `n`
/// entries.
proof fn lemma_covering_len(order: Seq<usize>, n: nat)
    requires
        n <= usize::MAX,
        forall|c: usize| c < n ==> #[trigger] order.contains(c),
    ensures
        order.len() >= n,
    decreases n,
{
    if n > 0 {
        let top = (n - 1) as usize;
        assert(order.contains(top));
        let at = choose|i: int| 0 <= i < order.len() && order[i] == top;
        let rest = order.remove(at);
        assert forall|c: usize| c < n - 1 implies #[trigger] rest.contains(c) by {
            assert(order.contains(c));
            let i = choose|i: int| 0 <= i < order.len() && order[i] == c;
            if i < at {
                assert(rest[i] == c);
            } else {
                assert(rest[i - 1] == c);
            }
        }
        lemma_covering_len(rest, (n - 1) as nat);
    }
}

/// A ranking stays one when the best candidate outside it is put at its
/// end, and holds that candidate besides what it held.
proof fn lemma_ranking_extends(weights: Seq<u32>, before: Seq<usize>, best: usize)
    requires
        is_ranking(weights, before),
        best < weights.len(),
        !before.contains(best),
        forall|c: usize|
            c < weights.len() && !(#[trigger] before.contains(c)) && c != best ==> outranks(
                weights,
                best as int,
                c as int,
            ),
    ensures
        is_ranking(weights, before.push(best)),
        forall|c: usize|
            #[trigger] before.push(best).contains(c) <==> (before.contains(c) || c == best),
{
    let after = before.push(best);
    assert forall|c: usize| #[trigger] after.contains(c) <==> (before.contains(c) || c
        == best) by {
        if before.contains(c) {
            let i = choose|i: int| 0 <= i < before.len() && before[i] == c;
            assert(after[i] == c);
        }
        if c == best {
            assert(after[before.len() as int] == c);
        }
    }
    assert forall|r: int, s: int| 0 <= r < s < after.len() implies outranks(
        weights,
        #[trigger] after[r] as int,
        #[trigger] after[s] as int,
    ) by {
        if s == before.len() {
            assert(before[r] == after[r]);
            assert(outranks(weights, before[r] as int, best as int));
        } else {
            assert(before[r] == after[r] && before[s] == after[s]);
        }
    }
    assert forall|r: int, c: usize|
        #![trigger after[r], after.contains(c)]
        0 <= r < after.len() && c < weights.len() && !after.contains(c) implies outranks(
        weights,
        after[r] as int,
        c as int,
    ) by {
        assert(!before.contains(c));
        if r < before.len() {
            assert(before[r] == after[r]);
        }
    }
}

/// The best of the candidates below `upto` that `order` does not hold, if
/// there is one.
proof fn lemma_best_outside(weights: Seq<u32>, order: Seq<usize>, upto: nat) -> (best: Option<
    usize,
>)
    requires
        upto <= weights.len() <= usize::MAX,
    ensures
        match best {
            Some(b) => {
                &&& b < upto
                &&& !order.contains(b)
                &&& forall|c: usize|
                    c < upto && !(#[trigger] order.contains(c)) && c != b ==> outranks(
                        weights,
                        b as int,
                        c as int,
                    )
            },
            None => forall|c: usize| c < upto ==> #[trigger] order.contains(c),
        },
    decreases upto,
{
    if upto == 0 {
        None
    } else {
        let last = (upto - 1) as usize;
        let below = lemma_best_outside(weights, order, (upto - 1) as nat);
        if order.contains(last) {
            below
        } else {
            match below {
                None => Some(last),
                Some(b) => if weights[last as int] > weights[b as int] {
                    Some(last)
                } else {
                    Some(b)
                },
            }
        }
    }
}

/// There is a ranking of every length up to the number of candidates.
pub proof fn lemma_ranking_exists(weights: Seq<u32>, count: nat) -> (order: Seq<usize>)
    requires
        count <= weights.len() <= usize::MAX,
    ensures
        is_ranking(weights, order),
        order.len() == count,
    decreases count,
{
    if count == 0 {
        Seq::empty()
    } else {
        let shorter = lemma_ranking_exists(weights, (count - 1) as nat);
        match lemma_best_outside(weights, shorter, weights.len()) {
            None => {
                lemma_covering_len(shorter, weights.len());
                shorter
            },
            Some(best) => {
                lemma_ranking_extends(weights, shorter, best);
                shorter.push(best)
            },
        }
    }
}

/// The top candidates are a ranking of the length that the filter retains.
pub proof fn lemma_top_candidates(weights: Seq<u32>, k: nat)
    requires
        weights.len() <= usize::MAX,
    ensures
        is_ranking(weights, top_candidates(weights, k)),
        top_candidates(weights, k).len() == top_count(k, weights.len()),
{
    let order = lemma_ranking_exists(weights, top_count(k, weights.len()));
}

/// The best candidate that is not yet taken, if there is one.
fn best_untaken(weights: &Vec<u32>, taken: &Vec<bool>) -> (best: Option<usize>)
    requires
        taken.len() == weights.len(),
    ensures
        match best {
            Some(b) => {
                &&& b < weights.len()
                &&& !taken[b as int]
                &&& forall|c: int|
                    0 <= c < weights.len() && !taken[c] && c != b ==> outranks(
                        weights@,
                        b as int,
                        c,
                    )
            },
            None => forall|c: int| 0 <= c < weights.len() ==> taken[c],
        },
{
    let mut best: Option<usize> = None;
    let mut i: usize = 0;
    while i < weights.len()
        invariant
            i <= weights.len(),
            taken.len() == weights.len(),
            match best {
                Some(b) => {
                    &&& b < i
                    &&& !taken[b as int]
                    &&& forall|c: int|
                        0 <= c < i && !taken[c] && c != b ==> outranks(weights@, b as int, c)
                },
                None => forall|c: int| 0 <= c < i ==> taken[c],
            },
        decreases weights.len() - i,
    {
        if !taken[i] {
            match best {
                Some(b) => {
                    if weights[i] > weights[b] {
                        best = Some(i);
                    }
                },
                None => {
                    best = Some(i);
                },
            }
        }
        i = i + 1;
    }
    best
}

/// Top-k filter: the `k` candidates with the largest weights, best first.
/// Of two candidates with the same weight the one with the smaller
/// identifier comes first. With fewer than `k` candidates all are retained.
pub fn top_k(weights: &Vec<u32>, k: usize) -> (order: Vec<usize>)
    ensures
        order@.len() == top_count(k as nat, weights@.len()),
        is_ranking(weights@, order@),
        order@ == top_candidates(weights@, k as nat),
{
    let n: usize = weights.len();
    let count: usize = if k <= n {
        k
    } else {
        n
    };
    let mut taken: Vec<bool> = vec![false; n];
    let mut order: Vec<usize> = Vec::new();
    while order.len() < count
        invariant
            n == weights.len(),
            taken.len() == n,
            count == top_count(k as nat, n as nat),
            order.len() <= count,
            is_ranking(weights@, order@),
            forall|c: usize| c < n ==> (taken[c as int] <==> #[trigger] order@.contains(c)),
        decreases count - order.len(),
    {
        let ghost before = order@;
        match best_untaken(weights, &taken) {
            None => {
                proof {
                    lemma_covering_len(before, n as nat);
                }
                return order;
            },
            Some(b) => {
                taken.set(b, true);
                order.push(b);
                proof {
                    lemma_ranking_extends(weights@, before, b);
                }
            },
        }
    }
    proof {
        let chosen = top_candidates(weights@, k as nat);
        lemma_ranking_unique(weights@, order@, chosen);
    }
    order
}

} // verus!
