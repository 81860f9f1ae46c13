//! Ranking: the best scores first, and among equal scores whoever was
//! named first.

use crate::ratio::{lemma_le_transitive, Ratio};
use vstd::prelude::*;

verus! {

/// Every score denotes a number.
pub open spec fn all_wf(scores: Seq<Ratio>) -> bool {
    forall|i: int| 0 <= i < scores.len() ==> (#[trigger] scores[i]).wf()
}

/// Candidate `i` is ranked before candidate `j`: its score is higher, or
/// the scores are equal and it was named first.
pub open spec fn outranks(scores: Seq<Ratio>, i: int, j: int) -> bool {
    scores[j].lt(scores[i]) || (scores[j].same(scores[i]) && i < j)
}

/// Candidate `j` stands in `order` before position `k`.
pub open spec fn listed_before(order: Seq<usize>, k: int, j: int) -> bool {
    exists|k0: int| 0 <= k0 < k && #[trigger] order[k0] == j
}

/// `order` lists the best of the first `seen` candidates: each listed
/// candidate is ranked before those listed after it, and whoever is ranked
/// before a listed candidate is listed before it.
pub open spec fn ranks_first(scores: Seq<Ratio>, seen: int, order: Seq<usize>) -> bool {
    &&& forall|k: int| 0 <= k < order.len() ==> 0 <= #[trigger] order[k] < seen
    &&& forall|k1: int, k2: int|
        0 <= k1 < k2 < order.len() ==> outranks(
            scores,
            #[trigger] order[k1] as int,
            #[trigger] order[k2] as int,
        )
    &&& forall|j: int, k: int|
        0 <= j < seen && 0 <= k < order.len() && #[trigger] outranks(scores, j, order[k] as int)
            ==> listed_before(order, k, j)
}

/// `order` lists the best candidates of all, as many as it is long.
pub open spec fn is_ranking(scores: Seq<Ratio>, order: Seq<usize>) -> bool {
    ranks_first(scores, scores.len() as int, order)
}

/// Of two candidates one is ranked before the other, never both ways, and
/// none before itself.
pub proof fn lemma_outranks_total(scores: Seq<Ratio>, i: int, j: int)
    ensures
        i != j ==> outranks(scores, i, j) != outranks(scores, j, i),
        !outranks(scores, i, i),
{
}

/// Being ranked before is transitive.
pub proof fn lemma_outranks_transitive(scores: Seq<Ratio>, i: int, j: int, k: int)
    requires
        all_wf(scores),
        0 <= i < scores.len(),
        0 <= j < scores.len(),
        0 <= k < scores.len(),
        outranks(scores, i, j),
        outranks(scores, j, k),
    ensures
        outranks(scores, i, k),
{
    lemma_le_transitive(scores[k], scores[j], scores[i]);
    if scores[j].same(scores[i]) && scores[k].same(scores[j]) {
        lemma_le_transitive(scores[i], scores[j], scores[k]);
    }
}

/// A ranking stays one when its last place is dropped.
proof fn lemma_drop_last_ranks(scores: Seq<Ratio>, seen: int, order: Seq<usize>)
    requires
        ranks_first(scores, seen, order),
        order.len() > 0,
    ensures
        ranks_first(scores, seen, order.drop_last()),
{
    let shorter = order.drop_last();
    assert forall|j: int, k: int|
        0 <= j < seen && 0 <= k < shorter.len() && #[trigger] outranks(
            scores,
            j,
            shorter[k] as int,
        ) implies listed_before(shorter, k, j) by {
        assert(outranks(scores, j, order[k] as int));
        let k0 = choose|k0: int| 0 <= k0 < k && #[trigger] order[k0] == j;
        assert(shorter[k0] == j);
    }
}

/// A ranking of the first `i` candidates ranks the first `i + 1` too when
/// candidate `i` is ranked before none of the listed.
proof fn lemma_skip_ranks(scores: Seq<Ratio>, i: int, order: Seq<usize>)
    requires
        ranks_first(scores, i, order),
        forall|k: int| 0 <= k < order.len() ==> !outranks(scores, i, #[trigger] order[k] as int),
    ensures
        ranks_first(scores, i + 1, order),
{
}

/// A ranking of the first `i` candidates takes candidate `i` at the first
/// place whose holder it is ranked before.
proof fn lemma_insert_ranks(scores: Seq<Ratio>, i: int, order: Seq<usize>, pos: int)
    requires
        all_wf(scores),
        0 <= i < scores.len(),
        i <= usize::MAX,
        ranks_first(scores, i, order),
        0 <= pos <= order.len(),
        forall|k: int| 0 <= k < pos ==> !outranks(scores, i, #[trigger] order[k] as int),
        pos < order.len() ==> outranks(scores, i, order[pos] as int),
        pos == order.len() ==> forall|j: usize| j < i ==> order.contains(j),
    ensures
        ranks_first(scores, i + 1, order.insert(pos, i as usize)),
{
    let longer = order.insert(pos, i as usize);
    order.insert_ensures(pos, i as usize);
    assert forall|k: int| 0 <= k < longer.len() implies 0 <= #[trigger] longer[k] < i + 1 by {
        if k < pos {
            assert(longer[k] == order[k]);
        } else if k > pos {
            assert(longer[k] == order[k - 1]);
        }
    }
    assert forall|k: int| pos < k < order.len() implies outranks(
        scores,
        i,
        #[trigger] order[k] as int,
    ) by {
        assert(outranks(scores, order[pos] as int, order[k] as int));
        lemma_outranks_transitive(scores, i, order[pos] as int, order[k] as int);
    }
    assert forall|k: int| 0 <= k < pos implies outranks(scores, #[trigger] order[k] as int, i) by {
        lemma_outranks_total(scores, i, order[k] as int);
    }
    assert forall|k1: int, k2: int| 0 <= k1 < k2 < longer.len() implies outranks(
        scores,
        #[trigger] longer[k1] as int,
        #[trigger] longer[k2] as int,
    ) by {
        let a = if k1 < pos {
            k1
        } else {
            k1 - 1
        };
        let b = if k2 < pos {
            k2
        } else {
            k2 - 1
        };
        if k1 != pos {
            assert(longer[k1] == order[a]);
        }
        if k2 != pos {
            assert(longer[k2] == order[b]);
        }
        if k1 != pos && k2 != pos {
            assert(outranks(scores, order[a] as int, order[b] as int));
        }
    }
    assert forall|j: int, k: int|
        0 <= j < i + 1 && 0 <= k < longer.len() && #[trigger] outranks(
            scores,
            j,
            longer[k] as int,
        ) implies listed_before(longer, k, j) by {
        if k == pos {
            lemma_outranks_total(scores, i, j);
            assert(j < i);
            if order.contains(j as usize) {
                let k0 = choose|k0: int| 0 <= k0 < order.len() && order[k0] == j as usize;
                if k0 >= pos {
                    assert(outranks(scores, i, order[k0] as int));
                }
                assert(longer[k0] == j);
            } else {
                assert(pos < order.len());
                lemma_outranks_transitive(scores, j, i, order[pos] as int);
                assert(listed_before(order, pos, j));
                let k0 = choose|k0: int| 0 <= k0 < pos && #[trigger] order[k0] == j;
                assert(order.contains(j as usize));
            }
        } else {
            let b = if k < pos {
                k
            } else {
                k - 1
            };
            assert(longer[k] == order[b]);
            if j == i {
                assert(b >= pos);
                assert(longer[pos] == j);
            } else {
                assert(listed_before(order, b, j));
                let k0 = choose|k0: int| 0 <= k0 < b && #[trigger] order[k0] == j;
                if k0 < pos {
                    assert(longer[k0] == j);
                } else {
                    assert(longer[k0 + 1] == j);
                }
            }
        }
    }
}

/// The smaller of two numbers.
pub open spec fn least(a: int, b: int) -> int {
    if a <= b {
        a
    } else {
        b
    }
}

/// Lists the `take` best candidates, best first; all of them where there
/// are fewer.
pub fn rank_top(scores: &Vec<Ratio>, take: usize) -> (order: Vec<usize>)
    requires
        all_wf(scores@),
    ensures
        order@.len() == least(take as int, scores@.len() as int),
        is_ranking(scores@, order@),
{
    let n: usize = scores.len();
    let mut order: Vec<usize> = Vec::new();
    let mut i: usize = 0;
    while i < n
        invariant
            n == scores@.len(),
            i <= n,
            all_wf(scores@),
            ranks_first(scores@, i as int, order@),
            order@.len() == least(take as int, i as int),
            i <= take ==> forall|j: usize| j < i ==> order@.contains(j),
        decreases n - i,
    {
        let len: usize = order.len();
        let mut pos: usize = 0;
        while pos < len && !scores[order[pos]].is_below(&scores[i])
            invariant
                n == scores@.len(),
                i < n,
                all_wf(scores@),
                len == order@.len(),
                pos <= len,
                ranks_first(scores@, i as int, order@),
                forall|k: int| 0 <= k < pos ==> !outranks(scores@, i as int, #[trigger] order@[k] as int),
            decreases len - pos,
        {
            pos = pos + 1;
        }
        let ghost before = order@;
        if pos < take {
            proof {
                lemma_insert_ranks(scores@, i as int, before, pos as int);
                before.insert_ensures(pos as int, i);
            }
            order.insert(pos, i);
            proof {
                assert forall|j: usize| j < i + 1 && i + 1 <= take implies order@.contains(j) by {
                    if j == i {
                        assert(order@[pos as int] == i);
                    } else {
                        assert(before.contains(j));
                        let k0 = choose|k0: int| 0 <= k0 < before.len() && before[k0] == j;
                        if k0 < pos {
                            assert(order@[k0] == j);
                        } else {
                            assert(order@[k0 + 1] == j);
                        }
                    }
                }
            }
            if order.len() > take {
                proof {
                    lemma_drop_last_ranks(scores@, i + 1, order@);
                }
                order.pop();
            }
        } else {
            proof {
                lemma_skip_ranks(scores@, i as int, before);
            }
        }
        i = i + 1;
    }
    order
}

/// Two rankings of the same scores and the same length are the same.
pub proof fn lemma_ranking_unique(scores: Seq<Ratio>, a: Seq<usize>, b: Seq<usize>)
    requires
        is_ranking(scores, a),
        is_ranking(scores, b),
        a.len() == b.len(),
    ensures
        a == b,
{
    assert forall|k: int| 0 <= k < a.len() implies a[k] == b[k] by {
        lemma_rankings_agree(scores, a, b, k);
    }
    assert(a =~= b);
}

/// Two rankings of the same scores and the same length agree at each place.
proof fn lemma_rankings_agree(scores: Seq<Ratio>, a: Seq<usize>, b: Seq<usize>, k: int)
    requires
        is_ranking(scores, a),
        is_ranking(scores, b),
        a.len() == b.len(),
        0 <= k < a.len(),
    ensures
        a[k] == b[k],
    decreases k,
{
    if a[k] != b[k] {
        lemma_outranks_total(scores, a[k] as int, b[k] as int);
        if outranks(scores, a[k] as int, b[k] as int) {
            assert(listed_before(b, k, a[k] as int));
            let k0 = choose|k0: int| 0 <= k0 < k && #[trigger] b[k0] == a[k] as int;
            lemma_rankings_agree(scores, a, b, k0);
            assert(outranks(scores, a[k0] as int, a[k] as int));
        } else {
            assert(listed_before(a, k, b[k] as int));
            let k0 = choose|k0: int| 0 <= k0 < k && #[trigger] a[k0] == b[k] as int;
            lemma_rankings_agree(scores, a, b, k0);
            assert(outranks(scores, b[k0] as int, b[k] as int));
        }
    }
}

/// A ranking is sorted: no listed candidate scores below one listed after
/// it, and of two with equal scores the one named first is listed first.
pub proof fn lemma_ranking_sorted(scores: Seq<Ratio>, order: Seq<usize>, k1: int, k2: int)
    requires
        is_ranking(scores, order),
        0 <= k1 < k2 < order.len(),
    ensures
        scores[order[k2] as int].le(scores[order[k1] as int]),
        scores[order[k2] as int].same(scores[order[k1] as int]) ==> order[k1] < order[k2],
{
    assert(outranks(scores, order[k1] as int, order[k2] as int));
}

} // verus!
