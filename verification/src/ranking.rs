//! Ranking by score keys: a stable sort in descending order, cut to the
//! first `k`.
//!
//! A key is an integer that orders as the score it stands for; ties keep the
//! original order, as a stable sort does.

use vstd::prelude::*;

verus! {

/// Whether the item at `i` comes before the item at `j` in the ranking: a
/// higher key first, and of equal keys the earlier position first.
pub open spec fn ranks_before(keys: Seq<u64>, i: int, j: int) -> bool {
    keys[i] > keys[j] || (keys[i] == keys[j] && i < j)
}

/// The smaller of two numbers.
pub open spec fn min_nat(a: nat, b: nat) -> nat {
    if a <= b {
        a
    } else {
        b
    }
}

/// `sel` lists the positions of the `k` best-ranked items of `keys` (all of
/// them if there are fewer), best first: every listed position ranks before
/// every later one, and before every position that is not listed.
pub open spec fn is_top_selection(keys: Seq<u64>, k: nat, sel: Seq<usize>) -> bool {
    &&& sel.len() == min_nat(k, keys.len())
    &&& forall|t: int| 0 <= t < sel.len() ==> #[trigger] sel[t] < keys.len()
    &&& forall|t: int, u: int|
        0 <= t < u < sel.len() ==> ranks_before(keys, #[trigger] sel[t] as int, #[trigger] sel[u] as int)
    &&& forall|t: int, i: int|
        #![trigger ranks_before(keys, sel[t] as int, i)]
        #![trigger sel[t], keys[i]]
        0 <= t < sel.len() && 0 <= i < keys.len() && !sel.contains(i as usize)
            ==> ranks_before(keys, sel[t] as int, i)
}

/// The positions of the `k` best-ranked items of `keys`, best first.
pub open spec fn top_selection(keys: Seq<u64>, k: nat) -> Seq<usize> {
    choose|sel: Seq<usize>| is_top_selection(keys, k, sel)
}

proof fn lemma_ranks_before_order(keys: Seq<u64>, i: int, j: int)
    ensures
        !ranks_before(keys, i, i),
        ranks_before(keys, i, j) ==> !ranks_before(keys, j, i),
        i != j ==> ranks_before(keys, i, j) || ranks_before(keys, j, i),
{
}

proof fn lemma_selections_agree_upto(keys: Seq<u64>, k: nat, a: Seq<usize>, b: Seq<usize>, n: int)
    requires
        is_top_selection(keys, k, a),
        is_top_selection(keys, k, b),
        0 <= n <= a.len(),
    ensures
        forall|s: int| 0 <= s < n ==> a[s] == b[s],
    decreases n,
{
    if n > 0 {
        lemma_selections_agree_upto(keys, k, a, b, n - 1);
        let t = n - 1;
        let x = a[t];
        let y = b[t];
        if x != y {
            lemma_ranks_before_order(keys, x as int, y as int);
            // y ranks before x in b
            if b.contains(x) {
                let v = choose|v: int| 0 <= v < b.len() && b[v] == x;
                if v < t {
                    assert(a[v] == b[v]);
                    assert(ranks_before(keys, a[v] as int, a[t] as int));
                    lemma_ranks_before_order(keys, x as int, x as int);
                } else {
                    assert(v != t);
                    assert(ranks_before(keys, b[t] as int, b[v] as int));
                }
            } else {
                assert(ranks_before(keys, b[t] as int, x as int));
            }
            assert(ranks_before(keys, y as int, x as int));
            // x ranks before y in a
            if a.contains(y) {
                let w = choose|w: int| 0 <= w < a.len() && a[w] == y;
                if w < t {
                    assert(a[w] == b[w]);
                    assert(ranks_before(keys, b[w] as int, b[t] as int));
                    lemma_ranks_before_order(keys, y as int, y as int);
                } else {
                    assert(w != t);
                    assert(ranks_before(keys, a[t] as int, a[w] as int));
                }
            } else {
                assert(ranks_before(keys, a[t] as int, y as int));
            }
        }
    }
}

/// There is at most one top selection: the contract of [`ranked_positions`]
/// and [`top_positions`] determines their result.
pub proof fn lemma_top_selection_unique(keys: Seq<u64>, k: nat, a: Seq<usize>, b: Seq<usize>)
    requires
        is_top_selection(keys, k, a),
        is_top_selection(keys, k, b),
    ensures
        a == b,
{
    lemma_selections_agree_upto(keys, k, a, b, a.len() as int);
    assert(a =~= b);
}

/// A selection that meets the definition is the top selection.
pub proof fn lemma_is_top_selection(keys: Seq<u64>, k: nat, sel: Seq<usize>)
    requires
        is_top_selection(keys, k, sel),
    ensures
        top_selection(keys, k) == sel,
{
    assert(is_top_selection(keys, k, top_selection(keys, k)));
    lemma_top_selection_unique(keys, k, sel, top_selection(keys, k));
}

/// All positions of `keys`, best-ranked first: a stable sort by descending key.
pub fn ranked_positions(keys: &Vec<u64>) -> (order: Vec<usize>)
    ensures
        is_top_selection(keys@, keys@.len(), order@),
        order@ == top_selection(keys@, keys@.len()),
        forall|j: usize| j < keys@.len() ==> #[trigger] order@.contains(j),
{
    let n = keys.len();
    let mut order: Vec<usize> = Vec::new();
    let mut i: usize = 0;
    while i < n
        invariant
            n == keys.len(),
            i <= n,
            order@.len() == i,
            forall|t: int| 0 <= t < order@.len() ==> #[trigger] order@[t] < i,
            forall|j: usize| j < i ==> #[trigger] order@.contains(j),
            forall|t: int, u: int|
                0 <= t < u < order@.len() ==> ranks_before(
                    keys@,
                    #[trigger] order@[t] as int,
                    #[trigger] order@[u] as int,
                ),
        decreases n - i,
    {
        // position of the first item that the new one ranks before
        let mut pos: usize = 0;
        while pos < order.len() && keys[order[pos]] >= keys[i]
            invariant
                n == keys.len(),
                i < n,
                pos <= order@.len(),
                order@.len() == i,
                forall|t: int| 0 <= t < order@.len() ==> #[trigger] order@[t] < i,
                forall|t: int| 0 <= t < pos ==> ranks_before(keys@, #[trigger] order@[t] as int, i as int),
            decreases order@.len() - pos,
        {
            pos += 1;
        }
        let ghost old_order = order@;
        proof {
            assert forall|p: int| pos <= p < old_order.len() implies ranks_before(
                keys@,
                i as int,
                #[trigger] old_order[p] as int,
            ) by {
                if p > pos {
                    assert(ranks_before(keys@, old_order[pos as int] as int, old_order[p] as int));
                }
            }
        }
        order.insert(pos, i);
        proof {
            let o = order@;
            assert forall|t: int, u: int| 0 <= t < u < o.len() implies ranks_before(
                keys@,
                #[trigger] o[t] as int,
                #[trigger] o[u] as int,
            ) by {
                if u < pos {
                    assert(o[t] == old_order[t] && o[u] == old_order[u]);
                } else if u == pos {
                    assert(o[t] == old_order[t]);
                } else if t < pos {
                    assert(o[t] == old_order[t] && o[u] == old_order[u - 1]);
                    assert(ranks_before(keys@, old_order[t] as int, i as int));
                    assert(ranks_before(keys@, i as int, old_order[u - 1] as int));
                } else if t == pos {
                    assert(o[u] == old_order[u - 1]);
                } else {
                    assert(o[t] == old_order[t - 1] && o[u] == old_order[u - 1]);
                }
            }
            assert forall|j: usize| j < i + 1 implies #[trigger] o.contains(j) by {
                if j == i {
                    assert(o[pos as int] == i);
                } else {
                    assert(old_order.contains(j));
                    let w = choose|w: int| 0 <= w < old_order.len() && old_order[w] == j;
                    if w < pos {
                        assert(o[w] == j);
                    } else {
                        assert(o[w + 1] == j);
                    }
                }
            }
            assert forall|t: int| 0 <= t < o.len() implies #[trigger] o[t] < i + 1 by {
                if t < pos {
                    assert(o[t] == old_order[t]);
                } else if t > pos {
                    assert(o[t] == old_order[t - 1]);
                }
            }
        }
        i += 1;
    }
    proof {
        assert forall|t: int, j: int|
            0 <= t < order@.len() && 0 <= j < keys@.len() && !order@.contains(j as usize)
                implies #[trigger] ranks_before(keys@, order@[t] as int, j) by {
            assert(order@.contains(j as usize));
        }
        lemma_is_top_selection(keys@, keys@.len(), order@);
    }
    order
}

/// The positions of the `k` best-ranked items of `keys`, best first: a
/// stable sort by descending key, cut to its first `k`.
pub fn top_positions(keys: &Vec<u64>, k: usize) -> (sel: Vec<usize>)
    ensures
        is_top_selection(keys@, k as nat, sel@),
        sel@ == top_selection(keys@, k as nat),
{
    let mut order = ranked_positions(keys);
    let ghost full = order@;
    order.truncate(k);
    proof {
        let sel = order@;
        assert forall|t: int, j: int|
            0 <= t < sel.len() && 0 <= j < keys@.len() && !sel.contains(j as usize)
                implies #[trigger] ranks_before(keys@, sel[t] as int, j) by {
            assert(full.contains(j as usize));
            let w = choose|w: int| 0 <= w < full.len() && full[w] == j as usize;
            if w < sel.len() {
                assert(sel[w] == j as usize);
            } else {
                assert(sel[t] == full[t]);
                assert(ranks_before(keys@, full[t] as int, full[w] as int));
            }
        }
        assert forall|t: int, u: int| 0 <= t < u < sel.len() implies ranks_before(
            keys@,
            #[trigger] sel[t] as int,
            #[trigger] sel[u] as int,
        ) by {
            assert(sel[t] == full[t] && sel[u] == full[u]);
        }
        assert forall|t: int| 0 <= t < sel.len() implies #[trigger] sel[t] < keys@.len() by {
            assert(sel[t] == full[t]);
        }
        lemma_is_top_selection(keys@, k as nat, sel);
    }
    order
}

} // verus!
