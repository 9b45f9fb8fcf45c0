//! Ordering by descending key, with ties kept in their original order.

use vstd::prelude::*;

verus! {

/// Position `a` goes before position `b`: it has the larger key, or the same
/// key and the smaller position.
pub open spec fn ahead(keys: Seq<u64>, a: usize, b: usize) -> bool {
    keys[a as int] > keys[b as int] || (keys[a as int] == keys[b as int] && a < b)
}

/// `order` lists the positions of `keys`, each of them, from the largest key
/// down, and positions with the same key in ascending order.
pub open spec fn is_ranking(keys: Seq<u64>, order: Seq<usize>) -> bool {
    &&& order.len() == keys.len()
    &&& forall|i: int| 0 <= i < order.len() ==> (#[trigger] order[i]) < keys.len()
    &&& forall|e: usize| e < keys.len() ==> #[trigger] order.contains(e)
    &&& forall|i: int, j: int|
        0 <= i < j < order.len() ==> ahead(keys, #[trigger] order[i], #[trigger] order[j])
}

/// The one ranking of `keys`.
pub open spec fn ranking(keys: Seq<u64>) -> Seq<usize> {
    choose|order: Seq<usize>| is_ranking(keys, order)
}

/// There is at most one ranking of a sequence of keys.
pub proof fn law_ranking_is_unique(keys: Seq<u64>, a: Seq<usize>, b: Seq<usize>)
    requires
        is_ranking(keys, a),
        is_ranking(keys, b),
    ensures
        a == b,
{
    assert forall|n: int| 0 <= n <= a.len() implies a.take(n) == b.take(n) by {
        lemma_same_prefix(keys, a, b, n);
    }
    assert(a.take(a.len() as int) =~= a);
    assert(b.take(b.len() as int) =~= b);
}

proof fn lemma_same_prefix(keys: Seq<u64>, a: Seq<usize>, b: Seq<usize>, n: int)
    requires
        is_ranking(keys, a),
        is_ranking(keys, b),
        0 <= n <= a.len(),
    ensures
        a.take(n) == b.take(n),
    decreases n,
{
    if n > 0 {
        lemma_same_prefix(keys, a, b, n - 1);
        let m = n - 1;
        let x = a[m];
        let y = b[m];
        assert(b.contains(x));
        let j = choose|j: int| 0 <= j < b.len() && b[j] == x;
        assert(a.contains(y));
        let i = choose|i: int| 0 <= i < a.len() && a[i] == y;
        if j < m {
            assert(a.take(m)[j] == b.take(m)[j]);
            assert(ahead(keys, a[j], a[m]));
        }
        if i < m {
            assert(a.take(m)[i] == b.take(m)[i]);
            assert(ahead(keys, b[i], b[m]));
        }
        if x != y {
            assert(ahead(keys, b[m], b[j]));
            assert(ahead(keys, a[m], a[i]));
        }
        assert(a.take(n) =~= a.take(m).push(x));
        assert(b.take(n) =~= b.take(m).push(y));
    }
}

/// Putting the position of a new last key behind the positions with keys that
/// are at least as large makes a ranking of the longer sequence.
proof fn lemma_insert_keeps_ranking(keys: Seq<u64>, order: Seq<usize>, at: int)
    requires
        0 < keys.len() <= usize::MAX,
        is_ranking(keys.drop_last(), order),
        0 <= at <= order.len(),
        forall|i: int| at <= i < order.len() ==> keys[(#[trigger] order[i]) as int] < keys.last(),
        at > 0 ==> keys[order[at - 1] as int] >= keys.last(),
    ensures
        is_ranking(keys, order.insert(at, (keys.len() - 1) as usize)),
{
    let n = (keys.len() - 1) as usize;
    let kept = keys.drop_last();
    let grown = order.insert(at, n);
    assert forall|e: usize| e < keys.len() implies #[trigger] grown.contains(e) by {
        if e == n {
            assert(grown[at] == e);
        } else {
            assert(order.contains(e));
            let i = choose|i: int| 0 <= i < order.len() && order[i] == e;
            if i < at {
                assert(grown[i] == e);
            } else {
                assert(grown[i + 1] == e);
            }
        }
    }
    assert forall|i: int, j: int| 0 <= i < j < grown.len() implies ahead(
        keys,
        #[trigger] grown[i],
        #[trigger] grown[j],
    ) by {
        let bi = if i < at { i } else { i - 1 };
        let bj = if j < at { j } else { j - 1 };
        if i == at {
            assert(grown[j] == order[bj]);
        } else if j == at {
            assert(grown[i] == order[bi]);
            assert(bi < at - 1 ==> ahead(kept, order[bi], order[at - 1]));
        } else {
            assert(grown[i] == order[bi]);
            assert(grown[j] == order[bj]);
            assert(ahead(kept, order[bi], order[bj]));
        }
    }
}

/// Where a new last key goes, looking from position `at` of the ranking down.
spec fn slot(keys: Seq<u64>, order: Seq<usize>, at: nat) -> nat
    decreases at,
{
    if at > 0 && keys[order[at - 1] as int] < keys.last() {
        slot(keys, order, (at - 1) as nat)
    } else {
        at
    }
}

proof fn lemma_slot(keys: Seq<u64>, order: Seq<usize>, at: nat)
    requires
        at <= order.len(),
    ensures
        slot(keys, order, at) <= at,
        forall|i: int|
            slot(keys, order, at) <= i < at ==> keys[(#[trigger] order[i]) as int] < keys.last(),
        slot(keys, order, at) > 0 ==> keys[order[slot(keys, order, at) - 1] as int] >= keys.last(),
    decreases at,
{
    if at > 0 && keys[order[at - 1] as int] < keys.last() {
        lemma_slot(keys, order, (at - 1) as nat);
    }
}

/// Every sequence of keys has a ranking.
pub proof fn law_ranking_exists(keys: Seq<u64>)
    requires
        keys.len() <= usize::MAX,
    ensures
        is_ranking(keys, ranking(keys)),
    decreases keys.len(),
{
    if keys.len() == 0 {
        assert(is_ranking(keys, Seq::empty()));
    } else {
        law_ranking_exists(keys.drop_last());
        let before = ranking(keys.drop_last());
        lemma_slot(keys, before, before.len());
        let at = slot(keys, before, before.len());
        lemma_insert_keeps_ranking(keys, before, at as int);
        assert(is_ranking(keys, before.insert(at as int, (keys.len() - 1) as usize)));
    }
}

/// The positions of `keys` from the largest key down.
pub fn rank(keys: &Vec<u64>) -> (order: Vec<usize>)
    ensures
        is_ranking(keys@, order@),
        order@ == ranking(keys@),
{
    let mut order: Vec<usize> = Vec::new();
    let mut n: usize = 0;
    while n < keys.len()
        invariant
            n <= keys.len(),
            is_ranking(keys@.take(n as int), order@),
        decreases keys.len() - n,
    {
        let mut at: usize = order.len();
        while at > 0 && keys[order[at - 1]] < keys[n]
            invariant
                n < keys.len(),
                at <= order.len(),
                is_ranking(keys@.take(n as int), order@),
                forall|i: int| at <= i < order.len() ==> keys@[(#[trigger] order@[i]) as int] < keys@[n as int],
            decreases at,
        {
            at -= 1;
        }
        proof {
            assert(keys@.take(n + 1).drop_last() =~= keys@.take(n as int));
            lemma_insert_keeps_ranking(keys@.take(n + 1), order@, at as int);
        }
        order.insert(at, n);
        n += 1;
    }
    assert(keys@.take(n as int) =~= keys@);
    proof {
        law_ranking_is_unique(keys@, order@, ranking(keys@));
    }
    order
}

/// How many of the first `limit` positions of the ranking have a key of at
/// least `threshold`. They are the first ones, since keys descend.
pub open spec fn reaching(keys: Seq<u64>, threshold: u64, limit: nat) -> nat
    decreases limit,
{
    if limit == 0 {
        0
    } else {
        let before = reaching(keys, threshold, (limit - 1) as nat);
        if limit <= keys.len() && keys[ranking(keys)[limit - 1] as int] >= threshold {
            before + 1
        } else {
            before
        }
    }
}

/// The positions of the at most `limit` largest keys that reach `threshold`,
/// the largest first.
pub open spec fn best(keys: Seq<u64>, threshold: u64, limit: nat) -> Seq<usize> {
    ranking(keys).take(reaching(keys, threshold, limit) as int)
}

pub proof fn lemma_reaching(keys: Seq<u64>, threshold: u64, limit: nat)
    requires
        keys.len() <= usize::MAX,
    ensures
        reaching(keys, threshold, limit) <= limit,
        reaching(keys, threshold, limit) <= keys.len(),
        forall|p: int|
            0 <= p < reaching(keys, threshold, limit) ==> keys[(
            #[trigger] ranking(keys)[p]) as int] >= threshold,
        forall|p: int|
            reaching(keys, threshold, limit) <= p < limit && p < keys.len() ==> keys[(
            #[trigger] ranking(keys)[p]) as int] < threshold,
    decreases limit,
{
    law_ranking_exists(keys);
    if limit > 0 {
        lemma_reaching(keys, threshold, (limit - 1) as nat);
        let before = reaching(keys, threshold, (limit - 1) as nat);
        let order = ranking(keys);
        if limit <= keys.len() && keys[order[limit - 1] as int] >= threshold {
            if before < limit - 1 {
                assert(ahead(keys, order[before as int], order[limit - 1]));
            }
        }
    }
}

/// The positions of the at most `limit` largest keys that reach `threshold`,
/// the largest first.
pub fn best_of(keys: &Vec<u64>, threshold: u64, limit: usize) -> (r: Vec<usize>)
    ensures
        r@ == best(keys@, threshold, limit as nat),
        r.len() <= limit,
        forall|p: int| 0 <= p < r.len() ==> (#[trigger] r@[p]) < keys.len() && keys@[r@[p] as int] >= threshold,
{
    let mut r = rank(keys);
    proof {
        assert(r.len() == keys@.len());
        lemma_reaching(keys@, threshold, limit as nat);
    }
    let mut n: usize = 0;
    while n < limit && n < r.len() && keys[r[n]] >= threshold
        invariant
            n <= limit,
            n <= r.len(),
            r.len() == keys.len(),
            r@ == ranking(keys@),
            is_ranking(keys@, r@),
            forall|p: int| 0 <= p < n ==> keys@[(#[trigger] r@[p]) as int] >= threshold,
        decreases limit - n,
    {
        n += 1;
    }
    let ghost k = reaching(keys@, threshold, limit as nat);
    assert(n == k) by {
        if n < k {
            assert(keys@[r@[n as int] as int] >= threshold);
        }
        if k < n {
            assert(keys@[r@[k as int] as int] >= threshold);
        }
    }
    let ghost all = r@;
    r.truncate(n);
    assert(r@ =~= all.take(n as int));
    r
}

/// A key that is listed as one of the best is at least as large as every key
/// that is left out, and every key left out is below the threshold or gave way
/// to the limit.
pub proof fn law_best_are_the_largest(keys: Seq<u64>, threshold: u64, limit: nat, p: int, q: usize)
    requires
        keys.len() <= usize::MAX,
        0 <= p < best(keys, threshold, limit).len(),
        q < keys.len(),
        !best(keys, threshold, limit).contains(q),
    ensures
        keys[best(keys, threshold, limit)[p] as int] >= keys[q as int],
        keys[q as int] < threshold || best(keys, threshold, limit).len() == limit,
{
    law_ranking_exists(keys);
    lemma_reaching(keys, threshold, limit);
    let order = ranking(keys);
    let b = best(keys, threshold, limit);
    assert(order.contains(q));
    let i = choose|i: int| 0 <= i < order.len() && order[i] == q;
    if i < b.len() {
        assert(b[i] == q);
    }
    assert(ahead(keys, order[p], order[i]));
    if b.len() < limit && keys[q as int] >= threshold {
        let m = b.len() as int;
        if m < i {
            assert(ahead(keys, order[m], order[i]));
        }
    }
}

} // verus!
