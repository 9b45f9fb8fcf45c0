//! Finding what occurs for the first time.

use vstd::prelude::*;

use crate::text::same;

verus! {

/// The texts of a list of optional strings.
pub open spec fn opt_texts(v: Seq<Option<String>>) -> Seq<Option<Seq<char>>> {
    Seq::new(v.len(), |i: int| crate::text::opt_string(v[i]))
}

/// The key at `i` occurred before. Where there is no key, it did not.
pub open spec fn repeats(keys: Seq<Option<Seq<char>>>, i: int) -> bool {
    keys[i] is Some && exists|j: int| 0 <= j < i && #[trigger] keys[j] == keys[i]
}

/// The wanted positions below `n` at which no key occurs again, in their order.
pub open spec fn first_positions(
    wanted: Seq<bool>,
    keys: Seq<Option<Seq<char>>>,
    n: int,
) -> Seq<int>
    decreases n,
{
    if n <= 0 {
        Seq::empty()
    } else if wanted[n - 1] && !repeats(keys, n - 1) {
        first_positions(wanted, keys, n - 1).push(n - 1)
    } else {
        first_positions(wanted, keys, n - 1)
    }
}

/// The positions as numbers.
pub open spec fn ints(v: Seq<usize>) -> Seq<int> {
    Seq::new(v.len(), |i: int| v[i] as int)
}

fn same_key(a: &Option<String>, b: &Option<String>) -> (r: bool)
    ensures
        r == (a is Some && crate::text::opt_string(*a) == crate::text::opt_string(*b)),
{
    match (a, b) {
        (Some(x), Some(y)) => same(x.as_str(), y.as_str()),
        _ => false,
    }
}

/// The wanted positions at which no key occurs again.
pub fn find_firsts(wanted: &Vec<bool>, keys: &Vec<Option<String>>) -> (r: Vec<usize>)
    requires
        wanted.len() == keys.len(),
    ensures
        ints(r@) == first_positions(wanted@, opt_texts(keys@), keys@.len() as int),
{
    let ghost all = opt_texts(keys@);
    let mut r: Vec<usize> = Vec::new();
    let mut i: usize = 0;
    assert(ints(r@) =~= Seq::empty());
    while i < keys.len()
        invariant
            i <= keys.len(),
            wanted.len() == keys.len(),
            all == opt_texts(keys@),
            ints(r@) == first_positions(wanted@, all, i as int),
        decreases keys.len() - i,
    {
        let mut known = false;
        let mut j: usize = 0;
        while j < i && !known
            invariant
                j <= i < keys.len(),
                all == opt_texts(keys@),
                known ==> repeats(all, i as int),
                !known ==> all[i as int] is None || forall|k: int|
                    0 <= k < j ==> #[trigger] all[k] != all[i as int],
            decreases i - j + (if known {
                0int
            } else {
                1int
            }),
        {
            if same_key(&keys[i], &keys[j]) {
                assert(all[j as int] == all[i as int]);
                known = true;
            } else {
                j += 1;
            }
        }
        let ghost before = ints(r@);
        if wanted[i] && !known {
            r.push(i);
            assert(ints(r@) =~= before.push(i as int));
        }
        i += 1;
    }
    r
}

/// Each position that is found is wanted and has a key that did not occur
/// before, and they ascend.
pub proof fn law_firsts_are_new(wanted: Seq<bool>, keys: Seq<Option<Seq<char>>>, n: int)
    ensures
        forall|k: int|
            0 <= k < first_positions(wanted, keys, n).len() ==> {
                let i = #[trigger] first_positions(wanted, keys, n)[k];
                0 <= i < n && wanted[i] && !repeats(keys, i)
            },
        forall|k: int, l: int|
            0 <= k < l < first_positions(wanted, keys, n).len() ==> (#[trigger] first_positions(
                wanted,
                keys,
                n,
            )[k]) < (#[trigger] first_positions(wanted, keys, n)[l]),
    decreases n,
{
    if n > 0 {
        law_firsts_are_new(wanted, keys, n - 1);
        let before = first_positions(wanted, keys, n - 1);
        let all = first_positions(wanted, keys, n);
        assert forall|k: int| 0 <= k < all.len() implies {
            let i = #[trigger] all[k];
            0 <= i < n && wanted[i] && !repeats(keys, i)
        } by {
            if k < before.len() {
                assert(all[k] == before[k]);
            }
        }
        assert forall|k: int, l: int| 0 <= k < l < all.len() implies (#[trigger] all[k]) < (
        #[trigger] all[l]) by {
            assert(all[k] == before[k]);
            if l < before.len() {
                assert(all[l] == before[l]);
            }
        }
    }
}

/// Every wanted position whose key did not occur before is found.
pub proof fn law_every_first_is_found(
    wanted: Seq<bool>,
    keys: Seq<Option<Seq<char>>>,
    n: int,
    i: int,
)
    requires
        0 <= i < n,
        wanted[i],
        !repeats(keys, i),
    ensures
        first_positions(wanted, keys, n).contains(i),
    decreases n,
{
    let all = first_positions(wanted, keys, n);
    let before = first_positions(wanted, keys, n - 1);
    if i < n - 1 {
        law_every_first_is_found(wanted, keys, n - 1, i);
        let k = choose|k: int| 0 <= k < before.len() && before[k] == i;
        assert(all[k] == i);
    } else {
        assert(all[all.len() - 1] == i);
    }
}

} // verus!
