//! Stable sorting by 256-bit keys, ascending or descending.
use crate::u256::U256;
use vstd::prelude::*;

verus! {

/// The numbers that the keys stand for.
pub open spec fn key_values(keys: Seq<U256>) -> Seq<nat> {
    keys.map_values(|k: U256| k.value())
}

/// In a stable sort by `keys` (descending where `desc`), the item at position `i` comes
/// before the item at position `j`: its key is smaller (larger), or equal and `i < j`.
pub open spec fn precedes(keys: Seq<nat>, desc: bool, i: int, j: int) -> bool {
    if desc {
        keys[i] > keys[j] || (keys[i] == keys[j] && i < j)
    } else {
        keys[i] < keys[j] || (keys[i] == keys[j] && i < j)
    }
}

/// `p` lists the positions `0..keys.len()` in the order of a stable sort by `keys`.
/// Each position occurs once, since `precedes` is irreflexive; there is exactly one such `p`.
pub open spec fn is_sort_permutation(keys: Seq<nat>, desc: bool, p: Seq<int>) -> bool {
    &&& p.len() == keys.len()
    &&& forall|i: int| 0 <= i < p.len() ==> 0 <= #[trigger] p[i] < keys.len()
    &&& forall|i: int, j: int|
        0 <= i < j < p.len() ==> #[trigger] precedes(keys, desc, p[i], p[j])
}

/// The items of `s` at the positions `p`, in that order.
pub open spec fn arrange<A>(s: Seq<A>, p: Seq<int>) -> Seq<A> {
    p.map_values(|i: int| s[i])
}

/// `out` is `s` stably sorted by `keys` (descending where `desc`).
pub open spec fn stably_sorted<A>(s: Seq<A>, keys: Seq<nat>, desc: bool, out: Seq<A>) -> bool {
    exists|p: Seq<int>| #[trigger] is_sort_permutation(keys, desc, p) && out == arrange(s, p)
}

/// Whether the item at position `a` comes before the one at position `b`.
fn key_precedes(keys: &Vec<U256>, desc: bool, a: usize, b: usize) -> (r: bool)
    requires
        a < keys.len(),
        b < keys.len(),
    ensures
        r == precedes(key_values(keys@), desc, a as int, b as int),
{
    let ka = keys[a];
    let kb = keys[b];
    if desc {
        kb.lt(&ka) || (ka.eq(&kb) && a < b)
    } else {
        ka.lt(&kb) || (ka.eq(&kb) && a < b)
    }
}

/// The positions of `keys` in the order of a stable sort (insertion sort).
pub fn stable_sort_positions(keys: &Vec<U256>, desc: bool) -> (p: Vec<usize>)
    ensures
        is_sort_permutation(key_values(keys@), desc, p@.map_values(|i: usize| i as int)),
{
    let ghost kv = key_values(keys@);
    let n = keys.len();
    let mut p: Vec<usize> = Vec::new();
    let mut k: usize = 0;
    while k < n
        invariant
            n == keys.len(),
            kv == key_values(keys@),
            k <= n,
            p.len() == k,
            forall|i: int| 0 <= i < p.len() ==> #[trigger] p@[i] < k,
            forall|i: int, j: int|
                0 <= i < j < p.len() ==> #[trigger] precedes(kv, desc, p@[i] as int, p@[j] as int),
        decreases n - k,
    {
        let mut pos: usize = 0;
        while pos < p.len() && key_precedes(keys, desc, p[pos], k)
            invariant
                n == keys.len(),
                kv == key_values(keys@),
                k < n,
                p.len() == k,
                pos <= p.len(),
                forall|i: int| 0 <= i < p.len() ==> #[trigger] p@[i] < k,
                forall|i: int| 0 <= i < pos ==> #[trigger] precedes(kv, desc, p@[i] as int, k as int),
            decreases p.len() - pos,
        {
            pos = pos + 1;
        }
        let ghost old_p = p@;
        proof {
            if pos < old_p.len() {
                assert(!precedes(kv, desc, old_p[pos as int] as int, k as int));
                assert(precedes(kv, desc, k as int, old_p[pos as int] as int));
            }
        }
        p.insert(pos, k);
        assert forall|i: int, j: int| 0 <= i < j < p.len() implies #[trigger] precedes(
            kv,
            desc,
            p@[i] as int,
            p@[j] as int,
        ) by {
            if j < pos {
                assert(p@[i] == old_p[i] && p@[j] == old_p[j]);
            } else if j == pos {
                assert(p@[i] == old_p[i]);
            } else if i == pos {
                assert(p@[j] == old_p[j - 1]);
                if j - 1 > pos {
                    assert(precedes(kv, desc, old_p[pos as int] as int, old_p[j - 1] as int));
                }
            } else if i < pos {
                assert(p@[i] == old_p[i] && p@[j] == old_p[j - 1]);
            } else {
                assert(p@[i] == old_p[i - 1] && p@[j] == old_p[j - 1]);
            }
        }
        k = k + 1;
    }
    p
}

/// The items of `s` at the positions `p`, in that order.
pub fn arrange_by<A: Copy>(s: &Vec<A>, p: &Vec<usize>) -> (out: Vec<A>)
    requires
        forall|i: int| 0 <= i < p.len() ==> #[trigger] p@[i] < s.len(),
    ensures
        out@ == arrange(s@, p@.map_values(|i: usize| i as int)),
{
    let mut out: Vec<A> = Vec::new();
    let mut i: usize = 0;
    while i < p.len()
        invariant
            i <= p.len(),
            forall|k: int| 0 <= k < p.len() ==> #[trigger] p@[k] < s.len(),
            out@ == arrange(s@, p@.map_values(|i: usize| i as int)).take(i as int),
        decreases p.len() - i,
    {
        out.push(s[p[i]]);
        i = i + 1;
        assert(out@ =~= arrange(s@, p@.map_values(|i: usize| i as int)).take(i as int));
    }
    assert(out@ =~= arrange(s@, p@.map_values(|i: usize| i as int)));
    out
}

/// `s` stably sorted by `keys`, one key per item.
pub fn stable_sort_by_keys<A: Copy>(s: &Vec<A>, keys: &Vec<U256>, desc: bool) -> (out: Vec<A>)
    requires
        keys.len() == s.len(),
    ensures
        stably_sorted(s@, key_values(keys@), desc, out@),
{
    let p = stable_sort_positions(keys, desc);
    let ghost pi = p@.map_values(|i: usize| i as int);
    assert forall|i: int| 0 <= i < p.len() implies #[trigger] p@[i] < s.len() by {
        assert(pi[i] == p@[i] as int);
    }
    let out = arrange_by(s, &p);
    assert(is_sort_permutation(key_values(keys@), desc, pi));
    out
}

/// The positions of a stable sort are distinct.
pub proof fn lemma_sort_positions_distinct(keys: Seq<nat>, desc: bool, p: Seq<int>)
    requires
        is_sort_permutation(keys, desc, p),
    ensures
        p.no_duplicates(),
{
    assert forall|i: int, j: int| 0 <= i < p.len() && 0 <= j < p.len() && i != j implies p[i]
        != p[j] by {
        if i < j {
            assert(precedes(keys, desc, p[i], p[j]));
        } else {
            assert(precedes(keys, desc, p[j], p[i]));
        }
    }
}

/// `n` distinct positions below `n` include every position below `n`.
pub proof fn lemma_distinct_positions_cover(p: Seq<int>, n: int, k: int)
    requires
        p.len() == n,
        p.no_duplicates(),
        forall|i: int| 0 <= i < p.len() ==> 0 <= #[trigger] p[i] < n,
        0 <= k < n,
    ensures
        p.contains(k),
{
    if !p.contains(k) {
        let range = vstd::set_lib::set_int_range(0, n).remove(k);
        vstd::set_lib::lemma_int_range(0, n);
        assert(p.to_set().subset_of(range)) by {
            assert forall|x: int| #[trigger] p.to_set().contains(x) implies range.contains(x) by {
                let i = choose|i: int| 0 <= i < p.len() && p[i] == x;
            }
        }
        p.unique_seq_to_set();
        vstd::set_lib::lemma_len_subset(p.to_set(), range);
        assert(false);
    }
}

/// Arranging items by distinct positions that cover them only reorders them.
pub proof fn lemma_arrange_permutes<A>(s: Seq<A>, p: Seq<int>)
    requires
        p.len() == s.len(),
        p.no_duplicates(),
        forall|i: int| 0 <= i < p.len() ==> 0 <= #[trigger] p[i] < s.len(),
    ensures
        arrange(s, p).to_multiset() == s.to_multiset(),
    decreases s.len(),
{
    broadcast use vstd::multiset::group_multiset_axioms;

    let n = s.len() as int;
    let out = arrange(s, p);
    if n == 0 {
        assert(out =~= Seq::<A>::empty());
        assert(s =~= Seq::<A>::empty());
    } else {
        lemma_distinct_positions_cover(p, n, n - 1);
        let j = choose|j: int| 0 <= j < p.len() && p[j] == n - 1;
        let p2 = p.remove(j);
        let s2 = s.drop_last();
        assert forall|i: int| 0 <= i < p2.len() implies 0 <= #[trigger] p2[i] < s2.len() by {
            if i < j {
                assert(p2[i] == p[i]);
                assert(p[i] != p[j]);
            } else {
                assert(p2[i] == p[i + 1]);
                assert(p[i + 1] != p[j]);
            }
        }
        assert(p2.no_duplicates()) by {
            assert forall|a: int, b: int| 0 <= a < p2.len() && 0 <= b < p2.len() && a != b implies p2[a]
                != p2[b] by {
                let a1 = if a < j { a } else { a + 1 };
                let b1 = if b < j { b } else { b + 1 };
                assert(p2[a] == p[a1] && p2[b] == p[b1]);
            }
        }
        lemma_arrange_permutes(s2, p2);
        let out2 = arrange(s2, p2);
        assert(out.remove(j) =~= out2) by {
            assert forall|i: int| 0 <= i < out2.len() implies out.remove(j)[i] == out2[i] by {
                if i < j {
                    assert(p2[i] == p[i]);
                } else {
                    assert(p2[i] == p[i + 1]);
                }
            }
        }
        out.to_multiset_ensures();
        s2.to_multiset_ensures();
        assert(out[j] == s.last());
        assert(s2.push(s.last()) =~= s);
        assert(out.contains(out[j]));
        assert(out.to_multiset() =~= out.to_multiset().remove(s.last()).insert(s.last()));
    }
}

/// A stable sort only reorders the items.
pub proof fn lemma_stably_sorted_permutes<A>(s: Seq<A>, keys: Seq<nat>, desc: bool, out: Seq<A>)
    requires
        keys.len() == s.len(),
        stably_sorted(s, keys, desc, out),
    ensures
        out.to_multiset() == s.to_multiset(),
{
    let p = choose|p: Seq<int>| #[trigger] is_sort_permutation(keys, desc, p) && out == arrange(s, p);
    lemma_sort_positions_distinct(keys, desc, p);
    lemma_arrange_permutes(s, p);
}

/// In a stable sort, the keys of the items come in order: ascending, or descending where
/// `desc`.
pub proof fn lemma_stably_sorted_ordered<A>(s: Seq<A>, keys: Seq<nat>, desc: bool, out: Seq<A>, i: int, j: int)
    requires
        keys.len() == s.len(),
        stably_sorted(s, keys, desc, out),
        0 <= i < j < out.len(),
    ensures
        exists|a: int, b: int|
            0 <= a < s.len() && 0 <= b < s.len() && out[i] == s[a] && out[j] == s[b] && (if desc {
                keys[a] >= keys[b]
            } else {
                keys[a] <= keys[b]
            }),
{
    let p = choose|p: Seq<int>| #[trigger] is_sort_permutation(keys, desc, p) && out == arrange(s, p);
    assert(precedes(keys, desc, p[i], p[j]));
    assert(out[i] == s[p[i]] && out[j] == s[p[j]]);
}

} // verus!
