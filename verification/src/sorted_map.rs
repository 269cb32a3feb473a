//! Maps kept as vectors of key-value pairs in increasing key order, each key once.
use crate::sorted_set::SortKey;
use vstd::prelude::*;

verus! {

/// The value of the first entry of `s` with key `k`.
pub open spec fn lookup<K, V>(s: Seq<(K, V)>, k: K) -> Option<V>
    decreases s.len(),
{
    if s.len() == 0 {
        None
    } else if s[0].0 == k {
        Some(s[0].1)
    } else {
        lookup(s.skip(1), k)
    }
}

/// `s` with the value of `k` set to `v`: the first entry with key `k` is replaced where
/// it comes before any key that `k` precedes; otherwise the entry is inserted before the
/// first key that `k` precedes, or at the end.
pub open spec fn put<K: SortKey, V>(s: Seq<(K, V)>, k: K, v: V) -> Seq<(K, V)>
    decreases s.len(),
{
    if s.len() == 0 {
        seq![(k, v)]
    } else if s[0].0 == k {
        seq![(k, v)] + s.skip(1)
    } else if k.precedes(s[0].0) {
        seq![(k, v)] + s
    } else {
        seq![s[0]] + put(s.skip(1), k, v)
    }
}

/// The keys of `s` are strictly increasing.
pub open spec fn sorted_keys<K: SortKey, V>(s: Seq<(K, V)>) -> bool {
    forall|i: int, j: int| 0 <= i < j < s.len() ==> #[trigger] s[i].0.precedes(#[trigger] s[j].0)
}

/// `s` with `f` applied to each value.
pub open spec fn map_vals<K, V, W>(s: Seq<(K, V)>, f: spec_fn(V) -> W) -> Seq<(K, W)> {
    s.map_values(|p: (K, V)| (p.0, f(p.1)))
}

proof fn lemma_skip_step<A>(s: Seq<A>, i: int)
    requires
        0 <= i < s.len(),
    ensures
        s.skip(i)[0] == s[i],
        s.skip(i).skip(1) =~= s.skip(i + 1),
        s.skip(i).len() == s.len() - i,
{
}

/// The value of `k` in `s`.
pub fn find<K: SortKey, V: Copy>(s: &Vec<(K, V)>, k: &K) -> (r: Option<V>)
    ensures
        r == lookup(s@, *k),
{
    let mut i: usize = 0;
    assert(s@.skip(0) =~= s@);
    while i < s.len()
        invariant
            i <= s.len(),
            lookup(s@, *k) == lookup(s@.skip(i as int), *k),
        decreases s.len() - i,
    {
        proof {
            lemma_skip_step(s@, i as int);
        }
        if s[i].0.same_as(k) {
            return Some(s[i].1);
        }
        assert(lookup(s@.skip(i as int), *k) == lookup(s@.skip(i as int).skip(1), *k));
        i = i + 1;
    }
    assert(s@.skip(i as int).len() == 0);
    None
}

/// Sets the value of `k` in `s` to `v`.
pub fn put_entry<K: SortKey, V>(s: &mut Vec<(K, V)>, k: K, v: V)
    ensures
        final(s)@ == put(old(s)@, k, v),
{
    let ghost old_s = s@;
    let mut i: usize = 0;
    assert(old_s.skip(0) =~= old_s);
    assert(old_s.take(0) + put(old_s, k, v) =~= put(old_s, k, v));
    while i < s.len()
        invariant
            i <= s.len(),
            s@ == old_s,
            old_s == old(s)@,
            put(old_s, k, v) == old_s.take(i as int) + put(old_s.skip(i as int), k, v),
        decreases s.len() - i,
    {
        proof {
            lemma_skip_step(old_s, i as int);
        }
        let ghost rest = old_s.skip(i as int);
        assert(put(rest, k, v) == if rest[0].0 == k {
            seq![(k, v)] + rest.skip(1)
        } else if k.precedes(rest[0].0) {
            seq![(k, v)] + rest
        } else {
            seq![rest[0]] + put(rest.skip(1), k, v)
        });
        if s[i].0.same_as(&k) {
            s.set(i, (k, v));
            assert(s@ =~= old_s.take(i as int) + (seq![(k, v)] + old_s.skip(i as int).skip(1)));
            return;
        }
        if k.comes_before(&s[i].0) {
            s.insert(i, (k, v));
            assert(s@ =~= old_s.take(i as int) + (seq![(k, v)] + old_s.skip(i as int)));
            return;
        }
        assert(old_s.take(i as int + 1) =~= old_s.take(i as int) + seq![old_s[i as int]]);
        assert(old_s.take(i as int) + (seq![old_s[i as int]] + put(old_s.skip(i + 1), k, v))
            =~= old_s.take(i as int + 1) + put(old_s.skip(i + 1), k, v));
        i = i + 1;
    }
    assert(old_s.skip(i as int).len() == 0);
    assert(old_s.take(i as int) =~= old_s);
    s.push((k, v));
}

/// `lookup` sees through `map_vals`.
pub proof fn lemma_lookup_map<K, V, W>(s: Seq<(K, V)>, k: K, f: spec_fn(V) -> W)
    ensures
        lookup(map_vals(s, f), k) == match lookup(s, k) {
            Some(v) => Some(f(v)),
            None => None,
        },
    decreases s.len(),
{
    if s.len() > 0 {
        assert(map_vals(s, f).skip(1) =~= map_vals(s.skip(1), f));
        lemma_lookup_map(s.skip(1), k, f);
    }
}

/// `put` commutes with `map_vals`.
pub proof fn lemma_put_map<K: SortKey, V, W>(s: Seq<(K, V)>, k: K, v: V, f: spec_fn(V) -> W)
    ensures
        put(map_vals(s, f), k, f(v)) == map_vals(put(s, k, v), f),
    decreases s.len(),
{
    if s.len() > 0 {
        assert(map_vals(s, f).skip(1) =~= map_vals(s.skip(1), f));
        lemma_put_map(s.skip(1), k, v, f);
        if s[0].0 == k {
            assert(put(map_vals(s, f), k, f(v)) =~= map_vals(put(s, k, v), f));
        } else if k.precedes(s[0].0) {
            assert(put(map_vals(s, f), k, f(v)) =~= map_vals(put(s, k, v), f));
        } else {
            assert(put(map_vals(s, f), k, f(v)) =~= map_vals(put(s, k, v), f));
        }
    } else {
        assert(put(map_vals(s, f), k, f(v)) =~= map_vals(put(s, k, v), f));
    }
}

/// Every key of `put(s, k, v)` is `k` or a key of `s`, and `k` is one of them.
proof fn lemma_put_keys<K: SortKey, V>(s: Seq<(K, V)>, k: K, v: V)
    ensures
        forall|i: int|
            0 <= i < put(s, k, v).len() ==> #[trigger] put(s, k, v)[i].0 == k || exists|j: int|
                0 <= j < s.len() && s[j].0 == put(s, k, v)[i].0,
    decreases s.len(),
{
    if s.len() > 0 && s[0].0 != k && !k.precedes(s[0].0) {
        lemma_put_keys(s.skip(1), k, v);
        let p = put(s, k, v);
        assert forall|i: int| 0 <= i < p.len() implies #[trigger] p[i].0 == k || exists|j: int|
            0 <= j < s.len() && s[j].0 == p[i].0 by {
            if i == 0 {
                assert(s[0].0 == p[0].0);
            } else {
                let q = put(s.skip(1), k, v);
                assert(p[i] == q[i - 1]);
                if q[i - 1].0 != k {
                    let j = choose|j: int| 0 <= j < s.skip(1).len() && s.skip(1)[j].0 == q[i - 1].0;
                    assert(s[j + 1].0 == p[i].0);
                }
            }
        }
    } else if s.len() > 0 {
        let p = put(s, k, v);
        assert forall|i: int| 0 <= i < p.len() implies #[trigger] p[i].0 == k || exists|j: int|
            0 <= j < s.len() && s[j].0 == p[i].0 by {
            if i > 0 {
                if s[0].0 == k {
                    assert(s[i].0 == p[i].0);
                } else {
                    assert(s[i - 1].0 == p[i].0);
                }
            }
        }
    }
}

/// Setting a value keeps the keys strictly increasing.
pub proof fn lemma_put_sorted<K: SortKey, V>(s: Seq<(K, V)>, k: K, v: V)
    requires
        sorted_keys(s),
    ensures
        sorted_keys(put(s, k, v)),
    decreases s.len(),
{
    let p = put(s, k, v);
    if s.len() == 0 {
    } else if s[0].0 == k {
        assert forall|i: int, j: int| 0 <= i < j < p.len() implies #[trigger] p[i].0.precedes(
            #[trigger] p[j].0,
        ) by {
            assert(s[i].0.precedes(s[j].0));
        }
    } else if k.precedes(s[0].0) {
        assert forall|i: int, j: int| 0 <= i < j < p.len() implies #[trigger] p[i].0.precedes(
            #[trigger] p[j].0,
        ) by {
            if i == 0 {
                if j > 1 {
                    assert(s[0].0.precedes(s[j - 1].0));
                    K::lemma_strict_total(k, s[0].0, s[j - 1].0);
                }
            } else {
                assert(s[i - 1].0.precedes(s[j - 1].0));
            }
        }
    } else {
        let t = s.skip(1);
        assert(sorted_keys(t)) by {
            assert forall|i: int, j: int| 0 <= i < j < t.len() implies #[trigger] t[i].0.precedes(
                #[trigger] t[j].0,
            ) by {
                assert(s[i + 1].0.precedes(s[j + 1].0));
            }
        }
        lemma_put_sorted(t, k, v);
        lemma_put_keys(t, k, v);
        K::lemma_strict_total(k, s[0].0, s[0].0);
        assert forall|i: int, j: int| 0 <= i < j < p.len() implies #[trigger] p[i].0.precedes(
            #[trigger] p[j].0,
        ) by {
            let q = put(t, k, v);
            if i == 0 {
                assert(p[j] == q[j - 1]);
                if q[j - 1].0 == k {
                } else {
                    let m = choose|m: int| 0 <= m < t.len() && t[m].0 == q[j - 1].0;
                    assert(s[0].0.precedes(s[m + 1].0));
                }
            } else {
                assert(p[i] == q[i - 1]);
                assert(p[j] == q[j - 1]);
            }
        }
    }
}

/// After setting the value of `k` to `v`, looking `k` up gives `v`, and every other key
/// keeps its value.
pub proof fn lemma_lookup_put<K: SortKey, V>(s: Seq<(K, V)>, k: K, v: V, k2: K)
    ensures
        lookup(put(s, k, v), k2) == if k2 == k {
            Some(v)
        } else {
            lookup(s, k2)
        },
    decreases s.len(),
{
    let p = put(s, k, v);
    if s.len() == 0 {
        assert(p[0] == (k, v));
        assert(p.skip(1) =~= Seq::<(K, V)>::empty());
        assert(lookup(p.skip(1), k2) is None);
    } else if s[0].0 == k {
        assert(p[0] == (k, v));
        assert(p.skip(1) =~= s.skip(1));
    } else if k.precedes(s[0].0) {
        assert(p[0] == (k, v));
        assert(p.skip(1) =~= s);
    } else {
        assert(p[0] == s[0]);
        assert(p.skip(1) =~= put(s.skip(1), k, v));
        lemma_lookup_put(s.skip(1), k, v, k2);
    }
}

} // verus!
