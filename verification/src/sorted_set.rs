//! Sets kept as vectors in increasing order, each member once.
use crate::address::Address;
use crate::u256::U256;
use vstd::prelude::*;

verus! {

/// A type with a strict total order, by which sets of its values are kept sorted.
pub trait SortKey: Sized + Copy {
    /// `self` comes strictly before `other`.
    spec fn precedes(self, other: Self) -> bool;

    /// The order is a strict total order.
    proof fn lemma_strict_total(a: Self, b: Self, c: Self)
        ensures
            !a.precedes(a),
            a.precedes(b) && b.precedes(c) ==> a.precedes(c),
            a != b ==> a.precedes(b) || b.precedes(a),
    ;

    /// Whether `self` comes strictly before `other`.
    fn comes_before(&self, other: &Self) -> (r: bool)
        ensures
            r == self.precedes(*other),
    ;

    /// Whether `self` and `other` are the same value.
    fn same_as(&self, other: &Self) -> (r: bool)
        ensures
            r == (*self == *other),
    ;
}

/// `s` is in strictly increasing order, so each member occurs once.
pub open spec fn sorted_set<K: SortKey>(s: Seq<K>) -> bool {
    forall|i: int, j: int| 0 <= i < j < s.len() ==> #[trigger] s[i].precedes(#[trigger] s[j])
}

/// Adds `x` to the sorted set `v`, keeping it sorted; nothing changes where `x` is there.
pub fn insert_sorted<K: SortKey>(v: &mut Vec<K>, x: K)
    requires
        sorted_set(old(v)@),
    ensures
        sorted_set(final(v)@),
        final(v)@.to_set() == old(v)@.to_set().insert(x),
{
    let ghost old_v = v@;
    let mut pos: usize = 0;
    while pos < v.len() && v[pos].comes_before(&x)
        invariant
            pos <= v.len(),
            v@ == old_v,
            forall|i: int| 0 <= i < pos ==> (#[trigger] v@[i]).precedes(x),
        decreases v.len() - pos,
    {
        pos = pos + 1;
    }
    if pos < v.len() && v[pos].same_as(&x) {
        assert(v@.to_set() =~= old_v.to_set().insert(x)) by {
            assert(old_v[pos as int] == x);
        }
        return;
    }
    if pos < v.len() {
        proof {
            K::lemma_strict_total(old_v[pos as int], x, x);
        }
        assert(x.precedes(old_v[pos as int]));
    }
    v.insert(pos, x);
    assert(v@ =~= old_v.insert(pos as int, x));
    assert forall|i: int, j: int| 0 <= i < j < v@.len() implies #[trigger] v@[i].precedes(
        #[trigger] v@[j],
    ) by {
        if j < pos {
            assert(old_v[i].precedes(old_v[j]));
        } else if j == pos {
        } else if i < pos {
            assert(v@[j] == old_v[j - 1]);
            if j - 1 > pos {
                assert(old_v[pos as int].precedes(old_v[j - 1]));
                K::lemma_strict_total(x, old_v[pos as int], old_v[j - 1]);
            }
            K::lemma_strict_total(old_v[i], x, old_v[j - 1]);
        } else if i == pos {
            assert(v@[j] == old_v[j - 1]);
            if j - 1 > pos {
                assert(old_v[pos as int].precedes(old_v[j - 1]));
                K::lemma_strict_total(x, old_v[pos as int], old_v[j - 1]);
            }
        } else {
            assert(v@[i] == old_v[i - 1]);
            assert(v@[j] == old_v[j - 1]);
            assert(old_v[i - 1].precedes(old_v[j - 1]));
        }
    }
    assert(v@.to_set() =~= old_v.to_set().insert(x)) by {
        assert forall|y: K| #[trigger] v@.to_set().contains(y) <==> old_v.to_set().insert(
            x,
        ).contains(y) by {
            if v@.contains(y) {
                let k = choose|k: int| 0 <= k < v@.len() && v@[k] == y;
                if k < pos {
                    assert(old_v[k] == y);
                } else if k > pos {
                    assert(old_v[k - 1] == y);
                }
            }
            if old_v.contains(y) {
                let k = choose|k: int| 0 <= k < old_v.len() && old_v[k] == y;
                if k < pos {
                    assert(v@[k] == y);
                } else {
                    assert(v@[k + 1] == y);
                }
            }
            if y == x {
                assert(v@[pos as int] == y);
            }
        }
    }
}

/// Whether `x` is a member of `v`.
pub fn contains_key<K: SortKey>(v: &Vec<K>, x: &K) -> (r: bool)
    ensures
        r == v@.contains(*x),
{
    let mut i: usize = 0;
    while i < v.len()
        invariant
            i <= v.len(),
            forall|k: int| 0 <= k < i ==> v@[k] != *x,
        decreases v.len() - i,
    {
        if v[i].same_as(x) {
            return true;
        }
        i = i + 1;
    }
    false
}

/// The sorted set of the members of `items`.
pub fn sorted_set_of<K: SortKey>(items: &Vec<K>) -> (r: Vec<K>)
    ensures
        sorted_set(r@),
        r@.to_set() == items@.to_set(),
{
    let mut r: Vec<K> = Vec::new();
    let mut i: usize = 0;
    while i < items.len()
        invariant
            i <= items.len(),
            sorted_set(r@),
            r@.to_set() == items@.take(i as int).to_set(),
        decreases items.len() - i,
    {
        insert_sorted(&mut r, items[i]);
        assert(items@.take(i + 1) =~= items@.take(i as int).push(items@[i as int]));
        proof {
            items@.take(i as int).lemma_push_to_set_commute(items@[i as int]);
        }
        i = i + 1;
    }
    assert(items@.take(items.len() as int) =~= items@);
    r
}

impl SortKey for Address {
    /// Addresses are ordered as the 160-bit numbers they hold.
    open spec fn precedes(self, other: Self) -> bool {
        self.hi < other.hi || (self.hi == other.hi && self.lo < other.lo)
    }

    proof fn lemma_strict_total(a: Self, b: Self, c: Self) {
    }

    fn comes_before(&self, other: &Self) -> (r: bool) {
        self.hi < other.hi || (self.hi == other.hi && self.lo < other.lo)
    }

    fn same_as(&self, other: &Self) -> (r: bool) {
        self.hi == other.hi && self.lo == other.lo
    }
}

impl SortKey for U256 {
    /// 256-bit numbers are ordered by value.
    open spec fn precedes(self, other: Self) -> bool {
        self.value() < other.value()
    }

    proof fn lemma_strict_total(a: Self, b: Self, c: Self) {
        a.lemma_value_injective(b);
    }

    fn comes_before(&self, other: &Self) -> (r: bool) {
        self.lt(other)
    }

    fn same_as(&self, other: &Self) -> (r: bool) {
        proof {
            self.lemma_value_injective(*other);
        }
        self.eq(other)
    }
}

} // verus!
