//! Patching a list of block numbers so that no gap between consecutive numbers exceeds a limit.
use vstd::prelude::*;

verus! {

/// How far the next item lies beyond the last emitted number (0 when it does not).
pub open spec fn patch_distance(prev: Option<u64>, items: Seq<u64>) -> nat {
    match prev {
        Some(p) => if items.len() > 0 && items[0] > p {
            (items[0] - p) as nat
        } else {
            0
        },
        None => 0,
    }
}

/// The numbers emitted for `items` after `prev`: each item in turn, preceded, while it lies
/// more than `gap` beyond the last number emitted, by that number plus `gap`.
pub open spec fn patch_from(prev: Option<u64>, items: Seq<u64>, gap: u64) -> Seq<u64>
    decreases items.len(), patch_distance(prev, items),
    when gap > 0
{
    if items.len() == 0 {
        Seq::empty()
    } else {
        match prev {
            Some(p) => if items[0] > p as nat + gap as nat {
                let q = (p + gap) as u64;
                seq![q] + patch_from(Some(q), items, gap)
            } else {
                seq![items[0]] + patch_from(Some(items[0]), items.drop_first(), gap)
            },
            None => seq![items[0]] + patch_from(Some(items[0]), items.drop_first(), gap),
        }
    }
}

/// A utility type used to patch up a list of block numbers to have not too large of a gap:
/// it yields the numbers of the list, and before any number that lies more than `MAX_GAP`
/// beyond the last number yielded, that last number plus `MAX_GAP`, as often as needed.
pub struct PatchedIterator<const MAX_GAP: u64> {
    items: Vec<u64>,
    pos: usize,
    prev: Option<u64>,
    next: Option<u64>,
}

impl<const MAX_GAP: u64> PatchedIterator<MAX_GAP> {
    /// The items not yet consumed, a buffered one first.
    pub closed spec fn pending(&self) -> Seq<u64> {
        let rest = self.items@.skip(self.pos as int);
        match self.next {
            Some(x) => seq![x] + rest,
            None => rest,
        }
    }

    /// The last number yielded.
    pub closed spec fn last(&self) -> Option<u64> {
        self.prev
    }

    /// The numbers this iterator will still yield.
    pub open spec fn remaining(&self) -> Seq<u64> {
        patch_from(self.last(), self.pending(), MAX_GAP)
    }

    /// The internal state is consistent.
    pub closed spec fn wf(&self) -> bool {
        self.pos <= self.items.len()
    }

    /// Creates an iterator over `items` that has yielded nothing yet.
    pub fn new(items: Vec<u64>) -> (r: Self)
        ensures
            r.wf(),
            r.pending() == items@,
            r.last() is None,
    {
        let r = PatchedIterator { items, pos: 0, prev: None, next: None };
        assert(r.items@.skip(0) =~= r.items@);
        r
    }

    /// The next number, or `None` when the items are exhausted. Where the next item lies
    /// more than `MAX_GAP` beyond the last number yielded, that item is held back and the
    /// last number plus `MAX_GAP` comes first.
    pub fn next(&mut self) -> (r: Option<u64>)
        requires
            old(self).wf(),
        ensures
            final(self).wf(),
            old(self).pending().len() == 0 ==> r is None && final(self).pending().len() == 0,
            old(self).pending().len() > 0 ==> (r matches Some(x) && match old(self).last() {
                Some(p) => if old(self).pending()[0] > p as nat + MAX_GAP as nat {
                    x == p + MAX_GAP && final(self).pending() == old(self).pending()
                } else {
                    x == old(self).pending()[0] && final(self).pending() == old(
                        self,
                    ).pending().drop_first()
                },
                None => x == old(self).pending()[0] && final(self).pending() == old(
                    self,
                ).pending().drop_first(),
            }),
            r matches Some(x) ==> final(self).last() == Some(x),
            MAX_GAP > 0 && old(self).pending().len() > 0 ==> (r matches Some(x) && old(
                self,
            ).remaining() == seq![x] + final(self).remaining()),
    {
        let ghost old_pending = self.pending();
        let candidate = match self.next.take() {
            Some(x) => Some(x),
            None => {
                if self.pos < self.items.len() {
                    let x = self.items[self.pos];
                    self.pos = self.pos + 1;
                    Some(x)
                } else {
                    None
                }
            },
        };
        let mut next = match candidate {
            Some(x) => x,
            None => {
                assert(old_pending =~= Seq::<u64>::empty());
                assert(self.pending() =~= Seq::<u64>::empty());
                return None;
            },
        };
        assert(old_pending.len() > 0 && old_pending[0] == next);
        assert(self.pending() =~= old_pending.drop_first()) by {
            assert(self.items@.skip(self.pos as int) =~= old(self).items@.skip(
                old(self).pos as int,
            ).skip(if old(self).next is Some { 0int } else { 1int }));
        }
        let too_far = match self.prev {
            Some(p) => next > p && next - p > MAX_GAP,
            None => false,
        };
        if too_far {
            let p = match self.prev {
                Some(p) => p,
                None => 0,
            };
            self.next = Some(next);
            next = p + MAX_GAP;
            assert(self.pending() =~= old_pending);
        }
        self.prev = Some(next);
        Some(next)
    }

    /// All the numbers this iterator still yields, in order.
    pub fn collect_all(&mut self) -> (r: Vec<u64>)
        requires
            old(self).wf(),
            MAX_GAP > 0,
        ensures
            r@ == old(self).remaining(),
    {
        let mut out: Vec<u64> = Vec::new();
        let ghost total = self.remaining();
        assert(total == out@ + self.remaining());
        loop
            invariant
                self.wf(),
                MAX_GAP > 0,
                total == old(self).remaining(),
                total == out@ + self.remaining(),
            decreases self.pending().len(), patch_distance(self.last(), self.pending()),
        {
            match self.next() {
                Some(x) => {
                    out.push(x);
                    assert(total =~= out@ + self.remaining());
                },
                None => {
                    assert(self.remaining() =~= Seq::<u64>::empty());
                    assert(total =~= out@);
                    return out;
                },
            }
        }
    }
}

/// No two consecutive numbers emitted lie more than `gap` apart upwards.
pub proof fn lemma_patched_gaps(prev: Option<u64>, items: Seq<u64>, gap: u64, i: int)
    requires
        gap > 0,
        0 <= i < patch_from(prev, items, gap).len() - 1,
    ensures
        patch_from(prev, items, gap)[i + 1] <= patch_from(prev, items, gap)[i] + gap,
    decreases items.len(), patch_distance(prev, items),
{
    let s = patch_from(prev, items, gap);
    match prev {
        Some(p) => if items[0] > p as nat + gap as nat {
            let q = (p + gap) as u64;
            let t = patch_from(Some(q), items, gap);
            assert(s == seq![q] + t);
            if i == 0 {
                lemma_patched_first(Some(q), items, gap);
            } else {
                lemma_patched_gaps(Some(q), items, gap, i - 1);
            }
        } else {
            let t = patch_from(Some(items[0]), items.drop_first(), gap);
            assert(s == seq![items[0]] + t);
            if i == 0 {
                lemma_patched_first(Some(items[0]), items.drop_first(), gap);
            } else {
                lemma_patched_gaps(Some(items[0]), items.drop_first(), gap, i - 1);
            }
        },
        None => {
            let t = patch_from(Some(items[0]), items.drop_first(), gap);
            assert(s == seq![items[0]] + t);
            if i == 0 {
                lemma_patched_first(Some(items[0]), items.drop_first(), gap);
            } else {
                lemma_patched_gaps(Some(items[0]), items.drop_first(), gap, i - 1);
            }
        },
    }
}

/// The first number emitted after `p` lies at most `gap` beyond it.
pub proof fn lemma_patched_first(prev: Option<u64>, items: Seq<u64>, gap: u64)
    requires
        gap > 0,
        prev is Some,
        patch_from(prev, items, gap).len() > 0,
    ensures
        patch_from(prev, items, gap)[0] <= prev->0 + gap,
{
}

/// Every item of the input is emitted: the input is a subsequence of the output.
pub proof fn lemma_patched_keeps_items(prev: Option<u64>, items: Seq<u64>, gap: u64, k: int)
    requires
        gap > 0,
        0 <= k < items.len(),
    ensures
        patch_from(prev, items, gap).contains(items[k]),
    decreases items.len(), patch_distance(prev, items),
{
    let s = patch_from(prev, items, gap);
    match prev {
        Some(p) => if items[0] > p as nat + gap as nat {
            let q = (p + gap) as u64;
            lemma_patched_keeps_items(Some(q), items, gap, k);
            let t = patch_from(Some(q), items, gap);
            let j = choose|j: int| 0 <= j < t.len() && t[j] == items[k];
            assert(s[j + 1] == items[k]);
        } else {
            if k == 0 {
                assert(s[0] == items[0]);
            } else {
                lemma_patched_keeps_items(Some(items[0]), items.drop_first(), gap, k - 1);
                let t = patch_from(Some(items[0]), items.drop_first(), gap);
                let j = choose|j: int| 0 <= j < t.len() && t[j] == items.drop_first()[k - 1];
                assert(s[j + 1] == items[k]);
            }
        },
        None => {
            if k == 0 {
                assert(s[0] == items[0]);
            } else {
                lemma_patched_keeps_items(Some(items[0]), items.drop_first(), gap, k - 1);
                let t = patch_from(Some(items[0]), items.drop_first(), gap);
                let j = choose|j: int| 0 <= j < t.len() && t[j] == items.drop_first()[k - 1];
                assert(s[j + 1] == items[k]);
            }
        },
    }
}

/// `s` never decreases.
pub open spec fn nondecreasing(s: Seq<u64>) -> bool {
    forall|i: int, j: int| 0 <= i <= j < s.len() ==> s[i] <= s[j]
}

/// The shape of the numbers emitted for nondecreasing items after `prev` (at most the first
/// item): they never decrease; they end with the last item; they start at the first item
/// where nothing was emitted before; and each number that is not one of the items is the
/// number before it (or `prev`) plus `gap`, so that no more fillers are emitted than the
/// gaps need.
pub proof fn lemma_patched_shape(prev: Option<u64>, items: Seq<u64>, gap: u64)
    requires
        gap > 0,
        nondecreasing(items),
        items.len() > 0 && prev is Some ==> prev->0 <= items[0],
    ensures
        ({
            let s = patch_from(prev, items, gap);
            &&& forall|i: int| 0 <= i < s.len() - 1 ==> #[trigger] s[i] <= s[i + 1]
            &&& items.len() > 0 ==> s.len() > 0 && s.last() == items.last()
            &&& items.len() > 0 && prev is None ==> s[0] == items[0]
            &&& s.len() > 0 && prev is Some ==> prev->0 <= s[0]
            &&& s.len() > 0 && prev is Some ==> s[0] == prev->0 + gap || items.contains(s[0])
            &&& forall|i: int|
                0 < i < s.len() ==> #[trigger] s[i] == s[i - 1] + gap || items.contains(s[i])
        }),
    decreases items.len(), patch_distance(prev, items),
{
    let s = patch_from(prev, items, gap);
    if items.len() == 0 {
        return;
    }
    let far = match prev {
        Some(p) => items[0] > p as nat + gap as nat,
        None => false,
    };
    if far {
        let p = prev->0;
        let q = (p + gap) as u64;
        let t = patch_from(Some(q), items, gap);
        lemma_patched_shape(Some(q), items, gap);
        assert(s == seq![q] + t);
        assert forall|i: int| 0 <= i < s.len() - 1 implies #[trigger] s[i] <= s[i + 1] by {
            if i > 0 {
                assert(t[i - 1] <= t[i]);
            }
        }
        assert forall|i: int| 0 < i < s.len() implies #[trigger] s[i] == s[i - 1] + gap
            || items.contains(s[i]) by {
            if i > 1 {
                assert(t[i - 1] == t[i - 2] + gap || items.contains(t[i - 1]));
            }
        }
    } else {
        let rest = items.drop_first();
        let t = patch_from(Some(items[0]), rest, gap);
        assert(nondecreasing(rest)) by {
            assert forall|i: int, j: int| 0 <= i <= j < rest.len() implies rest[i] <= rest[j] by {
                assert(items[i + 1] <= items[j + 1]);
            }
        }
        if rest.len() > 0 {
            assert(items[0] <= items[1]);
        }
        lemma_patched_shape(Some(items[0]), rest, gap);
        assert(s == seq![items[0]] + t);
        assert(items.contains(items[0]));
        assert forall|i: int| 0 <= i < s.len() - 1 implies #[trigger] s[i] <= s[i + 1] by {
            if i > 0 {
                assert(t[i - 1] <= t[i]);
            }
        }
        assert forall|i: int| 0 < i < s.len() implies #[trigger] s[i] == s[i - 1] + gap
            || items.contains(s[i]) by {
            if i == 1 {
                if rest.contains(t[0]) {
                    let k = choose|k: int| 0 <= k < rest.len() && rest[k] == t[0];
                    assert(items[k + 1] == t[0]);
                }
            } else {
                if !(t[i - 1] == t[i - 2] + gap) {
                    assert(rest.contains(t[i - 1]));
                    let k = choose|k: int| 0 <= k < rest.len() && rest[k] == t[i - 1];
                    assert(items[k + 1] == t[i - 1]);
                }
            }
        }
        if rest.len() == 0 {
            assert(t.len() == 0);
            assert(s.len() == 1);
        } else {
            assert(rest.last() == items.last());
        }
    }
}

/// Where each item lands among the numbers emitted for `items` after `prev`.
pub open spec fn item_positions(prev: Option<u64>, items: Seq<u64>, gap: u64) -> Seq<int>
    decreases items.len(), patch_distance(prev, items),
    when gap > 0
{
    if items.len() == 0 {
        Seq::empty()
    } else {
        match prev {
            Some(p) => if items[0] > p as nat + gap as nat {
                let q = (p + gap) as u64;
                item_positions(Some(q), items, gap).map_values(|j: int| j + 1)
            } else {
                seq![0int] + item_positions(Some(items[0]), items.drop_first(), gap).map_values(
                    |j: int| j + 1,
                )
            },
            None => seq![0int] + item_positions(Some(items[0]), items.drop_first(), gap).map_values(
                |j: int| j + 1,
            ),
        }
    }
}

/// The items land, in order, at increasing positions of the output, each at its own value;
/// every other position holds a filler: the number before it, or `prev` at the front, plus
/// `gap`.
#[verifier::spinoff_prover]
#[verifier::rlimit(40)]
pub proof fn lemma_patched_positions(prev: Option<u64>, items: Seq<u64>, gap: u64)
    requires
        gap > 0,
    ensures
        ({
            let s = patch_from(prev, items, gap);
            let pos = item_positions(prev, items, gap);
            &&& pos.len() == items.len()
            &&& forall|k: int| 0 <= k < pos.len() ==> 0 <= #[trigger] pos[k] < s.len() && s[pos[k]] == items[k]
            &&& forall|k1: int, k2: int| 0 <= k1 < k2 < pos.len() ==> #[trigger] pos[k1] < #[trigger] pos[k2]
            &&& forall|i: int|
                0 <= i < s.len() && !pos.contains(i) ==> if i == 0 {
                    prev is Some && #[trigger] s[i] == prev->0 + gap
                } else {
                    s[i] == s[i - 1] + gap
                }
        }),
    decreases items.len(), patch_distance(prev, items),
{
    let s = patch_from(prev, items, gap);
    let pos = item_positions(prev, items, gap);
    if items.len() == 0 {
        return;
    }
    let far = match prev {
        Some(p) => items[0] > p as nat + gap as nat,
        None => false,
    };
    if far {
        let p = prev->0;
        let q = (p + gap) as u64;
        let t = patch_from(Some(q), items, gap);
        let tp = item_positions(Some(q), items, gap);
        lemma_patched_positions(Some(q), items, gap);
        assert(q == p + gap);
        assert(s == seq![q] + t);
        assert(pos.len() == items.len());
        assert(pos == tp.map_values(|j: int| j + 1));
        assert forall|k: int| 0 <= k < pos.len() implies 0 <= #[trigger] pos[k] < s.len() && s[pos[k]]
            == items[k] by {
            assert(pos[k] == tp[k] + 1);
        }
        assert forall|k1: int, k2: int| 0 <= k1 < k2 < pos.len() implies #[trigger] pos[k1]
            < #[trigger] pos[k2] by {
            assert(tp[k1] < tp[k2]);
        }
        assert forall|i: int| 0 <= i < s.len() && !pos.contains(i) implies if i == 0 {
            prev is Some && #[trigger] s[i] == prev->0 + gap
        } else {
            s[i] == s[i - 1] + gap
        } by {
            if i > 0 {
                if tp.contains(i - 1) {
                    let k = choose|k: int| 0 <= k < tp.len() && tp[k] == i - 1;
                    assert(pos[k] == i);
                }
                assert(!tp.contains(i - 1));
                assert(t[i - 1] == s[i]);
                if i > 1 {
                    assert(t[i - 2] == s[i - 1]);
                }
            }
        }
    } else {
        let rest = items.drop_first();
        let t = patch_from(Some(items[0]), rest, gap);
        let tp = item_positions(Some(items[0]), rest, gap);
        lemma_patched_positions(Some(items[0]), rest, gap);
        assert(s == seq![items[0]] + t);
        assert(pos == seq![0int] + tp.map_values(|j: int| j + 1));
        assert(pos.len() == items.len());
        assert forall|k: int| 0 <= k < pos.len() implies 0 <= #[trigger] pos[k] < s.len() && s[pos[k]]
            == items[k] by {
            if k > 0 {
                assert(pos[k] == tp[k - 1] + 1);
                assert(items[k] == rest[k - 1]);
            }
        }
        assert forall|k1: int, k2: int| 0 <= k1 < k2 < pos.len() implies #[trigger] pos[k1]
            < #[trigger] pos[k2] by {
            assert(pos[k2] == tp[k2 - 1] + 1);
            assert(0 <= tp[k2 - 1]);
            if k1 > 0 {
                assert(pos[k1] == tp[k1 - 1] + 1);
                assert(tp[k1 - 1] < tp[k2 - 1]);
            }
        }
        assert forall|i: int| 0 <= i < s.len() && !pos.contains(i) implies if i == 0 {
            prev is Some && #[trigger] s[i] == prev->0 + gap
        } else {
            s[i] == s[i - 1] + gap
        } by {
            assert(pos[0] == 0);
            if i > 0 {
                if tp.contains(i - 1) {
                    let k = choose|k: int| 0 <= k < tp.len() && tp[k] == i - 1;
                    assert(pos[k + 1] == i);
                }
                assert(!tp.contains(i - 1));
                assert(t[i - 1] == s[i]);
                if i > 1 {
                    assert(t[i - 2] == s[i - 1]);
                } else {
                    assert(s[0] == items[0]);
                }
            }
        }
    }
}

/// What a patched iterator over nondecreasing block numbers yields (from a new iterator,
/// `patch_from(None, items, gap)`, which `collect_all` returns): the items, in order, at
/// increasing positions, so the items are a subsequence; the first and the last item first
/// and last; every step up by at most `gap` and never down; and every number that is not an
/// item is the number before it plus `gap`, so no more fillers come than the gaps need.
pub proof fn lemma_patched_law(items: Seq<u64>, gap: u64)
    requires
        gap > 0,
        nondecreasing(items),
    ensures
        ({
            let s = patch_from(None, items, gap);
            let pos = item_positions(None, items, gap);
            &&& items.len() > 0 ==> s.len() > 0 && s[0] == items[0] && s.last() == items.last()
            &&& items.len() == 0 ==> s.len() == 0
            &&& forall|i: int| 0 <= i < s.len() - 1 ==> #[trigger] s[i] <= s[i + 1] <= s[i] + gap
            &&& pos.len() == items.len()
            &&& forall|k: int| 0 <= k < pos.len() ==> 0 <= #[trigger] pos[k] < s.len() && s[pos[k]] == items[k]
            &&& forall|k1: int, k2: int| 0 <= k1 < k2 < pos.len() ==> #[trigger] pos[k1] < #[trigger] pos[k2]
            &&& forall|i: int| 0 <= i < s.len() && !pos.contains(i) ==> i > 0 && #[trigger] s[i] == s[i - 1] + gap
        }),
{
    let s = patch_from(None, items, gap);
    let pos = item_positions(None, items, gap);
    assert(items.len() > 0 ==> s.len() > 0 && s[0] == items[0] && s.last() == items.last()) by {
        lemma_patched_shape(None, items, gap);
    }
    assert(forall|i: int| 0 <= i < s.len() - 1 ==> #[trigger] s[i] <= s[i + 1] <= s[i] + gap) by {
        lemma_patched_shape(None, items, gap);
        assert forall|i: int| 0 <= i < s.len() - 1 implies #[trigger] s[i] <= s[i + 1] <= s[i]
            + gap by {
            lemma_patched_gaps(None, items, gap, i);
        }
    }
    assert({
        &&& pos.len() == items.len()
        &&& forall|k: int| 0 <= k < pos.len() ==> 0 <= #[trigger] pos[k] < s.len() && s[pos[k]] == items[k]
        &&& forall|k1: int, k2: int| 0 <= k1 < k2 < pos.len() ==> #[trigger] pos[k1] < #[trigger] pos[k2]
        &&& forall|i: int| 0 <= i < s.len() && !pos.contains(i) ==> i > 0 && #[trigger] s[i] == s[i - 1] + gap
    }) by {
        lemma_patched_positions(None, items, gap);
        if items.len() > 0 {
            assert(pos[0] == 0);
            assert(pos.contains(0));
        }
    }
}

} // verus!
