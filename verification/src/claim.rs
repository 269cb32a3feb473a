//! The reward-claim flow: rebuilding the chain of work log updates between two commits,
//! keeping the updates of finalized epochs, and collecting the blocks that the mint proof
//! must cover.
use crate::address::{Address, Digest};
use crate::u256::U256;
use std::collections::BTreeSet;
use vstd::prelude::*;

verus! {

/// A `WorkLogUpdated` event, with the block that emitted it.
#[derive(Clone, Copy, Debug, PartialEq, Eq, Structural)]
pub struct UpdateRecord {
    pub work_log_id: Address,
    pub initial_commit: Digest,
    pub updated_commit: Digest,
    pub update_value: U256,
    pub value_recipient: Address,
    pub epoch_number: U256,
    pub block_number: u64,
}

/// For each initial commit, the last of the events with that initial commit.
pub open spec fn latest_by_commit(events: Seq<UpdateRecord>) -> Map<Digest, UpdateRecord>
    decreases events.len(),
{
    if events.len() == 0 {
        Map::empty()
    } else {
        latest_by_commit(events.drop_last()).insert(events.last().initial_commit, events.last())
    }
}

/// The updates that lead from commit `c` to commit `f`, each taken from `m` by its initial
/// commit and each commit used once; or the first commit along the way for which `m` holds
/// no (unused) update.
pub open spec fn follow_chain(m: Map<Digest, UpdateRecord>, c: Digest, f: Digest) -> Result<
    Seq<UpdateRecord>,
    Digest,
>
    decreases m.dom().len(),
    when m.dom().finite()
{
    if c == f {
        Ok(Seq::empty())
    } else if m.dom().contains(c) {
        match follow_chain(m.remove(c), m[c].updated_commit, f) {
            Ok(rest) => Ok(seq![m[c]] + rest),
            Err(d) => Err(d),
        }
    } else {
        Err(c)
    }
}

/// The chain of updates from `initial` to `final_commit` among the events found.
pub open spec fn update_chain(events: Seq<UpdateRecord>, initial: Digest, final_commit: Digest) -> Result<
    Seq<UpdateRecord>,
    Digest,
> {
    follow_chain(latest_by_commit(events), initial, final_commit)
}

/// `chain` leads from commit `from` to commit `to`: each update starts where the one before
/// it ends, the first starts at `from` and the last ends at `to` (with no update, `from` is
/// `to`).
pub open spec fn links(chain: Seq<UpdateRecord>, from: Digest, to: Digest) -> bool {
    if chain.len() == 0 {
        from == to
    } else {
        &&& chain[0].initial_commit == from
        &&& chain.last().updated_commit == to
        &&& forall|i: int|
            0 <= i < chain.len() - 1 ==> #[trigger] chain[i].updated_commit == chain[i
                + 1].initial_commit
    }
}

/// Following updates from a commit to another gives a chain that links them.
proof fn lemma_follow_chain_links(m: Map<Digest, UpdateRecord>, c: Digest, f: Digest)
    requires
        m.dom().finite(),
        follow_chain(m, c, f) is Ok,
        forall|d: Digest| #[trigger] m.dom().contains(d) ==> m[d].initial_commit == d,
    ensures
        links(follow_chain(m, c, f)->Ok_0, c, f),
    decreases m.dom().len(),
{
    if c != f {
        let rest_map = m.remove(c);
        assert(rest_map.dom() =~= m.dom().remove(c));
        assert(rest_map.dom().len() < m.dom().len());
        lemma_follow_chain_links(rest_map, m[c].updated_commit, f);
        let rest = follow_chain(rest_map, m[c].updated_commit, f)->Ok_0;
        let chain = seq![m[c]] + rest;
        assert(follow_chain(m, c, f)->Ok_0 == chain);
        if rest.len() > 0 {
            assert forall|i: int| 0 <= i < chain.len() - 1 implies #[trigger] chain[i].updated_commit
                == chain[i + 1].initial_commit by {
                if i > 0 {
                    assert(chain[i] == rest[i - 1]);
                    assert(chain[i + 1] == rest[i]);
                }
            }
            assert(chain.last() == rest.last());
        }
    }
}

/// A chain of updates rebuilt from the events links the initial commit to the final one.
pub proof fn lemma_update_chain_links(events: Seq<UpdateRecord>, initial: Digest, final_commit: Digest)
    requires
        update_chain(events, initial, final_commit) is Ok,
    ensures
        links(update_chain(events, initial, final_commit)->Ok_0, initial, final_commit),
{
    lemma_latest_by_commit(events);
    lemma_latest_keyed(events);
    lemma_follow_chain_links(latest_by_commit(events), initial, final_commit);
}

/// Each event of the map of last events by commit is held under its own initial commit.
proof fn lemma_latest_keyed(events: Seq<UpdateRecord>)
    ensures
        forall|d: Digest|
            #[trigger] latest_by_commit(events).dom().contains(d) ==> latest_by_commit(
                events,
            )[d].initial_commit == d,
    decreases events.len(),
{
    if events.len() > 0 {
        lemma_latest_keyed(events.drop_last());
        let pre = latest_by_commit(events.drop_last());
        let m = latest_by_commit(events);
        assert(m == pre.insert(events.last().initial_commit, events.last()));
        assert forall|d: Digest| #[trigger] m.dom().contains(d) implies m[d].initial_commit == d by {
            if d != events.last().initial_commit {
                assert(pre.dom().contains(d));
            }
        }
    }
}

/// The map of last events by commit is finite and holds exactly the commits of the events,
/// each with its last event.
pub proof fn lemma_latest_by_commit(events: Seq<UpdateRecord>)
    ensures
        latest_by_commit(events).dom().finite(),
        forall|c: Digest|
            #[trigger] latest_by_commit(events).dom().contains(c) <==> exists|i: int|
                0 <= i < events.len() && events[i].initial_commit == c,
    decreases events.len(),
{
    if events.len() > 0 {
        lemma_latest_by_commit(events.drop_last());
        let m = latest_by_commit(events);
        assert forall|c: Digest| #[trigger] m.dom().contains(c) <==> exists|i: int|
            0 <= i < events.len() && events[i].initial_commit == c by {
            if m.dom().contains(c) && c != events.last().initial_commit {
                let i = choose|i: int|
                    0 <= i < events.drop_last().len() && events.drop_last()[i].initial_commit == c;
                assert(events[i] == events.drop_last()[i]);
            }
            if exists|i: int| 0 <= i < events.len() && events[i].initial_commit == c {
                let i = choose|i: int| 0 <= i < events.len() && events[i].initial_commit == c;
                if i < events.len() - 1 {
                    assert(events.drop_last()[i] == events[i]);
                }
            }
        }
    }
}

/// The last event with initial commit `c` is what the map holds for `c`.
pub proof fn lemma_latest_lookup(events: Seq<UpdateRecord>, c: Digest, i: int)
    requires
        0 <= i < events.len(),
        events[i].initial_commit == c,
        forall|j: int| i < j < events.len() ==> #[trigger] events[j].initial_commit != c,
    ensures
        latest_by_commit(events).dom().contains(c),
        latest_by_commit(events)[c] == events[i],
    decreases events.len(),
{
    if i < events.len() - 1 {
        assert(events.last() == events[events.len() - 1]);
        let t = events.drop_last();
        assert forall|j: int| i < j < t.len() implies #[trigger] t[j].initial_commit != c by {
            assert(t[j] == events[j]);
        }
        lemma_latest_lookup(t, c, i);
    }
}

/// Position of the last event with initial commit `c`.
fn find_last_with_commit(events: &Vec<UpdateRecord>, c: &Digest) -> (r: Option<usize>)
    ensures
        r matches Some(i) ==> i < events.len() && events@[i as int].initial_commit == *c && (
        forall|j: int| i < j < events.len() ==> #[trigger] events@[j].initial_commit != *c),
        r is None ==> forall|j: int| 0 <= j < events.len() ==> #[trigger] events@[j].initial_commit
            != *c,
{
    let mut k: usize = events.len();
    while k > 0
        invariant
            k <= events.len(),
            forall|j: int| k <= j < events.len() ==> #[trigger] events@[j].initial_commit != *c,
        decreases k,
    {
        k = k - 1;
        if events[k].initial_commit == *c {
            return Some(k);
        }
    }
    None
}

/// Whether `c` is one of `commits`.
fn contains_digest(commits: &Vec<Digest>, c: &Digest) -> (r: bool)
    ensures
        r == commits@.contains(*c),
{
    let mut i: usize = 0;
    while i < commits.len()
        invariant
            i <= commits.len(),
            forall|k: int| 0 <= k < i ==> commits@[k] != *c,
        decreases commits.len() - i,
    {
        if commits[i] == *c {
            assert(commits@[i as int] == *c);
            return true;
        }
        i = i + 1;
    }
    false
}

/// Rebuilds the chain of `WorkLogUpdated` events from `initial_commit` to `final_commit`:
/// starting at the initial commit, repeatedly take the (last found) event whose initial
/// commit is the current commit, and move to its updated commit. Fails with the commit for
/// which no event was found (or whose event was used already).
pub fn reconstruct_update_chain(
    events: &Vec<UpdateRecord>,
    initial_commit: Digest,
    final_commit: Digest,
) -> (r: Result<Vec<UpdateRecord>, Digest>)
    ensures
        match update_chain(events@, initial_commit, final_commit) {
            Ok(chain) => r matches Ok(v) && v@ == chain,
            Err(d) => r == Err::<Vec<UpdateRecord>, Digest>(d),
        },
{
    let ghost latest = latest_by_commit(events@);
    proof {
        lemma_latest_by_commit(events@);
    }
    let ghost mut m = latest;
    let mut used: Vec<Digest> = Vec::new();
    let mut out: Vec<UpdateRecord> = Vec::new();
    let mut commit = initial_commit;
    while commit != final_commit
        invariant
            latest == latest_by_commit(events@),
            latest.dom().finite(),
            forall|c: Digest|
                #[trigger] latest.dom().contains(c) <==> exists|i: int|
                    0 <= i < events.len() && events@[i].initial_commit == c,
            m.dom().finite(),
            forall|c: Digest|
                #[trigger] m.dom().contains(c) <==> (latest.dom().contains(c) && !used@.contains(
                    c,
                )),
            forall|c: Digest| #[trigger] m.dom().contains(c) ==> m[c] == latest[c],
            update_chain(events@, initial_commit, final_commit) == match follow_chain(
                m,
                commit,
                final_commit,
            ) {
                Ok(rest) => Ok(out@ + rest),
                Err(d) => Err(d),
            },
        decreases m.dom().len(),
    {
        let found = find_last_with_commit(events, &commit);
        let already = contains_digest(&used, &commit);
        match found {
            None => {
                proof {
                    if m.dom().contains(commit) {
                        let i = choose|i: int|
                            0 <= i < events.len() && events@[i].initial_commit == commit;
                        assert(events@[i].initial_commit != commit);
                    }
                }
                return Err(commit);
            },
            Some(i) => {
                if already {
                    assert(!m.dom().contains(commit));
                    return Err(commit);
                }
                proof {
                    lemma_latest_lookup(events@, commit, i as int);
                }
                let e = events[i];
                assert(m.dom().contains(commit));
                assert(m[commit] == e);
                let ghost old_m = m;
                let ghost old_out = out@;
                let ghost old_used = used@;
                let ghost old_commit = commit;
                proof {
                    m = m.remove(commit);
                }
                out.push(e);
                used.push(commit);
                commit = e.updated_commit;
                assert(used@ == old_used.push(old_commit));
                assert forall|c: Digest| #[trigger] m.dom().contains(c) <==> (latest.dom().contains(
                    c,
                ) && !used@.contains(c)) by {
                    if used@.contains(c) && c != old_commit {
                        let k = choose|k: int| 0 <= k < used@.len() && used@[k] == c;
                        assert(old_used[k] == c);
                    }
                    if old_used.contains(c) {
                        let k = choose|k: int| 0 <= k < old_used.len() && old_used[k] == c;
                        assert(used@[k] == c);
                    }
                    if c == old_commit {
                        assert(used@[used@.len() - 1] == c);
                    }
                }
                assert(old_out.push(e) =~= out@);
                assert(forall|rest: Seq<UpdateRecord>|
                    #![trigger seq![e] + rest]
                    old_out + (seq![e] + rest) =~= out@ + rest);
            },
        }
    }
    assert(out@ + Seq::empty() =~= out@);
    Ok(out)
}

/// An `EpochFinalized` event, with the block that emitted it.
#[derive(Clone, Copy, Debug, PartialEq, Eq, Structural)]
pub struct EpochFinalizedRecord {
    pub epoch: U256,
    pub total_work: U256,
    pub block_number: u64,
}

/// Where a claim starts: the commit range between the work log commit that the mint contract
/// has recorded and the one the accounting contract has.
#[derive(Clone, Copy, Debug, PartialEq, Eq, Structural)]
pub enum ClaimStart {
    /// The two commits are equal: every submitted update has been claimed, and there is
    /// nothing to do.
    AllClaimed,
    /// Search for the updates from `initial_commit` to `final_commit`.
    Search { initial_commit: Digest, final_commit: Digest },
}

/// The start of a claim, from the commit on the mint contract (where the claim starts) and
/// the commit on the accounting contract (where it ends).
pub fn claim_start(mint_commit: Digest, accounting_commit: Digest) -> (r: ClaimStart)
    ensures
        r == if mint_commit == accounting_commit {
            ClaimStart::AllClaimed
        } else {
            ClaimStart::Search { initial_commit: mint_commit, final_commit: accounting_commit }
        },
{
    if mint_commit.hi == accounting_commit.hi && mint_commit.lo == accounting_commit.lo {
        ClaimStart::AllClaimed
    } else {
        ClaimStart::Search { initial_commit: mint_commit, final_commit: accounting_commit }
    }
}

/// Why a reward claim cannot go ahead.
#[derive(Clone, Copy, Debug, PartialEq, Eq, Structural)]
pub enum ClaimError {
    /// No update event belongs to an epoch that has been finalized.
    NoFinalizedUpdates,
}

/// The updates whose epoch is before the pending epoch, in their order.
pub open spec fn finalized(chain: Seq<UpdateRecord>, pending_epoch: nat) -> Seq<UpdateRecord> {
    chain.filter(|e: UpdateRecord| e.epoch_number.value() < pending_epoch)
}

/// `s` is strictly increasing.
pub open spec fn strictly_increasing(s: Seq<nat>) -> bool {
    forall|i: int, j: int| 0 <= i < j < s.len() ==> s[i] < s[j]
}

/// What the claim goes on with: the finalized updates, the lowest block to search for
/// epoch finalization events, and the epochs whose finalization is needed, in increasing
/// order and each once.
pub struct ClaimPlan {
    pub finalized_updates: Vec<UpdateRecord>,
    pub lower_limit_block_number: u64,
    pub epochs: Vec<U256>,
}

/// The numbers that a sequence of 256-bit values stands for.
pub open spec fn values_of(s: Seq<U256>) -> Seq<nat> {
    s.map_values(|v: U256| v.value())
}

/// Inserts `x` into the strictly increasing `v`, unless it is there already.
pub fn insert_sorted_u256(v: &mut Vec<U256>, x: U256)
    requires
        strictly_increasing(values_of(old(v)@)),
    ensures
        strictly_increasing(values_of(final(v)@)),
        values_of(final(v)@).to_set() == values_of(old(v)@).to_set().insert(x.value()),
{
    let ghost old_vals = values_of(v@);
    let mut pos: usize = 0;
    while pos < v.len() && v[pos].lt(&x)
        invariant
            pos <= v.len(),
            v@ == old(v)@,
            forall|i: int| 0 <= i < pos ==> #[trigger] v@[i].value() < x.value(),
        decreases v.len() - pos,
    {
        pos = pos + 1;
    }
    if pos < v.len() && v[pos].eq(&x) {
        assert(values_of(v@).to_set() =~= old_vals.to_set().insert(x.value())) by {
            assert(old_vals[pos as int] == x.value());
        }
        return;
    }
    v.insert(pos, x);
    assert(values_of(v@) =~= old_vals.insert(pos as int, x.value()));
    assert forall|i: int, j: int| 0 <= i < j < values_of(v@).len() implies values_of(v@)[i]
        < values_of(v@)[j] by {
        if j < pos {
        } else if j == pos {
        } else if i < pos {
        } else if i == pos {
            assert(old_vals[pos as int] > x.value());
            if j - 1 > pos {
                assert(old_vals[pos as int] < old_vals[j - 1]);
            }
        } else {
        }
    }
    assert(values_of(v@).to_set() =~= old_vals.to_set().insert(x.value())) by {
        assert forall|y: nat| #[trigger] values_of(v@).to_set().contains(y) <==> old_vals.to_set().insert(
            x.value(),
        ).contains(y) by {
            if values_of(v@).contains(y) {
                let k = choose|k: int| 0 <= k < values_of(v@).len() && values_of(v@)[k] == y;
                if k < pos {
                    assert(old_vals[k] == y);
                } else if k > pos {
                    assert(old_vals[k - 1] == y);
                }
            }
            if old_vals.contains(y) {
                let k = choose|k: int| 0 <= k < old_vals.len() && old_vals[k] == y;
                if k < pos {
                    assert(values_of(v@)[k] == y);
                } else {
                    assert(values_of(v@)[k + 1] == y);
                }
            }
            if y == x.value() {
                assert(values_of(v@)[pos as int] == y);
            }
        }
    }
}

/// The updates whose epoch is the pending epoch or later, in their order.
pub open spec fn unfinalized(chain: Seq<UpdateRecord>, pending_epoch: nat) -> Seq<UpdateRecord> {
    chain.filter(|e: UpdateRecord| e.epoch_number.value() >= pending_epoch)
}

/// The updates that a claim skips, in their order, one warning due for each: those of epochs
/// that are not finalized yet (the pending epoch or later).
pub fn skipped_updates(chain: &Vec<UpdateRecord>, pending_epoch: U256) -> (r: Vec<UpdateRecord>)
    ensures
        r@ == unfinalized(chain@, pending_epoch.value()),
{
    let ghost pred = |e: UpdateRecord| e.epoch_number.value() >= pending_epoch.value();
    let mut skipped: Vec<UpdateRecord> = Vec::new();
    let mut i: usize = 0;
    proof {
        reveal_with_fuel(Seq::filter, 1);
    }
    assert(chain@.take(0) =~= Seq::<UpdateRecord>::empty());
    while i < chain.len()
        invariant
            i <= chain.len(),
            pred == (|e: UpdateRecord| e.epoch_number.value() >= pending_epoch.value()),
            skipped@ == chain@.take(i as int).filter(pred),
        decreases chain.len() - i,
    {
        let e = chain[i];
        proof {
            assert(chain@.take(i as int + 1) =~= chain@.take(i as int).push(e));
            chain@.take(i as int).lemma_filter_push(e, pred);
        }
        if !e.epoch_number.lt(&pending_epoch) {
            skipped.push(e);
        }
        i = i + 1;
    }
    assert(chain@.take(chain.len() as int) =~= chain@);
    skipped
}

/// Plans the claim from the chain of updates: keeps the updates of finalized epochs (those
/// before `pending_epoch`), refines the lower search limit to the block of the first of
/// them, and collects their epochs. Fails when no update is finalized.
pub fn plan_claim(chain: &Vec<UpdateRecord>, pending_epoch: U256) -> (r: Result<ClaimPlan, ClaimError>)
    ensures
        finalized(chain@, pending_epoch.value()).len() == 0 ==> r == Err::<ClaimPlan, ClaimError>(
            ClaimError::NoFinalizedUpdates,
        ),
        finalized(chain@, pending_epoch.value()).len() > 0 ==> (r matches Ok(plan) && {
            &&& plan.finalized_updates@ == finalized(chain@, pending_epoch.value())
            &&& plan.lower_limit_block_number == finalized(
                chain@,
                pending_epoch.value(),
            )[0].block_number
            &&& strictly_increasing(values_of(plan.epochs@))
            &&& values_of(plan.epochs@).to_set() == finalized(
                chain@,
                pending_epoch.value(),
            ).map_values(|e: UpdateRecord| e.epoch_number.value()).to_set()
        }),
{
    let ghost pred = |e: UpdateRecord| e.epoch_number.value() < pending_epoch.value();
    let mut kept: Vec<UpdateRecord> = Vec::new();
    let mut epochs: Vec<U256> = Vec::new();
    let mut i: usize = 0;
    proof {
        reveal_with_fuel(Seq::filter, 1);
    }
    assert(chain@.take(0) =~= Seq::<UpdateRecord>::empty());
    assert(values_of(epochs@).to_set() =~= Set::<nat>::empty());
    while i < chain.len()
        invariant
            i <= chain.len(),
            pred == (|e: UpdateRecord| e.epoch_number.value() < pending_epoch.value()),
            kept@ == chain@.take(i as int).filter(pred),
            strictly_increasing(values_of(epochs@)),
            values_of(epochs@).to_set() == kept@.map_values(
                |e: UpdateRecord| e.epoch_number.value(),
            ).to_set(),
        decreases chain.len() - i,
    {
        let e = chain[i];
        proof {
            assert(chain@.take(i as int + 1) =~= chain@.take(i as int).push(e));
            chain@.take(i as int).lemma_filter_push(e, pred);
        }
        if e.epoch_number.lt(&pending_epoch) {
            let ghost old_kept = kept@;
            kept.push(e);
            insert_sorted_u256(&mut epochs, e.epoch_number);
            assert(kept@.map_values(|e: UpdateRecord| e.epoch_number.value()) =~= old_kept.map_values(
                |e: UpdateRecord| e.epoch_number.value(),
            ).push(e.epoch_number.value()));
            assert(kept@.map_values(|e: UpdateRecord| e.epoch_number.value()).to_set() =~= old_kept.map_values(
                |e: UpdateRecord| e.epoch_number.value(),
            ).to_set().insert(e.epoch_number.value())) by {
                let a = old_kept.map_values(|e: UpdateRecord| e.epoch_number.value());
                assert forall|y: nat| #[trigger] a.push(e.epoch_number.value()).contains(y)
                    <==> a.to_set().insert(e.epoch_number.value()).contains(y) by {
                    if a.push(e.epoch_number.value()).contains(y) {
                        let k = choose|k: int| 0 <= k < a.len() + 1 && a.push(e.epoch_number.value())[k] == y;
                        if k < a.len() {
                            assert(a[k] == y);
                        }
                    }
                    if a.contains(y) {
                        let k = choose|k: int| 0 <= k < a.len() && a[k] == y;
                        assert(a.push(e.epoch_number.value())[k] == y);
                    }
                    if y == e.epoch_number.value() {
                        assert(a.push(e.epoch_number.value())[a.len() as int] == y);
                    }
                }
            }
        }
        i = i + 1;
    }
    assert(chain@.take(chain.len() as int) =~= chain@);
    if kept.len() == 0 {
        return Err(ClaimError::NoFinalizedUpdates);
    }
    let lower = kept[0].block_number;
    Ok(ClaimPlan { finalized_updates: kept, lower_limit_block_number: lower, epochs })
}

/// The search for the finalization events of a set of epochs.
pub struct EpochSearch {
    /// The epochs still looked for, in increasing order.
    pub wanted: Vec<U256>,
    /// The events found so far, in the order found.
    pub found: Vec<EpochFinalizedRecord>,
}

/// After a batch of events: each event whose epoch is still looked for is kept, and its
/// epoch is no longer looked for.
pub open spec fn epoch_search_after(
    wanted: Set<nat>,
    found: Seq<EpochFinalizedRecord>,
    batch: Seq<EpochFinalizedRecord>,
) -> (Set<nat>, Seq<EpochFinalizedRecord>)
    decreases batch.len(),
{
    if batch.len() == 0 {
        (wanted, found)
    } else {
        let (w, f) = epoch_search_after(wanted, found, batch.drop_last());
        let e = batch.last();
        if w.contains(e.epoch.value()) {
            (w.remove(e.epoch.value()), f.push(e))
        } else {
            (w, f)
        }
    }
}

impl EpochSearch {
    /// The epochs still looked for.
    pub open spec fn wanted_set(&self) -> Set<nat> {
        values_of(self.wanted@).to_set()
    }

    /// The search is consistent: the wanted epochs are in increasing order.
    pub open spec fn wf(&self) -> bool {
        strictly_increasing(values_of(self.wanted@))
    }

    /// Starts a search for the given epochs.
    pub fn new(epochs: Vec<U256>) -> (r: EpochSearch)
        requires
            strictly_increasing(values_of(epochs@)),
        ensures
            r.wf(),
            r.wanted@ == epochs@,
            r.found@.len() == 0,
    {
        EpochSearch { wanted: epochs, found: Vec::new() }
    }

    /// Takes in a batch of events found in one query, and says whether the search goes on
    /// (some epoch is still looked for).
    pub fn record(&mut self, batch: &Vec<EpochFinalizedRecord>) -> (more: bool)
        requires
            old(self).wf(),
        ensures
            final(self).wf(),
            (final(self).wanted_set(), final(self).found@) == epoch_search_after(
                old(self).wanted_set(),
                old(self).found@,
                batch@,
            ),
            more == (final(self).wanted@.len() > 0),
            final(self).wanted@.len() == 0 <==> final(self).wanted_set().is_empty(),
    {
        let ghost w0 = self.wanted_set();
        let ghost f0 = self.found@;
        let mut i: usize = 0;
        assert(batch@.take(0) =~= Seq::<EpochFinalizedRecord>::empty());
        while i < batch.len()
            invariant
                i <= batch.len(),
                self.wf(),
                (self.wanted_set(), self.found@) == epoch_search_after(w0, f0, batch@.take(i as int)),
            decreases batch.len() - i,
        {
            let e = batch[i];
            assert(batch@.take(i as int + 1).drop_last() =~= batch@.take(i as int));
            assert(batch@.take(i as int + 1).last() == e);
            let mut k: usize = 0;
            while k < self.wanted.len() && !self.wanted[k].eq(&e.epoch)
                invariant
                    k <= self.wanted.len(),
                    forall|j: int| 0 <= j < k ==> #[trigger] self.wanted@[j].value() != e.epoch.value(),
                decreases self.wanted.len() - k,
            {
                k = k + 1;
            }
            let ghost old_vals = values_of(self.wanted@);
            if k < self.wanted.len() {
                self.wanted.remove(k);
                self.found.push(e);
                assert(values_of(self.wanted@) =~= old_vals.remove(k as int));
                assert(old_vals[k as int] == e.epoch.value());
                assert(self.wanted_set() =~= old_vals.to_set().remove(e.epoch.value())) by {
                    assert forall|y: nat| #[trigger] old_vals.remove(k as int).contains(y) <==> (
                    old_vals.contains(y) && y != e.epoch.value()) by {
                        if old_vals.remove(k as int).contains(y) {
                            let j = choose|j: int| 0 <= j < old_vals.len() - 1 && old_vals.remove(
                                k as int,
                            )[j] == y;
                            if j < k {
                                assert(old_vals[j] == y);
                                assert(old_vals[j] < old_vals[k as int]);
                            } else {
                                assert(old_vals[j + 1] == y);
                                assert(old_vals[k as int] < old_vals[j + 1]);
                            }
                        }
                        if old_vals.contains(y) && y != e.epoch.value() {
                            let j = choose|j: int| 0 <= j < old_vals.len() && old_vals[j] == y;
                            if j < k {
                                assert(old_vals.remove(k as int)[j] == y);
                            } else {
                                assert(old_vals.remove(k as int)[j - 1] == y);
                            }
                        }
                    }
                }
            } else {
                assert(!old_vals.to_set().contains(e.epoch.value())) by {
                    if old_vals.contains(e.epoch.value()) {
                        let j = choose|j: int| 0 <= j < old_vals.len() && old_vals[j] == e.epoch.value();
                        assert(self.wanted@[j].value() != e.epoch.value());
                    }
                }
            }
            i = i + 1;
        }
        assert(batch@.take(batch.len() as int) =~= batch@);
        proof {
            if self.wanted@.len() > 0 {
                assert(values_of(self.wanted@)[0] == self.wanted@[0].value());
                assert(values_of(self.wanted@).contains(self.wanted@[0].value()));
                assert(self.wanted_set().contains(self.wanted@[0].value()));
            } else {
                assert(values_of(self.wanted@) =~= Seq::<nat>::empty());
                assert(self.wanted_set() =~= Set::<nat>::empty());
            }
        }
        self.wanted.len() > 0
    }
}

/// vstd's model of comparison holds for block numbers, so that its specification of a
/// `BTreeSet` of them applies.
pub open spec fn block_keys_ordered() -> bool {
    vstd::laws_cmp::obeys_cmp::<u64>()
}

/// Block numbers are keys whose comparison vstd models as the order of numbers.
pub(crate) proof fn lemma_block_keys_ordered()
    ensures
        vstd::std_specs::btree::key_obeys_cmp_spec::<u64>(),
        block_keys_ordered(),
{
    broadcast use vstd::std_specs::btree::group_btree_axioms, vstd::laws_cmp::group_laws_cmp;
}

/// A sequence of block numbers in the increasing order of keys is strictly increasing.
proof fn lemma_increasing_blocks(s: Seq<&u64>)
    requires
        vstd::std_specs::btree::increasing_seq(s),
    ensures
        forall|i: int, j: int| 0 <= i < j < s.len() ==> *s[i] < *s[j],
{
    broadcast use vstd::std_specs::btree::group_btree_axioms, vstd::laws_cmp::group_laws_cmp;
    assert forall|i: int, j: int| 0 <= i < j < s.len() implies *s[i] < *s[j] by {
        assert(vstd::std_specs::cmp::OrdSpec::cmp_spec(&s[i], &s[j]) is Less);
    }
}

/// The members of `set`, in increasing order.
pub fn ascending_blocks(set: &BTreeSet<u64>) -> (r: Vec<u64>)
    ensures
        forall|i: int, j: int| 0 <= i < j < r@.len() ==> r@[i] < r@[j],
        r@.to_set() == set@,
{
    broadcast use vstd::std_specs::btree::group_btree_axioms;
    proof {
        lemma_block_keys_ordered();
    }
    let mut out: Vec<u64> = Vec::new();
    let ghost refs = vstd::std_specs::iter::IteratorSpec::remaining(
        &vstd::std_specs::btree::spec_btree_keys_iter(set),
    );
    let ghost keys = refs.unref();
    for x in it: set.iter()
        invariant
            keys == it.seq().unref(),
            out@ == it.seq().unref().take(it.index()),
    {
        out.push(*x);
        assert(out@ =~= it.seq().unref().take(it.index() + 1));
    }
    assert(out@ =~= keys);
    proof {
        lemma_increasing_blocks(refs);
        assert forall|i: int| 0 <= i < keys.len() implies keys[i] == *refs[i] by {}
    }
    out
}

/// The block numbers of `v`, in increasing order, each once.
pub fn distinct_blocks(v: &Vec<u64>) -> (r: Vec<u64>)
    ensures
        forall|i: int, j: int| 0 <= i < j < r@.len() ==> r@[i] < r@[j],
        r@.to_set() == v@.to_set(),
{
    proof {
        lemma_block_keys_ordered();
    }
    let mut set: BTreeSet<u64> = BTreeSet::new();
    let mut i: usize = 0;
    assert(v@.take(0).to_set() =~= Set::<u64>::empty());
    while i < v.len()
        invariant
            i <= v.len(),
            block_keys_ordered(),
            set@ == v@.take(i as int).to_set(),
        decreases v.len() - i,
    {
        set.insert(v[i]);
        proof {
            assert(v@.take(i + 1) =~= v@.take(i as int).push(v@[i as int]));
            v@.take(i as int).lemma_push_to_set_commute(v@[i as int]);
        }
        i = i + 1;
    }
    assert(v@.take(v.len() as int) =~= v@);
    ascending_blocks(&set)
}

/// The blocks the mint proof must cover: those of the finalized updates and those of the
/// epoch finalization events, in increasing order, each once.
pub fn event_block_numbers(updates: &Vec<UpdateRecord>, epoch_events: &Vec<EpochFinalizedRecord>) -> (r:
    Vec<u64>)
    ensures
        forall|i: int, j: int| 0 <= i < j < r@.len() ==> r@[i] < r@[j],
        forall|b: u64|
            #[trigger] r@.contains(b) <==> ((exists|i: int|
                0 <= i < updates.len() && updates@[i].block_number == b) || (exists|i: int|
                0 <= i < epoch_events.len() && epoch_events@[i].block_number == b)),
{
    proof {
        lemma_block_keys_ordered();
    }
    let mut set: BTreeSet<u64> = BTreeSet::new();
    let mut i: usize = 0;
    while i < updates.len()
        invariant
            i <= updates.len(),
            block_keys_ordered(),
            forall|b: u64|
                #[trigger] set@.contains(b) <==> exists|k: int|
                    0 <= k < i && updates@[k].block_number == b,
        decreases updates.len() - i,
    {
        set.insert(updates[i].block_number);
        assert forall|b: u64| #[trigger] set@.contains(b) <==> exists|k: int|
            0 <= k < i + 1 && updates@[k].block_number == b by {
            if exists|k: int| 0 <= k < i + 1 && updates@[k].block_number == b {
                let k = choose|k: int| 0 <= k < i + 1 && updates@[k].block_number == b;
                if k < i {
                }
            }
        }
        i = i + 1;
    }
    let mut j: usize = 0;
    while j < epoch_events.len()
        invariant
            j <= epoch_events.len(),
            block_keys_ordered(),
            forall|b: u64|
                #[trigger] set@.contains(b) <==> ((exists|k: int|
                    0 <= k < updates.len() && updates@[k].block_number == b) || (exists|k: int|
                    0 <= k < j && epoch_events@[k].block_number == b)),
        decreases epoch_events.len() - j,
    {
        set.insert(epoch_events[j].block_number);
        assert forall|b: u64| #[trigger] set@.contains(b) <==> ((exists|k: int|
            0 <= k < updates.len() && updates@[k].block_number == b) || (exists|k: int|
            0 <= k < j + 1 && epoch_events@[k].block_number == b)) by {
            if exists|k: int| 0 <= k < j + 1 && epoch_events@[k].block_number == b {
                let k = choose|k: int| 0 <= k < j + 1 && epoch_events@[k].block_number == b;
                if k < j {
                }
            }
        }
        j = j + 1;
    }
    let r = ascending_blocks(&set);
    assert forall|b: u64| #[trigger] r@.contains(b) <==> set@.contains(b) by {
        assert(r@.to_set().contains(b) == r@.contains(b));
    }
    r
}

} // verus!
