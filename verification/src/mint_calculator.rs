//! The reward computation of the mint calculator. From the epoch finalizations and the work
//! log updates that the PoVW accounting contract logged, it rebuilds the chain of commits of
//! each work log, weighs each update by its share of its epoch's total work, and mints to
//! each recipient its share of the epoch emissions, capped per work log and epoch.
//!
//! Maps are kept as vectors of key-value pairs in increasing key order (`sorted_map`), so
//! the journal lists work logs and recipients in increasing order.
use crate::address::{Address, Digest};
use crate::claim::{EpochFinalizedRecord, UpdateRecord};
use crate::fixed_point::{fixed_base, FixedPoint};
use crate::mint::{EpochLog, WorkLogFilter};
use crate::sorted_map::{
    find, lemma_lookup_map, lemma_lookup_put, lemma_put_map, lemma_put_sorted, lookup, map_vals, put,
    put_entry,
    sorted_keys,
};
use crate::sorted_set::SortKey;
use crate::u256::{u256_modulus, U256};
use vstd::prelude::*;

verus! {

/// The key of a reward weight: an epoch, a work log, and the recipient of the value of the
/// log's updates in that epoch.
#[derive(Clone, Copy, Debug, PartialEq, Eq, Structural)]
pub struct RewardKey {
    pub epoch: U256,
    pub log: Address,
    pub recipient: Address,
}

impl SortKey for RewardKey {
    /// Ordered by epoch, then by work log, then by recipient.
    open spec fn precedes(self, other: Self) -> bool {
        ||| self.epoch.value() < other.epoch.value()
        ||| self.epoch.value() == other.epoch.value() && self.log.precedes(other.log)
        ||| self.epoch.value() == other.epoch.value() && self.log == other.log
            && self.recipient.precedes(other.recipient)
    }

    proof fn lemma_strict_total(a: Self, b: Self, c: Self) {
        a.epoch.lemma_value_injective(b.epoch);
        Address::lemma_strict_total(a.log, b.log, c.log);
        Address::lemma_strict_total(a.recipient, b.recipient, c.recipient);
        Address::lemma_strict_total(a.log, b.log, b.log);
        Address::lemma_strict_total(b.log, c.log, c.log);
    }

    fn comes_before(&self, other: &Self) -> (r: bool) {
        if self.epoch.lt(&other.epoch) {
            true
        } else if !self.epoch.eq(&other.epoch) {
            false
        } else if self.log.comes_before(&other.log) {
            true
        } else if !self.log.same_as(&other.log) {
            false
        } else {
            self.recipient.comes_before(&other.recipient)
        }
    }

    fn same_as(&self, other: &Self) -> (r: bool) {
        proof {
            self.epoch.lemma_value_injective(other.epoch);
        }
        self.epoch.eq(&other.epoch) && self.log.same_as(&other.log) && self.recipient.same_as(
            &other.recipient,
        )
    }
}

/// Tokens minted to one recipient.
#[derive(Clone, Copy, Debug, PartialEq, Eq, Structural)]
pub struct MintCalculatorMint {
    pub recipient: Address,
    pub value: U256,
}

/// The commits a mint moves a work log between.
#[derive(Clone, Copy, Debug, PartialEq, Eq, Structural)]
pub struct MintCalculatorUpdate {
    pub work_log_id: Address,
    pub initial_commit: Digest,
    pub updated_commit: Digest,
}

/// What the mint calculator commits to: the mints, in increasing recipient order, and the
/// commit range of each work log, in increasing log order.
pub struct MintCalculatorJournal {
    pub mints: Vec<MintCalculatorMint>,
    pub updates: Vec<MintCalculatorUpdate>,
}

/// Why the mint calculator refuses its input.
#[derive(Clone, Copy, Debug, PartialEq, Eq, Structural)]
pub enum MintError {
    /// An epoch is finalized twice.
    DuplicateFinalization,
    /// Two updates of a work log do not form a chain.
    BrokenChain,
    /// A value is out of the range of the fixed-point or 256-bit arithmetic: an update's
    /// share of its epoch's work is not defined or exceeds one, a weight overflows, or a
    /// share of the emissions overflows.
    ValueOutOfRange,
    /// No epoch is finalized.
    NoFinalizedEpoch,
    /// The final commit of a work log on the accounting contract is not its last update's.
    CommitMismatch,
    /// The emissions of an epoch with rewards are not given.
    MissingEmissions,
    /// The reward cap of a work log in an epoch with rewards is not given.
    MissingRewardCap,
}

/// The raw numerator of a fixed-point value.
pub open spec fn raw_fn() -> spec_fn(FixedPoint) -> nat {
    |x: FixedPoint| x.raw()
}

/// The number a 256-bit value stands for.
pub open spec fn value_fn() -> spec_fn(U256) -> nat {
    |x: U256| x.value()
}

/// The total work of each finalized epoch, in the order of finalization; `None` where an
/// epoch is finalized twice.
pub open spec fn epoch_totals(fin: Seq<EpochFinalizedRecord>) -> Option<Seq<(U256, U256)>>
    decreases fin.len(),
{
    if fin.len() == 0 {
        Some(seq![])
    } else {
        match epoch_totals(fin.drop_last()) {
            None => None,
            Some(m) => {
                let e = fin.last();
                if lookup(m, e.epoch) is Some {
                    None
                } else {
                    Some(m.push((e.epoch, e.total_work)))
                }
            },
        }
    }
}

/// `num / dem` is defined as a fixed-point fraction: `num * 2^128` stays below 2^256, the
/// denominator is not zero, and the fraction is at most one.
pub open spec fn fraction_defined(num: nat, dem: nat) -> bool {
    &&& num * fixed_base() < u256_modulus()
    &&& dem != 0
    &&& num * fixed_base() / dem <= fixed_base()
}

/// The commits of each work log, and the reward weights, as the updates are tallied.
pub type Tally = (Seq<(Address, (Digest, Digest))>, Seq<(RewardKey, nat)>);

/// Tallies one update: it counts where its work log passes the filter and its epoch is
/// finalized. Its commits extend the chain of its work log, and a non-zero value adds its
/// share of the epoch's total work to the weight of its epoch, work log and recipient.
pub open spec fn tally_step(
    st: Tally,
    u: UpdateRecord,
    totals: Seq<(U256, U256)>,
    filter: WorkLogFilter,
) -> Result<Tally, MintError> {
    if !filter.admits(u.work_log_id) {
        Ok(st)
    } else {
        match lookup(totals, u.epoch_number) {
            None => Ok(st),
            Some(total) => {
                let chained = match lookup(st.0, u.work_log_id) {
                    None => Some(put(st.0, u.work_log_id, (u.initial_commit, u.updated_commit))),
                    Some(c) => if c.1 == u.initial_commit {
                        Some(put(st.0, u.work_log_id, (c.0, u.updated_commit)))
                    } else {
                        None
                    },
                };
                match chained {
                    None => Err(MintError::BrokenChain),
                    Some(commits) => if u.update_value.value() == 0 {
                        Ok((commits, st.1))
                    } else if !fraction_defined(u.update_value.value(), total.value()) {
                        Err(MintError::ValueOutOfRange)
                    } else {
                        let f = u.update_value.value() * fixed_base() / total.value();
                        let key = RewardKey {
                            epoch: u.epoch_number,
                            log: u.work_log_id,
                            recipient: u.value_recipient,
                        };
                        let prev = match lookup(st.1, key) {
                            Some(x) => x,
                            None => 0,
                        };
                        if prev + f >= u256_modulus() {
                            Err(MintError::ValueOutOfRange)
                        } else {
                            Ok((commits, put(st.1, key, prev + f)))
                        }
                    },
                }
            },
        }
    }
}

/// The tally of the updates, in their order.
pub open spec fn tally(
    ups: Seq<UpdateRecord>,
    totals: Seq<(U256, U256)>,
    filter: WorkLogFilter,
) -> Result<Tally, MintError>
    decreases ups.len(),
{
    if ups.len() == 0 {
        Ok((seq![], seq![]))
    } else {
        match tally(ups.drop_last(), totals, filter) {
            Err(e) => Err(e),
            Ok(st) => tally_step(st, ups.last(), totals, filter),
        }
    }
}

/// What update `u` adds to the reward weight `key`: its value's share of its epoch's total
/// work, `value * 2^128 / total work`, where it counts (its work log passes the filter, its
/// epoch is finalized, its value is not zero) and its epoch, work log and recipient are
/// those of `key`; nothing otherwise.
pub open spec fn counted_share(
    u: UpdateRecord,
    totals: Seq<(U256, U256)>,
    filter: WorkLogFilter,
    key: RewardKey,
) -> nat {
    if filter.admits(u.work_log_id) && lookup(totals, u.epoch_number) is Some
        && u.update_value.value() > 0 && key == (RewardKey {
        epoch: u.epoch_number,
        log: u.work_log_id,
        recipient: u.value_recipient,
    }) {
        u.update_value.value() * fixed_base() / lookup(totals, u.epoch_number)->Some_0.value()
    } else {
        0
    }
}

/// The sum, over the updates, of what each adds to the reward weight `key`.
pub open spec fn share_sum(
    ups: Seq<UpdateRecord>,
    totals: Seq<(U256, U256)>,
    filter: WorkLogFilter,
    key: RewardKey,
) -> nat
    decreases ups.len(),
{
    if ups.len() == 0 {
        0
    } else {
        share_sum(ups.drop_last(), totals, filter, key) + counted_share(ups.last(), totals, filter, key)
    }
}

/// Each reward weight is the sum of the shares of all the updates that count toward it: an
/// update's share adds to those before it rather than replacing them, so splitting an
/// update into two of the same total value, to the same recipient in the same epoch, changes
/// the weight only by the rounding of the two shares; a key no update counts toward has no
/// weight.
pub proof fn lemma_weights_are_sums(
    ups: Seq<UpdateRecord>,
    totals: Seq<(U256, U256)>,
    filter: WorkLogFilter,
)
    ensures
        tally(ups, totals, filter) matches Ok(st) ==> forall|key: RewardKey|
            #![trigger lookup(st.1, key)]
            (lookup(st.1, key) matches Some(w) ==> w == share_sum(ups, totals, filter, key)) && (
            lookup(st.1, key) is None ==> share_sum(ups, totals, filter, key) == 0),
    decreases ups.len(),
{
    if ups.len() == 0 {
        return;
    }
    let pre = ups.drop_last();
    lemma_weights_are_sums(pre, totals, filter);
    if let Ok(st) = tally(pre, totals, filter) {
        let u = ups.last();
        if let Ok(st2) = tally(ups, totals, filter) {
            assert(st2 == tally_step(st, u, totals, filter)->Ok_0);
            let k0 = RewardKey { epoch: u.epoch_number, log: u.work_log_id, recipient: u.value_recipient };
            assert forall|key: RewardKey|
                #![trigger lookup(st2.1, key)]
                (lookup(st2.1, key) matches Some(w) ==> w == share_sum(ups, totals, filter, key)) && (
                lookup(st2.1, key) is None ==> share_sum(ups, totals, filter, key) == 0) by {
                assert(share_sum(ups, totals, filter, key) == share_sum(pre, totals, filter, key)
                    + counted_share(u, totals, filter, key));
                assert(lookup(st.1, key) matches Some(w) ==> w == share_sum(pre, totals, filter, key));
                if filter.admits(u.work_log_id) && lookup(totals, u.epoch_number) is Some
                    && u.update_value.value() > 0 {
                    let total = lookup(totals, u.epoch_number)->Some_0;
                    let f = u.update_value.value() * fixed_base() / total.value();
                    let prev = match lookup(st.1, k0) {
                        Some(x) => x,
                        None => 0,
                    };
                    assert(st2.1 == put(st.1, k0, prev + f));
                    lemma_lookup_put(st.1, k0, prev + f, key);
                    assert(lookup(st.1, k0) matches Some(w) ==> w == share_sum(pre, totals, filter, k0));
                    assert(lookup(st.1, k0) is None ==> share_sum(pre, totals, filter, k0) == 0);
                } else {
                    assert(st2.1 == st.1);
                }
            }
        }
    }
}

/// The final commit on the accounting contract of each work log is the last commit of its
/// chain.
pub open spec fn commits_match(
    commits: Seq<(Address, (Digest, Digest))>,
    finals: Seq<(Address, Digest)>,
) -> bool {
    forall|j: int|
        0 <= j < commits.len() ==> lookup(finals, #[trigger] commits[j].0) == Some(commits[j].1.1)
}

/// The rewards so far, the work log and epoch being awarded, and what is left of its cap.
pub type Awards = (Seq<(Address, nat)>, Option<EpochLog>, nat);

/// The work log and epoch of a reward key.
pub open spec fn group_of(k: RewardKey) -> EpochLog {
    EpochLog { epoch: k.epoch, log: k.log }
}

/// What is left of the cap for `key`: the rest of the current cap where `key` continues the
/// work log and epoch being awarded, else the cap that `caps` gives for its work log and
/// epoch.
pub open spec fn step_cap(st: Awards, key: RewardKey, caps: Seq<(EpochLog, U256)>) -> Option<nat> {
    if st.1 == Some(group_of(key)) {
        Some(st.2)
    } else {
        match lookup(caps, group_of(key)) {
            Some(c) => Some(c.value()),
            None => None,
        }
    }
}

/// The reward of a weight `w` of emissions `em`: its share, rounded down, capped at `cap`.
pub open spec fn step_reward(w: nat, em: nat, cap: nat) -> nat {
    let uncapped = w * em / fixed_base();
    if uncapped < cap {
        uncapped
    } else {
        cap
    }
}

/// Awards one weight: its share of the epoch's emissions, capped by what is left of the cap
/// of its work log in that epoch (the whole cap at the first recipient of the work log), is
/// added, with 256-bit wrapping, to its recipient's reward where it is not zero.
pub open spec fn award_step(
    st: Awards,
    entry: (RewardKey, nat),
    emissions: Seq<(U256, U256)>,
    caps: Seq<(EpochLog, U256)>,
) -> Result<Awards, MintError> {
    let key = entry.0;
    let w = entry.1;
    match lookup(emissions, key.epoch) {
        None => Err(MintError::MissingEmissions),
        Some(em) => match step_cap(st, key, caps) {
            None => Err(MintError::MissingRewardCap),
            Some(cap) => if w * em.value() >= u256_modulus() {
                Err(MintError::ValueOutOfRange)
            } else {
                let reward = step_reward(w, em.value(), cap);
                let prev = match lookup(st.0, key.recipient) {
                    Some(x) => x,
                    None => 0,
                };
                let rewards = if reward > 0 {
                    put(st.0, key.recipient, (prev + reward) % u256_modulus())
                } else {
                    st.0
                };
                Ok((rewards, Some(group_of(key)), (cap - reward) as nat))
            },
        },
    }
}

/// The awards of the weights, in their order.
pub open spec fn award(
    ws: Seq<(RewardKey, nat)>,
    emissions: Seq<(U256, U256)>,
    caps: Seq<(EpochLog, U256)>,
) -> Result<Awards, MintError>
    decreases ws.len(),
{
    if ws.len() == 0 {
        Ok((seq![], None, 0))
    } else {
        match award(ws.drop_last(), emissions, caps) {
            Err(e) => Err(e),
            Ok(st) => award_step(st, ws.last(), emissions, caps),
        }
    }
}

/// What the mint calculator computes: the mints, as (recipient, value) in increasing
/// recipient order, and the commit range of each work log, in increasing log order; or why
/// it refuses. `emissions` gives the emissions of each epoch, `caps` the reward cap of each
/// work log at the end of each epoch, and `final_commits` the commit of each work log on
/// the accounting contract at the end of the last finalized epoch.
pub open spec fn mint_journal(
    finalized: Seq<EpochFinalizedRecord>,
    updates: Seq<UpdateRecord>,
    filter: WorkLogFilter,
    emissions: Seq<(U256, U256)>,
    caps: Seq<(EpochLog, U256)>,
    final_commits: Seq<(Address, Digest)>,
) -> Result<(Seq<(Address, nat)>, Seq<(Address, (Digest, Digest))>), MintError> {
    match epoch_totals(finalized) {
        None => Err(MintError::DuplicateFinalization),
        Some(totals) => match tally(updates, totals, filter) {
            Err(e) => Err(e),
            Ok(st) => if finalized.len() == 0 {
                Err(MintError::NoFinalizedEpoch)
            } else if !commits_match(st.0, final_commits) {
                Err(MintError::CommitMismatch)
            } else {
                match award(st.1, emissions, caps) {
                    Err(e) => Err(e),
                    Ok(a) => Ok((a.0, st.0)),
                }
            },
        },
    }
}

/// The mints as (recipient, value) pairs.
pub open spec fn mints_view(s: Seq<MintCalculatorMint>) -> Seq<(Address, nat)> {
    s.map_values(|m: MintCalculatorMint| (m.recipient, m.value.value()))
}

/// The commit ranges as (work log, (initial commit, updated commit)) pairs.
pub open spec fn updates_view(s: Seq<MintCalculatorUpdate>) -> Seq<(Address, (Digest, Digest))> {
    s.map_values(|m: MintCalculatorUpdate| (m.work_log_id, (m.initial_commit, m.updated_commit)))
}

proof fn lemma_totals_none(fin: Seq<EpochFinalizedRecord>, k: int)
    requires
        0 <= k <= fin.len(),
        epoch_totals(fin.take(k)) is None,
    ensures
        epoch_totals(fin) is None,
    decreases fin.len() - k,
{
    if k < fin.len() {
        assert(fin.take(k + 1).drop_last() =~= fin.take(k));
        lemma_totals_none(fin, k + 1);
    } else {
        assert(fin.take(k) =~= fin);
    }
}

proof fn lemma_tally_err(
    ups: Seq<UpdateRecord>,
    totals: Seq<(U256, U256)>,
    filter: WorkLogFilter,
    k: int,
    e: MintError,
)
    requires
        0 <= k <= ups.len(),
        tally(ups.take(k), totals, filter) == Err::<Tally, MintError>(e),
    ensures
        tally(ups, totals, filter) == Err::<Tally, MintError>(e),
    decreases ups.len() - k,
{
    if k < ups.len() {
        assert(ups.take(k + 1).drop_last() =~= ups.take(k));
        lemma_tally_err(ups, totals, filter, k + 1, e);
    } else {
        assert(ups.take(k) =~= ups);
    }
}

proof fn lemma_award_err(
    ws: Seq<(RewardKey, nat)>,
    emissions: Seq<(U256, U256)>,
    caps: Seq<(EpochLog, U256)>,
    k: int,
    e: MintError,
)
    requires
        0 <= k <= ws.len(),
        award(ws.take(k), emissions, caps) == Err::<Awards, MintError>(e),
    ensures
        award(ws, emissions, caps) == Err::<Awards, MintError>(e),
    decreases ws.len() - k,
{
    if k < ws.len() {
        assert(ws.take(k + 1).drop_last() =~= ws.take(k));
        lemma_award_err(ws, emissions, caps, k + 1, e);
    } else {
        assert(ws.take(k) =~= ws);
    }
}

proof fn lemma_tally_sorted(ups: Seq<UpdateRecord>, totals: Seq<(U256, U256)>, filter: WorkLogFilter)
    ensures
        tally(ups, totals, filter) matches Ok(st) ==> sorted_keys(st.0) && sorted_keys(st.1),
    decreases ups.len(),
{
    if ups.len() > 0 {
        lemma_tally_sorted(ups.drop_last(), totals, filter);
        if let Ok(st) = tally(ups.drop_last(), totals, filter) {
            let u = ups.last();
            match lookup(st.0, u.work_log_id) {
                None => lemma_put_sorted(st.0, u.work_log_id, (u.initial_commit, u.updated_commit)),
                Some(c) => lemma_put_sorted(st.0, u.work_log_id, (c.0, u.updated_commit)),
            }
            let key = RewardKey {
                epoch: u.epoch_number,
                log: u.work_log_id,
                recipient: u.value_recipient,
            };
            assert forall|v: nat| true implies sorted_keys(put(st.1, key, v)) by {
                lemma_put_sorted(st.1, key, v);
            }
        }
    }
}

proof fn lemma_award_sorted(
    ws: Seq<(RewardKey, nat)>,
    emissions: Seq<(U256, U256)>,
    caps: Seq<(EpochLog, U256)>,
)
    ensures
        award(ws, emissions, caps) matches Ok(a) ==> sorted_keys(a.0),
    decreases ws.len(),
{
    if ws.len() > 0 {
        lemma_award_sorted(ws.drop_last(), emissions, caps);
        if let Ok(st) = award(ws.drop_last(), emissions, caps) {
            let key = ws.last().0;
            assert forall|v: nat| true implies sorted_keys(put(st.0, key.recipient, v)) by {
                lemma_put_sorted(st.0, key.recipient, v);
            }
        }
    }
}

/// The journal lists recipients, and work logs, in strictly increasing order: each recipient
/// is minted to once, and each work log has one commit range.
pub proof fn lemma_journal_sorted(
    finalized: Seq<EpochFinalizedRecord>,
    updates: Seq<UpdateRecord>,
    filter: WorkLogFilter,
    emissions: Seq<(U256, U256)>,
    caps: Seq<(EpochLog, U256)>,
    final_commits: Seq<(Address, Digest)>,
)
    ensures
        mint_journal(finalized, updates, filter, emissions, caps, final_commits) matches Ok(j)
            ==> sorted_keys(j.0) && sorted_keys(j.1),
{
    if let Some(totals) = epoch_totals(finalized) {
        lemma_tally_sorted(updates, totals, filter);
        if let Ok(st) = tally(updates, totals, filter) {
            lemma_award_sorted(st.1, emissions, caps);
        }
    }
}

/// The rewards granted, through the awards of `ws`, to the recipients of work log and epoch
/// `g`.
pub open spec fn granted(
    ws: Seq<(RewardKey, nat)>,
    g: EpochLog,
    emissions: Seq<(U256, U256)>,
    caps: Seq<(EpochLog, U256)>,
) -> nat
    decreases ws.len(),
{
    if ws.len() == 0 {
        0
    } else {
        let before = granted(ws.drop_last(), g, emissions, caps);
        let key = ws.last().0;
        match award(ws.drop_last(), emissions, caps) {
            Ok(st) => match (lookup(emissions, key.epoch), step_cap(st, key, caps)) {
                (Some(em), Some(cap)) => if group_of(key) == g {
                    before + step_reward(ws.last().1, em.value(), cap)
                } else {
                    before
                },
                _ => before,
            },
            Err(_) => before,
        }
    }
}

proof fn lemma_granted_absent(
    ws: Seq<(RewardKey, nat)>,
    g: EpochLog,
    emissions: Seq<(U256, U256)>,
    caps: Seq<(EpochLog, U256)>,
)
    requires
        forall|i: int| 0 <= i < ws.len() ==> group_of(#[trigger] ws[i].0) != g,
    ensures
        granted(ws, g, emissions, caps) == 0,
    decreases ws.len(),
{
    if ws.len() > 0 {
        let pre = ws.drop_last();
        assert forall|i: int| 0 <= i < pre.len() implies group_of(#[trigger] pre[i].0) != g by {
            assert(pre[i] == ws[i]);
        }
        lemma_granted_absent(pre, g, emissions, caps);
        assert(group_of(ws[ws.len() - 1].0) != g);
    }
}

/// Among increasing keys, a key whose work log and epoch differ from those of the key just
/// before it shares them with no earlier key.
proof fn lemma_new_group(ws: Seq<(RewardKey, nat)>)
    requires
        sorted_keys(ws),
        ws.len() >= 2,
        group_of(ws[ws.len() - 2].0) != group_of(ws[ws.len() - 1].0),
    ensures
        forall|i: int| 0 <= i < ws.len() - 1 ==> group_of(#[trigger] ws[i].0) != group_of(
            ws[ws.len() - 1].0,
        ),
{
    let n = ws.len();
    let b = ws[n - 2].0;
    let c = ws[n - 1].0;
    assert(b.precedes(c));
    assert forall|i: int| 0 <= i < n - 1 implies group_of(#[trigger] ws[i].0) != group_of(c) by {
        let a = ws[i].0;
        if i < n - 2 {
            assert(a.precedes(b));
            if group_of(a) == group_of(c) {
                assert(a.epoch.value() <= b.epoch.value() <= c.epoch.value());
                assert(b.epoch.value() == a.epoch.value());
                b.epoch.lemma_value_injective(a.epoch);
                Address::lemma_strict_total(a.log, b.log, c.log);
                Address::lemma_strict_total(b.log, a.log, a.log);
                assert(b.log == a.log);
                assert(group_of(b) == group_of(c));
            }
        }
    }
}

proof fn lemma_award_caps(
    ws: Seq<(RewardKey, nat)>,
    emissions: Seq<(U256, U256)>,
    caps: Seq<(EpochLog, U256)>,
)
    requires
        sorted_keys(ws),
        award(ws, emissions, caps) is Ok,
    ensures
        ({
            let st = award(ws, emissions, caps)->Ok_0;
            &&& ws.len() == 0 <==> st.1 is None
            &&& ws.len() > 0 ==> st.1 == Some(group_of(ws.last().0))
            &&& st.1 matches Some(g0) ==> (lookup(caps, g0) is Some && granted(
                ws,
                g0,
                emissions,
                caps,
            ) + st.2 == lookup(caps, g0)->Some_0.value())
            &&& forall|g: EpochLog|
                st.1 != Some(g) && (#[trigger] lookup(caps, g)) is Some ==> granted(
                    ws,
                    g,
                    emissions,
                    caps,
                ) <= lookup(caps, g)->Some_0.value()
        }),
    decreases ws.len(),
{
    if ws.len() == 0 {
        assert forall|g: EpochLog| (#[trigger] lookup(caps, g)) is Some implies granted(
            ws,
            g,
            emissions,
            caps,
        ) <= lookup(caps, g)->Some_0.value() by {}
        return;
    }
    let pre = ws.drop_last();
    assert(sorted_keys(pre)) by {
        assert forall|i: int, j: int| 0 <= i < j < pre.len() implies #[trigger] pre[i].0.precedes(
            #[trigger] pre[j].0,
        ) by {
            assert(ws[i].0.precedes(ws[j].0));
        }
    }
    assert(award(pre, emissions, caps) is Ok);
    lemma_award_caps(pre, emissions, caps);
    let st = award(pre, emissions, caps)->Ok_0;
    let key = ws.last().0;
    let w = ws.last().1;
    let g1 = group_of(key);
    let em = lookup(emissions, key.epoch)->Some_0;
    let cap = step_cap(st, key, caps)->Some_0;
    let r = step_reward(w, em.value(), cap);
    assert(r <= cap);
    let st2 = award(ws, emissions, caps)->Ok_0;
    assert(st2.1 == Some(g1));
    assert(st2.2 == cap - r);
    if st.1 != Some(g1) {
        if pre.len() > 0 {
            assert(pre.last() == ws[ws.len() - 2]);
            lemma_new_group(ws);
            assert forall|i: int| 0 <= i < pre.len() implies group_of(#[trigger] pre[i].0) != g1 by {
                assert(pre[i] == ws[i]);
            }
        }
        lemma_granted_absent(pre, g1, emissions, caps);
    }
    assert(granted(ws, g1, emissions, caps) == granted(pre, g1, emissions, caps) + r);
    assert forall|g: EpochLog|
        st2.1 != Some(g) && (#[trigger] lookup(caps, g)) is Some implies granted(
        ws,
        g,
        emissions,
        caps,
    ) <= lookup(caps, g)->Some_0.value() by {
        assert(granted(ws, g, emissions, caps) == granted(pre, g, emissions, caps));
    }
}

/// Within each epoch and work log, the rewards granted to all the recipients add up to at
/// most the work log's reward cap for that epoch: a prover cannot raise its reward by
/// sending the value of its updates to several recipients.
pub proof fn lemma_caps_respected(
    finalized: Seq<EpochFinalizedRecord>,
    updates: Seq<UpdateRecord>,
    filter: WorkLogFilter,
    emissions: Seq<(U256, U256)>,
    caps: Seq<(EpochLog, U256)>,
    g: EpochLog,
)
    ensures
        epoch_totals(finalized) matches Some(totals) ==> (tally(updates, totals, filter) matches Ok(
            st,
        ) ==> (award(st.1, emissions, caps) is Ok && lookup(caps, g) is Some ==> granted(
            st.1,
            g,
            emissions,
            caps,
        ) <= lookup(caps, g)->Some_0.value())),
{
    if let Some(totals) = epoch_totals(finalized) {
        lemma_tally_sorted(updates, totals, filter);
        if let Ok(st) = tally(updates, totals, filter) {
            if award(st.1, emissions, caps) is Ok {
                lemma_award_caps(st.1, emissions, caps);
            }
        }
    }
}

/// The total work of each finalized epoch; `None` where an epoch is finalized twice.
fn epoch_totals_of(fin: &Vec<EpochFinalizedRecord>) -> (r: Option<Vec<(U256, U256)>>)
    ensures
        match r {
            Some(t) => epoch_totals(fin@) == Some(t@),
            None => epoch_totals(fin@) is None,
        },
{
    let mut m: Vec<(U256, U256)> = Vec::new();
    let mut i: usize = 0;
    assert(fin@.take(0) =~= Seq::<EpochFinalizedRecord>::empty());
    while i < fin.len()
        invariant
            i <= fin.len(),
            epoch_totals(fin@.take(i as int)) == Some(m@),
        decreases fin.len() - i,
    {
        let e = fin[i];
        assert(fin@.take(i + 1).drop_last() =~= fin@.take(i as int));
        assert(fin@.take(i + 1).last() == e);
        if find(&m, &e.epoch).is_some() {
            proof {
                lemma_totals_none(fin@, i + 1);
            }
            return None;
        }
        m.push((e.epoch, e.total_work));
        i = i + 1;
    }
    assert(fin@.take(fin.len() as int) =~= fin@);
    Some(m)
}

/// Tallies the updates.
fn tally_updates(
    ups: &Vec<UpdateRecord>,
    totals: &Vec<(U256, U256)>,
    filter: &WorkLogFilter,
) -> (r: Result<(Vec<(Address, (Digest, Digest))>, Vec<(RewardKey, FixedPoint)>), MintError>)
    ensures
        match r {
            Ok(t) => tally(ups@, totals@, *filter) == Ok::<Tally, MintError>(
                (t.0@, map_vals(t.1@, raw_fn())),
            ),
            Err(e) => tally(ups@, totals@, *filter) == Err::<Tally, MintError>(e),
        },
{
    let mut commits: Vec<(Address, (Digest, Digest))> = Vec::new();
    let mut weights: Vec<(RewardKey, FixedPoint)> = Vec::new();
    let mut i: usize = 0;
    assert(ups@.take(0) =~= Seq::<UpdateRecord>::empty());
    assert(map_vals(weights@, raw_fn()) =~= Seq::<(RewardKey, nat)>::empty());
    while i < ups.len()
        invariant
            i <= ups.len(),
            tally(ups@.take(i as int), totals@, *filter) == Ok::<Tally, MintError>(
                (commits@, map_vals(weights@, raw_fn())),
            ),
        decreases ups.len() - i,
    {
        let u = ups[i];
        let ghost st: Tally = (commits@, map_vals(weights@, raw_fn()));
        assert(ups@.take(i + 1).drop_last() =~= ups@.take(i as int));
        assert(ups@.take(i + 1).last() == u);
        assert(tally(ups@.take(i + 1), totals@, *filter) == tally_step(st, u, totals@, *filter));
        if !filter.includes(u.work_log_id) {
            i = i + 1;
            continue;
        }
        let total = match find(totals, &u.epoch_number) {
            Some(t) => t,
            None => {
                i = i + 1;
                continue;
            },
        };
        match find(&commits, &u.work_log_id) {
            None => {
                put_entry(&mut commits, u.work_log_id, (u.initial_commit, u.updated_commit));
            },
            Some(c) => {
                if c.1.hi == u.initial_commit.hi && c.1.lo == u.initial_commit.lo {
                    put_entry(&mut commits, u.work_log_id, (c.0, u.updated_commit));
                } else {
                    proof {
                        lemma_tally_err(ups@, totals@, *filter, i + 1, MintError::BrokenChain);
                    }
                    return Err(MintError::BrokenChain);
                }
            },
        }
        if !u.update_value.is_zero() {
            let scaled = match u.update_value.checked_mul(FixedPoint::base()) {
                Some(x) => x,
                None => {
                    proof {
                        lemma_tally_err(ups@, totals@, *filter, i + 1, MintError::ValueOutOfRange);
                    }
                    return Err(MintError::ValueOutOfRange);
                },
            };
            if total.is_zero() || !scaled.wrapping_div(total).le(&FixedPoint::base()) {
                proof {
                    lemma_tally_err(ups@, totals@, *filter, i + 1, MintError::ValueOutOfRange);
                }
                return Err(MintError::ValueOutOfRange);
            }
            let f = FixedPoint::fraction(u.update_value, total);
            let key = RewardKey {
                epoch: u.epoch_number,
                log: u.work_log_id,
                recipient: u.value_recipient,
            };
            let prev = match find(&weights, &key) {
                Some(x) => x,
                None => FixedPoint::zero(),
            };
            proof {
                lemma_lookup_map(weights@, key, raw_fn());
            }
            let sum = match prev.checked_add(f) {
                Some(x) => x,
                None => {
                    proof {
                        lemma_tally_err(ups@, totals@, *filter, i + 1, MintError::ValueOutOfRange);
                    }
                    return Err(MintError::ValueOutOfRange);
                },
            };
            let ghost old_w = weights@;
            put_entry(&mut weights, key, sum);
            proof {
                lemma_put_map(old_w, key, sum, raw_fn());
            }
        }
        i = i + 1;
    }
    assert(ups@.take(ups.len() as int) =~= ups@);
    Ok((commits, weights))
}

/// Whether every work log's final commit is the last commit of its chain.
fn commits_agree(
    commits: &Vec<(Address, (Digest, Digest))>,
    finals: &Vec<(Address, Digest)>,
) -> (r: bool)
    ensures
        r == commits_match(commits@, finals@),
{
    let mut i: usize = 0;
    while i < commits.len()
        invariant
            i <= commits.len(),
            forall|j: int|
                0 <= j < i ==> lookup(finals@, #[trigger] commits@[j].0) == Some(
                    commits@[j].1.1,
                ),
        decreases commits.len() - i,
    {
        let c = commits[i];
        match find(finals, &c.0) {
            Some(d) => {
                if !(d.hi == c.1.1.hi && d.lo == c.1.1.lo) {
                    return false;
                }
            },
            None => {
                return false;
            },
        }
        i = i + 1;
    }
    true
}

/// Awards the weights.
fn award_rewards(
    weights: &Vec<(RewardKey, FixedPoint)>,
    emissions: &Vec<(U256, U256)>,
    caps: &Vec<(EpochLog, U256)>,
) -> (r: Result<Vec<(Address, U256)>, MintError>)
    ensures
        match r {
            Ok(rw) => award(map_vals(weights@, raw_fn()), emissions@, caps@) matches Ok(a) && a.0
                == map_vals(rw@, value_fn()),
            Err(e) => award(map_vals(weights@, raw_fn()), emissions@, caps@) == Err::<
                Awards,
                MintError,
            >(e),
        },
{
    let ghost ws = map_vals(weights@, raw_fn());
    let mut rewards: Vec<(Address, U256)> = Vec::new();
    let mut group: Option<EpochLog> = None;
    let mut remaining: U256 = U256::zero();
    let mut i: usize = 0;
    assert(ws.take(0) =~= Seq::<(RewardKey, nat)>::empty());
    assert(map_vals(rewards@, value_fn()) =~= Seq::<(Address, nat)>::empty());
    while i < weights.len()
        invariant
            i <= weights.len(),
            ws == map_vals(weights@, raw_fn()),
            award(ws.take(i as int), emissions@, caps@) == Ok::<Awards, MintError>(
                (map_vals(rewards@, value_fn()), group, remaining.value()),
            ),
        decreases weights.len() - i,
    {
        let (key, w) = weights[i];
        let ghost st: Awards = (map_vals(rewards@, value_fn()), group, remaining.value());
        assert(ws.take(i + 1).drop_last() =~= ws.take(i as int));
        assert(ws.take(i + 1).last() == (key, w.raw()));
        assert(award(ws.take(i + 1), emissions@, caps@) == award_step(
            st,
            (key, w.raw()),
            emissions@,
            caps@,
        ));
        let em = match find(emissions, &key.epoch) {
            Some(x) => x,
            None => {
                proof {
                    lemma_award_err(ws, emissions@, caps@, i + 1, MintError::MissingEmissions);
                }
                return Err(MintError::MissingEmissions);
            },
        };
        let g = EpochLog { epoch: key.epoch, log: key.log };
        let same_group = match group {
            Some(h) => h.same_as(&g),
            None => false,
        };
        let cap = if same_group {
            remaining
        } else {
            match find(caps, &g) {
                Some(c) => c,
                None => {
                    proof {
                        lemma_award_err(ws, emissions@, caps@, i + 1, MintError::MissingRewardCap);
                    }
                    return Err(MintError::MissingRewardCap);
                },
            }
        };
        if !w.mul_fits(em) {
            proof {
                lemma_award_err(ws, emissions@, caps@, i + 1, MintError::ValueOutOfRange);
            }
            return Err(MintError::ValueOutOfRange);
        }
        let uncapped = w.mul_unwrap(em);
        let reward = if uncapped.lt(&cap) {
            uncapped
        } else {
            cap
        };
        if !reward.is_zero() {
            let prev = match find(&rewards, &key.recipient) {
                Some(x) => x,
                None => U256::zero(),
            };
            proof {
                lemma_lookup_map(rewards@, key.recipient, value_fn());
            }
            let total = prev.wrapping_add(reward);
            let ghost old_r = rewards@;
            put_entry(&mut rewards, key.recipient, total);
            proof {
                lemma_put_map(old_r, key.recipient, total, value_fn());
            }
        }
        remaining = cap.saturating_sub(reward);
        group = Some(g);
        i = i + 1;
    }
    assert(ws.take(weights.len() as int) =~= ws);
    Ok(rewards)
}

/// The mint calculator's computation: checks the finalizations and the chain of updates of
/// each work log, checks that each work log's last update is its final commit, and mints to
/// each recipient its capped share of the epoch emissions. `emissions`, `caps` and
/// `final_commits` are the values read from the chain (see `mint_journal`).
pub fn compute_mints(
    finalized: &Vec<EpochFinalizedRecord>,
    updates: &Vec<UpdateRecord>,
    filter: &WorkLogFilter,
    emissions: &Vec<(U256, U256)>,
    caps: &Vec<(EpochLog, U256)>,
    final_commits: &Vec<(Address, Digest)>,
) -> (r: Result<MintCalculatorJournal, MintError>)
    ensures
        match r {
            Ok(j) => mint_journal(
                finalized@,
                updates@,
                *filter,
                emissions@,
                caps@,
                final_commits@,
            ) == Ok::<(Seq<(Address, nat)>, Seq<(Address, (Digest, Digest))>), MintError>(
                (mints_view(j.mints@), updates_view(j.updates@)),
            ),
            Err(e) => mint_journal(
                finalized@,
                updates@,
                *filter,
                emissions@,
                caps@,
                final_commits@,
            ) == Err::<(Seq<(Address, nat)>, Seq<(Address, (Digest, Digest))>), MintError>(e),
        },
{
    let totals = match epoch_totals_of(finalized) {
        Some(t) => t,
        None => return Err(MintError::DuplicateFinalization),
    };
    let (commits, weights) = match tally_updates(updates, &totals, filter) {
        Ok(t) => t,
        Err(e) => return Err(e),
    };
    if finalized.len() == 0 {
        return Err(MintError::NoFinalizedEpoch);
    }
    if !commits_agree(&commits, final_commits) {
        return Err(MintError::CommitMismatch);
    }
    let rewards = match award_rewards(&weights, emissions, caps) {
        Ok(rw) => rw,
        Err(e) => return Err(e),
    };
    let mut mints: Vec<MintCalculatorMint> = Vec::new();
    let mut i: usize = 0;
    while i < rewards.len()
        invariant
            i <= rewards.len(),
            mints_view(mints@) == map_vals(rewards@, value_fn()).take(i as int),
        decreases rewards.len() - i,
    {
        let (recipient, value) = rewards[i];
        let ghost before = mints@;
        mints.push(MintCalculatorMint { recipient, value });
        assert(map_vals(rewards@, value_fn())[i as int] == (recipient, value.value()));
        assert(mints_view(mints@) =~= mints_view(before).push((recipient, value.value())));
        assert(map_vals(rewards@, value_fn()).take(i + 1) =~= map_vals(rewards@, value_fn()).take(
            i as int,
        ).push((recipient, value.value())));
        i = i + 1;
    }
    assert(map_vals(rewards@, value_fn()).take(rewards.len() as int) =~= map_vals(
        rewards@,
        value_fn(),
    ));
    let mut ups: Vec<MintCalculatorUpdate> = Vec::new();
    let mut k: usize = 0;
    while k < commits.len()
        invariant
            k <= commits.len(),
            updates_view(ups@) == commits@.take(k as int),
        decreases commits.len() - k,
    {
        let (work_log_id, (initial_commit, updated_commit)) = commits[k];
        let ghost before = ups@;
        ups.push(MintCalculatorUpdate { work_log_id, initial_commit, updated_commit });
        assert(commits@[k as int] == (work_log_id, (initial_commit, updated_commit)));
        assert(updates_view(ups@) =~= updates_view(before).push(
            (work_log_id, (initial_commit, updated_commit)),
        ));
        assert(commits@.take(k + 1) =~= commits@.take(k as int).push(
            (work_log_id, (initial_commit, updated_commit)),
        ));
        k = k + 1;
    }
    assert(commits@.take(commits.len() as int) =~= commits@);
    Ok(MintCalculatorJournal { mints, updates: ups })
}

} // verus!
