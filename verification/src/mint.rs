//! What a mint proof covers: the epochs finalized in the given blocks, the work logs whose
//! commits the guest checks, and the reward caps it looks up, each in a fixed order.
use crate::address::{Address, Digest};
use crate::claim::{EpochFinalizedRecord, UpdateRecord};
use crate::patched::{patch_from, PatchedIterator};
use crate::sorted_set::{contains_key, insert_sorted, sorted_set, sorted_set_of, SortKey};
use crate::u256::U256;
use vstd::prelude::*;

verus! {

/// A filter for work log IDs, selecting which work logs a mint proof includes. Without a
/// list it includes every log ID; with one, only the listed IDs.
pub struct WorkLogFilter {
    ids: Option<Vec<Address>>,
}

impl View for WorkLogFilter {
    /// The listed IDs, or `None` where every ID is included.
    type V = Option<Set<Address>>;

    closed spec fn view(&self) -> Option<Set<Address>> {
        match self.ids {
            Some(v) => Some(v@.to_set()),
            None => None,
        }
    }
}

impl WorkLogFilter {
    /// The listed IDs are kept in increasing order, each once.
    #[verifier::type_invariant]
    spec fn inv(self) -> bool {
        match self.ids {
            Some(v) => sorted_set(v@),
            None => true,
        }
    }

    /// The filter lets `log_id` through.
    pub open spec fn admits(&self, log_id: Address) -> bool {
        match self@ {
            Some(s) => s.contains(log_id),
            None => true,
        }
    }

    /// A filter that includes all log IDs.
    pub fn any() -> (r: Self)
        ensures
            r@ is None,
    {
        WorkLogFilter { ids: None }
    }

    /// A filter that includes no log ID.
    pub fn none() -> (r: Self)
        ensures
            r@ == Some(Set::<Address>::empty()),
    {
        let r = WorkLogFilter { ids: Some(Vec::new()) };
        assert(Seq::<Address>::empty().to_set() =~= Set::<Address>::empty());
        r
    }

    /// A filter that includes exactly the given log IDs (none where the list is empty).
    pub fn from_iter(ids: Vec<Address>) -> (r: Self)
        ensures
            r@ == Some(ids@.to_set()),
    {
        let sorted = sorted_set_of(&ids);
        WorkLogFilter { ids: Some(sorted) }
    }

    /// Whether the filter includes `log_id`.
    pub fn includes(&self, log_id: Address) -> (r: bool)
        ensures
            r == self.admits(log_id),
    {
        match &self.ids {
            Some(v) => contains_key(v, &log_id),
            None => true,
        }
    }
}

impl Default for WorkLogFilter {
    /// The default filter includes all log IDs.
    fn default() -> (r: Self)
        ensures
            r@ is None,
    {
        WorkLogFilter::any()
    }
}

/// A reward cap the guest looks up: that of work log `log` at the end of `epoch`.
#[derive(Clone, Copy, Debug, PartialEq, Eq, Structural)]
pub struct EpochLog {
    pub epoch: U256,
    pub log: Address,
}

impl SortKey for EpochLog {
    /// Ordered by epoch, then by work log ID.
    open spec fn precedes(self, other: Self) -> bool {
        self.epoch.value() < other.epoch.value() || (self.epoch.value() == other.epoch.value()
            && self.log.precedes(other.log))
    }

    proof fn lemma_strict_total(a: Self, b: Self, c: Self) {
        a.epoch.lemma_value_injective(b.epoch);
        Address::lemma_strict_total(a.log, b.log, c.log);
    }

    fn comes_before(&self, other: &Self) -> (r: bool) {
        if self.epoch.lt(&other.epoch) {
            true
        } else if self.epoch.eq(&other.epoch) {
            self.log.comes_before(&other.log)
        } else {
            false
        }
    }

    fn same_as(&self, other: &Self) -> (r: bool) {
        proof {
            self.epoch.lemma_value_injective(other.epoch);
        }
        self.epoch.eq(&other.epoch) && self.log.same_as(&other.log)
    }
}

impl SortKey for u64 {
    /// Numeric order.
    open spec fn precedes(self, other: Self) -> bool {
        self < other
    }

    proof fn lemma_strict_total(a: Self, b: Self, c: Self) {
    }

    fn comes_before(&self, other: &Self) -> (r: bool) {
        *self < *other
    }

    fn same_as(&self, other: &Self) -> (r: bool) {
        *self == *other
    }
}

/// The epochs finalized by the given events.
pub open spec fn finalized_epochs(finalized: Seq<EpochFinalizedRecord>) -> Set<U256> {
    finalized.map_values(|e: EpochFinalizedRecord| e.epoch).to_set()
}

/// An update counts for the mint: its work log passes the filter and its epoch is finalized.
pub open spec fn counts(u: UpdateRecord, epochs: Set<U256>, filter: WorkLogFilter) -> bool {
    filter.admits(u.work_log_id) && epochs.contains(u.epoch_number)
}

/// The work logs whose commit the guest checks: those of the updates that count.
pub open spec fn checked_logs(updates: Seq<UpdateRecord>, epochs: Set<U256>, filter: WorkLogFilter) -> Set<
    Address,
> {
    Set::new(
        |a: Address|
            exists|i: int|
                0 <= i < updates.len() && counts(updates[i], epochs, filter) && updates[i].work_log_id
                    == a,
    )
}

/// The reward caps the guest looks up: those of the updates that count and carry value.
pub open spec fn reward_lookups(
    updates: Seq<UpdateRecord>,
    epochs: Set<U256>,
    filter: WorkLogFilter,
) -> Set<EpochLog> {
    Set::new(
        |k: EpochLog|
            exists|i: int|
                0 <= i < updates.len() && counts(updates[i], epochs, filter)
                    && updates[i].update_value.value() != 0 && k == (EpochLog {
                    epoch: updates[i].epoch_number,
                    log: updates[i].work_log_id,
                }),
    )
}

/// The highest block number among the events.
pub open spec fn is_latest_block(finalized: Seq<EpochFinalizedRecord>, b: u64) -> bool {
    &&& exists|i: int| 0 <= i < finalized.len() && finalized[i].block_number == b
    &&& forall|i: int| 0 <= i < finalized.len() ==> finalized[i].block_number <= b
}

/// What the mint input is built from, each list in increasing order and each member once.
pub struct MintPlan {
    /// The blocks to query.
    pub block_numbers: Vec<u64>,
    /// The epochs finalized in those blocks.
    pub epochs: Vec<U256>,
    /// The last block with an `EpochFinalized` event.
    pub latest_finalization_block: u64,
    /// The block before it, at which the guest checks the work log commits.
    pub completeness_check_block: u64,
    /// The work logs whose commit the guest checks.
    pub work_logs: Vec<Address>,
    /// The reward caps the guest looks up.
    pub reward_lookups: Vec<EpochLog>,
}

/// Why a mint input cannot be built.
#[derive(Clone, Copy, Debug, PartialEq, Eq, Structural)]
pub enum MintInputError {
    /// The given blocks hold no `EpochFinalized` event.
    NoEpochFinalized,
}

/// Plans the mint input from the events found in the given blocks: the finalized epochs, the
/// work logs updated in them that the filter lets through (their commits are checked at the
/// block before the last finalization), and, for the updates that carry value, the reward
/// caps to look up. Fails where no epoch was finalized.
pub fn plan_mint_input(
    block_numbers: &Vec<u64>,
    finalized: &Vec<EpochFinalizedRecord>,
    updates: &Vec<UpdateRecord>,
    filter: &WorkLogFilter,
) -> (r: Result<MintPlan, MintInputError>)
    requires
        forall|i: int| 0 <= i < finalized.len() ==> finalized[i].block_number > 0,
    ensures
        finalized.len() == 0 <==> r is Err,
        r matches Ok(p) ==> {
            &&& sorted_set(p.block_numbers@)
            &&& p.block_numbers@.to_set() == block_numbers@.to_set()
            &&& sorted_set(p.epochs@)
            &&& p.epochs@.to_set() == finalized_epochs(finalized@)
            &&& is_latest_block(finalized@, p.latest_finalization_block)
            &&& p.completeness_check_block == p.latest_finalization_block - 1
            &&& sorted_set(p.work_logs@)
            &&& p.work_logs@.to_set() == checked_logs(updates@, finalized_epochs(finalized@), *filter)
            &&& sorted_set(p.reward_lookups@)
            &&& p.reward_lookups@.to_set() == reward_lookups(
                updates@,
                finalized_epochs(finalized@),
                *filter,
            )
        },
        r matches Err(e) ==> e == MintInputError::NoEpochFinalized,
{
    if finalized.len() == 0 {
        return Err(MintInputError::NoEpochFinalized);
    }
    let blocks = crate::claim::distinct_blocks(block_numbers);
    assert(sorted_set(blocks@));
    let ghost fin = finalized@;
    let mut epochs: Vec<U256> = Vec::new();
    let mut latest: u64 = 0;
    let mut i: usize = 0;
    while i < finalized.len()
        invariant
            fin == finalized@,
            i <= finalized.len(),
            sorted_set(epochs@),
            epochs@.to_set() == finalized_epochs(fin.take(i as int)),
            i > 0 ==> is_latest_block(fin.take(i as int), latest),
        decreases finalized.len() - i,
    {
        let e = finalized[i];
        insert_sorted(&mut epochs, e.epoch);
        proof {
            let f = |x: EpochFinalizedRecord| x.epoch;
            assert(fin.take(i + 1) =~= fin.take(i as int).push(e));
            assert(fin.take(i + 1).map_values(f) =~= fin.take(i as int).map_values(f).push(e.epoch));
            fin.take(i as int).map_values(f).lemma_push_to_set_commute(e.epoch);
        }
        if i == 0 || latest < e.block_number {
            latest = e.block_number;
        }
        proof {
            let t = fin.take(i + 1);
            assert(t[i as int] == e);
            assert forall|k: int| 0 <= k < t.len() implies t[k].block_number <= latest by {
                if k < i {
                    assert(t[k] == fin.take(i as int)[k]);
                }
            }
            if i == 0 || latest == e.block_number {
                assert(t[i as int].block_number == latest);
            } else {
                let w = choose|k: int|
                    0 <= k < fin.take(i as int).len() && fin.take(i as int)[k].block_number
                        == latest;
                assert(t[w] == fin.take(i as int)[w]);
            }
        }
        i = i + 1;
    }
    assert(fin.take(finalized.len() as int) =~= fin);
    let ghost eset = finalized_epochs(fin);
    let mut logs: Vec<Address> = Vec::new();
    let mut lookups: Vec<EpochLog> = Vec::new();
    let ghost ups = updates@;
    let mut j: usize = 0;
    while j < updates.len()
        invariant
            ups == updates@,
            j <= updates.len(),
            sorted_set(epochs@),
            epochs@.to_set() == eset,
            sorted_set(logs@),
            logs@.to_set() == checked_logs(ups.take(j as int), eset, *filter),
            sorted_set(lookups@),
            lookups@.to_set() == reward_lookups(ups.take(j as int), eset, *filter),
        decreases updates.len() - j,
    {
        let u = updates[j];
        let ghost pre = ups.take(j as int);
        let ghost post = ups.take(j + 1);
        assert(post =~= pre.push(u));
        let counted = filter.includes(u.work_log_id) && contains_key(&epochs, &u.epoch_number);
        assert(counted == counts(u, eset, *filter));
        if counted {
            insert_sorted(&mut logs, u.work_log_id);
            if !u.update_value.is_zero() {
                insert_sorted(&mut lookups, EpochLog { epoch: u.epoch_number, log: u.work_log_id });
            }
        }
        proof {
            assert(logs@.to_set() =~= checked_logs(post, eset, *filter)) by {
                assert forall|a: Address| #[trigger] checked_logs(post, eset, *filter).contains(
                    a,
                ) <==> logs@.to_set().contains(a) by {
                    if checked_logs(post, eset, *filter).contains(a) {
                        let k = choose|k: int|
                            0 <= k < post.len() && counts(post[k], eset, *filter)
                                && post[k].work_log_id == a;
                        if k < j {
                            assert(pre[k] == post[k]);
                            assert(checked_logs(pre, eset, *filter).contains(a));
                        }
                    }
                    if checked_logs(pre, eset, *filter).contains(a) {
                        let k = choose|k: int|
                            0 <= k < pre.len() && counts(pre[k], eset, *filter)
                                && pre[k].work_log_id == a;
                        assert(post[k] == pre[k]);
                    }
                    if counted && a == u.work_log_id {
                        assert(post[j as int] == u);
                    }
                }
            }
            assert(lookups@.to_set() =~= reward_lookups(post, eset, *filter)) by {
                assert forall|x: EpochLog| #[trigger] reward_lookups(post, eset, *filter).contains(
                    x,
                ) <==> lookups@.to_set().contains(x) by {
                    if reward_lookups(post, eset, *filter).contains(x) {
                        let k = choose|k: int|
                            0 <= k < post.len() && counts(post[k], eset, *filter)
                                && post[k].update_value.value() != 0 && x == (EpochLog {
                                epoch: post[k].epoch_number,
                                log: post[k].work_log_id,
                            });
                        if k < j {
                            assert(pre[k] == post[k]);
                            assert(reward_lookups(pre, eset, *filter).contains(x));
                        }
                    }
                    if reward_lookups(pre, eset, *filter).contains(x) {
                        let k = choose|k: int|
                            0 <= k < pre.len() && counts(pre[k], eset, *filter)
                                && pre[k].update_value.value() != 0 && x == (EpochLog {
                                epoch: pre[k].epoch_number,
                                log: pre[k].work_log_id,
                            });
                        assert(post[k] == pre[k]);
                    }
                    if counted && u.update_value.value() != 0 && x == (EpochLog {
                        epoch: u.epoch_number,
                        log: u.work_log_id,
                    }) {
                        assert(post[j as int] == u);
                    }
                }
            }
        }
        j = j + 1;
    }
    assert(ups.take(updates.len() as int) =~= ups);
    Ok(
        MintPlan {
            block_numbers: blocks,
            epochs,
            latest_finalization_block: latest,
            completeness_check_block: latest - 1,
            work_logs: logs,
            reward_lookups: lookups,
        },
    )
}

/// Every reward cap the guest looks up belongs to a work log whose commit it checks.
pub proof fn lemma_lookups_are_checked(
    updates: Seq<UpdateRecord>,
    epochs: Set<U256>,
    filter: WorkLogFilter,
    k: EpochLog,
)
    requires
        reward_lookups(updates, epochs, filter).contains(k),
    ensures
        checked_logs(updates, epochs, filter).contains(k.log),
        epochs.contains(k.epoch),
        filter.admits(k.log),
{
    let i = choose|i: int|
        0 <= i < updates.len() && counts(updates[i], epochs, filter)
            && updates[i].update_value.value() != 0 && k == (EpochLog {
            epoch: updates[i].epoch_number,
            log: updates[i].work_log_id,
        });
}

/// A filter that includes no log ID lets no work log into the mint: no commit is checked
/// and no reward cap is looked up.
pub proof fn lemma_empty_filter_mints_nothing(
    updates: Seq<UpdateRecord>,
    epochs: Set<U256>,
    filter: WorkLogFilter,
)
    requires
        filter@ == Some(Set::<Address>::empty()),
    ensures
        checked_logs(updates, epochs, filter) == Set::<Address>::empty(),
        reward_lookups(updates, epochs, filter) == Set::<EpochLog>::empty(),
{
    assert(checked_logs(updates, epochs, filter) =~= Set::<Address>::empty());
    assert(reward_lookups(updates, epochs, filter) =~= Set::<EpochLog>::empty());
}

/// A filter that includes every log ID leaves out only the updates of epochs that were not
/// finalized.
pub proof fn lemma_any_filter_counts_finalized(
    updates: Seq<UpdateRecord>,
    epochs: Set<U256>,
    filter: WorkLogFilter,
    i: int,
)
    requires
        filter@ is None,
        0 <= i < updates.len(),
    ensures
        checked_logs(updates, epochs, filter).contains(updates[i].work_log_id) <== epochs.contains(
            updates[i].epoch_number,
        ),
{
}

/// The largest gap between the blocks of a mint proof that uses beacon commitments: the
/// EIP-4788 buffer holds 8191 roots, and 8000 keeps clear of that.
pub const BEACON_MAX_GAP: u64 = 8000;

/// The blocks a mint proof with beacon commitments covers: the given blocks and the block
/// two before the latest, patched so that no gap upwards exceeds 8000.
pub fn beacon_block_numbers(block_numbers: Vec<u64>, latest_block_number: u64) -> (r: Vec<u64>)
    requires
        latest_block_number >= 2,
    ensures
        r@ == patch_from(None, block_numbers@.push((latest_block_number - 2) as u64), BEACON_MAX_GAP),
{
    let mut items = block_numbers;
    items.push(latest_block_number - 2);
    let mut it = PatchedIterator::<8000>::new(items);
    it.collect_all()
}

/// The shared behaviour of the builders of chain environments with different kinds of
/// commitment.
pub trait EnvBuilder {
    type Env;
    type Error;

    /// Builds the environment.
    fn build(self) -> Result<Self::Env, Self::Error>;
}

/// A builder for the mint-calculation prover; unset fields are `None`.
pub struct MintCalculatorProverBuilder<P, Q> {
    /// The underlying zkVM prover.
    pub prover: Option<P>,
    /// The Ethereum provider for blockchain queries.
    pub provider: Option<Q>,
    /// Beacon API URL, for building historical Ethereum data access proofs.
    pub beacon_api: Option<Option<String>>,
    /// Address of the PoVW accounting contract.
    pub povw_accounting_address: Option<Address>,
    /// Address of the ZKC token contract.
    pub zkc_address: Option<Address>,
    /// Address of the ZKC rewards contract.
    pub zkc_rewards_address: Option<Address>,
    /// EIP-155 chain ID of the chain specification.
    pub chain_id: Option<u64>,
    /// Image ID of the Mint Calculator program.
    pub mint_calculator_id: Option<Digest>,
    /// Executable of the Mint Calculator program.
    pub mint_calculator_program: Option<Vec<u8>>,
}

impl<P, Q> MintCalculatorProverBuilder<P, Q> {
    /// A builder with no field set.
    pub fn new() -> (r: Self)
        ensures
            r.prover is None,
            r.provider is None,
            r.beacon_api is None,
            r.povw_accounting_address is None,
            r.zkc_address is None,
            r.zkc_rewards_address is None,
            r.chain_id is None,
            r.mint_calculator_id is None,
            r.mint_calculator_program is None,
    {
        MintCalculatorProverBuilder {
            prover: None,
            provider: None,
            beacon_api: None,
            povw_accounting_address: None,
            zkc_address: None,
            zkc_rewards_address: None,
            chain_id: None,
            mint_calculator_id: None,
            mint_calculator_program: None,
        }
    }

    /// Sets the underlying zkVM prover, keeping every other field.
    pub fn prover<T>(self, prover: T) -> (r: MintCalculatorProverBuilder<T, Q>)
        ensures
            r.prover == Some(prover),
            r.provider == self.provider,
            r.beacon_api == self.beacon_api,
            r.povw_accounting_address == self.povw_accounting_address,
            r.zkc_address == self.zkc_address,
            r.zkc_rewards_address == self.zkc_rewards_address,
            r.chain_id == self.chain_id,
            r.mint_calculator_id == self.mint_calculator_id,
            r.mint_calculator_program == self.mint_calculator_program,
    {
        MintCalculatorProverBuilder {
            prover: Some(prover),
            provider: self.provider,
            beacon_api: self.beacon_api,
            povw_accounting_address: self.povw_accounting_address,
            zkc_address: self.zkc_address,
            zkc_rewards_address: self.zkc_rewards_address,
            chain_id: self.chain_id,
            mint_calculator_id: self.mint_calculator_id,
            mint_calculator_program: self.mint_calculator_program,
        }
    }

    /// Sets the Ethereum provider, keeping every other field.
    pub fn provider<T>(self, provider: T) -> (r: MintCalculatorProverBuilder<P, T>)
        ensures
            r.prover == self.prover,
            r.provider == Some(provider),
            r.beacon_api == self.beacon_api,
            r.povw_accounting_address == self.povw_accounting_address,
            r.zkc_address == self.zkc_address,
            r.zkc_rewards_address == self.zkc_rewards_address,
            r.chain_id == self.chain_id,
            r.mint_calculator_id == self.mint_calculator_id,
            r.mint_calculator_program == self.mint_calculator_program,
    {
        MintCalculatorProverBuilder {
            prover: self.prover,
            provider: Some(provider),
            beacon_api: self.beacon_api,
            povw_accounting_address: self.povw_accounting_address,
            zkc_address: self.zkc_address,
            zkc_rewards_address: self.zkc_rewards_address,
            chain_id: self.chain_id,
            mint_calculator_id: self.mint_calculator_id,
            mint_calculator_program: self.mint_calculator_program,
        }
    }
}

} // verus!
