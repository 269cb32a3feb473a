//! Delegation responses of the indexer API (vote and reward delegations share their shape)
//! and their construction from stored rows.
use crate::address::Address;
use crate::indexer::{
    address_text, amount_text, lemma_page_bounds, page, page_range, LeaderboardResponse,
    PaginationMetadata, PaginationParams,
};
use crate::u256::U256;
use crate::text::lemma_decimal_digits;
use vstd::prelude::*;

verus! {

/// The delegation power of a delegate in one epoch, as stored.
pub struct DelegationPowerByEpoch {
    pub delegate_address: Address,
    pub epoch: u64,
    /// The vote or reward power delegated.
    pub power: U256,
    pub delegator_count: u64,
    pub delegators: Vec<Address>,
}

/// The delegation power of a delegate over all epochs, as stored.
pub struct DelegationPowerAggregate {
    pub delegate_address: Address,
    /// The vote or reward power delegated.
    pub total_power: U256,
    pub delegator_count: u64,
    pub delegators: Vec<Address>,
    pub epochs_participated: u64,
}

/// The vote power delegated to a delegate in one epoch, as stored.
pub struct VoteDelegationPowerByEpoch {
    pub delegate_address: Address,
    pub epoch: u64,
    pub vote_power: U256,
    pub delegator_count: u64,
    pub delegators: Vec<Address>,
}

/// The reward power delegated to a delegate in one epoch, as stored.
pub struct RewardDelegationPowerByEpoch {
    pub delegate_address: Address,
    pub epoch: u64,
    pub reward_power: U256,
    pub delegator_count: u64,
    pub delegators: Vec<Address>,
}

/// The vote power delegated to a delegate over all epochs, as stored.
pub struct VoteDelegationPowerAggregate {
    pub delegate_address: Address,
    pub total_vote_power: U256,
    pub delegator_count: u64,
    pub delegators: Vec<Address>,
    pub epochs_participated: u64,
}

/// The reward power delegated to a delegate over all epochs, as stored.
pub struct RewardDelegationPowerAggregate {
    pub delegate_address: Address,
    pub total_reward_power: U256,
    pub delegator_count: u64,
    pub delegators: Vec<Address>,
    pub epochs_participated: u64,
}

impl VoteDelegationPowerByEpoch {
    /// The row with its vote power as the delegated power.
    pub fn into_power_row(self) -> (r: DelegationPowerByEpoch)
        ensures
            r.delegate_address == self.delegate_address,
            r.epoch == self.epoch,
            r.power == self.vote_power,
            r.delegator_count == self.delegator_count,
            r.delegators@ == self.delegators@,
    {
        DelegationPowerByEpoch {
            delegate_address: self.delegate_address,
            epoch: self.epoch,
            power: self.vote_power,
            delegator_count: self.delegator_count,
            delegators: self.delegators,
        }
    }
}

impl RewardDelegationPowerByEpoch {
    /// The row with its reward power as the delegated power.
    pub fn into_power_row(self) -> (r: DelegationPowerByEpoch)
        ensures
            r.delegate_address == self.delegate_address,
            r.epoch == self.epoch,
            r.power == self.reward_power,
            r.delegator_count == self.delegator_count,
            r.delegators@ == self.delegators@,
    {
        DelegationPowerByEpoch {
            delegate_address: self.delegate_address,
            epoch: self.epoch,
            power: self.reward_power,
            delegator_count: self.delegator_count,
            delegators: self.delegators,
        }
    }
}

impl VoteDelegationPowerAggregate {
    /// The aggregate with its total vote power as the delegated power.
    pub fn into_power_aggregate(self) -> (r: DelegationPowerAggregate)
        ensures
            r.delegate_address == self.delegate_address,
            r.total_power == self.total_vote_power,
            r.delegator_count == self.delegator_count,
            r.delegators@ == self.delegators@,
            r.epochs_participated == self.epochs_participated,
    {
        DelegationPowerAggregate {
            delegate_address: self.delegate_address,
            total_power: self.total_vote_power,
            delegator_count: self.delegator_count,
            delegators: self.delegators,
            epochs_participated: self.epochs_participated,
        }
    }
}

impl RewardDelegationPowerAggregate {
    /// The aggregate with its total reward power as the delegated power.
    pub fn into_power_aggregate(self) -> (r: DelegationPowerAggregate)
        ensures
            r.delegate_address == self.delegate_address,
            r.total_power == self.total_reward_power,
            r.delegator_count == self.delegator_count,
            r.delegators@ == self.delegators@,
            r.epochs_participated == self.epochs_participated,
    {
        DelegationPowerAggregate {
            delegate_address: self.delegate_address,
            total_power: self.total_reward_power,
            delegator_count: self.delegator_count,
            delegators: self.delegators,
            epochs_participated: self.epochs_participated,
        }
    }
}

/// Entry of a delegation power list.
pub struct DelegationPowerEntry {
    /// Rank in the leaderboard (1-based, only present in leaderboard contexts).
    pub rank: Option<u64>,
    pub delegate_address: String,
    pub power: String,
    pub delegator_count: u64,
    pub delegators: Vec<String>,
    /// Number of epochs participated (aggregates only).
    pub epochs_participated: Option<u64>,
    /// The epoch (per-epoch entries only).
    pub epoch: Option<u64>,
}

/// Summary of vote delegations.
pub struct VoteDelegationSummaryStats {
    pub total_unique_delegates: u64,
    pub total_unique_delegators: u64,
    pub current_total_delegated_power: String,
    pub current_total_delegated_power_formatted: String,
    pub current_active_delegations: u64,
}

/// Summary of reward delegations.
pub struct RewardDelegationSummaryStats {
    pub total_unique_delegates: u64,
    pub total_unique_delegators: u64,
    pub current_total_delegated_power: String,
    pub current_total_delegated_power_formatted: String,
    pub current_active_delegations: u64,
}

/// Delegation summary of one epoch.
pub struct EpochDelegationSummary {
    pub epoch: u64,
    pub total_delegated_power: String,
    pub total_delegated_power_formatted: String,
    pub num_delegates: u64,
    pub num_delegators: u64,
    pub epoch_start_time: u64,
    pub epoch_end_time: u64,
}

/// The texts of the addresses, in order.
pub open spec fn addresses_shown(texts: Seq<String>, addresses: Seq<Address>) -> bool {
    &&& texts.len() == addresses.len()
    &&& forall|i: int| 0 <= i < texts.len() ==> #[trigger] texts[i]@ == addresses[i].hex()
}

/// The addresses as text, in order.
pub fn address_texts(addresses: &Vec<Address>) -> (r: Vec<String>)
    ensures
        addresses_shown(r@, addresses@),
{
    let mut r: Vec<String> = Vec::new();
    let mut i: usize = 0;
    while i < addresses.len()
        invariant
            i <= addresses.len(),
            r.len() == i,
            forall|k: int| 0 <= k < i ==> #[trigger] r@[k]@ == addresses@[k].hex(),
        decreases addresses.len() - i,
    {
        r.push(address_text(&addresses[i]));
        i = i + 1;
    }
    r
}

/// The decimal text of a power.
fn power_text(v: U256) -> (s: String)
    ensures
        s@ == amount_text(v.value()),
{
    let s = v.to_decimal();
    proof {
        lemma_decimal_digits(v.value());
    }
    s
}

impl DelegationPowerEntry {
    /// This entry shows the per-epoch row `p`, with rank `rank` and epoch `epoch`.
    pub open spec fn shows_epoch_row(self, p: DelegationPowerByEpoch, rank: Option<u64>, epoch: u64) -> bool {
        &&& self.rank == rank
        &&& self.delegate_address@ == p.delegate_address.hex()
        &&& self.power@ == amount_text(p.power.value())
        &&& self.delegator_count == p.delegator_count
        &&& addresses_shown(self.delegators@, p.delegators@)
        &&& self.epochs_participated is None
        &&& self.epoch == Some(epoch)
    }

    /// This entry shows the aggregate `a`, with rank `rank`.
    pub open spec fn shows_aggregate(self, a: DelegationPowerAggregate, rank: Option<u64>) -> bool {
        &&& self.rank == rank
        &&& self.delegate_address@ == a.delegate_address.hex()
        &&& self.power@ == amount_text(a.total_power.value())
        &&& self.delegator_count == a.delegator_count
        &&& addresses_shown(self.delegators@, a.delegators@)
        &&& self.epochs_participated == Some(a.epochs_participated)
        &&& self.epoch is None
    }

    /// The entry for a per-epoch row.
    pub fn from_epoch_row(p: &DelegationPowerByEpoch, rank: Option<u64>, epoch: u64) -> (r: Self)
        ensures
            r.shows_epoch_row(*p, rank, epoch),
    {
        DelegationPowerEntry {
            rank,
            delegate_address: address_text(&p.delegate_address),
            power: power_text(p.power),
            delegator_count: p.delegator_count,
            delegators: address_texts(&p.delegators),
            epochs_participated: None,
            epoch: Some(epoch),
        }
    }

    /// The entry for an aggregate.
    pub fn from_aggregate(a: &DelegationPowerAggregate, rank: Option<u64>) -> (r: Self)
        ensures
            r.shows_aggregate(*a, rank),
    {
        DelegationPowerEntry {
            rank,
            delegate_address: address_text(&a.delegate_address),
            power: power_text(a.total_power),
            delegator_count: a.delegator_count,
            delegators: address_texts(&a.delegators),
            epochs_participated: Some(a.epochs_participated),
            epoch: None,
        }
    }
}

/// The all-time delegation leaderboard page, ranked from `offset + 1`.
pub fn delegation_leaderboard(
    aggregates: &Vec<DelegationPowerAggregate>,
    params: PaginationParams,
) -> (r: LeaderboardResponse<DelegationPowerEntry>)
    requires
        params.offset + aggregates.len() <= u64::MAX,
    ensures
        r.entries.len() == aggregates.len(),
        forall|i: int|
            0 <= i < r.entries.len() ==> #[trigger] r.entries@[i].shows_aggregate(
                aggregates@[i],
                Some((params.offset + i + 1) as u64),
            ),
        r.pagination == (PaginationMetadata {
            count: aggregates.len(),
            offset: params.offset,
            limit: params.limit,
        }),
{
    let offset = params.offset;
    let mut r: Vec<DelegationPowerEntry> = Vec::new();
    let mut i: usize = 0;
    while i < aggregates.len()
        invariant
            offset == params.offset,
            offset + aggregates.len() <= u64::MAX,
            i <= aggregates.len(),
            r.len() == i,
            forall|k: int|
                0 <= k < i ==> #[trigger] r@[k].shows_aggregate(
                    aggregates@[k],
                    Some((offset + k + 1) as u64),
                ),
        decreases aggregates.len() - i,
    {
        let rank = offset + i as u64 + 1;
        r.push(DelegationPowerEntry::from_aggregate(&aggregates[i], Some(rank)));
        i = i + 1;
    }
    LeaderboardResponse::new(r, params.offset, params.limit)
}

/// The delegation leaderboard page of an epoch, ranked from `offset + 1`; each entry names
/// the epoch asked for.
pub fn delegation_epoch_leaderboard(
    powers: &Vec<DelegationPowerByEpoch>,
    epoch: u64,
    params: PaginationParams,
) -> (r: LeaderboardResponse<DelegationPowerEntry>)
    requires
        params.offset + powers.len() <= u64::MAX,
    ensures
        r.entries.len() == powers.len(),
        forall|i: int|
            0 <= i < r.entries.len() ==> #[trigger] r.entries@[i].shows_epoch_row(
                powers@[i],
                Some((params.offset + i + 1) as u64),
                epoch,
            ),
        r.pagination == (PaginationMetadata {
            count: powers.len(),
            offset: params.offset,
            limit: params.limit,
        }),
{
    let offset = params.offset;
    let mut r: Vec<DelegationPowerEntry> = Vec::new();
    let mut i: usize = 0;
    while i < powers.len()
        invariant
            offset == params.offset,
            offset + powers.len() <= u64::MAX,
            i <= powers.len(),
            r.len() == i,
            forall|k: int|
                0 <= k < i ==> #[trigger] r@[k].shows_epoch_row(
                    powers@[k],
                    Some((offset + k + 1) as u64),
                    epoch,
                ),
        decreases powers.len() - i,
    {
        let rank = offset + i as u64 + 1;
        r.push(DelegationPowerEntry::from_epoch_row(&powers[i], Some(rank), epoch));
        i = i + 1;
    }
    LeaderboardResponse::new(r, params.offset, params.limit)
}

/// The delegations an address received over time: the page of its rows at the given offset
/// and limit, unranked, each naming its own epoch.
pub fn delegation_history(history: &Vec<DelegationPowerByEpoch>, params: PaginationParams) -> (r:
    LeaderboardResponse<DelegationPowerEntry>)
    ensures
        r.entries.len() == page(history@, params.offset as nat, params.limit as nat).len(),
        forall|i: int|
            0 <= i < r.entries.len() ==> {
                let p = #[trigger] page(history@, params.offset as nat, params.limit as nat)[i];
                r.entries@[i].shows_epoch_row(p, None, p.epoch)
            },
        r.pagination == (PaginationMetadata {
            count: r.entries.len(),
            offset: params.offset,
            limit: params.limit,
        }),
{
    let (start, end) = page_range(history.len(), params.offset, params.limit);
    let ghost pg = page(history@, params.offset as nat, params.limit as nat);
    proof {
        lemma_page_bounds(history@, params.offset as nat, params.limit as nat);
    }
    let mut entries: Vec<DelegationPowerEntry> = Vec::new();
    let mut i: usize = start;
    while i < end
        invariant
            start <= i <= end <= history.len(),
            pg == history@.subrange(start as int, end as int),
            entries.len() == i - start,
            forall|k: int|
                0 <= k < entries.len() ==> #[trigger] entries@[k].shows_epoch_row(
                    pg[k],
                    None,
                    pg[k].epoch,
                ),
        decreases end - i,
    {
        let row = &history[i];
        entries.push(DelegationPowerEntry::from_epoch_row(row, None, row.epoch));
        i = i + 1;
    }
    LeaderboardResponse::new(entries, params.offset, params.limit)
}

/// The delegation an address received at one epoch: the first stored row, unranked, if any.
pub fn delegation_at_epoch(history: &Vec<DelegationPowerByEpoch>) -> (r: Option<DelegationPowerEntry>)
    ensures
        history.len() == 0 <==> r is None,
        r matches Some(e) ==> e.shows_epoch_row(history@[0], None, history@[0].epoch),
{
    if history.len() == 0 {
        None
    } else {
        Some(DelegationPowerEntry::from_epoch_row(&history[0], None, history[0].epoch))
    }
}

} // verus!
