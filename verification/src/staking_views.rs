//! Staking responses of the indexer API and their construction from stored rows.
use crate::address::Address;
use crate::indexer::{
    address_text, amount_text, copy_optional_text, lemma_page_bounds, optional_address_text, page,
    page_range, zkc_strings, zkc_text, AddressLeaderboardResponse, PaginationMetadata,
    PaginationParams,
};
use crate::receipts::opt_text;
use crate::u256::U256;
use vstd::prelude::*;

verus! {

/// The text of an optional address.
pub open spec fn opt_hex(a: Option<Address>) -> Option<Seq<char>> {
    match a {
        Some(x) => Some(x.hex()),
        None => None,
    }
}

/// A staking position in one epoch, as stored.
#[derive(Clone, Copy, Debug, PartialEq, Eq, Structural)]
pub struct StakingPositionByEpoch {
    pub staker_address: Address,
    pub epoch: u64,
    pub staked_amount: U256,
    pub is_withdrawing: bool,
    pub rewards_delegated_to: Option<Address>,
    pub votes_delegated_to: Option<Address>,
    pub rewards_generated: U256,
}

/// A staking position as the rewards computation reports it.
#[derive(Clone, Copy, Debug, PartialEq, Eq, Structural)]
pub struct StakingPosition {
    pub staked_amount: U256,
    pub is_withdrawing: bool,
    pub rewards_delegated_to: Option<Address>,
    pub votes_delegated_to: Option<Address>,
    pub rewards_generated: U256,
}

impl StakingPositionByEpoch {
    /// The row for the position of `staker_address` in `epoch`.
    pub fn from_position(staker_address: Address, epoch: u64, position: &StakingPosition) -> (r:
        Self)
        ensures
            r == (StakingPositionByEpoch {
                staker_address,
                epoch,
                staked_amount: position.staked_amount,
                is_withdrawing: position.is_withdrawing,
                rewards_delegated_to: position.rewards_delegated_to,
                votes_delegated_to: position.votes_delegated_to,
                rewards_generated: position.rewards_generated,
            }),
    {
        StakingPositionByEpoch {
            staker_address,
            epoch,
            staked_amount: position.staked_amount,
            is_withdrawing: position.is_withdrawing,
            rewards_delegated_to: position.rewards_delegated_to,
            votes_delegated_to: position.votes_delegated_to,
            rewards_generated: position.rewards_generated,
        }
    }
}

/// The staking rewards of a staker in one epoch, as stored.
#[derive(Clone, Copy, Debug, PartialEq, Eq, Structural)]
pub struct StakingRewardByEpoch {
    pub staker_address: Address,
    pub epoch: u64,
    pub staking_power: U256,
    /// Bits of the share of the epoch's staking power, in percent.
    pub percentage_bits: u64,
    pub rewards_earned: U256,
}

/// A staking position over all epochs, as stored.
#[derive(Clone, Copy, Debug, PartialEq, Eq, Structural)]
pub struct StakingPositionAggregate {
    pub staker_address: Address,
    pub total_staked: U256,
    pub is_withdrawing: bool,
    pub rewards_delegated_to: Option<Address>,
    pub votes_delegated_to: Option<Address>,
    pub epochs_participated: u64,
    pub total_rewards_generated: U256,
    pub total_rewards_earned: U256,
}

/// Entry of the staking leaderboard of an epoch.
pub struct EpochStakingEntry {
    /// Rank in the leaderboard (1-based, only present in leaderboard contexts).
    pub rank: Option<u64>,
    pub staker_address: String,
    pub epoch: u64,
    pub staked_amount: String,
    pub staked_amount_formatted: String,
    pub is_withdrawing: bool,
    pub rewards_delegated_to: Option<String>,
    pub votes_delegated_to: Option<String>,
    pub rewards_generated: String,
    pub rewards_generated_formatted: String,
}

impl EpochStakingEntry {
    /// This entry shows the position `p` with rank `rank`.
    pub open spec fn shows(self, p: StakingPositionByEpoch, rank: Option<u64>) -> bool {
        &&& self.rank == rank
        &&& self.staker_address@ == p.staker_address.hex()
        &&& self.epoch == p.epoch
        &&& self.staked_amount@ == amount_text(p.staked_amount.value())
        &&& self.staked_amount_formatted@ == zkc_text(p.staked_amount.value())
        &&& self.is_withdrawing == p.is_withdrawing
        &&& opt_text(self.rewards_delegated_to) == opt_hex(p.rewards_delegated_to)
        &&& opt_text(self.votes_delegated_to) == opt_hex(p.votes_delegated_to)
        &&& self.rewards_generated@ == amount_text(p.rewards_generated.value())
        &&& self.rewards_generated_formatted@ == zkc_text(p.rewards_generated.value())
    }

    /// The entry for a position, with the given rank.
    pub fn from_position(p: &StakingPositionByEpoch, rank: Option<u64>) -> (r: Self)
        ensures
            r.shows(*p, rank),
    {
        let (staked, staked_f) = zkc_strings(p.staked_amount);
        let (generated, generated_f) = zkc_strings(p.rewards_generated);
        EpochStakingEntry {
            rank,
            staker_address: address_text(&p.staker_address),
            epoch: p.epoch,
            staked_amount: staked,
            staked_amount_formatted: staked_f,
            is_withdrawing: p.is_withdrawing,
            rewards_delegated_to: optional_address_text(&p.rewards_delegated_to),
            votes_delegated_to: optional_address_text(&p.votes_delegated_to),
            rewards_generated: generated,
            rewards_generated_formatted: generated_f,
        }
    }
}

/// Entry of the all-time staking leaderboard.
pub struct AggregateStakingEntry {
    /// Rank in the leaderboard (1-based, only present in leaderboard contexts).
    pub rank: Option<u64>,
    pub staker_address: String,
    pub total_staked: String,
    pub total_staked_formatted: String,
    pub is_withdrawing: bool,
    pub rewards_delegated_to: Option<String>,
    pub votes_delegated_to: Option<String>,
    pub epochs_participated: u64,
    pub total_rewards_generated: String,
    pub total_rewards_generated_formatted: String,
}

impl AggregateStakingEntry {
    /// This entry shows the aggregate `a` with rank `rank`.
    pub open spec fn shows(self, a: StakingPositionAggregate, rank: Option<u64>) -> bool {
        &&& self.rank == rank
        &&& self.staker_address@ == a.staker_address.hex()
        &&& self.total_staked@ == amount_text(a.total_staked.value())
        &&& self.total_staked_formatted@ == zkc_text(a.total_staked.value())
        &&& self.is_withdrawing == a.is_withdrawing
        &&& opt_text(self.rewards_delegated_to) == opt_hex(a.rewards_delegated_to)
        &&& opt_text(self.votes_delegated_to) == opt_hex(a.votes_delegated_to)
        &&& self.epochs_participated == a.epochs_participated
        &&& self.total_rewards_generated@ == amount_text(a.total_rewards_generated.value())
        &&& self.total_rewards_generated_formatted@ == zkc_text(a.total_rewards_generated.value())
    }

    /// The entry for an aggregate, with the given rank.
    pub fn from_aggregate(a: &StakingPositionAggregate, rank: Option<u64>) -> (r: Self)
        ensures
            r.shows(*a, rank),
    {
        let (staked, staked_f) = zkc_strings(a.total_staked);
        let (generated, generated_f) = zkc_strings(a.total_rewards_generated);
        AggregateStakingEntry {
            rank,
            staker_address: address_text(&a.staker_address),
            total_staked: staked,
            total_staked_formatted: staked_f,
            is_withdrawing: a.is_withdrawing,
            rewards_delegated_to: optional_address_text(&a.rewards_delegated_to),
            votes_delegated_to: optional_address_text(&a.votes_delegated_to),
            epochs_participated: a.epochs_participated,
            total_rewards_generated: generated,
            total_rewards_generated_formatted: generated_f,
        }
    }
}

/// Staking summary of one address.
pub struct StakingAddressSummary {
    pub staker_address: String,
    pub total_staked: String,
    pub total_staked_formatted: String,
    pub is_withdrawing: bool,
    pub rewards_delegated_to: Option<String>,
    pub votes_delegated_to: Option<String>,
    pub epochs_participated: u64,
    pub total_rewards_generated: String,
    pub total_rewards_generated_formatted: String,
}

impl StakingAddressSummary {
    /// This summary shows the stored aggregate of `address` where there is one, and an empty
    /// position otherwise.
    pub open spec fn shows(self, address: Address, aggregate: Option<StakingPositionAggregate>) -> bool {
        match aggregate {
            Some(a) => {
                &&& self.staker_address@ == a.staker_address.hex()
                &&& self.total_staked@ == amount_text(a.total_staked.value())
                &&& self.total_staked_formatted@ == zkc_text(a.total_staked.value())
                &&& self.is_withdrawing == a.is_withdrawing
                &&& opt_text(self.rewards_delegated_to) == opt_hex(a.rewards_delegated_to)
                &&& opt_text(self.votes_delegated_to) == opt_hex(a.votes_delegated_to)
                &&& self.epochs_participated == a.epochs_participated
                &&& self.total_rewards_generated@ == amount_text(a.total_rewards_generated.value())
                &&& self.total_rewards_generated_formatted@ == zkc_text(
                    a.total_rewards_generated.value(),
                )
            },
            None => {
                &&& self.staker_address@ == address.hex()
                &&& self.total_staked@ == amount_text(0)
                &&& self.total_staked_formatted@ == zkc_text(0)
                &&& !self.is_withdrawing
                &&& self.rewards_delegated_to is None
                &&& self.votes_delegated_to is None
                &&& self.epochs_participated == 0
                &&& self.total_rewards_generated@ == amount_text(0)
                &&& self.total_rewards_generated_formatted@ == zkc_text(0)
            },
        }
    }
}

/// The staking summary of `address`.
pub fn staking_address_summary(address: &Address, aggregate: &Option<StakingPositionAggregate>) -> (r:
    StakingAddressSummary)
    ensures
        r.shows(*address, *aggregate),
{
    let a = match aggregate {
        Some(a) => *a,
        None => StakingPositionAggregate {
            staker_address: *address,
            total_staked: U256::zero(),
            is_withdrawing: false,
            rewards_delegated_to: None,
            votes_delegated_to: None,
            epochs_participated: 0,
            total_rewards_generated: U256::zero(),
            total_rewards_earned: U256::zero(),
        },
    };
    let (staked, staked_f) = zkc_strings(a.total_staked);
    let (generated, generated_f) = zkc_strings(a.total_rewards_generated);
    StakingAddressSummary {
        staker_address: address_text(&a.staker_address),
        total_staked: staked,
        total_staked_formatted: staked_f,
        is_withdrawing: a.is_withdrawing,
        rewards_delegated_to: optional_address_text(&a.rewards_delegated_to),
        votes_delegated_to: optional_address_text(&a.votes_delegated_to),
        epochs_participated: a.epochs_participated,
        total_rewards_generated: generated,
        total_rewards_generated_formatted: generated_f,
    }
}

/// The staking leaderboard page of an epoch, ranked from `offset + 1`.
pub fn staking_epoch_leaderboard(positions: &Vec<StakingPositionByEpoch>, offset: u64) -> (r: Vec<
    EpochStakingEntry,
>)
    requires
        offset + positions.len() <= u64::MAX,
    ensures
        r.len() == positions.len(),
        forall|i: int|
            0 <= i < r.len() ==> #[trigger] r@[i].shows(
                positions@[i],
                Some((offset + i + 1) as u64),
            ),
{
    let mut r: Vec<EpochStakingEntry> = Vec::new();
    let mut i: usize = 0;
    while i < positions.len()
        invariant
            offset + positions.len() <= u64::MAX,
            i <= positions.len(),
            r.len() == i,
            forall|k: int|
                0 <= k < i ==> #[trigger] r@[k].shows(positions@[k], Some((offset + k + 1) as u64)),
        decreases positions.len() - i,
    {
        let rank = offset + i as u64 + 1;
        r.push(EpochStakingEntry::from_position(&positions[i], Some(rank)));
        i = i + 1;
    }
    r
}

/// The all-time staking leaderboard page, ranked from `offset + 1`.
pub fn staking_leaderboard(aggregates: &Vec<StakingPositionAggregate>, offset: u64) -> (r: Vec<
    AggregateStakingEntry,
>)
    requires
        offset + aggregates.len() <= u64::MAX,
    ensures
        r.len() == aggregates.len(),
        forall|i: int|
            0 <= i < r.len() ==> #[trigger] r@[i].shows(
                aggregates@[i],
                Some((offset + i + 1) as u64),
            ),
{
    let mut r: Vec<AggregateStakingEntry> = Vec::new();
    let mut i: usize = 0;
    while i < aggregates.len()
        invariant
            offset + aggregates.len() <= u64::MAX,
            i <= aggregates.len(),
            r.len() == i,
            forall|k: int|
                0 <= k < i ==> #[trigger] r@[k].shows(aggregates@[k], Some((offset + k + 1) as u64)),
        decreases aggregates.len() - i,
    {
        let rank = offset + i as u64 + 1;
        r.push(AggregateStakingEntry::from_aggregate(&aggregates[i], Some(rank)));
        i = i + 1;
    }
    r
}

/// The staking position of an address at one epoch: the first stored row, unranked, if any.
pub fn staking_at_epoch(positions: &Vec<StakingPositionByEpoch>) -> (r: Option<EpochStakingEntry>)
    ensures
        positions.len() == 0 <==> r is None,
        r matches Some(e) ==> e.shows(positions@[0], None),
{
    if positions.len() == 0 {
        None
    } else {
        Some(EpochStakingEntry::from_position(&positions[0], None))
    }
}

/// The staking history of an address: the page of its positions at the given offset and
/// limit, unranked, with its summary.
pub fn staking_address_history(
    positions: &Vec<StakingPositionByEpoch>,
    aggregate: &Option<StakingPositionAggregate>,
    address: &Address,
    params: PaginationParams,
) -> (r: AddressLeaderboardResponse<EpochStakingEntry, StakingAddressSummary>)
    ensures
        r.entries.len() == page(positions@, params.offset as nat, params.limit as nat).len(),
        forall|i: int|
            0 <= i < r.entries.len() ==> #[trigger] r.entries@[i].shows(
                page(positions@, params.offset as nat, params.limit as nat)[i],
                None,
            ),
        r.pagination == (PaginationMetadata {
            count: r.entries.len(),
            offset: params.offset,
            limit: params.limit,
        }),
        r.summary.shows(*address, *aggregate),
{
    let (start, end) = page_range(positions.len(), params.offset, params.limit);
    let ghost pg = page(positions@, params.offset as nat, params.limit as nat);
    proof {
        lemma_page_bounds(positions@, params.offset as nat, params.limit as nat);
    }
    let mut entries: Vec<EpochStakingEntry> = Vec::new();
    let mut i: usize = start;
    while i < end
        invariant
            start <= i <= end <= positions.len(),
            pg == positions@.subrange(start as int, end as int),
            entries.len() == i - start,
            forall|k: int| 0 <= k < entries.len() ==> #[trigger] entries@[k].shows(pg[k], None),
        decreases end - i,
    {
        entries.push(EpochStakingEntry::from_position(&positions[i], None));
        i = i + 1;
    }
    let summary = staking_address_summary(address, aggregate);
    AddressLeaderboardResponse::new(entries, params.offset, params.limit, summary)
}

/// Global staking summary statistics, as stored.
pub struct StakingSummaryRow {
    pub current_total_staked: U256,
    pub total_unique_stakers: u64,
    pub current_active_stakers: u64,
    pub current_withdrawing: u64,
    pub total_staking_emissions_all_time: Option<U256>,
    pub updated_at: Option<String>,
}

/// Global staking summary statistics.
pub struct StakingSummaryStats {
    pub current_total_staked: String,
    pub current_total_staked_formatted: String,
    pub total_unique_stakers: u64,
    pub current_active_stakers: u64,
    pub current_withdrawing: u64,
    pub total_staking_emissions_all_time: Option<String>,
    pub total_staking_emissions_all_time_formatted: Option<String>,
    pub last_updated_at: Option<String>,
}

/// The global staking summary for a stored one; emissions not yet stored count as zero.
pub fn staking_summary_stats(row: &StakingSummaryRow) -> (r: StakingSummaryStats)
    ensures
        r.current_total_staked@ == amount_text(row.current_total_staked.value()),
        r.current_total_staked_formatted@ == zkc_text(row.current_total_staked.value()),
        r.total_unique_stakers == row.total_unique_stakers,
        r.current_active_stakers == row.current_active_stakers,
        r.current_withdrawing == row.current_withdrawing,
        ({
            let e = match row.total_staking_emissions_all_time {
                Some(v) => v.value(),
                None => 0,
            };
            &&& r.total_staking_emissions_all_time matches Some(t) && t@ == amount_text(e)
            &&& r.total_staking_emissions_all_time_formatted matches Some(t) && t@ == zkc_text(e)
        }),
        opt_text(r.last_updated_at) == opt_text(row.updated_at),
{
    let (total, total_f) = zkc_strings(row.current_total_staked);
    let emissions = match row.total_staking_emissions_all_time {
        Some(v) => v,
        None => U256::zero(),
    };
    let (e, e_f) = zkc_strings(emissions);
    StakingSummaryStats {
        current_total_staked: total,
        current_total_staked_formatted: total_f,
        total_unique_stakers: row.total_unique_stakers,
        current_active_stakers: row.current_active_stakers,
        current_withdrawing: row.current_withdrawing,
        total_staking_emissions_all_time: Some(e),
        total_staking_emissions_all_time_formatted: Some(e_f),
        last_updated_at: copy_optional_text(&row.updated_at),
    }
}

/// Staking summary of one epoch, as stored.
pub struct EpochStakingSummaryRow {
    pub epoch: u64,
    pub total_staked: U256,
    pub num_stakers: u64,
    pub num_withdrawing: u64,
    pub total_staking_emissions: U256,
    pub total_staking_power: U256,
    pub num_reward_recipients: u64,
    pub epoch_start_time: u64,
    pub epoch_end_time: u64,
    pub updated_at: Option<String>,
}

/// Staking summary of one epoch.
pub struct EpochStakingSummary {
    pub epoch: u64,
    pub total_staked: String,
    pub total_staked_formatted: String,
    pub num_stakers: u64,
    pub num_withdrawing: u64,
    pub total_staking_emissions: String,
    pub total_staking_emissions_formatted: String,
    pub total_staking_power: String,
    pub total_staking_power_formatted: String,
    pub num_reward_recipients: u64,
    pub epoch_start_time: u64,
    pub epoch_end_time: u64,
    pub last_updated_at: Option<String>,
}

impl EpochStakingSummary {
    /// This summary shows the stored one.
    pub open spec fn shows(self, row: EpochStakingSummaryRow) -> bool {
        &&& self.epoch == row.epoch
        &&& self.total_staked@ == amount_text(row.total_staked.value())
        &&& self.total_staked_formatted@ == zkc_text(row.total_staked.value())
        &&& self.num_stakers == row.num_stakers
        &&& self.num_withdrawing == row.num_withdrawing
        &&& self.total_staking_emissions@ == amount_text(row.total_staking_emissions.value())
        &&& self.total_staking_emissions_formatted@ == zkc_text(row.total_staking_emissions.value())
        &&& self.total_staking_power@ == amount_text(row.total_staking_power.value())
        &&& self.total_staking_power_formatted@ == zkc_text(row.total_staking_power.value())
        &&& self.num_reward_recipients == row.num_reward_recipients
        &&& self.epoch_start_time == row.epoch_start_time
        &&& self.epoch_end_time == row.epoch_end_time
        &&& opt_text(self.last_updated_at) == opt_text(row.updated_at)
    }

    /// The summary of an epoch for a stored one.
    pub fn from_row(row: &EpochStakingSummaryRow) -> (r: Self)
        ensures
            r.shows(*row),
    {
        let (staked, staked_f) = zkc_strings(row.total_staked);
        let (emissions, emissions_f) = zkc_strings(row.total_staking_emissions);
        let (power, power_f) = zkc_strings(row.total_staking_power);
        EpochStakingSummary {
            epoch: row.epoch,
            total_staked: staked,
            total_staked_formatted: staked_f,
            num_stakers: row.num_stakers,
            num_withdrawing: row.num_withdrawing,
            total_staking_emissions: emissions,
            total_staking_emissions_formatted: emissions_f,
            total_staking_power: power,
            total_staking_power_formatted: power_f,
            num_reward_recipients: row.num_reward_recipients,
            epoch_start_time: row.epoch_start_time,
            epoch_end_time: row.epoch_end_time,
            last_updated_at: copy_optional_text(&row.updated_at),
        }
    }
}

/// The summaries of the given epochs, in order.
pub fn staking_epoch_summaries(rows: &Vec<EpochStakingSummaryRow>) -> (r: Vec<EpochStakingSummary>)
    ensures
        r.len() == rows.len(),
        forall|i: int| 0 <= i < r.len() ==> #[trigger] r@[i].shows(rows@[i]),
{
    let mut r: Vec<EpochStakingSummary> = Vec::new();
    let mut i: usize = 0;
    while i < rows.len()
        invariant
            i <= rows.len(),
            r.len() == i,
            forall|k: int| 0 <= k < i ==> #[trigger] r@[k].shows(rows@[k]),
        decreases rows.len() - i,
    {
        r.push(EpochStakingSummary::from_row(&rows[i]));
        i = i + 1;
    }
    r
}

} // verus!
