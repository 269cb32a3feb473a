//! Response models of the indexer API and their construction from stored rows: pagination,
//! ranks, and human-readable amounts.
use crate::address::Address;
use crate::receipts::opt_text;
use crate::text::chars_of;
use crate::amounts::{format_cycles, format_zkc, zkc_unit};
use crate::text::{
    all_digits, decimal_digits, decimal_value, lemma_decimal_digits, string_of, with_commas,
};
use crate::u256::{u256_modulus, U256};
use vstd::prelude::*;

verus! {

/// Health check response.
pub struct HealthResponse {
    pub status: String,
    pub service: String,
}

impl HealthResponse {
    /// The response of a healthy service: status `healthy`, service `indexer-api`.
    pub fn healthy() -> (r: HealthResponse)
        ensures
            r.status@ == seq!['h', 'e', 'a', 'l', 't', 'h', 'y'],
            r.service@ == seq!['i', 'n', 'd', 'e', 'x', 'e', 'r', '-', 'a', 'p', 'i'],
    {
        let status: Vec<char> = vec!['h', 'e', 'a', 'l', 't', 'h', 'y'];
        let service: Vec<char> = vec!['i', 'n', 'd', 'e', 'x', 'e', 'r', '-', 'a', 'p', 'i'];
        HealthResponse { status: string_of(&status), service: string_of(&service) }
    }
}

/// Default number of results per page.
pub fn default_limit() -> (r: u64)
    ensures
        r == 50,
{
    50
}

/// The largest number of results per page.
pub const MAX_LIMIT: u64 = 100;

/// Query parameters for pagination.
#[derive(Clone, Copy, Debug, PartialEq, Eq, Structural)]
pub struct PaginationParams {
    /// Number of results to return (default: 50, max: 100).
    pub limit: u64,
    /// Number of results to skip (default: 0).
    pub offset: u64,
}

impl PaginationParams {
    /// The parameters when the query gives none: limit 50, offset 0.
    pub fn default_params() -> (r: PaginationParams)
        ensures
            r.limit == 50,
            r.offset == 0,
    {
        PaginationParams { limit: default_limit(), offset: 0 }
    }

    /// Validate and normalize pagination parameters: the limit is capped at 100.
    pub fn validate(self) -> (r: PaginationParams)
        ensures
            r.limit == if self.limit < MAX_LIMIT {
                self.limit
            } else {
                MAX_LIMIT
            },
            r.offset == self.offset,
    {
        PaginationParams {
            limit: if self.limit < MAX_LIMIT {
                self.limit
            } else {
                MAX_LIMIT
            },
            offset: self.offset,
        }
    }
}

/// Pagination metadata.
#[derive(Clone, Copy, Debug, PartialEq, Eq, Structural)]
pub struct PaginationMetadata {
    /// Number of results returned.
    pub count: usize,
    /// Offset used.
    pub offset: u64,
    /// Limit used.
    pub limit: u64,
}

/// Response wrapper for leaderboard endpoints.
pub struct LeaderboardResponse<T> {
    pub entries: Vec<T>,
    pub pagination: PaginationMetadata,
}

impl<T> LeaderboardResponse<T> {
    /// Wraps the entries, counting them.
    pub fn new(entries: Vec<T>, offset: u64, limit: u64) -> (r: Self)
        ensures
            r.entries@ == entries@,
            r.pagination == (PaginationMetadata { count: entries.len(), offset, limit }),
    {
        let count = entries.len();
        LeaderboardResponse { entries, pagination: PaginationMetadata { count, offset, limit } }
    }
}

/// Response wrapper for address-specific endpoints with a summary.
pub struct AddressLeaderboardResponse<T, S> {
    pub entries: Vec<T>,
    pub pagination: PaginationMetadata,
    pub summary: S,
}

impl<T, S> AddressLeaderboardResponse<T, S> {
    /// Wraps the entries and the summary, counting the entries.
    pub fn new(entries: Vec<T>, offset: u64, limit: u64, summary: S) -> (r: Self)
        ensures
            r.entries@ == entries@,
            r.pagination == (PaginationMetadata { count: entries.len(), offset, limit }),
            r.summary == summary,
    {
        let count = entries.len();
        AddressLeaderboardResponse {
            entries,
            pagination: PaginationMetadata { count, offset, limit },
            summary,
        }
    }
}

/// The page of `items` that starts at `offset` and holds at most `limit` items; empty when
/// the offset is past the end.
pub open spec fn page<T>(items: Seq<T>, offset: nat, limit: nat) -> Seq<T> {
    if offset < items.len() {
        items.subrange(
            offset as int,
            if offset + limit < items.len() {
                (offset + limit) as int
            } else {
                items.len() as int
            },
        )
    } else {
        Seq::empty()
    }
}

/// The page of `items` at `offset`, at most `limit` long.
pub fn paginate<T: Copy>(items: &Vec<T>, offset: u64, limit: u64) -> (r: Vec<T>)
    ensures
        r@ == page(items@, offset as nat, limit as nat),
{
    let mut r: Vec<T> = Vec::new();
    if offset as u128 >= items.len() as u128 {
        return r;
    }
    let start = offset as usize;
    let available = items.len() - start;
    let count: usize = if (limit as u128) < (available as u128) {
        limit as usize
    } else {
        available
    };
    let mut i: usize = 0;
    while i < count
        invariant
            start + count <= items.len(),
            i <= count,
            r@ == items@.subrange(start as int, start + i),
        decreases count - i,
    {
        r.push(items[start + i]);
        i = i + 1;
        assert(r@ =~= items@.subrange(start as int, start + i));
    }
    r
}

/// The text of a stored amount: its decimal digits.
pub open spec fn amount_text(v: nat) -> Seq<char> {
    decimal_digits(v)
}

/// The human-readable text of a ZKC amount given in wei.
pub open spec fn zkc_text(v: nat) -> Seq<char> {
    with_commas(v / zkc_unit()) + seq![' ', 'Z', 'K', 'C']
}

/// The human-readable text of a cycle count.
pub open spec fn cycles_text(v: nat) -> Seq<char> {
    with_commas(v) + seq![' ', 'c', 'y', 'c', 'l', 'e', 's']
}

/// The decimal text of an amount, and its human-readable ZKC text.
pub fn zkc_strings(v: U256) -> (r: (String, String))
    ensures
        r.0@ == amount_text(v.value()),
        r.1@ == zkc_text(v.value()),
{
    let s = v.to_decimal();
    proof {
        lemma_decimal_digits(v.value());
        v.lemma_value_bounds();
    }
    let f = format_zkc(s.as_str());
    (s, f)
}

/// The decimal text of a cycle count, and its human-readable text.
pub fn cycles_strings(v: U256) -> (r: (String, String))
    ensures
        r.0@ == amount_text(v.value()),
        r.1@ == cycles_text(v.value()),
{
    let s = v.to_decimal();
    proof {
        lemma_decimal_digits(v.value());
        v.lemma_value_bounds();
    }
    let f = format_cycles(s.as_str());
    (s, f)
}

/// An address as text: `0x` and 40 lowercase hex digits.
pub fn address_text(a: &Address) -> (s: String)
    ensures
        s@ == a.hex(),
{
    string_of(&a.to_hex())
}

/// An optional address as text.
pub fn optional_address_text(a: &Option<Address>) -> (s: Option<String>)
    ensures
        match *a {
            Some(x) => s matches Some(t) && t@ == x.hex(),
            None => s is None,
        },
{
    match a {
        Some(x) => Some(address_text(x)),
        None => None,
    }
}

/// Stored aggregate of PoVW rewards for one work log.
#[derive(Clone, Copy, Debug, PartialEq, Eq, Structural)]
pub struct PovwRewardAggregate {
    pub work_log_id: Address,
    pub total_work_submitted: U256,
    pub total_actual_rewards: U256,
    pub total_uncapped_rewards: U256,
    pub epochs_participated: u64,
}

/// Entry of the aggregate PoVW rewards leaderboard.
pub struct AggregateLeaderboardEntry {
    /// Rank in the leaderboard (1-based, only present in leaderboard contexts).
    pub rank: Option<u64>,
    pub work_log_id: String,
    pub total_work_submitted: String,
    pub total_work_submitted_formatted: String,
    pub total_actual_rewards: String,
    pub total_actual_rewards_formatted: String,
    pub total_uncapped_rewards: String,
    pub total_uncapped_rewards_formatted: String,
    pub epochs_participated: u64,
}

impl AggregateLeaderboardEntry {
    /// This entry shows the aggregate `a` with rank `rank`.
    pub open spec fn shows(self, a: PovwRewardAggregate, rank: Option<u64>) -> bool {
        &&& self.rank == rank
        &&& self.work_log_id@ == a.work_log_id.hex()
        &&& self.total_work_submitted@ == amount_text(a.total_work_submitted.value())
        &&& self.total_work_submitted_formatted@ == cycles_text(a.total_work_submitted.value())
        &&& self.total_actual_rewards@ == amount_text(a.total_actual_rewards.value())
        &&& self.total_actual_rewards_formatted@ == zkc_text(a.total_actual_rewards.value())
        &&& self.total_uncapped_rewards@ == amount_text(a.total_uncapped_rewards.value())
        &&& self.total_uncapped_rewards_formatted@ == zkc_text(a.total_uncapped_rewards.value())
        &&& self.epochs_participated == a.epochs_participated
    }

    /// The entry for an aggregate, with the given rank.
    pub fn from_aggregate(a: &PovwRewardAggregate, rank: Option<u64>) -> (r: Self)
        ensures
            r.shows(*a, rank),
    {
        let (work, work_f) = cycles_strings(a.total_work_submitted);
        let (actual, actual_f) = zkc_strings(a.total_actual_rewards);
        let (uncapped, uncapped_f) = zkc_strings(a.total_uncapped_rewards);
        AggregateLeaderboardEntry {
            rank,
            work_log_id: address_text(&a.work_log_id),
            total_work_submitted: work,
            total_work_submitted_formatted: work_f,
            total_actual_rewards: actual,
            total_actual_rewards_formatted: actual_f,
            total_uncapped_rewards: uncapped,
            total_uncapped_rewards_formatted: uncapped_f,
            epochs_participated: a.epochs_participated,
        }
    }
}

/// The all-time PoVW leaderboard page: one entry per aggregate, ranked from `offset + 1`.
pub fn povw_leaderboard(aggregates: &Vec<PovwRewardAggregate>, offset: u64) -> (r: Vec<
    AggregateLeaderboardEntry,
>)
    requires
        offset + aggregates.len() <= u64::MAX,
    ensures
        r.len() == aggregates.len(),
        forall|i: int|
            0 <= i < r.len() ==> #[trigger] r@[i].shows(
                aggregates@[i],
                Some((offset + i + 1) as u64),
            ),
{
    let mut r: Vec<AggregateLeaderboardEntry> = Vec::new();
    let mut i: usize = 0;
    while i < aggregates.len()
        invariant
            offset + aggregates.len() <= u64::MAX,
            i <= aggregates.len(),
            r.len() == i,
            forall|k: int|
                0 <= k < i ==> #[trigger] r@[k].shows(aggregates@[k], Some((offset + k + 1) as u64)),
        decreases aggregates.len() - i,
    {
        let rank = offset + i as u64 + 1;
        r.push(AggregateLeaderboardEntry::from_aggregate(&aggregates[i], Some(rank)));
        i = i + 1;
    }
    r
}

/// Address-specific PoVW aggregate summary.
pub struct PoVWAddressSummary {
    pub work_log_id: String,
    pub total_work_submitted: String,
    pub total_work_submitted_formatted: String,
    pub total_actual_rewards: String,
    pub total_actual_rewards_formatted: String,
    pub total_uncapped_rewards: String,
    pub total_uncapped_rewards_formatted: String,
    pub epochs_participated: u64,
}

impl PoVWAddressSummary {
    /// This summary shows the stored aggregate of `address` where there is one, and zeros
    /// otherwise.
    pub open spec fn shows(self, address: Address, aggregate: Option<PovwRewardAggregate>) -> bool {
        match aggregate {
            Some(a) => {
                &&& self.work_log_id@ == a.work_log_id.hex()
                &&& self.total_work_submitted@ == amount_text(a.total_work_submitted.value())
                &&& self.total_work_submitted_formatted@ == cycles_text(
                    a.total_work_submitted.value(),
                )
                &&& self.total_actual_rewards@ == amount_text(a.total_actual_rewards.value())
                &&& self.total_actual_rewards_formatted@ == zkc_text(a.total_actual_rewards.value())
                &&& self.total_uncapped_rewards@ == amount_text(a.total_uncapped_rewards.value())
                &&& self.total_uncapped_rewards_formatted@ == zkc_text(
                    a.total_uncapped_rewards.value(),
                )
                &&& self.epochs_participated == a.epochs_participated
            },
            None => {
                &&& self.work_log_id@ == address.hex()
                &&& self.total_work_submitted@ == amount_text(0)
                &&& self.total_work_submitted_formatted@ == cycles_text(0)
                &&& self.total_actual_rewards@ == amount_text(0)
                &&& self.total_actual_rewards_formatted@ == zkc_text(0)
                &&& self.total_uncapped_rewards@ == amount_text(0)
                &&& self.total_uncapped_rewards_formatted@ == zkc_text(0)
                &&& self.epochs_participated == 0
            },
        }
    }
}

/// The PoVW summary of `address`: its stored aggregate where there is one, and zeros
/// otherwise.
pub fn povw_address_summary(address: &Address, aggregate: &Option<PovwRewardAggregate>) -> (r:
    PoVWAddressSummary)
    ensures
        r.shows(*address, *aggregate),
{
    let a = match aggregate {
        Some(a) => *a,
        None => PovwRewardAggregate {
            work_log_id: *address,
            total_work_submitted: U256::zero(),
            total_actual_rewards: U256::zero(),
            total_uncapped_rewards: U256::zero(),
            epochs_participated: 0,
        },
    };
    let (work, work_f) = cycles_strings(a.total_work_submitted);
    let (actual, actual_f) = zkc_strings(a.total_actual_rewards);
    let (uncapped, uncapped_f) = zkc_strings(a.total_uncapped_rewards);
    PoVWAddressSummary {
        work_log_id: address_text(&a.work_log_id),
        total_work_submitted: work,
        total_work_submitted_formatted: work_f,
        total_actual_rewards: actual,
        total_actual_rewards_formatted: actual_f,
        total_uncapped_rewards: uncapped,
        total_uncapped_rewards_formatted: uncapped_f,
        epochs_participated: a.epochs_participated,
    }
}

/// The bounds of the page at `offset`, at most `limit` long, of a list of `len` items.
pub open spec fn page_bounds(len: nat, offset: nat, limit: nat) -> (int, int) {
    if offset < len {
        (offset as int, if offset + limit < len {
            (offset + limit) as int
        } else {
            len as int
        })
    } else {
        (len as int, len as int)
    }
}

/// A page holds at most `limit` items, the items of the list from `offset` on, in order; it
/// is full where the list reaches that far, and empty where the offset is past the end.
pub proof fn lemma_page_shape<T>(s: Seq<T>, offset: nat, limit: nat)
    ensures
        page(s, offset, limit).len() <= limit,
        forall|i: int|
            0 <= i < page(s, offset, limit).len() ==> #[trigger] page(s, offset, limit)[i] == s[offset
                + i],
        offset + limit <= s.len() ==> page(s, offset, limit).len() == limit,
        offset >= s.len() ==> page(s, offset, limit).len() == 0,
{
}

/// The page is the part of the list between its bounds.
pub proof fn lemma_page_bounds<T>(s: Seq<T>, offset: nat, limit: nat)
    ensures
        page(s, offset, limit) == s.subrange(
            page_bounds(s.len(), offset, limit).0,
            page_bounds(s.len(), offset, limit).1,
        ),
{
    if offset >= s.len() {
        assert(s.subrange(s.len() as int, s.len() as int) =~= Seq::<T>::empty());
    }
}

/// The bounds of the page at `offset`, at most `limit` long, of a list of `len` items.
pub fn page_range(len: usize, offset: u64, limit: u64) -> (r: (usize, usize))
    ensures
        r.0 <= r.1 <= len,
        page_bounds(len as nat, offset as nat, limit as nat) == (r.0 as int, r.1 as int),
        r.0 as int == if offset < len {
            offset as int
        } else {
            len as int
        },
        r.1 as int == if offset < len {
            if offset + limit < len {
                offset + limit
            } else {
                len as int
            }
        } else {
            len as int
        },
{
    if offset as u128 >= len as u128 {
        return (len, len);
    }
    let start = offset as usize;
    let available = len - start;
    let end: usize = if (limit as u128) < (available as u128) {
        start + limit as usize
    } else {
        len
    };
    (start, end)
}

/// PoVW rewards of one work log in one epoch, as stored. The reward share is a float, carried
/// here by its IEEE-754 bits.
#[derive(Clone, Copy, Debug, PartialEq, Eq, Structural)]
pub struct PovwRewardByEpoch {
    pub work_log_id: Address,
    pub epoch: u64,
    pub work_submitted: U256,
    /// Bits of the share of the epoch's work, in percent.
    pub percentage_bits: u64,
    pub uncapped_rewards: U256,
    pub reward_cap: U256,
    pub actual_rewards: U256,
    pub is_capped: bool,
    pub staked_amount: U256,
}

/// The rewards computed for one work log in one epoch.
#[derive(Clone, Copy, Debug, PartialEq, Eq, Structural)]
pub struct WorkLogRewardInfo {
    pub work_log_id: Address,
    pub work: U256,
    pub proportional_rewards: U256,
    pub reward_cap: U256,
    pub capped_rewards: U256,
    pub is_capped: bool,
    pub staking_amount: U256,
}

impl PovwRewardByEpoch {
    /// The row for computed rewards; the epoch and the share of work (0 and 0.0 here) are
    /// set by the caller, which knows them.
    pub fn from_reward_info(info: WorkLogRewardInfo) -> (r: Self)
        ensures
            r == (PovwRewardByEpoch {
                work_log_id: info.work_log_id,
                epoch: 0,
                work_submitted: info.work,
                percentage_bits: 0,
                uncapped_rewards: info.proportional_rewards,
                reward_cap: info.reward_cap,
                actual_rewards: info.capped_rewards,
                is_capped: info.is_capped,
                staked_amount: info.staking_amount,
            }),
    {
        PovwRewardByEpoch {
            work_log_id: info.work_log_id,
            epoch: 0,
            work_submitted: info.work,
            percentage_bits: 0,
            uncapped_rewards: info.proportional_rewards,
            reward_cap: info.reward_cap,
            actual_rewards: info.capped_rewards,
            is_capped: info.is_capped,
            staked_amount: info.staking_amount,
        }
    }
}

/// Entry of the PoVW leaderboard of an epoch.
pub struct EpochLeaderboardEntry {
    /// Rank in the leaderboard (1-based, only present in leaderboard contexts).
    pub rank: Option<u64>,
    pub work_log_id: String,
    pub epoch: u64,
    pub work_submitted: String,
    pub work_submitted_formatted: String,
    /// Bits of the share of the epoch's work, in percent.
    pub percentage_bits: u64,
    pub uncapped_rewards: String,
    pub uncapped_rewards_formatted: String,
    pub reward_cap: String,
    pub reward_cap_formatted: String,
    pub actual_rewards: String,
    pub actual_rewards_formatted: String,
    pub is_capped: bool,
    pub staked_amount: String,
    pub staked_amount_formatted: String,
}

impl EpochLeaderboardEntry {
    /// This entry shows the rewards `w` with rank `rank`.
    pub open spec fn shows(self, w: PovwRewardByEpoch, rank: Option<u64>) -> bool {
        &&& self.rank == rank
        &&& self.work_log_id@ == w.work_log_id.hex()
        &&& self.epoch == w.epoch
        &&& self.work_submitted@ == amount_text(w.work_submitted.value())
        &&& self.work_submitted_formatted@ == cycles_text(w.work_submitted.value())
        &&& self.percentage_bits == w.percentage_bits
        &&& self.uncapped_rewards@ == amount_text(w.uncapped_rewards.value())
        &&& self.uncapped_rewards_formatted@ == zkc_text(w.uncapped_rewards.value())
        &&& self.reward_cap@ == amount_text(w.reward_cap.value())
        &&& self.reward_cap_formatted@ == zkc_text(w.reward_cap.value())
        &&& self.actual_rewards@ == amount_text(w.actual_rewards.value())
        &&& self.actual_rewards_formatted@ == zkc_text(w.actual_rewards.value())
        &&& self.is_capped == w.is_capped
        &&& self.staked_amount@ == amount_text(w.staked_amount.value())
        &&& self.staked_amount_formatted@ == zkc_text(w.staked_amount.value())
    }

    /// The entry for the rewards of a work log in an epoch, with the given rank.
    pub fn from_reward(w: &PovwRewardByEpoch, rank: Option<u64>) -> (r: Self)
        ensures
            r.shows(*w, rank),
    {
        let (work, work_f) = cycles_strings(w.work_submitted);
        let (uncapped, uncapped_f) = zkc_strings(w.uncapped_rewards);
        let (cap, cap_f) = zkc_strings(w.reward_cap);
        let (actual, actual_f) = zkc_strings(w.actual_rewards);
        let (staked, staked_f) = zkc_strings(w.staked_amount);
        EpochLeaderboardEntry {
            rank,
            work_log_id: address_text(&w.work_log_id),
            epoch: w.epoch,
            work_submitted: work,
            work_submitted_formatted: work_f,
            percentage_bits: w.percentage_bits,
            uncapped_rewards: uncapped,
            uncapped_rewards_formatted: uncapped_f,
            reward_cap: cap,
            reward_cap_formatted: cap_f,
            actual_rewards: actual,
            actual_rewards_formatted: actual_f,
            is_capped: w.is_capped,
            staked_amount: staked,
            staked_amount_formatted: staked_f,
        }
    }
}

/// The PoVW leaderboard page of an epoch: one entry per stored row, ranked from
/// `offset + 1`.
pub fn povw_epoch_leaderboard(rewards: &Vec<PovwRewardByEpoch>, offset: u64) -> (r: Vec<
    EpochLeaderboardEntry,
>)
    requires
        offset + rewards.len() <= u64::MAX,
    ensures
        r.len() == rewards.len(),
        forall|i: int|
            0 <= i < r.len() ==> #[trigger] r@[i].shows(rewards@[i], Some((offset + i + 1) as u64)),
{
    let mut r: Vec<EpochLeaderboardEntry> = Vec::new();
    let mut i: usize = 0;
    while i < rewards.len()
        invariant
            offset + rewards.len() <= u64::MAX,
            i <= rewards.len(),
            r.len() == i,
            forall|k: int|
                0 <= k < i ==> #[trigger] r@[k].shows(rewards@[k], Some((offset + k + 1) as u64)),
        decreases rewards.len() - i,
    {
        let rank = offset + i as u64 + 1;
        r.push(EpochLeaderboardEntry::from_reward(&rewards[i], Some(rank)));
        i = i + 1;
    }
    r
}

/// The PoVW rewards of an address at one epoch: the first stored row, unranked, if any.
pub fn povw_address_at_epoch(rewards: &Vec<PovwRewardByEpoch>) -> (r: Option<EpochLeaderboardEntry>)
    ensures
        rewards.len() == 0 <==> r is None,
        r matches Some(e) ==> e.shows(rewards@[0], None),
{
    if rewards.len() == 0 {
        None
    } else {
        Some(EpochLeaderboardEntry::from_reward(&rewards[0], None))
    }
}

/// The PoVW history of an address: the page of its rows at the given offset and limit,
/// unranked, with its summary.
pub fn povw_address_history(
    rewards: &Vec<PovwRewardByEpoch>,
    aggregate: &Option<PovwRewardAggregate>,
    address: &Address,
    params: PaginationParams,
) -> (r: AddressLeaderboardResponse<EpochLeaderboardEntry, PoVWAddressSummary>)
    ensures
        r.entries.len() == page(rewards@, params.offset as nat, params.limit as nat).len(),
        forall|i: int|
            0 <= i < r.entries.len() ==> #[trigger] r.entries@[i].shows(
                page(rewards@, params.offset as nat, params.limit as nat)[i],
                None,
            ),
        r.pagination == (PaginationMetadata {
            count: r.entries.len(),
            offset: params.offset,
            limit: params.limit,
        }),
        r.summary.shows(*address, *aggregate),
{
    let (start, end) = page_range(rewards.len(), params.offset, params.limit);
    let ghost pg = page(rewards@, params.offset as nat, params.limit as nat);
    proof {
        lemma_page_bounds(rewards@, params.offset as nat, params.limit as nat);
    }
    let mut entries: Vec<EpochLeaderboardEntry> = Vec::new();
    let mut i: usize = start;
    while i < end
        invariant
            start <= i <= end <= rewards.len(),
            pg == rewards@.subrange(start as int, end as int),
            entries.len() == i - start,
            forall|k: int| 0 <= k < entries.len() ==> #[trigger] entries@[k].shows(pg[k], None),
        decreases end - i,
    {
        entries.push(EpochLeaderboardEntry::from_reward(&rewards[i], None));
        i = i + 1;
    }
    let summary = povw_address_summary(address, aggregate);
    AddressLeaderboardResponse::new(entries, params.offset, params.limit, summary)
}

/// Global PoVW summary statistics, as stored.
pub struct PovwSummaryRow {
    pub total_epochs_with_work: u64,
    pub total_unique_work_log_ids: u64,
    pub total_work_all_time: U256,
    pub total_emissions_all_time: U256,
    pub total_capped_rewards_all_time: U256,
    pub total_uncapped_rewards_all_time: U256,
    pub updated_at: Option<String>,
}

/// Global PoVW summary statistics across all epochs.
pub struct PoVWSummaryStats {
    pub total_epochs_with_work: u64,
    pub total_unique_work_log_ids: u64,
    pub total_work_all_time: String,
    pub total_work_all_time_formatted: String,
    pub total_emissions_all_time: String,
    pub total_emissions_all_time_formatted: String,
    pub total_capped_rewards_all_time: String,
    pub total_capped_rewards_all_time_formatted: String,
    pub total_uncapped_rewards_all_time: String,
    pub total_uncapped_rewards_all_time_formatted: String,
    pub last_updated_at: Option<String>,
}

/// A copy of an optional string.
pub fn copy_optional_text(o: &Option<String>) -> (r: Option<String>)
    ensures
        opt_text(r) == opt_text(*o),
{
    match o {
        Some(s) => Some(s.clone()),
        None => None,
    }
}

/// The global PoVW summary for a stored one.
pub fn povw_summary_stats(row: &PovwSummaryRow) -> (r: PoVWSummaryStats)
    ensures
        r.total_epochs_with_work == row.total_epochs_with_work,
        r.total_unique_work_log_ids == row.total_unique_work_log_ids,
        r.total_work_all_time@ == amount_text(row.total_work_all_time.value()),
        r.total_work_all_time_formatted@ == cycles_text(row.total_work_all_time.value()),
        r.total_emissions_all_time@ == amount_text(row.total_emissions_all_time.value()),
        r.total_emissions_all_time_formatted@ == zkc_text(row.total_emissions_all_time.value()),
        r.total_capped_rewards_all_time@ == amount_text(row.total_capped_rewards_all_time.value()),
        r.total_capped_rewards_all_time_formatted@ == zkc_text(
            row.total_capped_rewards_all_time.value(),
        ),
        r.total_uncapped_rewards_all_time@ == amount_text(
            row.total_uncapped_rewards_all_time.value(),
        ),
        r.total_uncapped_rewards_all_time_formatted@ == zkc_text(
            row.total_uncapped_rewards_all_time.value(),
        ),
        opt_text(r.last_updated_at) == opt_text(row.updated_at),
{
    let (work, work_f) = cycles_strings(row.total_work_all_time);
    let (emissions, emissions_f) = zkc_strings(row.total_emissions_all_time);
    let (capped, capped_f) = zkc_strings(row.total_capped_rewards_all_time);
    let (uncapped, uncapped_f) = zkc_strings(row.total_uncapped_rewards_all_time);
    PoVWSummaryStats {
        total_epochs_with_work: row.total_epochs_with_work,
        total_unique_work_log_ids: row.total_unique_work_log_ids,
        total_work_all_time: work,
        total_work_all_time_formatted: work_f,
        total_emissions_all_time: emissions,
        total_emissions_all_time_formatted: emissions_f,
        total_capped_rewards_all_time: capped,
        total_capped_rewards_all_time_formatted: capped_f,
        total_uncapped_rewards_all_time: uncapped,
        total_uncapped_rewards_all_time_formatted: uncapped_f,
        last_updated_at: copy_optional_text(&row.updated_at),
    }
}

/// PoVW summary of one epoch, as stored.
pub struct EpochPovwSummaryRow {
    pub epoch: u64,
    pub total_work: U256,
    pub total_emissions: U256,
    pub total_capped_rewards: U256,
    pub total_uncapped_rewards: U256,
    pub epoch_start_time: u64,
    pub epoch_end_time: u64,
    pub num_participants: u64,
    pub updated_at: Option<String>,
}

/// PoVW summary of one epoch.
pub struct EpochPoVWSummary {
    pub epoch: u64,
    pub total_work: String,
    pub total_work_formatted: String,
    pub total_emissions: String,
    pub total_emissions_formatted: String,
    pub total_capped_rewards: String,
    pub total_capped_rewards_formatted: String,
    pub total_uncapped_rewards: String,
    pub total_uncapped_rewards_formatted: String,
    pub epoch_start_time: u64,
    pub epoch_end_time: u64,
    pub num_participants: u64,
    pub last_updated_at: Option<String>,
}

impl EpochPoVWSummary {
    /// This summary shows the stored one.
    pub open spec fn shows(self, row: EpochPovwSummaryRow) -> bool {
        &&& self.epoch == row.epoch
        &&& self.total_work@ == amount_text(row.total_work.value())
        &&& self.total_work_formatted@ == cycles_text(row.total_work.value())
        &&& self.total_emissions@ == amount_text(row.total_emissions.value())
        &&& self.total_emissions_formatted@ == zkc_text(row.total_emissions.value())
        &&& self.total_capped_rewards@ == amount_text(row.total_capped_rewards.value())
        &&& self.total_capped_rewards_formatted@ == zkc_text(row.total_capped_rewards.value())
        &&& self.total_uncapped_rewards@ == amount_text(row.total_uncapped_rewards.value())
        &&& self.total_uncapped_rewards_formatted@ == zkc_text(row.total_uncapped_rewards.value())
        &&& self.epoch_start_time == row.epoch_start_time
        &&& self.epoch_end_time == row.epoch_end_time
        &&& self.num_participants == row.num_participants
        &&& opt_text(self.last_updated_at) == opt_text(row.updated_at)
    }

    /// The summary of an epoch for a stored one.
    pub fn from_row(row: &EpochPovwSummaryRow) -> (r: Self)
        ensures
            r.shows(*row),
    {
        let (work, work_f) = cycles_strings(row.total_work);
        let (emissions, emissions_f) = zkc_strings(row.total_emissions);
        let (capped, capped_f) = zkc_strings(row.total_capped_rewards);
        let (uncapped, uncapped_f) = zkc_strings(row.total_uncapped_rewards);
        EpochPoVWSummary {
            epoch: row.epoch,
            total_work: work,
            total_work_formatted: work_f,
            total_emissions: emissions,
            total_emissions_formatted: emissions_f,
            total_capped_rewards: capped,
            total_capped_rewards_formatted: capped_f,
            total_uncapped_rewards: uncapped,
            total_uncapped_rewards_formatted: uncapped_f,
            epoch_start_time: row.epoch_start_time,
            epoch_end_time: row.epoch_end_time,
            num_participants: row.num_participants,
            last_updated_at: copy_optional_text(&row.updated_at),
        }
    }
}

/// The summaries of the given epochs, in order.
pub fn povw_epoch_summaries(rows: &Vec<EpochPovwSummaryRow>) -> (r: Vec<EpochPoVWSummary>)
    ensures
        r.len() == rows.len(),
        forall|i: int| 0 <= i < r.len() ==> #[trigger] r@[i].shows(rows@[i]),
{
    let mut r: Vec<EpochPoVWSummary> = Vec::new();
    let mut i: usize = 0;
    while i < rows.len()
        invariant
            i <= rows.len(),
            r.len() == i,
            forall|k: int| 0 <= k < i ==> #[trigger] r@[k].shows(rows@[k]),
        decreases rows.len() - i,
    {
        r.push(EpochPoVWSummary::from_row(&rows[i]));
        i = i + 1;
    }
    r
}

/// How a failed request is answered.
#[derive(Clone, Copy, Debug, PartialEq, Eq, Structural)]
pub enum ErrorClass {
    /// 503: the database cannot be reached.
    ServiceUnavailable,
    /// 404: the data asked for does not exist.
    NotFound,
    /// 500: anything else.
    Internal,
}

/// `s` contains `p` as a contiguous part.
pub open spec fn contains_text(s: Seq<char>, p: Seq<char>) -> bool {
    exists|i: int| 0 <= i && i + p.len() <= s.len() && #[trigger] s.subrange(i, i + p.len()) == p
}

/// Whether `s` contains `p`.
fn find_text(s: &Vec<char>, p: &Vec<char>) -> (r: bool)
    ensures
        r == contains_text(s@, p@),
{
    if p.len() > s.len() {
        return false;
    }
    let mut i: usize = 0;
    while i <= s.len() - p.len()
        invariant
            p.len() <= s.len(),
            i <= s.len() - p.len() + 1,
            forall|k: int| 0 <= k < i ==> #[trigger] s@.subrange(k, k + p.len()) != p@,
        decreases s.len() - i,
    {
        let mut j: usize = 0;
        let mut same = true;
        while j < p.len()
            invariant
                i + p.len() <= s.len(),
                j <= p.len(),
                same == forall|m: int| 0 <= m < j ==> s@[i + m] == p@[m],
            decreases p.len() - j,
        {
            if s[i + j] != p[j] {
                same = false;
            }
            j = j + 1;
        }
        if same {
            assert(s@.subrange(i as int, i + p.len()) =~= p@);
            return true;
        }
        assert(s@.subrange(i as int, i + p.len()) != p@) by {
            let m = choose|m: int| 0 <= m < p.len() && s@[i + m] != p@[m];
            assert(s@.subrange(i as int, i + p.len())[m] == s@[i + m]);
        }
        i = i + 1;
    }
    assert forall|k: int| 0 <= k && k + p@.len() <= s@.len() implies #[trigger] s@.subrange(
        k,
        k + p@.len(),
    ) != p@ by {}
    false
}

/// How a failed request with the given error message is answered: database and connection
/// errors as unavailable, missing data as not found, anything else as an internal error.
pub fn classify_error(message: &str) -> (r: ErrorClass)
    ensures
        r == if contains_text(message@, "database"@) || contains_text(message@, "connection"@) {
            ErrorClass::ServiceUnavailable
        } else if contains_text(message@, "not found"@) || contains_text(
            message@,
            "No data found"@,
        ) {
            ErrorClass::NotFound
        } else {
            ErrorClass::Internal
        },
{
    let m = chars_of(message);
    let database = chars_of("database");
    let connection = chars_of("connection");
    let not_found = chars_of("not found");
    let no_data = chars_of("No data found");
    if find_text(&m, &database) || find_text(&m, &connection) {
        ErrorClass::ServiceUnavailable
    } else if find_text(&m, &not_found) || find_text(&m, &no_data) {
        ErrorClass::NotFound
    } else {
        ErrorClass::Internal
    }
}

impl ErrorClass {
    /// The HTTP status code of the answer.
    pub fn status_code(&self) -> (r: u16)
        ensures
            r == match *self {
                ErrorClass::ServiceUnavailable => 503u16,
                ErrorClass::NotFound => 404u16,
                ErrorClass::Internal => 500u16,
            },
    {
        match self {
            ErrorClass::ServiceUnavailable => 503,
            ErrorClass::NotFound => 404,
            ErrorClass::Internal => 500,
        }
    }

    /// The message the answer gives.
    pub fn message(&self) -> (r: String)
        ensures
            r@ == match *self {
                ErrorClass::ServiceUnavailable => "Database connection error. Please try again later."@,
                ErrorClass::NotFound => "The requested data was not found."@,
                ErrorClass::Internal => "An internal error occurred. Please try again later."@,
            },
    {
        match self {
            ErrorClass::ServiceUnavailable => "Database connection error. Please try again later.".to_owned(),
            ErrorClass::NotFound => "The requested data was not found.".to_owned(),
            ErrorClass::Internal => "An internal error occurred. Please try again later.".to_owned(),
        }
    }

    /// The canonical reason phrase of the status code.
    pub fn reason(&self) -> (r: String)
        ensures
            r@ == match *self {
                ErrorClass::ServiceUnavailable => "Service Unavailable"@,
                ErrorClass::NotFound => "Not Found"@,
                ErrorClass::Internal => "Internal Server Error"@,
            },
    {
        match self {
            ErrorClass::ServiceUnavailable => "Service Unavailable".to_owned(),
            ErrorClass::NotFound => "Not Found".to_owned(),
            ErrorClass::Internal => "Internal Server Error".to_owned(),
        }
    }
}

/// The OpenAPI description of the indexer API.
pub struct ApiDoc;

/// What the rewards indexer does after one run of its service.
#[derive(Clone, Copy, Debug, PartialEq, Eq, Structural)]
pub enum IndexerStep {
    /// The single run asked for succeeded: stop.
    Finished,
    /// The single run asked for failed: stop with its error.
    Failed,
    /// The run succeeded: sleep for the interval, then run again.
    Sleep,
    /// The run failed, with retries left: sleep for the interval, then run again.
    Retry,
    /// The run failed and the retries are used up: stop with an error.
    GiveUp,
}

/// The indexer runs once, rather than in a loop, when both an end epoch and an end block
/// are given.
pub fn runs_once(end_epoch: Option<u64>, end_block: Option<u64>) -> (r: bool)
    ensures
        r == (end_epoch is Some && end_block is Some),
{
    end_epoch.is_some() && end_block.is_some()
}

/// The step after a run that succeeded (`ok`) or failed, and the count of consecutive
/// failures after it. A success resets the count; a failure adds one, and the indexer
/// gives up once the count reaches `retries`. A single run stops either way.
pub fn indexer_step(run_once: bool, failures: u32, retries: u32, ok: bool) -> (r: (IndexerStep, u32))
    requires
        failures < u32::MAX,
    ensures
        run_once ==> r == (if ok {
            IndexerStep::Finished
        } else {
            IndexerStep::Failed
        }, failures),
        !run_once && ok ==> r == (IndexerStep::Sleep, 0u32),
        !run_once && !ok ==> r.1 == failures + 1 && r.0 == if failures + 1 >= retries {
            IndexerStep::GiveUp
        } else {
            IndexerStep::Retry
        },
{
    if run_once {
        if ok {
            (IndexerStep::Finished, failures)
        } else {
            (IndexerStep::Failed, failures)
        }
    } else if ok {
        (IndexerStep::Sleep, 0)
    } else {
        let f = failures + 1;
        if f >= retries {
            (IndexerStep::GiveUp, f)
        } else {
            (IndexerStep::Retry, f)
        }
    }
}

} // verus!
