use boundless::indexer::{indexer_step, runs_once, IndexerStep};
use boundless::address::Address;
use boundless::delegation_views::{
    delegation_at_epoch, delegation_epoch_leaderboard, delegation_history, delegation_leaderboard,
    DelegationPowerAggregate, DelegationPowerByEpoch, RewardDelegationPowerAggregate,
    VoteDelegationPowerByEpoch,
};
use boundless::indexer::{
    classify_error, paginate, povw_address_at_epoch, povw_address_history, povw_address_summary,
    povw_epoch_leaderboard, povw_leaderboard, povw_summary_stats, ErrorClass, HealthResponse,
    LeaderboardResponse, PaginationParams, PovwRewardAggregate, PovwRewardByEpoch, PovwSummaryRow,
    WorkLogRewardInfo,
};
use boundless::staking_views::{
    staking_address_history, staking_leaderboard, staking_summary_stats, StakingPositionAggregate,
    StakingPosition, StakingPositionByEpoch, StakingSummaryRow,
};
use boundless::u256::U256;

const ZKC: u128 = 1_000_000_000_000_000_000;

fn addr(n: u128) -> Address {
    Address { hi: 0, lo: n }
}

#[test]
fn pagination_is_capped() {
    assert_eq!(PaginationParams { limit: 500, offset: 3 }.validate(), PaginationParams { limit: 100, offset: 3 });
    assert_eq!(PaginationParams { limit: 20, offset: 0 }.validate(), PaginationParams { limit: 20, offset: 0 });
    let d = PaginationParams::default_params();
    assert_eq!((d.limit, d.offset), (50, 0));
}

#[test]
fn pages_of_lists() {
    let v: Vec<u32> = (0..10).collect();
    assert_eq!(paginate(&v, 2, 3), vec![2, 3, 4]);
    assert_eq!(paginate(&v, 8, 5), vec![8, 9]);
    assert_eq!(paginate(&v, 10, 5), Vec::<u32>::new());
    assert_eq!(paginate(&v, u64::MAX, u64::MAX), Vec::<u32>::new());
    let r = LeaderboardResponse::new(vec![1, 2], 4, 2);
    assert_eq!(r.pagination.count, 2);
    assert_eq!(r.pagination.offset, 4);
}

#[test]
fn health_response() {
    let h = HealthResponse::healthy();
    assert_eq!(h.status, "healthy");
    assert_eq!(h.service, "indexer-api");
}

fn reward(epoch: u64) -> PovwRewardByEpoch {
    PovwRewardByEpoch {
        work_log_id: addr(0xab),
        epoch,
        work_submitted: U256::from_u64(1_234_567),
        percentage_bits: 12.5f64.to_bits(),
        uncapped_rewards: U256::from_u128(3 * ZKC),
        reward_cap: U256::from_u128(2 * ZKC),
        actual_rewards: U256::from_u128(2 * ZKC),
        is_capped: true,
        staked_amount: U256::from_u128(1500 * ZKC),
    }
}

#[test]
fn povw_epoch_entries() {
    let rows = vec![reward(3), reward(3)];
    let entries = povw_epoch_leaderboard(&rows, 10);
    assert_eq!(entries[0].rank, Some(11));
    assert_eq!(entries[1].rank, Some(12));
    let e = &entries[0];
    assert_eq!(e.work_log_id, "0x00000000000000000000000000000000000000ab");
    assert_eq!(e.work_submitted, "1234567");
    assert_eq!(e.work_submitted_formatted, "1,234,567 cycles");
    assert_eq!(f64::from_bits(e.percentage_bits), 12.5);
    assert_eq!(e.uncapped_rewards, "3000000000000000000");
    assert_eq!(e.uncapped_rewards_formatted, "3 ZKC");
    assert_eq!(e.staked_amount_formatted, "1,500 ZKC");
    assert!(e.is_capped);
    assert!(povw_address_at_epoch(&vec![]).is_none());
    assert_eq!(povw_address_at_epoch(&rows).unwrap().rank, None);
}

#[test]
fn povw_history_pages_and_summarizes() {
    let rows: Vec<PovwRewardByEpoch> = (0..5).map(reward).collect();
    let r = povw_address_history(&rows, &None, &addr(0xab), PaginationParams { limit: 2, offset: 3 });
    assert_eq!(r.entries.len(), 2);
    assert_eq!(r.entries[0].epoch, 3);
    assert_eq!(r.entries[1].epoch, 4);
    assert_eq!(r.entries[0].rank, None);
    assert_eq!(r.pagination.count, 2);
    assert_eq!(r.summary.work_log_id, "0x00000000000000000000000000000000000000ab");
    assert_eq!(r.summary.total_work_submitted, "0");
    assert_eq!(r.summary.total_work_submitted_formatted, "0 cycles");
    assert_eq!(r.summary.total_actual_rewards_formatted, "0 ZKC");
    let agg = PovwRewardAggregate {
        work_log_id: addr(0xab),
        total_work_submitted: U256::from_u64(5000),
        total_actual_rewards: U256::from_u128(10 * ZKC),
        total_uncapped_rewards: U256::from_u128(12 * ZKC),
        epochs_participated: 5,
    };
    let s = povw_address_summary(&addr(0xab), &Some(agg));
    assert_eq!(s.total_work_submitted_formatted, "5,000 cycles");
    assert_eq!(s.total_uncapped_rewards_formatted, "12 ZKC");
    assert_eq!(s.epochs_participated, 5);
    let board = povw_leaderboard(&vec![agg], 0);
    assert_eq!(board[0].rank, Some(1));
    assert_eq!(board[0].total_actual_rewards, "10000000000000000000");
}

#[test]
fn povw_summary_statistics() {
    let row = PovwSummaryRow {
        total_epochs_with_work: 3,
        total_unique_work_log_ids: 2,
        total_work_all_time: U256::from_u64(1000),
        total_emissions_all_time: U256::from_u128(5 * ZKC),
        total_capped_rewards_all_time: U256::zero(),
        total_uncapped_rewards_all_time: U256::from_u128(ZKC),
        updated_at: Some("2025-01-01".to_string()),
    };
    let s = povw_summary_stats(&row);
    assert_eq!(s.total_work_all_time_formatted, "1,000 cycles");
    assert_eq!(s.total_emissions_all_time_formatted, "5 ZKC");
    assert_eq!(s.last_updated_at.as_deref(), Some("2025-01-01"));
}

#[test]
fn staking_views() {
    let pos = StakingPositionByEpoch {
        staker_address: addr(1),
        epoch: 2,
        staked_amount: U256::from_u128(2500 * ZKC),
        is_withdrawing: false,
        rewards_delegated_to: Some(addr(2)),
        votes_delegated_to: None,
        rewards_generated: U256::zero(),
    };
    let r = staking_address_history(&vec![pos, pos, pos], &None, &addr(1), PaginationParams { limit: 50, offset: 1 });
    assert_eq!(r.entries.len(), 2);
    assert_eq!(r.entries[0].staked_amount_formatted, "2,500 ZKC");
    assert_eq!(r.entries[0].rewards_delegated_to.as_deref(), Some("0x0000000000000000000000000000000000000002"));
    assert_eq!(r.entries[0].votes_delegated_to, None);
    assert_eq!(r.summary.total_staked, "0");
    assert!(!r.summary.is_withdrawing);
    let agg = StakingPositionAggregate {
        staker_address: addr(1),
        total_staked: U256::from_u128(ZKC),
        is_withdrawing: true,
        rewards_delegated_to: None,
        votes_delegated_to: Some(addr(3)),
        epochs_participated: 4,
        total_rewards_generated: U256::from_u128(2 * ZKC),
        total_rewards_earned: U256::zero(),
    };
    let board = staking_leaderboard(&vec![agg], 5);
    assert_eq!(board[0].rank, Some(6));
    assert_eq!(board[0].total_rewards_generated_formatted, "2 ZKC");
    assert!(board[0].is_withdrawing);
    let stats = staking_summary_stats(&StakingSummaryRow {
        current_total_staked: U256::from_u128(3 * ZKC),
        total_unique_stakers: 2,
        current_active_stakers: 1,
        current_withdrawing: 1,
        total_staking_emissions_all_time: None,
        updated_at: None,
    });
    assert_eq!(stats.total_staking_emissions_all_time.as_deref(), Some("0"));
    assert_eq!(stats.total_staking_emissions_all_time_formatted.as_deref(), Some("0 ZKC"));
    assert_eq!(stats.current_total_staked_formatted, "3 ZKC");
}

#[test]
fn delegation_views() {
    let row = DelegationPowerByEpoch {
        delegate_address: addr(9),
        epoch: 4,
        power: U256::from_u64(123),
        delegator_count: 2,
        delegators: vec![addr(1), addr(2)],
    };
    let board = delegation_epoch_leaderboard(&vec![row], 7, PaginationParams { limit: 10, offset: 0 });
    assert_eq!(board.entries[0].rank, Some(1));
    assert_eq!(board.entries[0].epoch, Some(7));
    assert_eq!(board.entries[0].power, "123");
    assert_eq!(board.entries[0].delegators[1], "0x0000000000000000000000000000000000000002");
    let row = DelegationPowerByEpoch {
        delegate_address: addr(9),
        epoch: 4,
        power: U256::from_u64(123),
        delegator_count: 2,
        delegators: vec![],
    };
    let h = delegation_history(&vec![row], PaginationParams { limit: 10, offset: 0 });
    assert_eq!(h.entries[0].epoch, Some(4));
    assert_eq!(h.entries[0].rank, None);
    assert_eq!(h.entries[0].epochs_participated, None);
    let agg = DelegationPowerAggregate {
        delegate_address: addr(9),
        total_power: U256::from_u64(5),
        delegator_count: 1,
        delegators: vec![addr(3)],
        epochs_participated: 8,
    };
    let board = delegation_leaderboard(&vec![agg], PaginationParams { limit: 10, offset: 2 });
    assert_eq!(board.entries[0].rank, Some(3));
    assert_eq!(board.entries[0].epochs_participated, Some(8));
    assert_eq!(board.entries[0].epoch, None);
    assert!(delegation_at_epoch(&vec![]).is_none());
}

#[test]
fn error_classification() {
    assert_eq!(classify_error("database is down"), ErrorClass::ServiceUnavailable);
    assert_eq!(classify_error("lost connection"), ErrorClass::ServiceUnavailable);
    assert_eq!(classify_error("row not found in database"), ErrorClass::ServiceUnavailable);
    assert_eq!(classify_error("No data found for epoch 3"), ErrorClass::NotFound);
    assert_eq!(classify_error("epoch not found"), ErrorClass::NotFound);
    assert_eq!(classify_error("boom"), ErrorClass::Internal);
    assert_eq!(ErrorClass::NotFound.status_code(), 404);
    assert_eq!(ErrorClass::ServiceUnavailable.status_code(), 503);
    assert_eq!(ErrorClass::Internal.status_code(), 500);
    assert_eq!(ErrorClass::NotFound.message(), "The requested data was not found.");
    assert_eq!(ErrorClass::Internal.reason(), "Internal Server Error");
}

#[test]
fn reward_info_becomes_epoch_row() {
    let info = WorkLogRewardInfo {
        work_log_id: addr(9),
        work: U256::from_u64(777),
        proportional_rewards: U256::from_u128(5 * ZKC),
        reward_cap: U256::from_u128(4 * ZKC),
        capped_rewards: U256::from_u128(4 * ZKC),
        is_capped: true,
        staking_amount: U256::from_u128(100 * ZKC),
    };
    let row = PovwRewardByEpoch::from_reward_info(info);
    assert_eq!(row.work_log_id, addr(9));
    assert_eq!(row.epoch, 0);
    assert_eq!(row.percentage_bits, 0);
    assert_eq!(row.work_submitted, U256::from_u64(777));
    assert_eq!(row.uncapped_rewards, U256::from_u128(5 * ZKC));
    assert_eq!(row.actual_rewards, U256::from_u128(4 * ZKC));
    assert!(row.is_capped);
    assert_eq!(row.staked_amount, U256::from_u128(100 * ZKC));
}

#[test]
fn staking_position_becomes_epoch_row() {
    let position = StakingPosition {
        staked_amount: U256::from_u128(250 * ZKC),
        is_withdrawing: false,
        rewards_delegated_to: Some(addr(3)),
        votes_delegated_to: None,
        rewards_generated: U256::from_u128(ZKC),
    };
    let row = StakingPositionByEpoch::from_position(addr(7), 12, &position);
    assert_eq!(row.staker_address, addr(7));
    assert_eq!(row.epoch, 12);
    assert_eq!(row.staked_amount, U256::from_u128(250 * ZKC));
    assert!(!row.is_withdrawing);
    assert_eq!(row.rewards_delegated_to, Some(addr(3)));
    assert_eq!(row.votes_delegated_to, None);
    assert_eq!(row.rewards_generated, U256::from_u128(ZKC));
}

#[test]
fn vote_and_reward_rows_share_the_power_model() {
    let vote = VoteDelegationPowerByEpoch {
        delegate_address: addr(4),
        epoch: 8,
        vote_power: U256::from_u128(3 * ZKC),
        delegator_count: 2,
        delegators: vec![addr(1), addr(2)],
    };
    let row = vote.into_power_row();
    assert_eq!(row.delegate_address, addr(4));
    assert_eq!(row.epoch, 8);
    assert_eq!(row.power, U256::from_u128(3 * ZKC));
    assert_eq!(row.delegator_count, 2);
    assert_eq!(row.delegators, vec![addr(1), addr(2)]);

    let reward = RewardDelegationPowerAggregate {
        delegate_address: addr(5),
        total_reward_power: U256::from_u64(42),
        delegator_count: 1,
        delegators: vec![addr(6)],
        epochs_participated: 3,
    };
    let agg = reward.into_power_aggregate();
    assert_eq!(agg.delegate_address, addr(5));
    assert_eq!(agg.total_power, U256::from_u64(42));
    assert_eq!(agg.delegators, vec![addr(6)]);
    assert_eq!(agg.epochs_participated, 3);
}

#[test]
fn indexer_runs_once_or_retries() {
    assert!(runs_once(Some(3), Some(100)));
    assert!(!runs_once(Some(3), None));
    assert!(!runs_once(None, None));
    assert_eq!(indexer_step(true, 0, 3, true), (IndexerStep::Finished, 0));
    assert_eq!(indexer_step(true, 0, 3, false), (IndexerStep::Failed, 0));
    assert_eq!(indexer_step(false, 2, 3, true), (IndexerStep::Sleep, 0));
    assert_eq!(indexer_step(false, 0, 3, false), (IndexerStep::Retry, 1));
    assert_eq!(indexer_step(false, 1, 3, false), (IndexerStep::Retry, 2));
    assert_eq!(indexer_step(false, 2, 3, false), (IndexerStep::GiveUp, 3));
    assert_eq!(indexer_step(false, 0, 0, false), (IndexerStep::GiveUp, 1));
}
