use boundless::address::Address;
use boundless::amounts::{pad_u256, DbError};
use boundless::db::{
    address_list, batch_ranges, decode_delegation_power_row, decode_povw_reward_row,
    decode_staking_position_row, delegators_from_json, epoch_range_clause, optional_address,
    parse_address, values_placeholders, DelegationPowerRow, PovwRewardRow, StakingPositionRow,
    BATCH_INSERT_CHUNK_SIZE,
};
use boundless::u256::U256;

#[test]
fn insert_placeholders() {
    assert_eq!(values_placeholders(1, 3, true), "($1,$2,$3,CURRENT_TIMESTAMP)");
    assert_eq!(
        values_placeholders(2, 5, true),
        "($1,$2,$3,$4,$5,CURRENT_TIMESTAMP),($6,$7,$8,$9,$10,CURRENT_TIMESTAMP)"
    );
    assert_eq!(values_placeholders(2, 2, false), "($1,$2),($3,$4)");
    assert_eq!(values_placeholders(0, 9, true), "");
}

#[test]
fn history_filters() {
    assert_eq!(epoch_range_clause(None, None), " ORDER BY epoch DESC");
    assert_eq!(epoch_range_clause(Some(1), None), " AND epoch >= $2 ORDER BY epoch DESC");
    assert_eq!(epoch_range_clause(None, Some(1)), " AND epoch <= $2 ORDER BY epoch DESC");
    assert_eq!(
        epoch_range_clause(Some(1), Some(4)),
        " AND epoch >= $2 AND epoch <= $3 ORDER BY epoch DESC"
    );
}

#[test]
fn insert_batches() {
    assert_eq!(batch_ranges(0, BATCH_INSERT_CHUNK_SIZE), vec![]);
    assert_eq!(batch_ranges(75, BATCH_INSERT_CHUNK_SIZE), vec![(0, 75)]);
    assert_eq!(batch_ranges(160, BATCH_INSERT_CHUNK_SIZE), vec![(0, 75), (75, 150), (150, 160)]);
}

#[test]
fn stored_addresses() {
    let a = Address { hi: 0xd8da6bf2, lo: 0x6964af9d7eed9e03e53415d37aa96045 };
    assert_eq!(parse_address("0xd8dA6BF26964aF9D7eEd9e03E53415D37aA96045"), Ok(a));
    assert_eq!(parse_address("d8da6bf26964af9d7eed9e03e53415d37aa96045"), Ok(a));
    assert!(matches!(parse_address("0x1234"), Err(DbError::BadTransaction(_))));
    assert!(matches!(parse_address("0xg8da6bf26964af9d7eed9e03e53415d37aa96045"), Err(DbError::BadTransaction(_))));
    assert_eq!(optional_address(&Some("junk".to_string())), None);
    assert_eq!(optional_address(&None), None);
    let texts = vec!["0x0000000000000000000000000000000000000001".to_string(), "junk".to_string()];
    assert_eq!(address_list(&texts), vec![Address { hi: 0, lo: 1 }]);
    assert_eq!(
        delegators_from_json("[\"0x0000000000000000000000000000000000000002\",\"bad\"]"),
        vec![Address { hi: 0, lo: 2 }]
    );
    assert_eq!(delegators_from_json("not json"), vec![]);
}

#[test]
fn stored_rows_decode() {
    let row = PovwRewardRow {
        work_log_id: "0x00000000000000000000000000000000000000ab".to_string(),
        epoch: 3,
        work_submitted: pad_u256(U256::from_u64(500)),
        percentage_bits: 0.5f64.to_bits(),
        uncapped_rewards: pad_u256(U256::from_u64(7)),
        reward_cap: pad_u256(U256::from_u64(6)),
        actual_rewards: pad_u256(U256::from_u64(6)),
        is_capped: 1,
        staked_amount: pad_u256(U256::zero()),
    };
    let v = decode_povw_reward_row(&row).unwrap();
    assert_eq!(v.work_log_id, Address { hi: 0, lo: 0xab });
    assert_eq!(v.work_submitted, U256::from_u64(500));
    assert!(v.is_capped);
    assert_eq!(v.staked_amount, U256::zero());
    let bad = PovwRewardRow { reward_cap: "12x".to_string(), ..row };
    match decode_povw_reward_row(&bad) {
        Err(DbError::BadTransaction(m)) => assert_eq!(m, "Invalid U256 string: 12x"),
        _ => panic!("expected an error"),
    }
    let pos = StakingPositionRow {
        epoch: 2,
        staked_amount: pad_u256(U256::from_u64(10)),
        is_withdrawing: 0,
        rewards_delegated_to: Some("0x0000000000000000000000000000000000000005".to_string()),
        votes_delegated_to: Some("oops".to_string()),
        rewards_generated: pad_u256(U256::from_u64(1)),
    };
    let p = decode_staking_position_row(Address { hi: 0, lo: 9 }, &pos).unwrap();
    assert_eq!(p.staker_address, Address { hi: 0, lo: 9 });
    assert_eq!(p.rewards_delegated_to, Some(Address { hi: 0, lo: 5 }));
    assert_eq!(p.votes_delegated_to, None);
    assert!(!p.is_withdrawing);
    let d = DelegationPowerRow {
        epoch: 4,
        power: pad_u256(U256::from_u64(33)),
        delegator_count: 1,
        delegators: "[\"0x0000000000000000000000000000000000000003\"]".to_string(),
    };
    let e = decode_delegation_power_row(Address { hi: 0, lo: 9 }, &d).unwrap();
    assert_eq!(e.power, U256::from_u64(33));
    assert_eq!(e.delegators, vec![Address { hi: 0, lo: 3 }]);
    assert_eq!(e.delegator_count, 1);
}
