use boundless::staking::checked_plan_stake;
use boundless::staking::{
    check_withdrawable, confirmation_given, confirms, epochs_before, epochs_with_rewards, permit_deadline, plan_stake,
    plan_unstake, total_rewards, withdrawal_time, RewardsError, StakeAction, StakeError,
    StakeMethod, UnstakeError, UnstakeStep,
};
use boundless::u256::U256;

#[test]
fn stake_amounts_are_parsed_in_zkc() {
    let plan = plan_stake("1.5", U256::zero(), false, false).unwrap();
    assert_eq!(plan.amount, U256::from_u64(1_500_000_000_000_000_000));
    assert!(!plan.add);
    assert_eq!(plan.action, StakeAction::Send { method: StakeMethod::StakeWithPermit, confirm_first: true });
}

#[test]
fn stake_adds_to_an_open_position() {
    let plan = plan_stake("2", U256::from_u64(7), false, true).unwrap();
    assert!(plan.add);
    assert_eq!(plan.action, StakeAction::Send { method: StakeMethod::AddToStake, confirm_first: false });
    let plan = plan_stake("2", U256::from_u64(7), false, false).unwrap();
    assert_eq!(plan.action, StakeAction::Send { method: StakeMethod::AddToStakeWithPermit, confirm_first: false });
    let plan = plan_stake("2", U256::zero(), false, true).unwrap();
    assert_eq!(plan.action, StakeAction::Send { method: StakeMethod::Stake, confirm_first: true });
    let plan = plan_stake("2", U256::zero(), true, false).unwrap();
    assert_eq!(plan.action, StakeAction::PrintCalldata);
}

#[test]
fn stake_rejects_bad_and_zero_amounts() {
    assert_eq!(plan_stake("abc", U256::zero(), false, false), Err(StakeError::InvalidAmount));
    assert_eq!(plan_stake("0", U256::zero(), false, false), Err(StakeError::BelowMinimum));
}

#[test]
fn permit_deadline_is_relative_to_the_latest_block() {
    assert_eq!(permit_deadline(3600, 1_700_000_000), U256::from_u64(1_700_003_600));
}

#[test]
fn confirmation_needs_yes() {
    assert!(confirms("yes\n"));
    assert!(confirms("  YES  "));
    assert!(confirms("Yes"));
    assert!(!confirms("y"));
    assert!(!confirms("no"));
    assert!(!confirms(""));
    assert!(!confirms("yes please"));
}

#[test]
fn unstake_steps() {
    let one = U256::from_u64(1);
    assert_eq!(plan_unstake(U256::zero(), one, U256::zero()), Err(UnstakeError::NoActiveStaking));
    assert_eq!(plan_unstake(one, U256::zero(), U256::zero()), Err(UnstakeError::NoStakedAmount));
    assert_eq!(plan_unstake(one, one, U256::zero()), Ok(UnstakeStep::Initiate));
    assert_eq!(
        plan_unstake(one, one, U256::from_u64(1_800_000_000)),
        Ok(UnstakeStep::Complete { withdrawable_at: 1_800_000_000 })
    );
    assert_eq!(
        plan_unstake(one, one, U256::from_u128(1u128 << 64)),
        Err(UnstakeError::WithdrawalTimeOutOfRange)
    );
}

#[test]
fn unstake_completes_only_after_cooldown() {
    assert_eq!(
        check_withdrawable(99, 100),
        Err(UnstakeError::WithdrawalPending { withdrawable_at: 100 })
    );
    assert_eq!(check_withdrawable(100, 100), Ok(()));
    assert_eq!(check_withdrawable(101, 100), Ok(()));
}

#[test]
fn withdrawal_times() {
    assert_eq!(withdrawal_time(U256::zero()), Ok(None));
    assert_eq!(withdrawal_time(U256::from_u64(5)), Ok(Some(5)));
    assert_eq!(withdrawal_time(U256::max_value()), Err(UnstakeError::WithdrawalTimeOutOfRange));
}

#[test]
fn unclaimed_epochs_and_totals() {
    let epochs = epochs_before(U256::from_u64(4)).unwrap();
    assert_eq!(epochs, vec![U256::zero(), U256::from_u64(1), U256::from_u64(2), U256::from_u64(3)]);
    assert_eq!(epochs_before(U256::from_u128(1u128 << 32)), Err(RewardsError::EpochOutOfRange));
    let unclaimed = vec![U256::zero(), U256::from_u64(5), U256::zero(), U256::from_u64(1)];
    assert_eq!(epochs_with_rewards(&unclaimed), vec![U256::from_u64(1), U256::from_u64(3)]);
    assert_eq!(total_rewards(&unclaimed), U256::from_u64(6));
    assert_eq!(total_rewards(&vec![U256::max_value(), U256::from_u64(2)]), U256::from_u64(1));
    assert_eq!(total_rewards(&vec![]), U256::zero());
}

#[test]
fn end_of_input_lets_the_command_go_ahead() {
    assert!(confirmation_given(None));
    assert!(confirmation_given(Some("yes\n")));
    assert!(!confirmation_given(Some("\n")));
    assert!(!confirmation_given(Some("no\n")));
}

#[test]
fn checked_stake_refuses_a_cut_inside_a_character() {
    let long = format!("0.{}\u{e9}a", "1".repeat(17));
    assert_eq!(checked_plan_stake(&long, U256::zero(), false, false), None);
    assert_eq!(checked_plan_stake("abc", U256::zero(), false, false), Some(Err(StakeError::InvalidAmount)));
    assert!(matches!(checked_plan_stake("1.5", U256::zero(), false, false), Some(Ok(_))));
}
