use boundless::distributor::checked_parse_thresholds;
use boundless::units::cut_falls_between_chars;
use boundless::distributor::{
    eth_to_send, parse_thresholds, plan_top_up, prover_collateral_withdrawal, prover_eth_donation,
    DistributorError, TopUp,
};
use boundless::fixed_point::FixedPoint;
use boundless::u256::U256;

const ETH: u64 = 1_000_000_000_000_000_000;

#[test]
fn thresholds_parse() {
    let t = parse_thresholds("1.0", "100.0", "0.1", "10", "0.5", "20", 18).unwrap();
    assert_eq!(t.prover_eth_donate_threshold, U256::from_u64(ETH));
    assert_eq!(t.eth_threshold, U256::from_u64(ETH / 10));
    assert_eq!(t.collateral_top_up_amount, U256::from_u128(20 * ETH as u128));
    assert_eq!(parse_thresholds("x", "1", "1", "1", "1", "1", 18).err(), Some(DistributorError::InvalidAmount));
    assert_eq!(
        parse_thresholds("1", "1", "1", "1", "0.5", "1", 18).err(),
        Some(DistributorError::EthTopUpBelowThreshold)
    );
    assert_eq!(
        parse_thresholds("1", "1", "1", "2", "1", "1", 6).err(),
        Some(DistributorError::CollateralTopUpBelowThreshold)
    );
}

#[test]
fn prover_donations() {
    assert_eq!(prover_eth_donation(U256::from_u64(10), U256::from_u64(5)), Some(U256::from_u64(8)));
    assert_eq!(prover_eth_donation(U256::from_u64(11), U256::from_u64(5)), Some(U256::from_u64(9)));
    assert_eq!(prover_eth_donation(U256::from_u64(5), U256::from_u64(5)), None);
    assert_eq!(prover_collateral_withdrawal(U256::from_u64(10), U256::from_u64(1)), Some(U256::from_u64(6)));
    assert_eq!(prover_collateral_withdrawal(U256::from_u64(11), U256::from_u64(1)), Some(U256::from_u64(7)));
}

#[test]
fn top_ups() {
    let u = U256::from_u64;
    assert_eq!(plan_top_up(u(10), u(5), u(20), u(100)), TopUp::NotNeeded);
    assert_eq!(plan_top_up(u(3), u(5), u(20), u(100)), TopUp::Transfer(u(17)));
    assert_eq!(plan_top_up(u(3), u(5), u(20), u(10)), TopUp::InsufficientFunds(u(17)));
    assert_eq!(plan_top_up(u(3), u(5), u(2), u(10)), TopUp::Misconfigured);
    assert_eq!(eth_to_send(u(5), true, u(0)), u(5 + 10_000_000_000_000_000));
    assert_eq!(eth_to_send(u(5), true, u(ETH)), u(5));
    assert_eq!(eth_to_send(u(5), false, u(0)), u(5));
}

#[test]
fn fixed_point_shares() {
    let half = FixedPoint::fraction(U256::from_u64(1), U256::from_u64(2));
    assert_eq!(half.mul_unwrap(U256::from_u64(1000)), U256::from_u64(500));
    let third = FixedPoint::fraction(U256::from_u64(1), U256::from_u64(3));
    assert_eq!(third.mul_unwrap(U256::from_u64(3000)), U256::from_u64(999));
    let mut sum = FixedPoint::zero();
    sum.add_assign(half);
    let whole = sum.add(half);
    assert_eq!(whole.mul_unwrap(U256::from_u64(77)), U256::from_u64(77));
    assert_eq!(FixedPoint::default().mul_unwrap(U256::from_u64(77)), U256::zero());
}

#[test]
fn cuts_inside_characters_are_caught() {
    assert!(cut_falls_between_chars("1.5", 18));
    assert!(cut_falls_between_chars("12", 0));
    assert!(!cut_falls_between_chars("1.\u{e9}a", 1));
    assert!(cut_falls_between_chars("1.\u{e9}a", 2));
    let long = format!("0.{}\u{e9}a", "a".repeat(17));
    assert!(!cut_falls_between_chars(&long, 18));
    assert!(cut_falls_between_chars("\u{e9}.5", 18));
}

#[test]
fn checked_thresholds_refuse_only_panicking_text() {
    assert_eq!(checked_parse_thresholds("1.\u{e9}a", "1", "1", "1", "1", "1", 18), Some(Err(DistributorError::InvalidAmount)));
    assert_eq!(checked_parse_thresholds("1", "1.\u{e9}a", "1", "1", "1", "1", 1), None);
    assert_eq!(checked_parse_thresholds("x", "1.\u{e9}a", "1", "1", "1", "1", 1), Some(Err(DistributorError::InvalidAmount)));
    let t = checked_parse_thresholds("1.0", "100.0", "0.1", "10", "0.5", "20", 18).unwrap().unwrap();
    assert_eq!(t.eth_threshold, U256::from_u128(100_000_000_000_000_000));
}
