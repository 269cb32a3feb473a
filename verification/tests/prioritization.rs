use boundless::address::Address;
use boundless::prioritization::{
    calculate_expected_profit, prioritize_orders, select_pricing_orders, FulfillmentType,
    MarketConfig, OrderCommitmentPriority, OrderPricingPriority, OrderSummary,
};
use boundless::u256::U256;

fn client(n: u32) -> Address {
    Address { hi: 0, lo: n as u128 }
}

fn order(id: u64, lock_expires_at: u64, expires_at: u64, kind: FulfillmentType) -> OrderSummary {
    OrderSummary {
        id,
        client: client(1),
        fulfillment_type: kind,
        lock_expires_at,
        expires_at,
        max_price: U256::from_u64(1_000_000_000_000_000),
        total_cycles: Some(1_000_000),
    }
}

fn config() -> MarketConfig {
    MarketConfig {
        mcycle_price: "0.00001".to_string(),
        lockin_gas_estimate: 200_000,
        fulfill_gas_estimate: 750_000,
        groth16_verify_gas_estimate: 250_000,
    }
}

fn drain(mut orders: Vec<OrderSummary>, mode: OrderPricingPriority, addrs: Option<&[Address]>) -> Vec<u64> {
    let cfg = config();
    let mut ids = Vec::new();
    while !orders.is_empty() {
        let selected = select_pricing_orders(&mut orders, mode, addrs, 1, &cfg);
        for o in selected {
            ids.push(o.id);
        }
    }
    ids
}

#[test]
fn shortest_expiry_picks_earliest_lock_expiry_first() {
    let base = 1_000;
    let timeouts = [300, 100, 500, 200, 400];
    let orders: Vec<OrderSummary> = timeouts
        .iter()
        .enumerate()
        .map(|(i, t)| order(i as u64, base + t, base + 2 * t, FulfillmentType::LockAndFulfill))
        .collect();
    assert_eq!(drain(orders, OrderPricingPriority::ShortestExpiry, None), vec![1, 3, 0, 4, 2]);
}

#[test]
fn shortest_expiry_uses_request_expiry_after_lock_expired() {
    let base = 1_000;
    let orders = vec![
        order(1, base + 300, base + 600, FulfillmentType::LockAndFulfill),
        order(2, base + 200, base + 400, FulfillmentType::FulfillAfterLockExpire),
        order(3, base + 250, base + 500, FulfillmentType::LockAndFulfill),
    ];
    assert_eq!(drain(orders, OrderPricingPriority::ShortestExpiry, None), vec![3, 1, 2]);
}

#[test]
fn observation_time_keeps_arrival_order() {
    let orders: Vec<OrderSummary> =
        (0..5).map(|i| order(i, 100 + 10 * (5 - i), 500, FulfillmentType::LockAndFulfill)).collect();
    assert_eq!(drain(orders, OrderPricingPriority::ObservationTime, None), vec![0, 1, 2, 3, 4]);
}

#[test]
fn random_priority_selects_every_order_once() {
    let orders: Vec<OrderSummary> =
        (0..5).map(|i| order(i, 100, 500, FulfillmentType::LockAndFulfill)).collect();
    let mut ids = drain(orders, OrderPricingPriority::Random, None);
    ids.sort();
    assert_eq!(ids, vec![0, 1, 2, 3, 4]);
}

#[test]
fn priority_requestors_are_priced_first() {
    let mut orders: Vec<OrderSummary> =
        (0..4).map(|i| order(i, 100 + i, 500, FulfillmentType::LockAndFulfill)).collect();
    orders[2].client = client(7);
    orders[3].client = client(7);
    let priority = [client(7)];
    let ids = drain(orders, OrderPricingPriority::ShortestExpiry, Some(&priority));
    assert_eq!(ids, vec![2, 3, 0, 1]);
}

#[test]
fn highest_expected_value_orders_by_profit() {
    let mut orders: Vec<OrderSummary> =
        (0..3).map(|i| order(i, 100, 500, FulfillmentType::LockAndFulfill)).collect();
    orders[0].max_price = U256::from_u64(50_000_000_000_000_000);
    orders[1].max_price = U256::from_u64(90_000_000_000_000_000);
    orders[2].max_price = U256::from_u64(70_000_000_000_000_000);
    let out = prioritize_orders(orders, OrderCommitmentPriority::HighestExpectedValue, None, &config());
    let ids: Vec<u64> = out.iter().map(|o| o.id).collect();
    assert_eq!(ids, vec![1, 2, 0]);
}

#[test]
fn unprofitable_orders_have_zero_expected_profit() {
    let mut o = order(0, 100, 500, FulfillmentType::LockAndFulfill);
    o.max_price = U256::from_u64(1);
    let gas = U256::from_u64(20_000_000_000);
    let price = U256::from_u64(10_000_000_000_000);
    let profit = calculate_expected_profit(&o, price, gas, 200_000, 750_000, 250_000);
    assert!(profit.is_zero());
    // 3 million cycles at 1e13 wei per million, and 1.2 million gas at 20 gwei.
    o.max_price = U256::from_u64(100_000_000_000_000_000);
    o.total_cycles = Some(3_500_000);
    let profit = calculate_expected_profit(&o, price, gas, 200_000, 750_000, 250_000);
    let expected = 100_000_000_000_000_000u64 - 3 * 10_000_000_000_000 - 1_200_000 * 20_000_000_000;
    assert_eq!(profit, U256::from_u64(expected));
}

#[test]
fn missing_cycle_counts_cost_no_proving() {
    let mut o = order(0, 100, 500, FulfillmentType::LockAndFulfill);
    o.total_cycles = None;
    o.max_price = U256::from_u64(30_000_000_000_000_000);
    let gas = U256::from_u64(20_000_000_000);
    let price = U256::from_u64(10_000_000_000_000);
    let profit = calculate_expected_profit(&o, price, gas, 200_000, 750_000, 250_000);
    assert_eq!(profit, U256::from_u64(30_000_000_000_000_000 - 1_200_000 * 20_000_000_000));
}

#[test]
fn selecting_with_capacity_takes_a_prefix() {
    let mut orders: Vec<OrderSummary> =
        (0..5).map(|i| order(i, 500 - 10 * i, 900, FulfillmentType::LockAndFulfill)).collect();
    let cfg = config();
    let selected = select_pricing_orders(&mut orders, OrderPricingPriority::ShortestExpiry, None, 2, &cfg);
    assert_eq!(selected.iter().map(|o| o.id).collect::<Vec<_>>(), vec![4, 3]);
    assert_eq!(orders.iter().map(|o| o.id).collect::<Vec<_>>(), vec![2, 1, 0]);
    let none = select_pricing_orders(&mut orders, OrderPricingPriority::ShortestExpiry, None, 0, &cfg);
    assert!(none.is_empty());
    assert_eq!(orders.len(), 3);
}
