//! Order prioritization for the broker: which orders to price first, and which to commit to.
use crate::address::Address;
use crate::sorting::{
    arrange, is_sort_permutation, key_values, lemma_stably_sorted_ordered,
    lemma_stably_sorted_permutes, stable_sort_by_keys, stably_sorted,
};
use crate::u256::{u256_modulus, U256};
use crate::units::{cut_falls_between_chars, cut_on_char_boundary, ether_parse, parse_ether};
use rand::seq::SliceRandom;
use vstd::prelude::*;

verus! {

/// How an order is to be fulfilled.
#[derive(Clone, Copy, Debug, PartialEq, Eq, Structural)]
pub enum FulfillmentType {
    /// Lock the request, then fulfill it before the lock expires.
    LockAndFulfill,
    /// Fulfill the request after another prover's lock has expired.
    FulfillAfterLockExpire,
}

/// What the prioritization reads of an order request.
#[derive(Clone, Copy, Debug, PartialEq, Eq, Structural)]
pub struct OrderSummary {
    /// Identifier of the order, carried through unchanged.
    pub id: u64,
    /// Address of the client that submitted the request.
    pub client: Address,
    /// How the order is to be fulfilled.
    pub fulfillment_type: FulfillmentType,
    /// Time at which the lock on the request expires.
    pub lock_expires_at: u64,
    /// Time at which the request expires.
    pub expires_at: u64,
    /// Maximum price of the offer, in wei.
    pub max_price: U256,
    /// Cycle count of the request, where it is known.
    pub total_cycles: Option<u64>,
}

impl OrderSummary {
    /// The deadline that matters for this order: the lock expiry when it is to be locked,
    /// the request expiry otherwise.
    pub open spec fn deadline(self) -> u64 {
        match self.fulfillment_type {
            FulfillmentType::LockAndFulfill => self.lock_expires_at,
            FulfillmentType::FulfillAfterLockExpire => self.expires_at,
        }
    }

    /// The deadline that matters for this order.
    pub fn expiry(&self) -> (r: u64)
        ensures
            r == self.deadline(),
    {
        match self.fulfillment_type {
            FulfillmentType::LockAndFulfill => self.lock_expires_at,
            FulfillmentType::FulfillAfterLockExpire => self.expires_at,
        }
    }
}

/// Order in which orders are picked for pricing.
#[derive(Clone, Copy, Debug, PartialEq, Eq, Structural)]
pub enum OrderPricingPriority {
    Random,
    ObservationTime,
    ShortestExpiry,
    HighestExpectedValue,
}

/// Order in which orders are committed to.
#[derive(Clone, Copy, Debug, PartialEq, Eq, Structural)]
pub enum OrderCommitmentPriority {
    Random,
    ShortestExpiry,
    HighestExpectedValue,
}

/// Unified priority mode for both pricing and commitment.
#[derive(Clone, Copy, Debug, PartialEq, Eq, Structural)]
pub enum UnifiedPriorityMode {
    Random,
    TimeOrdered,
    ShortestExpiry,
    HighestExpectedValue,
}

impl UnifiedPriorityMode {
    /// The mode for a pricing priority.
    pub open spec fn of_pricing(p: OrderPricingPriority) -> UnifiedPriorityMode {
        match p {
            OrderPricingPriority::Random => UnifiedPriorityMode::Random,
            OrderPricingPriority::ObservationTime => UnifiedPriorityMode::TimeOrdered,
            OrderPricingPriority::ShortestExpiry => UnifiedPriorityMode::ShortestExpiry,
            OrderPricingPriority::HighestExpectedValue => UnifiedPriorityMode::HighestExpectedValue,
        }
    }

    /// The mode for a commitment priority.
    pub open spec fn of_commitment(p: OrderCommitmentPriority) -> UnifiedPriorityMode {
        match p {
            OrderCommitmentPriority::Random => UnifiedPriorityMode::Random,
            OrderCommitmentPriority::ShortestExpiry => UnifiedPriorityMode::ShortestExpiry,
            OrderCommitmentPriority::HighestExpectedValue => UnifiedPriorityMode::HighestExpectedValue,
        }
    }

    /// The mode for a pricing priority.
    pub fn from_pricing(p: OrderPricingPriority) -> (r: UnifiedPriorityMode)
        ensures
            r == Self::of_pricing(p),
    {
        match p {
            OrderPricingPriority::Random => UnifiedPriorityMode::Random,
            OrderPricingPriority::ObservationTime => UnifiedPriorityMode::TimeOrdered,
            OrderPricingPriority::ShortestExpiry => UnifiedPriorityMode::ShortestExpiry,
            OrderPricingPriority::HighestExpectedValue => UnifiedPriorityMode::HighestExpectedValue,
        }
    }

    /// The mode for a commitment priority.
    pub fn from_commitment(p: OrderCommitmentPriority) -> (r: UnifiedPriorityMode)
        ensures
            r == Self::of_commitment(p),
    {
        match p {
            OrderCommitmentPriority::Random => UnifiedPriorityMode::Random,
            OrderCommitmentPriority::ShortestExpiry => UnifiedPriorityMode::ShortestExpiry,
            OrderCommitmentPriority::HighestExpectedValue => UnifiedPriorityMode::HighestExpectedValue,
        }
    }
}

/// The market settings that the prioritization reads.
pub struct MarketConfig {
    /// Price of one million cycles, in ether, as a decimal string.
    pub mcycle_price: String,
    /// Gas estimate of locking a request.
    pub lockin_gas_estimate: u64,
    /// Gas estimate of fulfilling a request.
    pub fulfill_gas_estimate: u64,
    /// Gas estimate of verifying a Groth16 proof.
    pub groth16_verify_gas_estimate: u64,
}

/// The fallback price of one million cycles, 0.00001 ether, in wei.
pub open spec fn default_mcycle_price_wei() -> nat {
    10_000_000_000_000
}

/// The gas price assumed when estimating profit: 20 gwei, in wei.
pub open spec fn assumed_gas_price_wei() -> nat {
    20_000_000_000
}

/// The price of one million cycles, in wei, that the configuration gives.
pub open spec fn mcycle_price_wei(config: MarketConfig) -> nat {
    match ether_parse(config.mcycle_price@) {
        Some(v) => v,
        None => default_mcycle_price_wei(),
    }
}

/// Expected profit of an order in wei, computed with 256-bit wrapping arithmetic: the
/// maximum price, less the proving cost (the price of each whole million cycles, where
/// the cycle count is known) and the gas cost of locking, fulfilling and verifying; 0 where the costs exceed the price. The probability of success is taken to be 1.
pub open spec fn expected_profit(
    order: OrderSummary,
    mcycle_price: nat,
    gas_price: nat,
    lockin_gas: u64,
    fulfill_gas: u64,
    verify_gas: u64,
) -> nat {
    let m = u256_modulus();
    let proving_cost = match order.total_cycles {
        Some(cycles) => (mcycle_price * (cycles / 1_000_000) as nat) % m,
        None => 0,
    };
    let total_gas = (lockin_gas + fulfill_gas + verify_gas) as nat;
    let gas_cost = (total_gas * gas_price) % m;
    let total_cost = (proving_cost + gas_cost) % m;
    if order.max_price.value() >= total_cost {
        (order.max_price.value() - total_cost) as nat
    } else {
        0
    }
}

/// Calculate expected profit for an order, in wei (0 for unprofitable orders, so they sort last).
pub fn calculate_expected_profit(
    order: &OrderSummary,
    mcycle_price_wei: U256,
    gas_price_wei: U256,
    lockin_gas: u64,
    fulfill_gas: u64,
    verify_gas: u64,
) -> (r: U256)
    ensures
        r.value() == expected_profit(
            *order,
            mcycle_price_wei.value(),
            gas_price_wei.value(),
            lockin_gas,
            fulfill_gas,
            verify_gas,
        ),
{
    let revenue = order.max_price;
    let proving_cost = match order.total_cycles {
        Some(cycles) => {
            let mcycles = cycles / 1_000_000;
            mcycle_price_wei.wrapping_mul(U256::from_u64(mcycles))
        },
        None => U256::zero(),
    };
    let lockin = U256::from_u64(lockin_gas);
    let fulfill = U256::from_u64(fulfill_gas);
    let verify = U256::from_u64(verify_gas);
    let total_gas = lockin.wrapping_add(fulfill).wrapping_add(verify);
    proof {
        assert(lockin_gas + fulfill_gas + verify_gas < u256_modulus());
        assert(lockin.value() + fulfill.value() < u256_modulus());
        vstd::arithmetic::div_mod::lemma_small_mod(
            (lockin.value() + fulfill.value()) as nat,
            u256_modulus(),
        );
        vstd::arithmetic::div_mod::lemma_small_mod(
            (lockin_gas + fulfill_gas + verify_gas) as nat,
            u256_modulus(),
        );
    }
    let gas_cost = total_gas.wrapping_mul(gas_price_wei);
    let total_cost = proving_cost.wrapping_add(gas_cost);
    revenue.saturating_sub(total_cost)
}

/// The deadlines of the orders, one key per order.
pub open spec fn deadline_keys(orders: Seq<OrderSummary>) -> Seq<nat> {
    orders.map_values(|o: OrderSummary| o.deadline() as nat)
}

/// The expected profits of the orders under the configuration, one key per order.
pub open spec fn profit_keys(orders: Seq<OrderSummary>, config: MarketConfig) -> Seq<nat> {
    orders.map_values(
        |o: OrderSummary|
            expected_profit(
                o,
                mcycle_price_wei(config),
                assumed_gas_price_wei(),
                config.lockin_gas_estimate,
                config.fulfill_gas_estimate,
                config.groth16_verify_gas_estimate,
            ),
    )
}

/// `output` is `input` arranged as `mode` asks: in any order (Random), unchanged, as
/// observed (TimeOrdered), stably by deadline, earliest first (ShortestExpiry), or stably by
/// expected profit, highest first (HighestExpectedValue).
pub open spec fn arranged(
    mode: UnifiedPriorityMode,
    config: MarketConfig,
    input: Seq<OrderSummary>,
    output: Seq<OrderSummary>,
) -> bool {
    match mode {
        UnifiedPriorityMode::Random => output.to_multiset() == input.to_multiset(),
        UnifiedPriorityMode::TimeOrdered => output == input,
        UnifiedPriorityMode::ShortestExpiry => stably_sorted(
            input,
            deadline_keys(input),
            false,
            output,
        ),
        UnifiedPriorityMode::HighestExpectedValue => stably_sorted(
            input,
            profit_keys(input, config),
            true,
            output,
        ),
    }
}

/// The orders from a priority client, in their order.
pub open spec fn from_priority_clients(orders: Seq<OrderSummary>, addresses: Seq<Address>) -> Seq<
    OrderSummary,
> {
    orders.filter(is_priority_client(addresses))
}

/// The order comes from one of the priority clients.
pub open spec fn is_priority_client(addresses: Seq<Address>) -> spec_fn(OrderSummary) -> bool {
    |o: OrderSummary| addresses.contains(o.client)
}

/// The order comes from some other client.
pub open spec fn is_regular_client(addresses: Seq<Address>) -> spec_fn(OrderSummary) -> bool {
    |o: OrderSummary| !addresses.contains(o.client)
}

/// The orders from other clients, in their order.
pub open spec fn from_regular_clients(orders: Seq<OrderSummary>, addresses: Seq<Address>) -> Seq<
    OrderSummary,
> {
    orders.filter(is_regular_client(addresses))
}

/// `output` is `input` prioritized: without priority addresses, arranged by `mode`; with
/// them, the orders of priority clients arranged by `mode`, followed by the other orders
/// arranged by `mode` (the first group keeps its length).
pub open spec fn prioritized(
    mode: UnifiedPriorityMode,
    config: MarketConfig,
    priority_addresses: Option<Seq<Address>>,
    input: Seq<OrderSummary>,
    output: Seq<OrderSummary>,
) -> bool {
    match priority_addresses {
        None => arranged(mode, config, input, output),
        Some(addresses) => {
            let k = from_priority_clients(input, addresses).len() as int;
            &&& k <= output.len()
            &&& arranged(mode, config, from_priority_clients(input, addresses), output.take(k))
            &&& arranged(mode, config, from_regular_clients(input, addresses), output.skip(k))
        },
    }
}

/// The priority addresses, where they are given.
pub open spec fn addresses_of(priority_addresses: Option<&[Address]>) -> Option<Seq<Address>> {
    match priority_addresses {
        Some(a) => Some(a@),
        None => None,
    }
}

/// Arranging keeps the number of orders.
pub proof fn lemma_arranged_len(
    mode: UnifiedPriorityMode,
    config: MarketConfig,
    input: Seq<OrderSummary>,
    output: Seq<OrderSummary>,
)
    requires
        arranged(mode, config, input, output),
    ensures
        output.len() == input.len(),
{
    match mode {
        UnifiedPriorityMode::Random => {
            input.to_multiset_ensures();
            output.to_multiset_ensures();
        },
        UnifiedPriorityMode::TimeOrdered => {},
        UnifiedPriorityMode::ShortestExpiry => {
            let p = choose|p: Seq<int>|
                #[trigger] is_sort_permutation(deadline_keys(input), false, p) && output == arrange(
                    input,
                    p,
                );
        },
        UnifiedPriorityMode::HighestExpectedValue => {
            let p = choose|p: Seq<int>|
                #[trigger] is_sort_permutation(profit_keys(input, config), true, p) && output
                    == arrange(input, p);
        },
    }
}

/// Shuffles the orders with `rand::seq::SliceRandom::shuffle` and the thread-local
/// generator: the same orders, in an order that chance decides.
#[verifier::external_body]
fn shuffle_orders(orders: &mut Vec<OrderSummary>)
    ensures
        final(orders)@.to_multiset() == old(orders)@.to_multiset(),
{
    orders.shuffle(&mut rand::rng());
}

/// Whether `address` is one of `addresses`.
pub fn contains_address(addresses: &[Address], address: &Address) -> (r: bool)
    ensures
        r == addresses@.contains(*address),
{
    let mut i: usize = 0;
    while i < addresses.len()
        invariant
            i <= addresses.len(),
            forall|k: int| 0 <= k < i ==> addresses@[k] != *address,
        decreases addresses.len() - i,
    {
        if addresses[i] == *address {
            assert(addresses@[i as int] == *address);
            return true;
        }
        i = i + 1;
    }
    false
}

/// The highest-expected-value mode parses the configured cycle price as ether, which panics
/// on text whose decimals it would cut inside a character (see `cut_on_char_boundary`); the
/// other modes do not read it.
pub open spec fn price_parses_safely(mode: UnifiedPriorityMode, config: MarketConfig) -> bool {
    mode == UnifiedPriorityMode::HighestExpectedValue ==> cut_on_char_boundary(
        config.mcycle_price@,
        18,
    )
}

/// Arranges the orders as `mode` asks.
pub fn sort_by_mode(orders: &mut Vec<OrderSummary>, mode: UnifiedPriorityMode, config: &MarketConfig)
    requires
        price_parses_safely(mode, *config),
    ensures
        arranged(mode, *config, old(orders)@, final(orders)@),
{
    match mode {
        UnifiedPriorityMode::Random => shuffle_orders(orders),
        UnifiedPriorityMode::TimeOrdered => {},
        UnifiedPriorityMode::ShortestExpiry => {
            let mut keys: Vec<U256> = Vec::new();
            let mut i: usize = 0;
            while i < orders.len()
                invariant
                    i <= orders.len(),
                    keys.len() == i,
                    forall|k: int|
                        0 <= k < i ==> #[trigger] keys@[k].value() == orders@[k].deadline() as nat,
                decreases orders.len() - i,
            {
                keys.push(U256::from_u64(orders[i].expiry()));
                i = i + 1;
            }
            assert(key_values(keys@) =~= deadline_keys(orders@));
            let sorted = stable_sort_by_keys(orders, &keys, false);
            *orders = sorted;
        },
        UnifiedPriorityMode::HighestExpectedValue => {
            let mcycle_price = match parse_ether(config.mcycle_price.as_str()) {
                Some(v) => v,
                None => U256::from_u64(10_000_000_000_000),
            };
            let gas_price = U256::from_u64(20_000_000_000);
            let mut keys: Vec<U256> = Vec::new();
            let mut i: usize = 0;
            while i < orders.len()
                invariant
                    i <= orders.len(),
                    keys.len() == i,
                    mcycle_price.value() == mcycle_price_wei(*config),
                    gas_price.value() == assumed_gas_price_wei(),
                    forall|k: int|
                        0 <= k < i ==> #[trigger] keys@[k].value() == profit_keys(
                            orders@,
                            *config,
                        )[k],
                decreases orders.len() - i,
            {
                let profit = calculate_expected_profit(
                    &orders[i],
                    mcycle_price,
                    gas_price,
                    config.lockin_gas_estimate,
                    config.fulfill_gas_estimate,
                    config.groth16_verify_gas_estimate,
                );
                keys.push(profit);
                i = i + 1;
            }
            assert(key_values(keys@) =~= profit_keys(orders@, *config));
            let sorted = stable_sort_by_keys(orders, &keys, true);
            *orders = sorted;
        },
    }
}

/// Splits the orders into those of priority clients and the others, keeping their order.
pub fn partition_by_client(orders: &Vec<OrderSummary>, addresses: &[Address]) -> (r: (
    Vec<OrderSummary>,
    Vec<OrderSummary>,
))
    ensures
        r.0@ == from_priority_clients(orders@, addresses@),
        r.1@ == from_regular_clients(orders@, addresses@),
{
    let ghost pred_in = is_priority_client(addresses@);
    let ghost pred_out = is_regular_client(addresses@);
    let mut priority: Vec<OrderSummary> = Vec::new();
    let mut regular: Vec<OrderSummary> = Vec::new();
    let mut i: usize = 0;
    assert(orders@.take(0) =~= Seq::<OrderSummary>::empty());
    proof {
        reveal_with_fuel(Seq::filter, 1);
    }
    while i < orders.len()
        invariant
            i <= orders.len(),
            pred_in == is_priority_client(addresses@),
            pred_out == is_regular_client(addresses@),
            priority@ == orders@.take(i as int).filter(pred_in),
            regular@ == orders@.take(i as int).filter(pred_out),
        decreases orders.len() - i,
    {
        let o = orders[i];
        proof {
            assert(orders@.take(i as int + 1) =~= orders@.take(i as int).push(o));
            orders@.take(i as int).lemma_filter_push(o, pred_in);
            orders@.take(i as int).lemma_filter_push(o, pred_out);
        }
        let ghost old_pr = priority@;
        let ghost old_re = regular@;
        if contains_address(addresses, &o.client) {
            priority.push(o);
            assert(pred_in(o));
            assert(!pred_out(o));
        } else {
            regular.push(o);
            assert(!pred_in(o));
            assert(pred_out(o));
        }
        assert(priority@ == orders@.take(i as int + 1).filter(pred_in));
        assert(regular@ == orders@.take(i as int + 1).filter(pred_out));
        i = i + 1;
    }
    assert(orders@.take(orders.len() as int) =~= orders@);
    (priority, regular)
}

/// Sorts the orders: those of priority clients first (when priority addresses are given),
/// each group arranged as `mode` asks.
pub fn sort_orders_by_priority_and_mode(
    orders: &mut Vec<OrderSummary>,
    priority_addresses: Option<&[Address]>,
    mode: UnifiedPriorityMode,
    config: &MarketConfig,
)
    requires
        price_parses_safely(mode, *config),
    ensures
        prioritized(
            mode,
            *config,
            addresses_of(priority_addresses),
            old(orders)@,
            final(orders)@,
        ),
{
    match priority_addresses {
        None => {
            sort_by_mode(orders, mode, config);
            assert(arranged(mode, *config, old(orders)@, orders@));
            assert(addresses_of(priority_addresses) is None);
            assert(prioritized(mode, *config, addresses_of(priority_addresses), old(orders)@, orders@));
        },
        Some(addresses) => {
            let ghost input = orders@;
            let (mut priority_orders, mut regular_orders) = partition_by_client(orders, addresses);
            sort_by_mode(&mut priority_orders, mode, config);
            sort_by_mode(&mut regular_orders, mode, config);
            let mut out = priority_orders;
            let mut i: usize = 0;
            let ghost first = out@;
            while i < regular_orders.len()
                invariant
                    i <= regular_orders.len(),
                    out@ == first + regular_orders@.take(i as int),
                decreases regular_orders.len() - i,
            {
                out.push(regular_orders[i]);
                i = i + 1;
                assert(out@ =~= first + regular_orders@.take(i as int));
            }
            assert(regular_orders@.take(regular_orders.len() as int) =~= regular_orders@);
            *orders = out;
            assert(arranged(mode, *config, from_priority_clients(input, addresses@), first));
            assert(arranged(mode, *config, from_regular_clients(input, addresses@), regular_orders@));
            proof {
                lemma_arranged_len(mode, *config, from_priority_clients(input, addresses@), first);
            }
            assert(orders@.take(first.len() as int) =~= first);
            assert(orders@.skip(first.len() as int) =~= regular_orders@);
        },
    }
}

/// The orders to price next: the first `capacity` orders in priority order, which leave
/// `orders`; nothing is taken, and `orders` is left as it was, when `orders` is empty or
/// `capacity` is zero.
pub fn select_pricing_orders(
    orders: &mut Vec<OrderSummary>,
    priority_mode: OrderPricingPriority,
    priority_addresses: Option<&[Address]>,
    capacity: usize,
    config: &MarketConfig,
) -> (selected: Vec<OrderSummary>)
    requires
        old(orders).len() > 0 && capacity > 0 ==> price_parses_safely(
            UnifiedPriorityMode::of_pricing(priority_mode),
            *config,
        ),
    ensures
        (old(orders).len() == 0 || capacity == 0) ==> selected@.len() == 0 && final(orders)@
            == old(orders)@,
        (old(orders).len() > 0 && capacity > 0) ==> exists|sorted: Seq<OrderSummary>|
            #[trigger] prioritized(
                UnifiedPriorityMode::of_pricing(priority_mode),
                *config,
                addresses_of(priority_addresses),
                old(orders)@,
                sorted,
            ) && selected@ == sorted.take(
                if capacity < sorted.len() {
                    capacity as int
                } else {
                    sorted.len() as int
                },
            ) && final(orders)@ == sorted.skip(
                if capacity < sorted.len() {
                    capacity as int
                } else {
                    sorted.len() as int
                },
            ),
{
    if orders.len() == 0 || capacity == 0 {
        return Vec::new();
    }
    let mode = UnifiedPriorityMode::from_pricing(priority_mode);
    sort_orders_by_priority_and_mode(orders, priority_addresses, mode, config);
    let ghost sorted = orders@;
    let take_count = if capacity < orders.len() {
        capacity
    } else {
        orders.len()
    };
    let mut selected: Vec<OrderSummary> = Vec::new();
    let mut rest: Vec<OrderSummary> = Vec::new();
    let mut i: usize = 0;
    while i < orders.len()
        invariant
            orders@ == sorted,
            i <= orders.len(),
            take_count <= orders.len(),
            i <= take_count ==> selected@ == sorted.take(i as int) && rest@.len() == 0,
            i > take_count ==> selected@ == sorted.take(take_count as int) && rest@
                == sorted.subrange(take_count as int, i as int),
        decreases orders.len() - i,
    {
        if i < take_count {
            selected.push(orders[i]);
            assert(selected@ =~= sorted.take(i as int + 1));
        } else {
            rest.push(orders[i]);
            assert(rest@ =~= sorted.subrange(take_count as int, i as int + 1));
        }
        i = i + 1;
    }
    assert(sorted.take(take_count as int) =~= selected@);
    assert(rest@ =~= sorted.skip(take_count as int));
    *orders = rest;
    selected
}

/// Default prioritization of orders for choosing which order to commit to prove.
pub fn prioritize_orders(
    orders: Vec<OrderSummary>,
    priority_mode: OrderCommitmentPriority,
    priority_addresses: Option<&[Address]>,
    config: &MarketConfig,
) -> (r: Vec<OrderSummary>)
    requires
        price_parses_safely(UnifiedPriorityMode::of_commitment(priority_mode), *config),
    ensures
        prioritized(
            UnifiedPriorityMode::of_commitment(priority_mode),
            *config,
            addresses_of(priority_addresses),
            orders@,
            r@,
        ),
{
    let mut orders = orders;
    sort_orders_by_priority_and_mode(
        &mut orders,
        priority_addresses,
        UnifiedPriorityMode::from_commitment(priority_mode),
        config,
    );
    orders
}

/// Whether `mode` can be applied under `config` without the price parser panicking.
pub fn price_text_is_safe(mode: UnifiedPriorityMode, config: &MarketConfig) -> (r: bool)
    ensures
        r == price_parses_safely(mode, *config),
{
    match mode {
        UnifiedPriorityMode::HighestExpectedValue => cut_falls_between_chars(
            config.mcycle_price.as_str(),
            18,
        ),
        _ => true,
    }
}

/// `prioritize_orders` where the configured cycle price can be parsed without a panic,
/// checking that first; `None` (and the orders dropped) where it cannot.
pub fn checked_prioritize_orders(
    orders: Vec<OrderSummary>,
    priority_mode: OrderCommitmentPriority,
    priority_addresses: Option<&[Address]>,
    config: &MarketConfig,
) -> (r: Option<Vec<OrderSummary>>)
    ensures
        r is None <==> !price_parses_safely(UnifiedPriorityMode::of_commitment(priority_mode), *config),
        r matches Some(v) ==> prioritized(
            UnifiedPriorityMode::of_commitment(priority_mode),
            *config,
            addresses_of(priority_addresses),
            orders@,
            v@,
        ),
{
    if !price_text_is_safe(UnifiedPriorityMode::from_commitment(priority_mode), config) {
        return None;
    }
    Some(prioritize_orders(orders, priority_mode, priority_addresses, config))
}

/// The expected profit of an order under the configuration.
pub open spec fn profit_of(o: OrderSummary, config: MarketConfig) -> nat {
    expected_profit(
        o,
        mcycle_price_wei(config),
        assumed_gas_price_wei(),
        config.lockin_gas_estimate,
        config.fulfill_gas_estimate,
        config.groth16_verify_gas_estimate,
    )
}

/// Every priority mode only reorders the orders: none is lost, none is added.
pub proof fn lemma_arranged_permutes(
    mode: UnifiedPriorityMode,
    config: MarketConfig,
    input: Seq<OrderSummary>,
    output: Seq<OrderSummary>,
)
    requires
        arranged(mode, config, input, output),
    ensures
        output.to_multiset() == input.to_multiset(),
{
    match mode {
        UnifiedPriorityMode::Random => {},
        UnifiedPriorityMode::TimeOrdered => {},
        UnifiedPriorityMode::ShortestExpiry => {
            lemma_stably_sorted_permutes(input, deadline_keys(input), false, output);
        },
        UnifiedPriorityMode::HighestExpectedValue => {
            lemma_stably_sorted_permutes(input, profit_keys(input, config), true, output);
        },
    }
}

/// With the shortest-expiry mode, orders come earliest deadline first.
pub proof fn lemma_shortest_expiry_first(
    config: MarketConfig,
    input: Seq<OrderSummary>,
    output: Seq<OrderSummary>,
    i: int,
    j: int,
)
    requires
        arranged(UnifiedPriorityMode::ShortestExpiry, config, input, output),
        0 <= i < j < output.len(),
    ensures
        output[i].deadline() <= output[j].deadline(),
{
    lemma_stably_sorted_ordered(input, deadline_keys(input), false, output, i, j);
}

/// With the highest-expected-value mode, orders come most profitable first.
pub proof fn lemma_highest_value_first(
    config: MarketConfig,
    input: Seq<OrderSummary>,
    output: Seq<OrderSummary>,
    i: int,
    j: int,
)
    requires
        arranged(UnifiedPriorityMode::HighestExpectedValue, config, input, output),
        0 <= i < j < output.len(),
    ensures
        profit_of(output[i], config) >= profit_of(output[j], config),
{
    lemma_stably_sorted_ordered(input, profit_keys(input, config), true, output, i, j);
}

/// Splitting orders by client and joining the parts keeps every order.
proof fn lemma_partition_permutes(orders: Seq<OrderSummary>, addresses: Seq<Address>)
    ensures
        from_priority_clients(orders, addresses).to_multiset().add(
            from_regular_clients(orders, addresses).to_multiset(),
        ) == orders.to_multiset(),
    decreases orders.len(),
{
    broadcast use vstd::multiset::group_multiset_axioms;

    if orders.len() == 0 {
        let a = from_priority_clients(orders, addresses);
        let b = from_regular_clients(orders, addresses);
        reveal(Seq::filter);
        assert(a =~= Seq::<OrderSummary>::empty());
        assert(b =~= Seq::<OrderSummary>::empty());
        orders.to_multiset_ensures();
        a.to_multiset_ensures();
        b.to_multiset_ensures();
        vstd::multiset::lemma_multiset_empty_len(orders.to_multiset());
        vstd::multiset::lemma_multiset_empty_len(a.to_multiset());
        vstd::multiset::lemma_multiset_empty_len(b.to_multiset());
        assert(a.to_multiset().add(b.to_multiset()) =~= orders.to_multiset());
    } else {
        let rest = orders.drop_last();
        let x = orders.last();
        lemma_partition_permutes(rest, addresses);
        assert(orders =~= rest + seq![x]);
        Seq::filter_distributes_over_add(rest, seq![x], is_priority_client(addresses));
        Seq::filter_distributes_over_add(rest, seq![x], is_regular_client(addresses));
        reveal(Seq::filter);
        assert(seq![x].drop_last() =~= Seq::<OrderSummary>::empty());
        rest.to_multiset_ensures();
        from_priority_clients(rest, addresses).to_multiset_ensures();
        from_regular_clients(rest, addresses).to_multiset_ensures();
        if addresses.contains(x.client) {
            assert(seq![x].filter(is_priority_client(addresses)) =~= seq![x]);
            assert(seq![x].filter(is_regular_client(addresses)) =~= Seq::<OrderSummary>::empty());
            assert(from_priority_clients(orders, addresses) =~= from_priority_clients(
                rest,
                addresses,
            ).push(x));
            assert(from_regular_clients(orders, addresses) =~= from_regular_clients(
                rest,
                addresses,
            ));
            assert(from_priority_clients(orders, addresses).to_multiset() =~= from_priority_clients(
                rest,
                addresses,
            ).to_multiset().insert(x));
        } else {
            assert(seq![x].filter(is_priority_client(addresses)) =~= Seq::<OrderSummary>::empty());
            assert(seq![x].filter(is_regular_client(addresses)) =~= seq![x]);
            assert(from_priority_clients(orders, addresses) =~= from_priority_clients(
                rest,
                addresses,
            ));
            assert(from_regular_clients(orders, addresses) =~= from_regular_clients(
                rest,
                addresses,
            ).push(x));
            assert(from_regular_clients(orders, addresses).to_multiset() =~= from_regular_clients(
                rest,
                addresses,
            ).to_multiset().insert(x));
        }
        assert(rest.push(x) =~= orders);
        assert(orders.to_multiset() =~= rest.to_multiset().insert(x));
        assert(from_priority_clients(orders, addresses).to_multiset().add(
            from_regular_clients(orders, addresses).to_multiset(),
        ) =~= orders.to_multiset());
    }
}

/// Prioritization only reorders the orders; with priority addresses, the orders of priority
/// clients come first and all the others after them.
pub proof fn lemma_prioritized_orders(
    mode: UnifiedPriorityMode,
    config: MarketConfig,
    priority_addresses: Option<Seq<Address>>,
    input: Seq<OrderSummary>,
    output: Seq<OrderSummary>,
)
    requires
        prioritized(mode, config, priority_addresses, input, output),
    ensures
        output.to_multiset() == input.to_multiset(),
        priority_addresses matches Some(addresses) ==> {
            let k = from_priority_clients(input, addresses).len() as int;
            &&& forall|i: int| 0 <= i < k ==> addresses.contains(#[trigger] output[i].client)
            &&& forall|i: int| k <= i < output.len() ==> !addresses.contains(#[trigger] output[i].client)
        },
{
    broadcast use vstd::multiset::group_multiset_axioms;

    match priority_addresses {
        None => {
            lemma_arranged_permutes(mode, config, input, output);
        },
        Some(addresses) => {
            let pri = from_priority_clients(input, addresses);
            let reg = from_regular_clients(input, addresses);
            let k = pri.len() as int;
            let head = output.take(k);
            let tail = output.skip(k);
            lemma_arranged_permutes(mode, config, pri, head);
            lemma_arranged_permutes(mode, config, reg, tail);
            lemma_partition_permutes(input, addresses);
            assert(output =~= head + tail);
            vstd::seq_lib::lemma_multiset_commutative(head, tail);
            head.to_multiset_ensures();
            tail.to_multiset_ensures();
            pri.to_multiset_ensures();
            reg.to_multiset_ensures();
            assert forall|i: int| 0 <= i < k implies addresses.contains(
                #[trigger] output[i].client,
            ) by {
                assert(head[i] == output[i]);
                assert(head.contains(head[i]));
                assert(head.to_multiset().count(head[i]) > 0);
                assert(pri.to_multiset().count(head[i]) > 0);
                assert(pri.contains(head[i]));
                let m = choose|m: int| 0 <= m < pri.len() && pri[m] == head[i];
                input.lemma_filter_pred(is_priority_client(addresses), m);
            }
            assert forall|i: int| k <= i < output.len() implies !addresses.contains(
                #[trigger] output[i].client,
            ) by {
                assert(tail[i - k] == output[i]);
                assert(tail.contains(tail[i - k]));
                assert(tail.to_multiset().count(tail[i - k]) > 0);
                assert(reg.to_multiset().count(tail[i - k]) > 0);
                assert(reg.contains(tail[i - k]));
                let m = choose|m: int| 0 <= m < reg.len() && reg[m] == tail[i - k];
                input.lemma_filter_pred(is_regular_client(addresses), m);
            }
        },
    }
}

/// The orders selected for pricing and the orders left behind are, together, exactly the
/// orders there were.
pub proof fn lemma_selection_keeps_orders(
    mode: UnifiedPriorityMode,
    config: MarketConfig,
    priority_addresses: Option<Seq<Address>>,
    input: Seq<OrderSummary>,
    sorted: Seq<OrderSummary>,
    count: int,
)
    requires
        prioritized(mode, config, priority_addresses, input, sorted),
        0 <= count <= sorted.len(),
    ensures
        sorted.take(count).to_multiset().add(sorted.skip(count).to_multiset())
            == input.to_multiset(),
{
    lemma_prioritized_orders(mode, config, priority_addresses, input, sorted);
    assert(sorted =~= sorted.take(count) + sorted.skip(count));
    vstd::seq_lib::lemma_multiset_commutative(sorted.take(count), sorted.skip(count));
}

} // verus!
