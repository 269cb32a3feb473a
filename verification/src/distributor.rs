//! Decisions of the distributor, which keeps prover and requestor accounts funded: how much
//! to take back from provers, and whom to top up with how much.
use crate::u256::{u256_modulus, U256};
use crate::units::{
    cut_falls_between_chars, cut_on_char_boundary, ether_parse, parse_ether, parse_units, units_parse,
};
use vstd::prelude::*;

verus! {

/// Why the distributor cannot run with its configuration.
#[derive(Clone, Copy, Debug, PartialEq, Eq, Structural)]
pub enum DistributorError {
    /// An amount in the configuration does not parse.
    InvalidAmount,
    /// The ETH top-up amount is less than the ETH threshold.
    EthTopUpBelowThreshold,
    /// The collateral top-up amount is less than the collateral threshold.
    CollateralTopUpBelowThreshold,
}

/// The thresholds and amounts of the distributor, in base units.
#[derive(Clone, Copy, Debug, PartialEq, Eq, Structural)]
pub struct Thresholds {
    pub prover_eth_donate_threshold: U256,
    pub prover_collateral_donate_threshold: U256,
    pub eth_threshold: U256,
    pub collateral_threshold: U256,
    pub eth_top_up_amount: U256,
    pub collateral_top_up_amount: U256,
}

/// The thresholds and amounts that the configuration strings give: ether amounts in wei,
/// collateral amounts in base units of `decimals` decimals; `None` where one fails to parse.
pub open spec fn parsed_thresholds(
    prover_eth_donate_threshold: Seq<char>,
    prover_stake_donate_threshold: Seq<char>,
    eth_threshold: Seq<char>,
    stake_threshold: Seq<char>,
    eth_top_up_amount: Seq<char>,
    stake_top_up_amount: Seq<char>,
    decimals: u8,
) -> Option<(nat, nat, nat, nat, nat, nat)> {
    match (
        ether_parse(prover_eth_donate_threshold),
        units_parse(prover_stake_donate_threshold, decimals),
        ether_parse(eth_threshold),
        units_parse(stake_threshold, decimals),
        ether_parse(eth_top_up_amount),
        units_parse(stake_top_up_amount, decimals),
    ) {
        (Some(a), Some(b), Some(c), Some(d), Some(e), Some(f)) => Some((a, b, c, d, e, f)),
        _ => None,
    }
}

/// What parsing and checking the thresholds gives: `InvalidAmount` where one fails to parse,
/// then a top-up amount below its threshold, else the parsed thresholds.
pub open spec fn thresholds_outcome(
    r: Result<Thresholds, DistributorError>,
    prover_eth_donate_threshold: Seq<char>,
    prover_stake_donate_threshold: Seq<char>,
    eth_threshold: Seq<char>,
    stake_threshold: Seq<char>,
    eth_top_up_amount: Seq<char>,
    stake_top_up_amount: Seq<char>,
    collateral_token_decimals: u8,
) -> bool {
        match parsed_thresholds(
            prover_eth_donate_threshold,
            prover_stake_donate_threshold,
            eth_threshold,
            stake_threshold,
            eth_top_up_amount,
            stake_top_up_amount,
            collateral_token_decimals,
        ) {
            None => r == Err::<Thresholds, DistributorError>(DistributorError::InvalidAmount),
            Some((a, b, c, d, e, f)) => if e < c {
                r == Err::<Thresholds, DistributorError>(DistributorError::EthTopUpBelowThreshold)
            } else if f < d {
                r == Err::<Thresholds, DistributorError>(
                    DistributorError::CollateralTopUpBelowThreshold,
                )
            } else {
                r matches Ok(t) && t.prover_eth_donate_threshold.value() == a
                    && t.prover_collateral_donate_threshold.value() == b
                    && t.eth_threshold.value() == c && t.collateral_threshold.value() == d
                    && t.eth_top_up_amount.value() == e && t.collateral_top_up_amount.value() == f
            },
        }
}

/// The configuration strings are parsed one after the other, stopping at the first that
/// fails; none of those reached may make the parser cut a character (see
/// `cut_on_char_boundary`), on which it panics.
pub open spec fn thresholds_parse_safely(
    prover_eth_donate_threshold: Seq<char>,
    prover_stake_donate_threshold: Seq<char>,
    eth_threshold: Seq<char>,
    stake_threshold: Seq<char>,
    eth_top_up_amount: Seq<char>,
    stake_top_up_amount: Seq<char>,
    decimals: u8,
) -> bool {
    let units_safe = |t: Seq<char>| decimals <= 77 ==> cut_on_char_boundary(t, decimals as nat);
    &&& cut_on_char_boundary(prover_eth_donate_threshold, 18)
    &&& ether_parse(prover_eth_donate_threshold) is Some ==> {
        &&& units_safe(prover_stake_donate_threshold)
        &&& units_parse(prover_stake_donate_threshold, decimals) is Some ==> {
            &&& cut_on_char_boundary(eth_threshold, 18)
            &&& ether_parse(eth_threshold) is Some ==> {
                &&& units_safe(stake_threshold)
                &&& units_parse(stake_threshold, decimals) is Some ==> {
                    &&& cut_on_char_boundary(eth_top_up_amount, 18)
                    &&& ether_parse(eth_top_up_amount) is Some ==> units_safe(stake_top_up_amount)
                }
            }
        }
    }
}

/// Parses and checks the thresholds: each must parse, and each top-up amount must be at
/// least its threshold.
pub fn parse_thresholds(
    prover_eth_donate_threshold: &str,
    prover_stake_donate_threshold: &str,
    eth_threshold: &str,
    stake_threshold: &str,
    eth_top_up_amount: &str,
    stake_top_up_amount: &str,
    collateral_token_decimals: u8,
) -> (r: Result<Thresholds, DistributorError>)
    requires
        thresholds_parse_safely(
            prover_eth_donate_threshold@,
            prover_stake_donate_threshold@,
            eth_threshold@,
            stake_threshold@,
            eth_top_up_amount@,
            stake_top_up_amount@,
            collateral_token_decimals,
        ),
    ensures
        thresholds_outcome(
            r,
            prover_eth_donate_threshold@,
            prover_stake_donate_threshold@,
            eth_threshold@,
            stake_threshold@,
            eth_top_up_amount@,
            stake_top_up_amount@,
            collateral_token_decimals,
        ),
{
    let a = match parse_ether(prover_eth_donate_threshold) {
        Some(v) => v,
        None => return Err(DistributorError::InvalidAmount),
    };
    let b = match parse_units(prover_stake_donate_threshold, collateral_token_decimals) {
        Some(v) => v,
        None => return Err(DistributorError::InvalidAmount),
    };
    let c = match parse_ether(eth_threshold) {
        Some(v) => v,
        None => return Err(DistributorError::InvalidAmount),
    };
    let d = match parse_units(stake_threshold, collateral_token_decimals) {
        Some(v) => v,
        None => return Err(DistributorError::InvalidAmount),
    };
    let e = match parse_ether(eth_top_up_amount) {
        Some(v) => v,
        None => return Err(DistributorError::InvalidAmount),
    };
    let f = match parse_units(stake_top_up_amount, collateral_token_decimals) {
        Some(v) => v,
        None => return Err(DistributorError::InvalidAmount),
    };
    if e.lt(&c) {
        return Err(DistributorError::EthTopUpBelowThreshold);
    }
    if f.lt(&d) {
        return Err(DistributorError::CollateralTopUpBelowThreshold);
    }
    Ok(Thresholds {
        prover_eth_donate_threshold: a,
        prover_collateral_donate_threshold: b,
        eth_threshold: c,
        collateral_threshold: d,
        eth_top_up_amount: e,
        collateral_top_up_amount: f,
    })
}

/// Whether the strings parse without a cut inside a character, checked as they are parsed.
fn thresholds_safe(
    prover_eth_donate_threshold: &str,
    prover_stake_donate_threshold: &str,
    eth_threshold: &str,
    stake_threshold: &str,
    eth_top_up_amount: &str,
    stake_top_up_amount: &str,
    d: u8,
) -> (r: bool)
    ensures
        r == thresholds_parse_safely(
            prover_eth_donate_threshold@,
            prover_stake_donate_threshold@,
            eth_threshold@,
            stake_threshold@,
            eth_top_up_amount@,
            stake_top_up_amount@,
            d,
        ),
{
    if !cut_falls_between_chars(prover_eth_donate_threshold, 18) {
        return false;
    }
    if parse_ether(prover_eth_donate_threshold).is_none() {
        return true;
    }
    if d <= 77 && !cut_falls_between_chars(prover_stake_donate_threshold, d) {
        return false;
    }
    if parse_units(prover_stake_donate_threshold, d).is_none() {
        return true;
    }
    if !cut_falls_between_chars(eth_threshold, 18) {
        return false;
    }
    if parse_ether(eth_threshold).is_none() {
        return true;
    }
    if d <= 77 && !cut_falls_between_chars(stake_threshold, d) {
        return false;
    }
    if parse_units(stake_threshold, d).is_none() {
        return true;
    }
    if !cut_falls_between_chars(eth_top_up_amount, 18) {
        return false;
    }
    if parse_ether(eth_top_up_amount).is_none() {
        return true;
    }
    !(d <= 77 && !cut_falls_between_chars(stake_top_up_amount, d))
}

/// `parse_thresholds` where the parser would not panic on the strings, checking first,
/// string by string as they are parsed, that no cut falls inside a character; `None` where
/// one would.
pub fn checked_parse_thresholds(
    prover_eth_donate_threshold: &str,
    prover_stake_donate_threshold: &str,
    eth_threshold: &str,
    stake_threshold: &str,
    eth_top_up_amount: &str,
    stake_top_up_amount: &str,
    collateral_token_decimals: u8,
) -> (r: Option<Result<Thresholds, DistributorError>>)
    ensures
        r is None <==> !thresholds_parse_safely(
            prover_eth_donate_threshold@,
            prover_stake_donate_threshold@,
            eth_threshold@,
            stake_threshold@,
            eth_top_up_amount@,
            stake_top_up_amount@,
            collateral_token_decimals,
        ),
        r matches Some(x) ==> thresholds_outcome(
            x,
            prover_eth_donate_threshold@,
            prover_stake_donate_threshold@,
            eth_threshold@,
            stake_threshold@,
            eth_top_up_amount@,
            stake_top_up_amount@,
            collateral_token_decimals,
        ),
{
    let d = collateral_token_decimals;
    let safe = thresholds_safe(
        prover_eth_donate_threshold,
        prover_stake_donate_threshold,
        eth_threshold,
        stake_threshold,
        eth_top_up_amount,
        stake_top_up_amount,
        d,
    );
    if !safe {
        return None;
    }
    Some(
        parse_thresholds(
            prover_eth_donate_threshold,
            prover_stake_donate_threshold,
            eth_threshold,
            stake_threshold,
            eth_top_up_amount,
            stake_top_up_amount,
            d,
        ),
    )
}

/// `numerator / denominator` of `x`, with the product saturating at 2^256 - 1 and the
/// quotient rounded up.
pub open spec fn share_rounded_up(x: nat, numerator: nat, denominator: nat) -> nat {
    let product = if x * numerator < u256_modulus() {
        x * numerator
    } else {
        (u256_modulus() - 1) as nat
    };
    ((product + denominator - 1) / (denominator as int)) as nat
}

/// How much ETH a prover hands back to the distributor: 80% of its balance (rounded up),
/// when the balance is above the donation threshold; nothing otherwise.
pub fn prover_eth_donation(balance: U256, threshold: U256) -> (r: Option<U256>)
    ensures
        balance.value() > threshold.value() ==> (r matches Some(v) && v.value() == share_rounded_up(
            balance.value(),
            8,
            10,
        )),
        balance.value() <= threshold.value() ==> r is None,
{
    if threshold.lt(&balance) {
        Some(balance.saturating_mul(U256::from_u64(8)).div_ceil(U256::from_u64(10)))
    } else {
        None
    }
}

/// How much collateral a prover withdraws to the distributor: 60% of its market balance
/// (rounded up), when the balance is above the donation threshold; nothing otherwise.
pub fn prover_collateral_withdrawal(balance: U256, threshold: U256) -> (r: Option<U256>)
    ensures
        balance.value() > threshold.value() ==> (r matches Some(v) && v.value() == share_rounded_up(
            balance.value(),
            6,
            10,
        )),
        balance.value() <= threshold.value() ==> r is None,
{
    if threshold.lt(&balance) {
        Some(balance.saturating_mul(U256::from_u64(6)).div_ceil(U256::from_u64(10)))
    } else {
        None
    }
}

/// What to do for an account whose balance may need a top-up.
#[derive(Clone, Copy, Debug, PartialEq, Eq, Structural)]
pub enum TopUp {
    /// The balance is at or above the threshold.
    NotNeeded,
    /// Send this amount.
    Transfer(U256),
    /// The distributor holds less than the amount needed.
    InsufficientFunds(U256),
    /// The top-up amount does not exceed the balance: the configuration is wrong.
    Misconfigured,
}

/// The top-up for a balance below the threshold: the top-up amount less the balance
/// (saturating at 0), unless the distributor holds less than that or it is 0.
pub open spec fn top_up_decision(balance: nat, threshold: nat, top_up_amount: nat, available: nat) -> TopUpSpec {
    if balance >= threshold {
        TopUpSpec::NotNeeded
    } else {
        let amount = if top_up_amount >= balance {
            (top_up_amount - balance) as nat
        } else {
            0
        };
        if amount > available {
            TopUpSpec::InsufficientFunds(amount)
        } else if amount == 0 {
            TopUpSpec::Misconfigured
        } else {
            TopUpSpec::Transfer(amount)
        }
    }
}

/// A top-up decision over numbers.
pub enum TopUpSpec {
    NotNeeded,
    Transfer(nat),
    InsufficientFunds(nat),
    Misconfigured,
}

impl TopUp {
    /// The decision over numbers that this stands for.
    pub open spec fn as_spec(self) -> TopUpSpec {
        match self {
            TopUp::NotNeeded => TopUpSpec::NotNeeded,
            TopUp::Transfer(a) => TopUpSpec::Transfer(a.value()),
            TopUp::InsufficientFunds(a) => TopUpSpec::InsufficientFunds(a.value()),
            TopUp::Misconfigured => TopUpSpec::Misconfigured,
        }
    }
}

/// Decides the top-up of an account (ETH or collateral) from its balance, the threshold,
/// the configured top-up amount and what the distributor holds.
pub fn plan_top_up(balance: U256, threshold: U256, top_up_amount: U256, distributor_balance: U256) -> (r:
    TopUp)
    ensures
        r.as_spec() == top_up_decision(
            balance.value(),
            threshold.value(),
            top_up_amount.value(),
            distributor_balance.value(),
        ),
        balance.value() < threshold.value() && balance.value() < top_up_amount.value()
            && top_up_amount.value() - balance.value() <= distributor_balance.value() ==> (r matches TopUp::Transfer(a)
            && a.value() == top_up_amount.value() - balance.value()),
        r matches TopUp::InsufficientFunds(a) ==> a.value() > distributor_balance.value() && a.value()
            + balance.value() == top_up_amount.value(),
{
    if !balance.lt(&threshold) {
        return TopUp::NotNeeded;
    }
    let amount = top_up_amount.saturating_sub(balance);
    if distributor_balance.lt(&amount) {
        return TopUp::InsufficientFunds(amount);
    }
    if amount.is_zero() {
        return TopUp::Misconfigured;
    }
    TopUp::Transfer(amount)
}

/// The gas allowance given to offchain requestors with little ETH in their wallet:
/// 0.01 ether, in wei.
pub open spec fn gas_allowance_wei() -> nat {
    10_000_000_000_000_000
}

/// The ETH actually sent in a top-up: for an offchain requestor whose wallet holds less than
/// 0.01 ether, the transfer plus 0.01 ether (saturating); otherwise the transfer itself.
pub fn eth_to_send(transfer_amount: U256, is_offchain_requestor: bool, wallet_balance: U256) -> (r:
    U256)
    ensures
        r.value() == if is_offchain_requestor && wallet_balance.value() < gas_allowance_wei() {
            if transfer_amount.value() + gas_allowance_wei() < u256_modulus() {
                transfer_amount.value() + gas_allowance_wei()
            } else {
                (u256_modulus() - 1) as nat
            }
        } else {
            transfer_amount.value()
        },
{
    let allowance = U256::from_u64(10_000_000_000_000_000);
    if is_offchain_requestor && wallet_balance.lt(&allowance) {
        transfer_amount.saturating_add(allowance)
    } else {
        transfer_amount
    }
}

/// A donation of a share of a balance, rounded up, never exceeds the balance.
pub proof fn lemma_share_within_balance(x: nat, numerator: nat, denominator: nat)
    requires
        0 < numerator <= denominator,
    ensures
        share_rounded_up(x, numerator, denominator) <= x,
{
    let product = if x * numerator < u256_modulus() {
        x * numerator
    } else {
        (u256_modulus() - 1) as nat
    };
    assert(x * numerator <= x * denominator) by (nonlinear_arith)
        requires
            numerator <= denominator,
    ;
    assert(product <= x * denominator);
    assert((product + denominator - 1) / (denominator as int) <= x) by (nonlinear_arith)
        requires
            product <= x * denominator,
            denominator > 0,
    {
        assert(product + denominator - 1 < denominator * (x + 1));
    }
}

/// A top-up transfer brings the balance exactly up to the top-up amount, out of what the
/// distributor holds; no transfer is made at or above the threshold. Below the threshold,
/// whenever the amount needed (the top-up amount less the balance) is positive and the
/// distributor holds at least that, exactly that amount is sent; funds are short only where
/// the distributor holds less than the amount needed, and the configuration is wrong only
/// where the top-up amount does not exceed the balance.
pub proof fn lemma_top_up_reaches_amount(balance: nat, threshold: nat, top_up_amount: nat, available: nat)
    ensures
        top_up_decision(balance, threshold, top_up_amount, available) matches TopUpSpec::Transfer(a)
            ==> balance + a == top_up_amount && a <= available && balance < threshold,
        balance >= threshold ==> top_up_decision(balance, threshold, top_up_amount, available)
            is NotNeeded,
        balance < threshold && balance < top_up_amount && top_up_amount - balance <= available
            ==> top_up_decision(balance, threshold, top_up_amount, available) == TopUpSpec::Transfer(
            (top_up_amount - balance) as nat,
        ),
        top_up_decision(balance, threshold, top_up_amount, available) matches TopUpSpec::InsufficientFunds(
            a,
        ) ==> balance < threshold && balance + a == top_up_amount && a > available,
        top_up_decision(balance, threshold, top_up_amount, available) is Misconfigured ==> balance
            < threshold && top_up_amount <= balance,
{
}

} // verus!
