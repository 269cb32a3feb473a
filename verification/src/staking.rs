//! Decisions of the ZKC staking commands: the amount to stake and the call that stakes it,
//! the step an unstake is at, the withdrawal time, and the epochs with unclaimed rewards.
use crate::claim::values_of;
use crate::text::chars_of;
use crate::u256::{limb_base, u256_modulus, U256};
use crate::units::{all_ascii, cut_falls_between_chars, cut_on_char_boundary, parse_units, units_parse};
use vstd::prelude::*;

verus! {

/// ZKC has 18 decimals.
pub const ZKC_DECIMALS: u8 = 18;

/// Why a stake cannot be made.
#[derive(Clone, Copy, Debug, PartialEq, Eq, Structural)]
pub enum StakeError {
    /// The amount is not a decimal ZKC amount.
    InvalidAmount,
    /// The amount is below the smallest unit.
    BelowMinimum,
}

/// The staking contract function that a stake calls.
#[derive(Clone, Copy, Debug, PartialEq, Eq, Structural)]
pub enum StakeMethod {
    /// Opens a new position after a separate approval.
    Stake,
    /// Adds to the open position after a separate approval.
    AddToStake,
    /// Opens a new position, authorised by an ERC-20 permit.
    StakeWithPermit,
    /// Adds to the open position, authorised by an ERC-20 permit.
    AddToStakeWithPermit,
}

/// What the stake command does.
#[derive(Clone, Copy, Debug, PartialEq, Eq, Structural)]
pub enum StakeAction {
    /// Prints the calldata of the approval and of the staking call.
    PrintCalldata,
    /// Sends the call, after the user confirms where `confirm_first` holds.
    Send { method: StakeMethod, confirm_first: bool },
}

/// A stake ready to be made.
#[derive(Clone, Copy, Debug, PartialEq, Eq, Structural)]
pub struct StakePlan {
    /// The amount in base units (wei).
    pub amount: U256,
    /// Whether the stake adds to an open position.
    pub add: bool,
    pub action: StakeAction,
}

/// The function that a stake calls: adding or opening, with or without a permit.
pub open spec fn stake_method(add: bool, no_permit: bool) -> StakeMethod {
    if add {
        if no_permit {
            StakeMethod::AddToStake
        } else {
            StakeMethod::AddToStakeWithPermit
        }
    } else {
        if no_permit {
            StakeMethod::Stake
        } else {
            StakeMethod::StakeWithPermit
        }
    }
}

/// What planning a stake of `amount` gives: `InvalidAmount` where it does not parse,
/// `BelowMinimum` where it is zero, else the plan: the parsed amount, added to an open
/// position where `active_token_id` is not 0, sent with the method that `no_permit` picks
/// (after a confirmation where a position is opened) or printed as calldata.
pub open spec fn stake_outcome(
    r: Result<StakePlan, StakeError>,
    amount: Seq<char>,
    active_token_id: U256,
    calldata: bool,
    no_permit: bool,
) -> bool {
    &&& units_parse(amount, ZKC_DECIMALS) is None <==> r == Err::<StakePlan, StakeError>(
        StakeError::InvalidAmount,
    )
    &&& units_parse(amount, ZKC_DECIMALS) == Some(0nat) <==> r == Err::<StakePlan, StakeError>(
        StakeError::BelowMinimum,
    )
    &&& r matches Ok(p) ==> {
        &&& units_parse(amount, ZKC_DECIMALS) == Some(p.amount.value())
        &&& p.amount.value() > 0
        &&& p.add == (active_token_id.value() != 0)
        &&& p.action == if calldata {
            StakeAction::PrintCalldata
        } else {
            StakeAction::Send { method: stake_method(p.add, no_permit), confirm_first: !p.add }
        }
    }
}

/// Plans a stake of the decimal ZKC `amount` for an account whose active position has
/// `active_token_id` (0 where it has none): a stake adds to an open position, opening one
/// needs the user's confirmation, and the call uses a permit unless `no_permit` is set.
pub fn plan_stake(amount: &str, active_token_id: U256, calldata: bool, no_permit: bool) -> (r:
    Result<StakePlan, StakeError>)
    requires
        cut_on_char_boundary(amount@, ZKC_DECIMALS as nat),
    ensures
        stake_outcome(r, amount@, active_token_id, calldata, no_permit),
{
    let add = !active_token_id.is_zero();
    let parsed = match parse_units(amount, ZKC_DECIMALS) {
        Some(v) => v,
        None => return Err(StakeError::InvalidAmount),
    };
    if parsed.is_zero() {
        return Err(StakeError::BelowMinimum);
    }
    let action = if calldata {
        StakeAction::PrintCalldata
    } else {
        let method = if add {
            if no_permit {
                StakeMethod::AddToStake
            } else {
                StakeMethod::AddToStakeWithPermit
            }
        } else {
            if no_permit {
                StakeMethod::Stake
            } else {
                StakeMethod::StakeWithPermit
            }
        };
        StakeAction::Send { method, confirm_first: !add }
    };
    Ok(StakePlan { amount: parsed, add, action })
}

/// `plan_stake` where the parser would not panic on `amount`, checking first that no cut
/// falls inside a character; `None` where one would.
pub fn checked_plan_stake(amount: &str, active_token_id: U256, calldata: bool, no_permit: bool) -> (r:
    Option<Result<StakePlan, StakeError>>)
    ensures
        r is None <==> !cut_on_char_boundary(amount@, ZKC_DECIMALS as nat),
        r matches Some(x) ==> stake_outcome(x, amount@, active_token_id, calldata, no_permit),
{
    if !cut_falls_between_chars(amount, ZKC_DECIMALS) {
        return None;
    }
    Some(plan_stake(amount, active_token_id, calldata, no_permit))
}

/// The deadline of a permit: `deadline_secs` after the timestamp of the latest block.
pub fn permit_deadline(deadline_secs: u64, latest_timestamp: u64) -> (r: U256)
    requires
        deadline_secs + latest_timestamp <= u64::MAX,
    ensures
        r.value() == deadline_secs + latest_timestamp,
{
    U256::from_u64(deadline_secs + latest_timestamp)
}

/// A character of the Unicode `White_Space` property.
pub open spec fn is_white_space(c: char) -> bool {
    ||| '\u{9}' <= c <= '\u{d}'
    ||| c == ' '
    ||| c == '\u{85}'
    ||| c == '\u{a0}'
    ||| c == '\u{1680}'
    ||| '\u{2000}' <= c <= '\u{200a}'
    ||| c == '\u{2028}'
    ||| c == '\u{2029}'
    ||| c == '\u{202f}'
    ||| c == '\u{205f}'
    ||| c == '\u{3000}'
}

/// The number of white-space characters that `s` starts with.
pub open spec fn leading_white_space(s: Seq<char>) -> nat
    decreases s.len(),
{
    if s.len() > 0 && is_white_space(s[0]) {
        1 + leading_white_space(s.drop_first())
    } else {
        0
    }
}

/// The number of white-space characters that `s` ends with.
pub open spec fn trailing_white_space(s: Seq<char>) -> nat
    decreases s.len(),
{
    if s.len() > 0 && is_white_space(s.last()) {
        1 + trailing_white_space(s.drop_last())
    } else {
        0
    }
}

/// `s` without its leading and trailing white space.
pub open spec fn trimmed(s: Seq<char>) -> Seq<char> {
    if leading_white_space(s) >= s.len() {
        Seq::empty()
    } else {
        s.subrange(leading_white_space(s) as int, s.len() - trailing_white_space(s))
    }
}

/// The lowercase mapping of `s` that `str::to_lowercase` gives.
pub uninterp spec fn lowercase(s: Seq<char>) -> Seq<char>;

/// `str::trim`: `s` without leading and trailing characters of the Unicode `White_Space`
/// property.
#[verifier::external_body]
fn trim_white_space(s: &str) -> (r: &str)
    ensures
        r@ == trimmed(s@),
{
    s.trim()
}

/// `c` with `A` to `Z` mapped to `a` to `z`, every other character kept.
pub open spec fn ascii_lower(c: char) -> char {
    if 'A' <= c && c <= 'Z' {
        ((c as u32) + 32) as char
    } else {
        c
    }
}

/// `str::to_lowercase`: the lowercase mapping of `s`, named by `lowercase`. On ASCII text
/// it maps `A` to `Z` to `a` to `z` and keeps every other character, as the Unicode
/// lowercase mapping does for ASCII; the Unicode case tables for other text are not stated.
#[verifier::external_body]
fn to_lowercase(s: &str) -> (r: String)
    ensures
        r@ == lowercase(s@),
        all_ascii(s@) ==> r@ == s@.map_values(|c: char| ascii_lower(c)),
{
    s.to_lowercase()
}

/// Whether a line the user typed confirms: trimmed and lowercased, it reads `yes`.
pub fn confirms(input: &str) -> (r: bool)
    ensures
        r == (lowercase(trimmed(input@)) == seq!['y', 'e', 's']),
        all_ascii(trimmed(input@)) ==> r == (trimmed(input@).map_values(|c: char| ascii_lower(c))
            == seq!['y', 'e', 's']),
{
    let t = trim_white_space(input);
    let lower = to_lowercase(t);
    let cs = chars_of(lower.as_str());
    let r = cs.len() == 3 && cs[0] == 'y' && cs[1] == 'e' && cs[2] == 's';
    assert(r == (cs@ =~= seq!['y', 'e', 's']));
    r
}

/// Whether a command that asks for confirmation goes ahead, given the line the user typed,
/// or `None` where standard input ended before any line could be read (the command runs
/// without anyone to answer, as in a script): it goes ahead on such an end of input, and on a
/// line that confirms.
pub fn confirmation_given(answer: Option<&str>) -> (r: bool)
    ensures
        r == match answer {
            None => true,
            Some(line) => lowercase(trimmed(line@)) == seq!['y', 'e', 's'],
        },
{
    match answer {
        None => true,
        Some(line) => confirms(line),
    }
}

/// Why an unstake cannot go ahead.
#[derive(Clone, Copy, Debug, PartialEq, Eq, Structural)]
pub enum UnstakeError {
    /// The account has no active staking position.
    NoActiveStaking,
    /// The position holds nothing.
    NoStakedAmount,
    /// The withdrawal time does not fit in 64 bits.
    WithdrawalTimeOutOfRange,
    /// The cooldown has not ended; it ends at the given timestamp.
    WithdrawalPending { withdrawable_at: u64 },
}

/// The step an unstake is at.
#[derive(Clone, Copy, Debug, PartialEq, Eq, Structural)]
pub enum UnstakeStep {
    /// No unstake was started: starting one begins the cooldown.
    Initiate,
    /// An unstake was started; it completes once the cooldown ends at `withdrawable_at`.
    Complete { withdrawable_at: u64 },
}

/// The withdrawal time of a position: `None` where none is set (0), the time where it fits in
/// 64 bits, and an error otherwise.
pub fn withdrawal_time(withdrawable_at: U256) -> (r: Result<Option<u64>, UnstakeError>)
    ensures
        withdrawable_at.value() == 0 ==> r == Ok::<Option<u64>, UnstakeError>(None),
        0 < withdrawable_at.value() < limb_base() ==> r == Ok::<Option<u64>, UnstakeError>(
            Some(withdrawable_at.value() as u64),
        ),
        withdrawable_at.value() >= limb_base() ==> r == Err::<Option<u64>, UnstakeError>(
            UnstakeError::WithdrawalTimeOutOfRange,
        ),
{
    match withdrawable_at.to_u64() {
        Some(0) => Ok(None),
        Some(w) => Ok(Some(w)),
        None => Err(UnstakeError::WithdrawalTimeOutOfRange),
    }
}

/// The step of an unstake, from the active position's token ID, its staked amount and its
/// withdrawal time.
pub fn plan_unstake(token_id: U256, amount: U256, withdrawable_at: U256) -> (r: Result<
    UnstakeStep,
    UnstakeError,
>)
    ensures
        token_id.value() == 0 ==> r == Err::<UnstakeStep, UnstakeError>(
            UnstakeError::NoActiveStaking,
        ),
        token_id.value() != 0 && amount.value() == 0 ==> r == Err::<UnstakeStep, UnstakeError>(
            UnstakeError::NoStakedAmount,
        ),
        token_id.value() != 0 && amount.value() != 0 ==> {
            &&& withdrawable_at.value() == 0 ==> r == Ok::<UnstakeStep, UnstakeError>(
                UnstakeStep::Initiate,
            )
            &&& 0 < withdrawable_at.value() < limb_base() ==> r == Ok::<UnstakeStep, UnstakeError>(
                UnstakeStep::Complete { withdrawable_at: withdrawable_at.value() as u64 },
            )
            &&& withdrawable_at.value() >= limb_base() ==> r == Err::<UnstakeStep, UnstakeError>(
                UnstakeError::WithdrawalTimeOutOfRange,
            )
        },
{
    if token_id.is_zero() {
        return Err(UnstakeError::NoActiveStaking);
    }
    if amount.is_zero() {
        return Err(UnstakeError::NoStakedAmount);
    }
    match withdrawal_time(withdrawable_at) {
        Ok(None) => Ok(UnstakeStep::Initiate),
        Ok(Some(w)) => Ok(UnstakeStep::Complete { withdrawable_at: w }),
        Err(e) => Err(e),
    }
}

/// Whether an unstake can complete at the latest block's timestamp: only once the cooldown
/// has ended.
pub fn check_withdrawable(block_timestamp: u64, withdrawable_at: u64) -> (r: Result<(), UnstakeError>)
    ensures
        block_timestamp < withdrawable_at <==> r == Err::<(), UnstakeError>(
            UnstakeError::WithdrawalPending { withdrawable_at },
        ),
        block_timestamp >= withdrawable_at <==> r is Ok,
{
    if block_timestamp < withdrawable_at {
        Err(UnstakeError::WithdrawalPending { withdrawable_at })
    } else {
        Ok(())
    }
}

/// Why unclaimed rewards cannot be computed.
#[derive(Clone, Copy, Debug, PartialEq, Eq, Structural)]
pub enum RewardsError {
    /// The current epoch does not fit in 32 bits.
    EpochOutOfRange,
}

/// The epochs before the current one, 0 first.
pub fn epochs_before(current_epoch: U256) -> (r: Result<Vec<U256>, RewardsError>)
    ensures
        r is Err <==> current_epoch.value() >= 0x1_0000_0000,
        r matches Ok(v) ==> v.len() == current_epoch.value() && forall|i: int|
            0 <= i < v.len() ==> (#[trigger] v@[i]).value() == i,
{
    let current = match current_epoch.to_u64() {
        Some(c) => c,
        None => return Err(RewardsError::EpochOutOfRange),
    };
    if current >= 0x1_0000_0000 {
        return Err(RewardsError::EpochOutOfRange);
    }
    let mut v: Vec<U256> = Vec::new();
    let mut i: u64 = 0;
    while i < current
        invariant
            i <= current,
            current < 0x1_0000_0000,
            v.len() == i,
            forall|k: int| 0 <= k < v.len() ==> (#[trigger] v@[k]).value() == k,
        decreases current - i,
    {
        v.push(U256::from_u64(i));
        i = i + 1;
    }
    Ok(v)
}

/// The indices of the epochs whose unclaimed reward is above zero, in order.
pub open spec fn unclaimed_epochs(rewards: Seq<U256>) -> Seq<nat>
    decreases rewards.len(),
{
    if rewards.len() == 0 {
        Seq::empty()
    } else {
        let before = unclaimed_epochs(rewards.drop_last());
        if rewards.last().value() > 0 {
            before.push((rewards.len() - 1) as nat)
        } else {
            before
        }
    }
}

/// An epoch index is among the epochs with unclaimed rewards exactly when it is one of the
/// epochs asked for and its unclaimed reward is above zero; the epochs come in increasing
/// order.
pub proof fn lemma_unclaimed_epochs(rewards: Seq<U256>)
    ensures
        forall|i: int|
            #![trigger unclaimed_epochs(rewards).contains(i as nat)]
            0 <= i ==> (unclaimed_epochs(rewards).contains(i as nat) <==> (i < rewards.len()
                && rewards[i].value() > 0)),
        forall|a: int, b: int|
            0 <= a < b < unclaimed_epochs(rewards).len() ==> unclaimed_epochs(rewards)[a]
                < unclaimed_epochs(rewards)[b],
        forall|a: int|
            0 <= a < unclaimed_epochs(rewards).len() ==> unclaimed_epochs(rewards)[a]
                < rewards.len(),
    decreases rewards.len(),
{
    if rewards.len() > 0 {
        let pre = rewards.drop_last();
        lemma_unclaimed_epochs(pre);
        let b = unclaimed_epochs(pre);
        let n = (rewards.len() - 1) as nat;
        assert forall|i: int| 0 <= i implies (unclaimed_epochs(rewards).contains(i as nat) <==> (i
            < rewards.len() && rewards[i].value() > 0)) by {
            if i < pre.len() {
                assert(pre[i] == rewards[i]);
            }
            if rewards.last().value() > 0 {
                let s = b.push(n);
                if s.contains(i as nat) {
                    let k = choose|k: int| 0 <= k < s.len() && s[k] == i as nat;
                    if k < b.len() {
                        assert(b.contains(i as nat));
                    }
                }
                if b.contains(i as nat) {
                    let k = choose|k: int| 0 <= k < b.len() && b[k] == i as nat;
                    assert(s[k] == i as nat);
                }
                if i == n {
                    assert(s[b.len() as int] == n);
                }
            } else {
                if i == n {
                    assert(!b.contains(n)) by {
                        if b.contains(n) {
                            let k = choose|k: int| 0 <= k < b.len() && b[k] == n;
                        }
                    }
                }
            }
        }
    }
}

/// The epochs, among those whose unclaimed rewards were asked for, with a reward above zero.
pub fn epochs_with_rewards(unclaimed: &Vec<U256>) -> (r: Vec<U256>)
    requires
        unclaimed.len() < 0x1_0000_0000,
    ensures
        values_of(r@) == unclaimed_epochs(unclaimed@),
        forall|i: int|
            #![trigger values_of(r@).contains(i as nat)]
            0 <= i ==> (values_of(r@).contains(i as nat) <==> (i < unclaimed.len()
                && unclaimed@[i].value() > 0)),
        forall|a: int, b: int| 0 <= a < b < r.len() ==> r@[a].value() < r@[b].value(),
{
    let mut r: Vec<U256> = Vec::new();
    let mut i: usize = 0;
    while i < unclaimed.len()
        invariant
            i <= unclaimed.len(),
            unclaimed.len() < 0x1_0000_0000,
            values_of(r@) == unclaimed_epochs(unclaimed@.take(i as int)),
        decreases unclaimed.len() - i,
    {
        assert(unclaimed@.take(i + 1).drop_last() =~= unclaimed@.take(i as int));
        if !unclaimed[i].is_zero() {
            r.push(U256::from_u64(i as u64));
        }
        assert(values_of(r@) =~= unclaimed_epochs(unclaimed@.take(i + 1)));
        i = i + 1;
    }
    assert(unclaimed@.take(unclaimed.len() as int) =~= unclaimed@);
    proof {
        lemma_unclaimed_epochs(unclaimed@);
        assert forall|a: int, b: int| 0 <= a < b < r.len() implies r@[a].value() < r@[b].value() by {
            assert(values_of(r@)[a] == r@[a].value());
            assert(values_of(r@)[b] == r@[b].value());
        }
    }
    r
}

/// The sum of the rewards, wrapping at 2^256 as the `+=` of the 256-bit type does.
pub open spec fn wrapping_total(rewards: Seq<U256>) -> nat
    decreases rewards.len(),
{
    if rewards.len() == 0 {
        0
    } else {
        (wrapping_total(rewards.drop_last()) + rewards.last().value()) % u256_modulus()
    }
}

/// The total of the rewards.
pub fn total_rewards(rewards: &Vec<U256>) -> (r: U256)
    ensures
        r.value() == wrapping_total(rewards@),
{
    let mut total = U256::zero();
    let mut i: usize = 0;
    while i < rewards.len()
        invariant
            i <= rewards.len(),
            total.value() == wrapping_total(rewards@.take(i as int)),
        decreases rewards.len() - i,
    {
        assert(rewards@.take(i + 1).drop_last() =~= rewards@.take(i as int));
        total = total.wrapping_add(rewards[i]);
        i = i + 1;
    }
    assert(rewards@.take(rewards.len() as int) =~= rewards@);
    total
}

} // verus!
