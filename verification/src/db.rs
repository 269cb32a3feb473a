//! The storage side of the rewards indexer: the placeholder lists of batched inserts, the
//! epoch filters of history queries, and the decoding of stored rows, whose amounts are
//! zero-padded decimal text and whose addresses are hex text.
use crate::address::{address_of, Address};
use crate::amounts::{invalid_u256_message, unpad_u256, unpadded, DbError};
use crate::delegation_views::DelegationPowerByEpoch;
use crate::indexer::PovwRewardByEpoch;
use crate::receipts::{address_from_limbs, limbs_value};
use crate::staking_views::StakingPositionByEpoch;
use crate::text::{decimal_digits, string_of, u64_digits};
use crate::u256::U256;
use vstd::prelude::*;

verus! {

/// Rows inserted per statement.
pub const BATCH_INSERT_CHUNK_SIZE: usize = 75;

/// The placeholder `$n`.
pub open spec fn placeholder(n: nat) -> Seq<char> {
    seq!['$'] + decimal_digits(n)
}

/// The placeholders `$start` to `$start + n - 1`, separated by commas.
pub open spec fn placeholder_list(start: nat, n: nat) -> Seq<char>
    decreases n,
{
    if n == 0 {
        Seq::empty()
    } else if n == 1 {
        placeholder(start)
    } else {
        placeholder_list(start, (n - 1) as nat) + seq![','] + placeholder((start + n - 1) as nat)
    }
}

/// The text ` ,CURRENT_TIMESTAMP` without the space: the value of an `updated_at` column.
pub open spec fn timestamp_value() -> Seq<char> {
    ",CURRENT_TIMESTAMP"@
}

/// The values of one inserted row: its `n` placeholders from `$start`, and the current time
/// where the table records it.
pub open spec fn value_group(start: nat, n: nat, with_timestamp: bool) -> Seq<char> {
    seq!['('] + placeholder_list(start, n) + (if with_timestamp {
        timestamp_value()
    } else {
        Seq::empty()
    }) + seq![')']
}

/// The values of `rows` inserted rows of `n` columns each, numbered from `$1`, separated by
/// commas.
pub open spec fn value_groups(rows: nat, n: nat, with_timestamp: bool) -> Seq<char>
    decreases rows,
{
    if rows == 0 {
        Seq::empty()
    } else if rows == 1 {
        value_group(1, n, with_timestamp)
    } else {
        value_groups((rows - 1) as nat, n, with_timestamp) + seq![','] + value_group(
            (1 + (rows - 1) * n) as nat,
            n,
            with_timestamp,
        )
    }
}

/// Appends `s` to `v`.
fn push_all(v: &mut Vec<char>, s: &Vec<char>)
    ensures
        final(v)@ == old(v)@ + s@,
{
    let mut i: usize = 0;
    while i < s.len()
        invariant
            i <= s.len(),
            v@ == old(v)@ + s@.take(i as int),
        decreases s.len() - i,
    {
        v.push(s[i]);
        i = i + 1;
        assert(v@ =~= old(v)@ + s@.take(i as int));
    }
    assert(s@.take(s.len() as int) =~= s@);
}

/// Appends the placeholder `$n` to `v`.
fn push_placeholder(v: &mut Vec<char>, n: u64)
    ensures
        final(v)@ == old(v)@ + placeholder(n as nat),
{
    v.push('$');
    let d = u64_digits(n);
    push_all(v, &d);
    assert(v@ =~= old(v)@ + placeholder(n as nat));
}

/// Appends the values of one inserted row to `v`.
fn push_value_group(v: &mut Vec<char>, start: u64, n: u64, with_timestamp: bool)
    requires
        start + n <= u64::MAX,
    ensures
        final(v)@ == old(v)@ + value_group(start as nat, n as nat, with_timestamp),
{
    v.push('(');
    let ghost open = v@;
    let mut k: u64 = 0;
    while k < n
        invariant
            k <= n,
            start + n <= u64::MAX,
            v@ == open + placeholder_list(start as nat, k as nat),
        decreases n - k,
    {
        if k > 0 {
            v.push(',');
        }
        push_placeholder(v, start + k);
        k = k + 1;
        assert(v@ =~= open + placeholder_list(start as nat, k as nat));
    }
    if with_timestamp {
        let ts: Vec<char> = vec![
            ',', 'C', 'U', 'R', 'R', 'E', 'N', 'T', '_', 'T', 'I', 'M', 'E', 'S', 'T', 'A', 'M', 'P',
        ];
        proof {
            reveal_strlit(",CURRENT_TIMESTAMP");
        }
        assert(ts@ =~= timestamp_value());
        push_all(v, &ts);
    }
    v.push(')');
    assert(v@ =~= old(v)@ + value_group(start as nat, n as nat, with_timestamp));
}

/// The `VALUES` list of a batched insert of `rows` rows of `columns` columns each, numbered
/// from `$1`, each row ending with the current time where the table records it.
pub fn values_placeholders(rows: u64, columns: u64, with_timestamp: bool) -> (r: String)
    requires
        (rows + 1) * columns < u64::MAX,
    ensures
        r@ == value_groups(rows as nat, columns as nat, with_timestamp),
{
    let mut v: Vec<char> = Vec::new();
    let mut i: u64 = 0;
    while i < rows
        invariant
            i <= rows,
            (rows + 1) * columns < u64::MAX,
            v@ == value_groups(i as nat, columns as nat, with_timestamp),
        decreases rows - i,
    {
        assert((i + 1) * columns <= (rows + 1) * columns) by (nonlinear_arith)
            requires
                i < rows,
        ;
        assert(i * columns + 1 + columns <= (rows + 1) * columns + 1) by (nonlinear_arith)
            requires
                i < rows,
        ;
        let start = i * columns + 1;
        if i > 0 {
            v.push(',');
        }
        push_value_group(&mut v, start, columns, with_timestamp);
        i = i + 1;
        assert(v@ =~= value_groups(i as nat, columns as nat, with_timestamp)) by {
            if i > 1 {
                assert(1 + (i - 1) * columns == start);
            }
        }
    }
    string_of(&v)
}

/// The filter and order of a history query by epoch: `$2` (and `$3`) bound the epochs
/// where a start (and an end) is given, the address being `$1`; latest epoch first.
pub open spec fn epoch_range_clause_text(has_start: bool, has_end: bool) -> Seq<char> {
    (if has_start {
        " AND epoch >= "@ + placeholder(2)
    } else {
        Seq::empty()
    }) + (if has_end {
        " AND epoch <= "@ + placeholder(if has_start {
            3
        } else {
            2
        })
    } else {
        Seq::empty()
    }) + " ORDER BY epoch DESC"@
}

/// The filter and order of a history query over the given epoch range.
pub fn epoch_range_clause(start_epoch: Option<u64>, end_epoch: Option<u64>) -> (r: String)
    ensures
        r@ == epoch_range_clause_text(start_epoch is Some, end_epoch is Some),
{
    let mut v: Vec<char> = Vec::new();
    let mut bind_count: u64 = 1;
    if start_epoch.is_some() {
        bind_count = bind_count + 1;
        let t = crate::text::chars_of(" AND epoch >= ");
        push_all(&mut v, &t);
        push_placeholder(&mut v, bind_count);
    }
    if end_epoch.is_some() {
        bind_count = bind_count + 1;
        let t = crate::text::chars_of(" AND epoch <= ");
        push_all(&mut v, &t);
        push_placeholder(&mut v, bind_count);
    }
    let t = crate::text::chars_of(" ORDER BY epoch DESC");
    push_all(&mut v, &t);
    assert(v@ =~= epoch_range_clause_text(start_epoch is Some, end_epoch is Some));
    string_of(&v)
}

/// The bounds of the batches of a list of `len` items, `chunk` items each, the last one
/// shorter where `len` is not a multiple of `chunk`.
pub fn batch_ranges(len: usize, chunk: usize) -> (r: Vec<(usize, usize)>)
    requires
        chunk > 0,
    ensures
        r.len() == (len + chunk - 1) / (chunk as int),
        forall|i: int|
            0 <= i < r.len() ==> #[trigger] r@[i] == ((i * chunk) as usize, if (i + 1) * chunk
                <= len {
                ((i + 1) * chunk) as usize
            } else {
                len
            }),
{
    let mut r: Vec<(usize, usize)> = Vec::new();
    let mut start: usize = 0;
    let ghost total = (len + chunk - 1) / (chunk as int);
    assert(r.len() * chunk == 0) by (nonlinear_arith)
        requires
            r.len() == 0,
    ;
    if len > 0 {
        assert(0 < (len + chunk - 1) / (chunk as int)) by (nonlinear_arith)
            requires
                len > 0,
                chunk > 0,
        ;
    } else {
        assert((len + chunk - 1) / (chunk as int) == 0) by (nonlinear_arith)
            requires
                len == 0,
                chunk > 0,
        ;
    }
    while start < len
        invariant
            chunk > 0,
            total == (len + chunk - 1) / (chunk as int),
            start < len ==> start == r.len() * chunk,
            start <= len,
            start < len ==> r.len() < total,
            start == len ==> r.len() == total,
            forall|i: int|
                0 <= i < r.len() ==> #[trigger] r@[i] == ((i * chunk) as usize, if (i + 1) * chunk
                    <= len {
                    ((i + 1) * chunk) as usize
                } else {
                    len
                }),
        decreases len - start,
    {
        let ghost k = r.len() as int;
        let end = if len - start > chunk {
            start + chunk
        } else {
            len
        };
        assert((k + 1) * chunk == start + chunk) by (nonlinear_arith)
            requires
                start == k * chunk,
        ;
        r.push((start, end));
        start = end;
        proof {
            if end < len {
                assert(k * chunk + chunk < len);
                assert((k + 1) * chunk < len);
                assert((k + 1) < total) by (nonlinear_arith)
                    requires
                        (k + 1) * chunk < len,
                        chunk > 0,
                        total == (len + chunk - 1) / (chunk as int),
                ;
            } else {
                assert(k * chunk < len);
                assert(len <= (k + 1) * chunk);
                assert(k + 1 == total) by (nonlinear_arith)
                    requires
                        k * chunk < len,
                        len <= (k + 1) * chunk,
                        chunk > 0,
                        total == (len + chunk - 1) / (chunk as int),
                ;
            }
        }
    }
    r
}

/// `c` is a hex digit, in either case.
pub open spec fn is_hex_char(c: char) -> bool {
    ('0' <= c <= '9') || ('a' <= c <= 'f') || ('A' <= c <= 'F')
}

/// The value of a hex digit.
pub open spec fn hex_char_value(c: char) -> nat {
    if '0' <= c <= '9' {
        (c as int - '0' as int) as nat
    } else if 'a' <= c <= 'f' {
        (c as int - 'a' as int + 10) as nat
    } else {
        (c as int - 'A' as int + 10) as nat
    }
}

/// The number written by the hex digits `s`.
pub open spec fn hex_text_value(s: Seq<char>) -> nat
    decreases s.len(),
{
    if s.len() == 0 {
        0
    } else {
        hex_text_value(s.drop_last()) * 16 + hex_char_value(s.last())
    }
}

/// The 160-bit number an address text stands for: 40 hex digits in either case, after an
/// optional `0x` or `0X`; `None` for any other text.
pub open spec fn address_text_value(s: Seq<char>) -> Option<nat> {
    let h = if s.len() >= 2 && s[0] == '0' && (s[1] == 'x' || s[1] == 'X') {
        s.skip(2)
    } else {
        s
    };
    if h.len() == 40 && forall|i: int| 0 <= i < h.len() ==> #[trigger] is_hex_char(h[i]) {
        Some(hex_text_value(h))
    } else {
        None
    }
}

/// The message of the hex error that parsing `s` as an address gives.
pub uninterp spec fn address_error_text(s: Seq<char>) -> Seq<char>;

/// `FromStr` of `alloy_primitives::Address` (hex decoding into 20 bytes), as the three limbs
/// of the 160-bit number, or the text of the `FromHexError`. The accepted texts and their
/// values are stated; the error text is named by `address_error_text`.
#[verifier::external_body]
fn parse_address_limbs(s: &str) -> (r: Result<[u64; 3], String>)
    ensures
        match (r, address_text_value(s@)) {
            (Ok(l), Some(n)) => l[2] < 0x1_0000_0000 && limbs_value(l) == n,
            (Err(m), None) => m@ == address_error_text(s@),
            _ => false,
        },
{
    match <alloy_primitives::Address as std::str::FromStr>::from_str(s) {
        Ok(a) => Ok(<alloy_primitives::U160 as From<alloy_primitives::Address>>::from(a).into_limbs()),
        Err(e) => Err(e.to_string()),
    }
}

/// Parses a stored address.
pub fn parse_address(s: &str) -> (r: Result<Address, DbError>)
    ensures
        match address_text_value(s@) {
            Some(n) => r == Ok::<Address, DbError>(address_of(n)),
            None => r matches Err(DbError::BadTransaction(m)) && m@ == address_error_text(s@),
        },
{
    match parse_address_limbs(s) {
        Ok(l) => Ok(address_from_limbs(l)),
        Err(m) => Err(DbError::BadTransaction(m)),
    }
}

/// The address an optional stored text stands for, where it parses.
pub open spec fn optional_address_value(o: Option<Seq<char>>) -> Option<Address> {
    match o {
        Some(s) => match address_text_value(s) {
            Some(n) => Some(address_of(n)),
            None => None,
        },
        None => None,
    }
}

/// The address of an optional stored text; a text that does not parse counts as none.
pub fn optional_address(o: &Option<String>) -> (r: Option<Address>)
    ensures
        r == optional_address_value(crate::receipts::opt_text(*o)),
{
    match o {
        Some(s) => match parse_address(s.as_str()) {
            Ok(a) => Some(a),
            Err(_) => None,
        },
        None => None,
    }
}

/// The addresses among the texts that parse, in order.
pub open spec fn parsed_addresses(texts: Seq<Seq<char>>) -> Seq<Address>
    decreases texts.len(),
{
    if texts.len() == 0 {
        Seq::empty()
    } else {
        let before = parsed_addresses(texts.drop_last());
        match address_text_value(texts.last()) {
            Some(n) => before.push(address_of(n)),
            None => before,
        }
    }
}

/// The addresses among the stored texts that parse, in order; the others are dropped.
pub fn address_list(texts: &Vec<String>) -> (r: Vec<Address>)
    ensures
        r@ == parsed_addresses(crate::receipts::texts(texts@)),
{
    let ghost all = crate::receipts::texts(texts@);
    let mut r: Vec<Address> = Vec::new();
    let mut i: usize = 0;
    while i < texts.len()
        invariant
            i <= texts.len(),
            all == crate::receipts::texts(texts@),
            r@ == parsed_addresses(all.take(i as int)),
        decreases texts.len() - i,
    {
        assert(all.take(i + 1).drop_last() =~= all.take(i as int));
        assert(all.take(i + 1).last() == texts@[i as int]@);
        match parse_address(texts[i].as_str()) {
            Ok(a) => r.push(a),
            Err(_) => {},
        }
        i = i + 1;
    }
    assert(all.take(texts.len() as int) =~= all);
    r
}

/// The list of strings that a JSON text holds, as `serde_json` reads it, or `None` where it
/// holds no such list.
pub uninterp spec fn json_string_list(s: Seq<char>) -> Option<Seq<Seq<char>>>;

/// `serde_json::from_str::<Vec<String>>`: the list of strings a JSON text holds. What JSON
/// it accepts is named by `json_string_list`, not stated.
#[verifier::external_body]
fn parse_json_string_list(s: &str) -> (r: Option<Vec<String>>)
    ensures
        match r {
            Some(v) => json_string_list(s@) == Some(crate::receipts::texts(v@)),
            None => json_string_list(s@) is None,
        },
{
    serde_json::from_str::<Vec<String>>(s).ok()
}

/// The delegators a stored JSON list names: the addresses that parse, in order; a list
/// that does not read counts as empty.
pub fn delegators_from_json(json: &str) -> (r: Vec<Address>)
    ensures
        r@ == match json_string_list(json@) {
            Some(texts) => parsed_addresses(texts),
            None => Seq::empty(),
        },
{
    match parse_json_string_list(json) {
        Some(v) => address_list(&v),
        None => Vec::new(),
    }
}

/// An amount stored as zero-padded text.
pub open spec fn stored_amount(s: Seq<char>) -> Option<nat> {
    unpadded(s)
}

/// A stored row of PoVW rewards of one work log in one epoch.
pub struct PovwRewardRow {
    pub work_log_id: String,
    pub epoch: i64,
    pub work_submitted: String,
    /// IEEE-754 bits of the share of the epoch's work, in percent.
    pub percentage_bits: u64,
    pub uncapped_rewards: String,
    pub reward_cap: String,
    pub actual_rewards: String,
    pub is_capped: i32,
    pub staked_amount: String,
}

/// Decodes a stored row of PoVW rewards: the first field that does not decode, in the order
/// of the row, makes it fail.
pub fn decode_povw_reward_row(row: &PovwRewardRow) -> (r: Result<PovwRewardByEpoch, DbError>)
    ensures
        address_text_value(row.work_log_id@) is None ==> (r matches Err(DbError::BadTransaction(m))
            && m@ == address_error_text(row.work_log_id@)),
        address_text_value(row.work_log_id@) is Some && stored_amount(row.work_submitted@) is None
            ==> (r matches Err(DbError::BadTransaction(m)) && m@ == invalid_u256_message(
            row.work_submitted@,
        )),
        r matches Ok(v) ==> {
            &&& Some(v.work_log_id) == optional_address_value(Some(row.work_log_id@))
            &&& v.epoch == row.epoch as u64
            &&& stored_amount(row.work_submitted@) == Some(v.work_submitted.value())
            &&& v.percentage_bits == row.percentage_bits
            &&& stored_amount(row.uncapped_rewards@) == Some(v.uncapped_rewards.value())
            &&& stored_amount(row.reward_cap@) == Some(v.reward_cap.value())
            &&& stored_amount(row.actual_rewards@) == Some(v.actual_rewards.value())
            &&& v.is_capped == (row.is_capped != 0)
            &&& stored_amount(row.staked_amount@) == Some(v.staked_amount.value())
        },
        (address_text_value(row.work_log_id@) is Some && stored_amount(row.work_submitted@) is Some
            && stored_amount(row.uncapped_rewards@) is Some && stored_amount(row.reward_cap@) is Some
            && stored_amount(row.actual_rewards@) is Some && stored_amount(row.staked_amount@) is Some)
            <==> r is Ok,
        r matches Err(DbError::BadTransaction(m)) ==> (m@ == address_error_text(row.work_log_id@)
            || m@ == invalid_u256_message(row.work_submitted@) || m@ == invalid_u256_message(
            row.uncapped_rewards@,
        ) || m@ == invalid_u256_message(row.reward_cap@) || m@ == invalid_u256_message(
            row.actual_rewards@,
        ) || m@ == invalid_u256_message(row.staked_amount@)),
{
    let work_log_id = match parse_address(row.work_log_id.as_str()) {
        Ok(x) => x,
        Err(e) => return Err(e),
    };
    let work_submitted = match unpad_u256(row.work_submitted.as_str()) {
        Ok(x) => x,
        Err(e) => return Err(e),
    };
    let uncapped_rewards = match unpad_u256(row.uncapped_rewards.as_str()) {
        Ok(x) => x,
        Err(e) => return Err(e),
    };
    let reward_cap = match unpad_u256(row.reward_cap.as_str()) {
        Ok(x) => x,
        Err(e) => return Err(e),
    };
    let actual_rewards = match unpad_u256(row.actual_rewards.as_str()) {
        Ok(x) => x,
        Err(e) => return Err(e),
    };
    let staked_amount = match unpad_u256(row.staked_amount.as_str()) {
        Ok(x) => x,
        Err(e) => return Err(e),
    };
    Ok(
        PovwRewardByEpoch {
            work_log_id,
            epoch: row.epoch as u64,
            work_submitted,
            percentage_bits: row.percentage_bits,
            uncapped_rewards,
            reward_cap,
            actual_rewards,
            is_capped: row.is_capped != 0,
            staked_amount,
        },
    )
}

/// A stored row of a staking position in one epoch, read for the address `staker_address`.
pub struct StakingPositionRow {
    pub epoch: i64,
    pub staked_amount: String,
    pub is_withdrawing: i32,
    pub rewards_delegated_to: Option<String>,
    pub votes_delegated_to: Option<String>,
    pub rewards_generated: String,
}

/// Decodes a stored staking position of `staker_address`; a delegate that does not parse
/// counts as none.
pub fn decode_staking_position_row(staker_address: Address, row: &StakingPositionRow) -> (r: Result<
    StakingPositionByEpoch,
    DbError,
>)
    ensures
        (stored_amount(row.staked_amount@) is Some && stored_amount(row.rewards_generated@) is Some)
            <==> r is Ok,
        stored_amount(row.staked_amount@) is None ==> (r matches Err(DbError::BadTransaction(m))
            && m@ == invalid_u256_message(row.staked_amount@)),
        stored_amount(row.staked_amount@) is Some && stored_amount(row.rewards_generated@) is None
            ==> (r matches Err(DbError::BadTransaction(m)) && m@ == invalid_u256_message(
            row.rewards_generated@,
        )),
        r matches Ok(v) ==> {
            &&& v.staker_address == staker_address
            &&& v.epoch == row.epoch as u64
            &&& stored_amount(row.staked_amount@) == Some(v.staked_amount.value())
            &&& v.is_withdrawing == (row.is_withdrawing != 0)
            &&& v.rewards_delegated_to == optional_address_value(
                crate::receipts::opt_text(row.rewards_delegated_to),
            )
            &&& v.votes_delegated_to == optional_address_value(
                crate::receipts::opt_text(row.votes_delegated_to),
            )
            &&& stored_amount(row.rewards_generated@) == Some(v.rewards_generated.value())
        },
{
    let staked_amount = match unpad_u256(row.staked_amount.as_str()) {
        Ok(x) => x,
        Err(e) => return Err(e),
    };
    let rewards_delegated_to = optional_address(&row.rewards_delegated_to);
    let votes_delegated_to = optional_address(&row.votes_delegated_to);
    let rewards_generated = match unpad_u256(row.rewards_generated.as_str()) {
        Ok(x) => x,
        Err(e) => return Err(e),
    };
    Ok(
        StakingPositionByEpoch {
            staker_address,
            epoch: row.epoch as u64,
            staked_amount,
            is_withdrawing: row.is_withdrawing != 0,
            rewards_delegated_to,
            votes_delegated_to,
            rewards_generated,
        },
    )
}

/// A stored row of the delegation power of a delegate in one epoch.
pub struct DelegationPowerRow {
    pub epoch: i64,
    pub power: String,
    pub delegator_count: i32,
    /// The delegators, as a JSON list of address texts.
    pub delegators: String,
}

/// Decodes a stored delegation power of `delegate_address`.
pub fn decode_delegation_power_row(delegate_address: Address, row: &DelegationPowerRow) -> (r: Result<
    DelegationPowerByEpoch,
    DbError,
>)
    ensures
        stored_amount(row.power@) is Some <==> r is Ok,
        stored_amount(row.power@) is None ==> (r matches Err(DbError::BadTransaction(m)) && m@
            == invalid_u256_message(row.power@)),
        r matches Ok(v) ==> {
            &&& v.delegate_address == delegate_address
            &&& v.epoch == row.epoch as u64
            &&& stored_amount(row.power@) == Some(v.power.value())
            &&& v.delegator_count == row.delegator_count as u64
            &&& v.delegators@ == match json_string_list(row.delegators@) {
                Some(texts) => parsed_addresses(texts),
                None => Seq::empty(),
            }
        },
{
    let delegators = delegators_from_json(row.delegators.as_str());
    let power = match unpad_u256(row.power.as_str()) {
        Ok(x) => x,
        Err(e) => return Err(e),
    };
    Ok(
        DelegationPowerByEpoch {
            delegate_address,
            epoch: row.epoch as u64,
            power,
            delegator_count: row.delegator_count as u64,
            delegators,
        },
    )
}

} // verus!
