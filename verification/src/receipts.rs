//! Choosing the work receipts to add to a work log: reading a receipt's identity from the
//! prover's list, refusing receipts for other work logs or for jobs already in the log, and
//! deciding how a preparation run goes on.
use crate::address::{address_of, two_pow_128, Address};
use crate::text::{all_digits, chars_of, decimal_value};
use crate::sorted_set::{contains_key, SortKey};
use crate::u256::limb_base;
use vstd::prelude::*;

verus! {

/// Work receipt info as the prover's API lists it.
pub struct WorkReceiptInfo {
    pub key: String,
    /// PoVW log ID if PoVW is enabled, `None` otherwise.
    pub povw_log_id: Option<String>,
    /// PoVW job number if PoVW is enabled, `None` otherwise.
    pub povw_job_number: Option<String>,
}

/// Work receipt list as the prover's API returns it.
pub struct WorkReceiptList {
    pub receipts: Vec<WorkReceiptInfo>,
}

/// The 160-bit number that `FromStr` of `ruint`'s `U160` gives for `s`, or `None` where it
/// fails.
pub uninterp spec fn u160_parse(s: Seq<char>) -> Option<nat>;

/// 2^160.
pub open spec fn two_pow_160() -> nat {
    0x1_0000_0000_0000_0000_0000_0000_0000_0000_0000_0000nat
}

/// The number held in three 64-bit limbs, least significant first.
pub open spec fn limbs_value(l: [u64; 3]) -> nat {
    (l[0] + limb_base() * (l[1] + limb_base() * l[2])) as nat
}

/// `FromStr` of `alloy_primitives::U160` (ruint's 160-bit integer), as its three 64-bit
/// limbs, least significant first. A string of decimal digits parses to its value where that
/// is below 2^160 and fails otherwise. What it does with the `0x`, `0o` and `0b` prefixes
/// and with other characters is named by `u160_parse`, not stated.
#[verifier::external_body]
fn parse_u160_limbs(s: &str) -> (r: Option<[u64; 3]>)
    ensures
        r matches Some(l) ==> l[2] < 0x1_0000_0000 && u160_parse(s@) == Some(limbs_value(l)),
        r is None ==> u160_parse(s@) is None,
        all_digits(s@) ==> (r is Some <==> decimal_value(s@) < two_pow_160()),
        all_digits(s@) ==> (r matches Some(l) ==> limbs_value(l) == decimal_value(s@)),
{
    <alloy_primitives::U160 as std::str::FromStr>::from_str(s).ok().map(|v| v.into_limbs())
}

/// The address holding the 160-bit number with the given limbs.
pub(crate) fn address_from_limbs(l: [u64; 3]) -> (a: Address)
    requires
        l[2] < 0x1_0000_0000,
    ensures
        a == address_of(limbs_value(l)),
{
    let lo: u128 = (l[0] as u128) + (l[1] as u128) * 0x1_0000_0000_0000_0000u128;
    let hi: u32 = l[2] as u32;
    proof {
        let b = limb_base();
        let n = l[0] + b * (l[1] + b * l[2]);
        assert(lo == l[0] + l[1] * b);
        assert(n == hi * two_pow_128() + lo) by (nonlinear_arith)
            requires
                n == l[0] + b * (l[1] + b * l[2]),
                lo == l[0] + l[1] * b,
                hi == l[2],
                b == 0x1_0000_0000_0000_0000,
                two_pow_128() == 0x1_0000_0000_0000_0000_0000_0000_0000_0000nat,
        ;
        vstd::arithmetic::div_mod::lemma_fundamental_div_mod_converse(
            n as int,
            two_pow_128() as int,
            hi as int,
            lo as int,
        );
    }
    Address { hi, lo }
}

/// Parses a work log ID.
pub fn parse_log_id(s: &str) -> (r: Option<Address>)
    ensures
        match u160_parse(s@) {
            Some(n) => r == Some(address_of(n)),
            None => r is None,
        },
{
    match parse_u160_limbs(s) {
        Some(l) => Some(address_from_limbs(l)),
        None => None,
    }
}

/// The `u64` that `u64::from_str` reads from `s`: an optional `+` followed by one or more
/// ASCII digits, whose value fits in 64 bits.
pub open spec fn u64_text(s: Seq<char>) -> Option<nat> {
    let d = if s.len() > 0 && s[0] == '+' {
        s.drop_first()
    } else {
        s
    };
    if d.len() > 0 && all_digits(d) && decimal_value(d) <= u64::MAX {
        Some(decimal_value(d))
    } else {
        None
    }
}

/// `u64::from_str`: as its documentation says, an optional `+` sign followed by decimal
/// digits, whose value fits in 64 bits; anything else is an error.
#[verifier::external_body]
fn parse_u64(s: &str) -> (r: Option<u64>)
    ensures
        match r {
            Some(v) => u64_text(s@) == Some(v as nat),
            None => u64_text(s@) is None,
        },
{
    <u64 as std::str::FromStr>::from_str(s).ok()
}

/// Why a receipt's log ID and job number cannot be read from its info.
#[derive(Clone, Copy, Debug, PartialEq, Eq, Structural)]
pub enum ReceiptInfoError {
    /// The info has no log ID.
    NoLogId,
    /// The log ID does not parse.
    BadLogId,
    /// The info has no job number.
    NoJobNumber,
    /// The job number does not parse.
    BadJobNumber,
}

/// The text of an optional string.
pub open spec fn opt_text(o: Option<String>) -> Option<Seq<char>> {
    match o {
        Some(s) => Some(s@),
        None => None,
    }
}

/// The log ID and job number read from the texts of a receipt info, or the first failure.
pub open spec fn receipt_ids(log_text: Option<Seq<char>>, job_text: Option<Seq<char>>) -> Result<
    (Address, u64),
    ReceiptInfoError,
> {
    match log_text {
        None => Err(ReceiptInfoError::NoLogId),
        Some(l) => match u160_parse(l) {
            None => Err(ReceiptInfoError::BadLogId),
            Some(id) => match job_text {
                None => Err(ReceiptInfoError::NoJobNumber),
                Some(j) => match u64_text(j) {
                    None => Err(ReceiptInfoError::BadJobNumber),
                    Some(n) => Ok((address_of(id), n as u64)),
                },
            },
        },
    }
}

/// The identity of a listed receipt.
pub open spec fn info_ids(info: WorkReceiptInfo) -> Result<(Address, u64), ReceiptInfoError> {
    receipt_ids(opt_text(info.povw_log_id), opt_text(info.povw_job_number))
}

/// Parses the log ID and job number of a listed receipt.
pub fn parse_receipt_info(info: &WorkReceiptInfo) -> (r: Result<(Address, u64), ReceiptInfoError>)
    ensures
        r == info_ids(*info),
{
    let log_text = match &info.povw_log_id {
        Some(s) => s,
        None => return Err(ReceiptInfoError::NoLogId),
    };
    let log_id = match parse_log_id(log_text.as_str()) {
        Some(a) => a,
        None => return Err(ReceiptInfoError::BadLogId),
    };
    let job_text = match &info.povw_job_number {
        Some(s) => s,
        None => return Err(ReceiptInfoError::NoJobNumber),
    };
    let job = match parse_u64(job_text.as_str()) {
        Some(n) => n,
        None => return Err(ReceiptInfoError::BadJobNumber),
    };
    Ok((log_id, job))
}

/// Whether `jobs` holds `job`.
fn holds_job(jobs: &Vec<u64>, job: u64) -> (r: bool)
    ensures
        r == jobs@.contains(job),
{
    let mut i: usize = 0;
    while i < jobs.len()
        invariant
            i <= jobs.len(),
            forall|k: int| 0 <= k < i ==> jobs@[k] != job,
        decreases jobs.len() - i,
    {
        if jobs[i] == job {
            return true;
        }
        i = i + 1;
    }
    false
}

/// What reading the work claim of a work receipt gave.
#[derive(Clone, Copy, Debug, PartialEq, Eq, Structural)]
pub enum WorkClaimReading {
    /// The receipt's claim is pruned.
    ClaimPruned,
    /// The claim's work part is pruned.
    WorkPruned,
    /// The log ID and job number of the lowest nonce of the work.
    Work { log_id: Address, job: u64 },
}

/// Why a work receipt cannot be added to a work log.
#[derive(Clone, Copy, Debug, PartialEq, Eq, Structural)]
pub enum ReceiptError {
    /// The receipt's claim is pruned.
    ClaimPruned,
    /// The claim's work part is pruned.
    WorkPruned,
    /// The receipt is for another work log.
    LogIdMismatch { found: Address },
    /// The work log already holds the receipt's job.
    JobAlreadyInLog { job: u64 },
}

/// Whether a work receipt can be added to the work log `log_id`, whose jobs are `log_jobs`:
/// its claim and work must be present, its log ID must be this one, and its job must be new.
pub fn check_work_receipt(log_id: Address, log_jobs: &Vec<u64>, claim: WorkClaimReading) -> (r:
    Result<(), ReceiptError>)
    ensures
        match claim {
            WorkClaimReading::ClaimPruned => r == Err::<(), ReceiptError>(
                ReceiptError::ClaimPruned,
            ),
            WorkClaimReading::WorkPruned => r == Err::<(), ReceiptError>(ReceiptError::WorkPruned),
            WorkClaimReading::Work { log_id: found, job } => if found != log_id {
                r == Err::<(), ReceiptError>(ReceiptError::LogIdMismatch { found })
            } else if log_jobs@.contains(job) {
                r == Err::<(), ReceiptError>(ReceiptError::JobAlreadyInLog { job })
            } else {
                r is Ok
            },
        },
{
    match claim {
        WorkClaimReading::ClaimPruned => Err(ReceiptError::ClaimPruned),
        WorkClaimReading::WorkPruned => Err(ReceiptError::WorkPruned),
        WorkClaimReading::Work { log_id: found, job } => {
            if found != log_id {
                Err(ReceiptError::LogIdMismatch { found })
            } else if holds_job(log_jobs, job) {
                Err(ReceiptError::JobAlreadyInLog { job })
            } else {
                Ok(())
            }
        },
    }
}

/// A listed receipt is wanted: its identity reads, it is for this work log, and its job is
/// not in the log yet.
pub open spec fn wanted(info: WorkReceiptInfo, log_id: Address, log_jobs: Seq<u64>) -> bool {
    match info_ids(info) {
        Ok((id, job)) => id == log_id && !log_jobs.contains(job),
        Err(_) => false,
    }
}

/// The keys of the wanted receipts of a list.
pub open spec fn wanted_keys(infos: Seq<WorkReceiptInfo>, log_id: Address, log_jobs: Seq<u64>) -> Set<
    Seq<char>,
> {
    Set::new(
        |k: Seq<char>|
            exists|i: int|
                0 <= i < infos.len() && wanted(infos[i], log_id, log_jobs) && infos[i].key@ == k,
    )
}

/// The texts of a list of strings.
pub open spec fn texts(v: Seq<String>) -> Seq<Seq<char>> {
    v.map_values(|s: String| s@)
}

/// Whether two strings have the same characters.
fn same_text(a: &str, b: &str) -> (r: bool)
    ensures
        r == (a@ == b@),
{
    let x = chars_of(a);
    let y = chars_of(b);
    if x.len() != y.len() {
        return false;
    }
    let mut i: usize = 0;
    while i < x.len()
        invariant
            x@ == a@,
            y@ == b@,
            x.len() == y.len(),
            i <= x.len(),
            forall|k: int| 0 <= k < i ==> x@[k] == y@[k],
        decreases x.len() - i,
    {
        if x[i] != y[i] {
            assert(x@[i as int] != y@[i as int]);
            return false;
        }
        i = i + 1;
    }
    assert(x@ =~= y@);
    true
}

/// Whether `keys` holds a string with the characters of `k`.
fn holds_text(keys: &Vec<String>, k: &str) -> (r: bool)
    ensures
        r == texts(keys@).contains(k@),
{
    let mut i: usize = 0;
    while i < keys.len()
        invariant
            i <= keys.len(),
            forall|j: int| 0 <= j < i ==> keys@[j]@ != k@,
        decreases keys.len() - i,
    {
        if same_text(keys[i].as_str(), k) {
            assert(texts(keys@)[i as int] == k@);
            return true;
        }
        i = i + 1;
    }
    assert forall|j: int| 0 <= j < texts(keys@).len() implies texts(keys@)[j] != k@ by {
        assert(texts(keys@)[j] == keys@[j]@);
    }
    false
}

/// A copy of a string.
fn copy_text(s: &String) -> (r: String)
    ensures
        r@ == s@,
{
    crate::text::string_of(&chars_of(s.as_str()))
}

/// The log IDs of a listing that read and are not `log_id`: those of receipts for other
/// work logs, which are skipped with a warning.
pub open spec fn foreign_ids(infos: Seq<WorkReceiptInfo>, log_id: Address) -> Set<Address> {
    Set::new(
        |a: Address|
            a != log_id && exists|i: int|
                0 <= i < infos.len() && #[trigger] info_ids(infos[i]) is Ok && info_ids(
                    infos[i],
                )->Ok_0.0 == a,
    )
}

/// The log IDs other than `log_id` that the listing names, each once, in the order they
/// first appear: one warning is due for each.
pub fn foreign_log_ids(log_id: Address, list: &WorkReceiptList) -> (r: Vec<Address>)
    ensures
        r@.to_set() == foreign_ids(list.receipts@, log_id),
        r@.no_duplicates(),
{
    let infos = &list.receipts;
    let mut ids: Vec<Address> = Vec::new();
    let mut i: usize = 0;
    while i < infos.len()
        invariant
            i <= infos.len(),
            ids@.to_set() == foreign_ids(infos@.take(i as int), log_id),
            ids@.no_duplicates(),
        decreases infos.len() - i,
    {
        let info = &infos[i];
        let ghost pre = infos@.take(i as int);
        let ghost post = infos@.take(i + 1);
        assert(post =~= pre.push(*info));
        let ghost old_ids = ids@;
        match parse_receipt_info(info) {
            Ok((id, _)) => {
                if !id.same_as(&log_id) && !contains_key(&ids, &id) {
                    ids.push(id);
                    proof {
                        old_ids.lemma_push_to_set_commute(id);
                        assert(ids@ =~= old_ids.push(id));
                        assert forall|a: int, b: int|
                            0 <= a < ids@.len() && 0 <= b < ids@.len() && a != b implies ids@[a]
                            != ids@[b] by {
                            if b == old_ids.len() {
                                assert(old_ids.contains(old_ids[a]));
                            } else if a == old_ids.len() {
                                assert(old_ids.contains(old_ids[b]));
                            }
                        }
                    }
                }
            },
            Err(_) => {},
        }
        proof {
            assert(ids@.to_set() =~= foreign_ids(post, log_id)) by {
                assert forall|a: Address| #[trigger] ids@.to_set().contains(a) <==> foreign_ids(
                    post,
                    log_id,
                ).contains(a) by {
                    if foreign_ids(post, log_id).contains(a) {
                        let k = choose|k: int|
                            0 <= k < post.len() && #[trigger] info_ids(post[k]) is Ok && info_ids(
                                post[k],
                            )->Ok_0.0 == a;
                        if k < pre.len() {
                            assert(pre[k] == post[k]);
                            assert(foreign_ids(pre, log_id).contains(a));
                        }
                    }
                    if old_ids.to_set().contains(a) {
                        assert(foreign_ids(pre, log_id).contains(a));
                        let k = choose|k: int|
                            0 <= k < pre.len() && #[trigger] info_ids(pre[k]) is Ok && info_ids(
                                pre[k],
                            )->Ok_0.0 == a;
                        assert(post[k] == pre[k]);
                    }
                    if ids@.to_set().contains(a) && !old_ids.to_set().contains(a) {
                        assert(post[i as int] == *info);
                    }
                }
            }
        }
        i = i + 1;
    }
    assert(infos@.take(infos.len() as int) =~= infos@);
    ids
}

/// The keys of the receipts to fetch from a listing, each once: those whose identity reads,
/// that are for the work log `log_id`, and whose job the log, with jobs `log_jobs`, does not
/// hold yet.
pub fn select_receipt_keys(log_id: Address, log_jobs: &Vec<u64>, list: &WorkReceiptList) -> (r:
    Vec<String>)
    ensures
        texts(r@).to_set() == wanted_keys(list.receipts@, log_id, log_jobs@),
        texts(r@).no_duplicates(),
{
    let infos = &list.receipts;
    let mut keys: Vec<String> = Vec::new();
    let mut i: usize = 0;
    while i < infos.len()
        invariant
            i <= infos.len(),
            texts(keys@).to_set() == wanted_keys(infos@.take(i as int), log_id, log_jobs@),
            texts(keys@).no_duplicates(),
        decreases infos.len() - i,
    {
        let info = &infos[i];
        let ghost pre = infos@.take(i as int);
        let ghost post = infos@.take(i + 1);
        assert(post =~= pre.push(*info));
        let ghost old_keys = texts(keys@);
        let take = match parse_receipt_info(info) {
            Ok((id, job)) => id == log_id && !holds_job(log_jobs, job),
            Err(_) => false,
        };
        assert(take == wanted(*info, log_id, log_jobs@));
        if take && !holds_text(&keys, info.key.as_str()) {
            keys.push(copy_text(&info.key));
            assert(texts(keys@) =~= old_keys.push(info.key@));
        }
        proof {
            assert(texts(keys@).no_duplicates()) by {
                if texts(keys@) != old_keys {
                    assert forall|a: int, b: int|
                        0 <= a < texts(keys@).len() && 0 <= b < texts(keys@).len() && a != b
                            implies texts(keys@)[a] != texts(keys@)[b] by {
                        if b == old_keys.len() {
                            assert(old_keys.contains(old_keys[a]));
                        } else if a == old_keys.len() {
                            assert(old_keys.contains(old_keys[b]));
                        } else {
                            assert(texts(keys@)[a] == old_keys[a]);
                            assert(texts(keys@)[b] == old_keys[b]);
                        }
                    }
                }
            }
            let changed = texts(keys@) != old_keys;
            if changed {
                assert(texts(keys@) == old_keys.push(info.key@));
                assert(take);
            }
            assert(texts(keys@).to_set() =~= wanted_keys(post, log_id, log_jobs@)) by {
                assert forall|k: Seq<char>| #[trigger] texts(keys@).to_set().contains(k)
                    <==> wanted_keys(post, log_id, log_jobs@).contains(k) by {
                    let in_old = old_keys.to_set().contains(k);
                    assert(in_old == wanted_keys(pre, log_id, log_jobs@).contains(k));
                    if in_old {
                        let m = choose|m: int|
                            0 <= m < pre.len() && wanted(pre[m], log_id, log_jobs@) && pre[m].key@
                                == k;
                        assert(post[m] == pre[m]);
                        assert(wanted_keys(post, log_id, log_jobs@).contains(k));
                        let j = choose|j: int| 0 <= j < old_keys.len() && old_keys[j] == k;
                        assert(texts(keys@)[j] == k);
                        assert(texts(keys@).contains(k));
                    }
                    if wanted_keys(post, log_id, log_jobs@).contains(k) && !in_old {
                        let m = choose|m: int|
                            0 <= m < post.len() && wanted(post[m], log_id, log_jobs@)
                                && post[m].key@ == k;
                        if m < i {
                            assert(post[m] == pre[m]);
                            assert(wanted_keys(pre, log_id, log_jobs@).contains(k));
                        }
                        assert(post[m] == *info);
                        assert(k == info.key@);
                        assert(changed);
                        assert(texts(keys@)[old_keys.len() as int] == k);
                        assert(texts(keys@).contains(k));
                    }
                    if texts(keys@).contains(k) && !in_old {
                        let m = choose|m: int| 0 <= m < texts(keys@).len() && texts(keys@)[m] == k;
                        if !changed || m < old_keys.len() {
                            assert(old_keys[m] == k);
                            assert(old_keys.contains(k));
                        }
                        assert(k == info.key@);
                        assert(post[i as int] == *info);
                        assert(wanted(post[i as int], log_id, log_jobs@));
                    }
                }
            }
        }
        i = i + 1;
    }
    assert(infos@.take(infos.len() as int) =~= infos@);
    keys
}

/// Why a preparation run stops.
#[derive(Clone, Copy, Debug, PartialEq, Eq, Structural)]
pub enum PrepareError {
    /// A new work log was asked for, but a state file exists.
    StateFileExists,
    /// Some receipts failed to load and a partial update was not allowed.
    ReceiptLoadFailures,
    /// The state has a non-empty work log but no log-builder receipt to continue from.
    NoReceiptToContinueFrom,
}

/// Where a preparation run gets its state from.
#[derive(Clone, Copy, Debug, PartialEq, Eq, Structural)]
pub enum StateSource {
    /// A new state for the given work log.
    New { log_id: Address },
    /// The state file.
    Load,
}

/// Where the state of a preparation run comes from: a new work log only where no state file
/// would be overwritten.
pub fn state_source(new_log_id: Option<Address>, state_file_exists: bool) -> (r: Result<
    StateSource,
    PrepareError,
>)
    ensures
        match new_log_id {
            Some(id) => if state_file_exists {
                r == Err::<StateSource, PrepareError>(PrepareError::StateFileExists)
            } else {
                r == Ok::<StateSource, PrepareError>(StateSource::New { log_id: id })
            },
            None => r == Ok::<StateSource, PrepareError>(StateSource::Load),
        },
{
    match new_log_id {
        Some(id) => if state_file_exists {
            Err(PrepareError::StateFileExists)
        } else {
            Ok(StateSource::New { log_id: id })
        },
        None => Ok(StateSource::Load),
    }
}

/// The items that loaded, in order.
pub open spec fn loaded<T>(results: Seq<Option<T>>) -> Seq<T>
    decreases results.len(),
{
    if results.len() == 0 {
        Seq::empty()
    } else {
        match results.last() {
            Some(x) => loaded(results.drop_last()).push(x),
            None => loaded(results.drop_last()),
        }
    }
}

/// The receipts that loaded (`Some`), in order; where some failed (`None`), the run stops
/// unless a partial update is allowed.
pub fn collect_loaded<T>(results: Vec<Option<T>>, allow_partial_update: bool) -> (r: Result<
    Vec<T>,
    PrepareError,
>)
    ensures
        (exists|i: int| 0 <= i < results@.len() && results@[i] is None) && !allow_partial_update
            ==> r == Err::<Vec<T>, PrepareError>(PrepareError::ReceiptLoadFailures),
        r matches Ok(v) ==> v@ == loaded(results@),
        r is Err ==> !allow_partial_update && exists|i: int|
            0 <= i < results@.len() && results@[i] is None,
{
    let ghost all = results@;
    let ghost n = all.len();
    let mut out: Vec<T> = Vec::new();
    let mut failed = false;
    let mut rest = results;
    assert(all.skip(0) =~= all);
    while rest.len() > 0
        invariant
            all.len() == n,
            rest@.len() <= n,
            rest@ == all.skip(n - rest@.len()),
            out@ == loaded(all.take(n - rest@.len())),
            failed <==> exists|i: int| 0 <= i < n - rest@.len() && all[i] is None,
        decreases rest@.len(),
    {
        let ghost done = n - rest@.len();
        assert(rest@[0] == all[done]);
        let item = rest.remove(0);
        assert(rest@ =~= all.skip(done + 1));
        assert(all.take(done + 1).drop_last() =~= all.take(done));
        assert(all.take(done + 1).last() == all[done]);
        match item {
            Some(x) => {
                out.push(x);
            },
            None => {
                failed = true;
            },
        }
    }
    assert(all.take(n as int) =~= all);
    if failed && !allow_partial_update {
        return Err(PrepareError::ReceiptLoadFailures);
    }
    Ok(out)
}

/// Which log-builder receipt a proof of the next update continues from: none for an empty
/// work log, the last one otherwise (an error where there is none).
pub fn continuation(work_log_is_empty: bool, receipt_count: usize) -> (r: Result<
    Option<usize>,
    PrepareError,
>)
    ensures
        work_log_is_empty ==> r == Ok::<Option<usize>, PrepareError>(None),
        !work_log_is_empty && receipt_count == 0 ==> r == Err::<Option<usize>, PrepareError>(
            PrepareError::NoReceiptToContinueFrom,
        ),
        !work_log_is_empty && receipt_count > 0 ==> r == Ok::<Option<usize>, PrepareError>(
            Some((receipt_count - 1) as usize),
        ),
{
    if work_log_is_empty {
        Ok(None)
    } else if receipt_count == 0 {
        Err(PrepareError::NoReceiptToContinueFrom)
    } else {
        Ok(Some(receipt_count - 1))
    }
}

} // verus!
