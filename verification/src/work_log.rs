//! Local state of a work log between runs of the prover's commands: the chain of log-builder
//! journals that leads to the current work log, the log-update transactions sent, and the
//! versioned byte frame the state is stored in.
use crate::address::{Address, Digest};
use crate::text::{chars_of, decimal_digits, string_of, u64_digits};
use crate::u256::U256;
use vstd::prelude::*;

verus! {

/// The journal of a log-builder receipt: an update of a work log from one commit to another.
#[derive(Clone, Copy, Debug, PartialEq, Eq, Structural)]
pub struct LogBuilderJournal {
    /// Image ID of the log builder that produced the receipt.
    pub self_image_id: Digest,
    pub work_log_id: Address,
    pub initial_commit: Digest,
    pub updated_commit: Digest,
    /// Value of the work added by the update.
    pub update_value: u64,
}

/// What reading a log-builder receipt gave: it failed verification, its journal could not be
/// decoded, or its journal.
#[derive(Clone, Copy, Debug, PartialEq, Eq, Structural)]
pub enum ReceiptReading {
    Rejected,
    Undecodable,
    Read(LogBuilderJournal),
}

/// Why a work log state is inconsistent.
#[derive(Clone, Copy, Debug, PartialEq, Eq, Structural)]
pub enum StateError {
    /// The state has no receipts but a non-empty work log.
    NonEmptyLogWithoutReceipts,
    /// The receipt at `index` failed verification against the log builder's image ID.
    ReceiptRejected { index: usize },
    /// The journal of the receipt at `index` could not be decoded.
    JournalUndecodable { index: usize },
    /// The first receipt does not start from the empty work log.
    FirstInitialCommitNotEmpty,
    /// The receipt at `index` does not start where the one before it ended.
    InitialCommitMismatch { index: usize },
    /// The receipt at `index` is for another work log.
    LogIdMismatch { index: usize },
    /// The last receipt does not end at the commit of the current work log.
    FinalCommitMismatch,
}

/// Checks one receipt of the chain, at position `index`, expected to start at `expected`:
/// where it passes, the commit it ends at.
pub open spec fn chain_step(log_id: Address, r: ReceiptReading, index: nat, expected: Digest) -> Result<
    Digest,
    StateError,
> {
    match r {
        ReceiptReading::Rejected => Err(StateError::ReceiptRejected { index: index as usize }),
        ReceiptReading::Undecodable => Err(StateError::JournalUndecodable { index: index as usize }),
        ReceiptReading::Read(j) => if j.initial_commit != expected {
            if index == 0 {
                Err(StateError::FirstInitialCommitNotEmpty)
            } else {
                Err(StateError::InitialCommitMismatch { index: index as usize })
            }
        } else if j.work_log_id != log_id {
            Err(StateError::LogIdMismatch { index: index as usize })
        } else {
            Ok(j.updated_commit)
        },
    }
}

/// Walks the receipts `rs`, the first at position `offset`, from commit `expected`: the
/// commit the chain ends at, or the first failure.
pub open spec fn chain_walk(log_id: Address, rs: Seq<ReceiptReading>, offset: nat, expected: Digest) -> Result<
    Digest,
    StateError,
>
    decreases rs.len(),
{
    if rs.len() == 0 {
        Ok(expected)
    } else {
        match chain_step(log_id, rs[0], offset, expected) {
            Ok(next) => chain_walk(log_id, rs.drop_first(), offset + 1, next),
            Err(e) => Err(e),
        }
    }
}

/// The outcome of validating a state: with no receipts the work log must be empty; otherwise
/// the receipts must verify, be for this work log, chain from the empty commit, and end at
/// the current commit.
pub open spec fn validation(
    log_id: Address,
    rs: Seq<ReceiptReading>,
    empty_commit: Digest,
    log_commit: Digest,
    log_is_empty: bool,
) -> Result<(), StateError> {
    if rs.len() == 0 {
        if log_is_empty {
            Ok(())
        } else {
            Err(StateError::NonEmptyLogWithoutReceipts)
        }
    } else {
        match chain_walk(log_id, rs, 0, empty_commit) {
            Ok(last) => if last == log_commit {
                Ok(())
            } else {
                Err(StateError::FinalCommitMismatch)
            },
            Err(e) => Err(e),
        }
    }
}

/// Walking one more receipt continues from where the walk of the others ended.
pub proof fn lemma_chain_walk_push(
    log_id: Address,
    rs: Seq<ReceiptReading>,
    x: ReceiptReading,
    offset: nat,
    expected: Digest,
)
    ensures
        chain_walk(log_id, rs.push(x), offset, expected) == match chain_walk(
            log_id,
            rs,
            offset,
            expected,
        ) {
            Ok(d) => chain_step(log_id, x, offset + rs.len(), d),
            Err(e) => Err(e),
        },
    decreases rs.len(),
{
    let s = rs.push(x);
    if rs.len() == 0 {
        assert(s.drop_first() =~= Seq::<ReceiptReading>::empty());
        assert(s[0] == x);
        match chain_step(log_id, x, offset, expected) {
            Ok(next) => {
                assert(chain_walk(log_id, s.drop_first(), offset + 1, next) == Ok::<
                    Digest,
                    StateError,
                >(next));
            },
            Err(e) => {},
        }
    } else {
        assert(s.drop_first() =~= rs.drop_first().push(x));
        assert(s[0] == rs[0]);
        match chain_step(log_id, rs[0], offset, expected) {
            Ok(next) => {
                lemma_chain_walk_push(log_id, rs.drop_first(), x, offset + 1, next);
                assert(offset + 1 + rs.drop_first().len() == offset + rs.len());
            },
            Err(e) => {},
        }
    }
}

/// Validates the chain of receipts of a work log state.
pub fn validate_chain(
    log_id: Address,
    readings: &Vec<ReceiptReading>,
    empty_commit: Digest,
    log_commit: Digest,
    log_is_empty: bool,
) -> (r: Result<(), StateError>)
    requires
        readings.len() < usize::MAX,
    ensures
        r == validation(log_id, readings@, empty_commit, log_commit, log_is_empty),
{
    if readings.len() == 0 {
        if log_is_empty {
            return Ok(());
        } else {
            return Err(StateError::NonEmptyLogWithoutReceipts);
        }
    }
    let mut expected = empty_commit;
    let mut i: usize = 0;
    assert(readings@.skip(0) =~= readings@);
    while i < readings.len()
        invariant
            i <= readings.len(),
            readings.len() < usize::MAX,
            chain_walk(log_id, readings@, 0, empty_commit) == chain_walk(
                log_id,
                readings@.skip(i as int),
                i as nat,
                expected,
            ),
        decreases readings.len() - i,
    {
        let ghost rest = readings@.skip(i as int);
        assert(rest[0] == readings@[i as int]);
        assert(rest.drop_first() =~= readings@.skip(i + 1));
        match readings[i] {
            ReceiptReading::Rejected => {
                return Err(StateError::ReceiptRejected { index: i });
            },
            ReceiptReading::Undecodable => {
                return Err(StateError::JournalUndecodable { index: i });
            },
            ReceiptReading::Read(j) => {
                if j.initial_commit != expected {
                    if i == 0 {
                        return Err(StateError::FirstInitialCommitNotEmpty);
                    } else {
                        return Err(StateError::InitialCommitMismatch { index: i });
                    }
                }
                if j.work_log_id != log_id {
                    return Err(StateError::LogIdMismatch { index: i });
                }
                expected = j.updated_commit;
            },
        }
        i = i + 1;
    }
    assert(readings@.skip(i as int) =~= Seq::<ReceiptReading>::empty());
    if expected == log_commit {
        Ok(())
    } else {
        Err(StateError::FinalCommitMismatch)
    }
}

/// A `WorkLogUpdated` event, as a confirmed log-update transaction emitted it.
#[derive(Clone, Copy, Debug, PartialEq, Eq, Structural)]
pub struct WorkLogUpdatedEvent {
    pub work_log_id: Address,
    pub epoch_number: U256,
    pub initial_commit: Digest,
    pub updated_commit: Digest,
    pub update_value: U256,
    pub value_recipient: Address,
}

/// State of a log update transaction sent to the chain: both fields are `None` while it is
/// pending.
#[derive(Clone, Copy, Debug, PartialEq, Eq, Structural)]
pub struct UpdateTransactionState {
    /// Block number from the receipt of the confirmed transaction.
    pub block_number: Option<u64>,
    /// The `WorkLogUpdated` event of the confirmed transaction.
    pub update_event: Option<WorkLogUpdatedEvent>,
}

/// Why an update of the work log is refused.
#[derive(Clone, Copy, Debug, PartialEq, Eq, Structural)]
pub enum UpdateError {
    /// The log-builder receipt failed verification.
    ReceiptRejected,
    /// Its journal could not be decoded.
    JournalUndecodable,
    /// The journal names another log builder image.
    ImageIdMismatch,
    /// The journal is for another work log.
    LogIdMismatch,
    /// The journal does not start at the current commit.
    InitialCommitMismatch,
    /// The journal does not end at the commit of the new work log.
    UpdatedCommitMismatch,
}

/// Why a log-update transaction cannot be confirmed.
#[derive(Clone, Copy, Debug, PartialEq, Eq, Structural)]
pub enum TxError {
    /// The transaction receipt holds no `WorkLogUpdated` event.
    NoUpdateEvent,
    /// The transaction receipt holds no block number.
    NoBlockNumber,
}

/// The log-update transactions sent for a work log, by hash.
pub struct UpdateTransactions {
    entries: Vec<(Digest, UpdateTransactionState)>,
}

/// The readings of receipts that all verified, with the given journals.
pub open spec fn read_all(journals: Seq<LogBuilderJournal>) -> Seq<ReceiptReading> {
    journals.map_values(|j: LogBuilderJournal| ReceiptReading::Read(j))
}

/// The transactions, by hash.
pub open spec fn tx_map(entries: Seq<(Digest, UpdateTransactionState)>) -> Map<
    Digest,
    UpdateTransactionState,
>
    decreases entries.len(),
{
    if entries.len() == 0 {
        Map::empty()
    } else {
        tx_map(entries.drop_last()).insert(entries.last().0, entries.last().1)
    }
}

/// No hash occurs twice.
pub open spec fn distinct_hashes(entries: Seq<(Digest, UpdateTransactionState)>) -> bool {
    forall|i: int, j: int|
        0 <= i < j < entries.len() ==> (#[trigger] entries[i]).0 != (#[trigger] entries[j]).0
}

/// A map lookup of the last entry with a hash finds that entry.
proof fn lemma_tx_map(entries: Seq<(Digest, UpdateTransactionState)>)
    requires
        distinct_hashes(entries),
    ensures
        tx_map(entries).dom().finite(),
        forall|h: Digest|
            #[trigger] tx_map(entries).dom().contains(h) <==> exists|i: int|
                0 <= i < entries.len() && entries[i].0 == h,
        forall|i: int|
            0 <= i < entries.len() ==> tx_map(entries)[(#[trigger] entries[i]).0] == entries[i].1,
    decreases entries.len(),
{
    if entries.len() > 0 {
        let pre = entries.drop_last();
        assert(distinct_hashes(pre)) by {
            assert forall|i: int, j: int| 0 <= i < j < pre.len() implies (#[trigger] pre[i]).0
                != (#[trigger] pre[j]).0 by {
                assert(pre[i] == entries[i] && pre[j] == entries[j]);
            }
        }
        lemma_tx_map(pre);
        assert forall|h: Digest| #[trigger] tx_map(entries).dom().contains(h) <==> exists|i: int|
            0 <= i < entries.len() && entries[i].0 == h by {
            if tx_map(pre).dom().contains(h) {
                let i = choose|i: int| 0 <= i < pre.len() && pre[i].0 == h;
                assert(entries[i] == pre[i]);
            }
            if exists|i: int| 0 <= i < entries.len() && entries[i].0 == h {
                let i = choose|i: int| 0 <= i < entries.len() && entries[i].0 == h;
                if i < pre.len() {
                    assert(pre[i] == entries[i]);
                }
            }
        }
        assert forall|i: int| 0 <= i < entries.len() implies tx_map(entries)[(
        #[trigger] entries[i]).0] == entries[i].1 by {
            if i < pre.len() {
                assert(pre[i] == entries[i]);
                assert(entries[i].0 != entries.last().0);
            }
        }
    }
}

/// The position of the entry with hash `h` in `txs`, if there is one.
fn find_tx(txs: &Vec<(Digest, UpdateTransactionState)>, h: &Digest) -> (r: Option<usize>)
    ensures
        match r {
            Some(i) => i < txs@.len() && txs@[i as int].0 == *h,
            None => forall|i: int| 0 <= i < txs@.len() ==> txs@[i].0 != *h,
        },
{
    let mut i: usize = 0;
    while i < txs.len()
        invariant
            i <= txs@.len(),
            forall|k: int| 0 <= k < i ==> txs@[k].0 != *h,
        decreases txs@.len() - i,
    {
        if txs[i].0 == *h {
            return Some(i);
        }
        i = i + 1;
    }
    None
}

impl View for UpdateTransactions {
    type V = Map<Digest, UpdateTransactionState>;

    closed spec fn view(&self) -> Map<Digest, UpdateTransactionState> {
        tx_map(self.entries@)
    }
}

impl UpdateTransactions {
    /// No hash occurs twice.
    #[verifier::type_invariant]
    spec fn inv(self) -> bool {
        distinct_hashes(self.entries@)
    }

    /// No transaction.
    pub fn new() -> (r: Self)
        ensures
            r@ == Map::<Digest, UpdateTransactionState>::empty(),
    {
        UpdateTransactions { entries: Vec::new() }
    }

    /// Records a pending transaction; a transaction already recorded keeps its state.
    pub fn add_pending(&mut self, tx_hash: Digest)
        ensures
            final(self)@ == if old(self)@.dom().contains(tx_hash) {
                old(self)@
            } else {
                old(self)@.insert(
                    tx_hash,
                    UpdateTransactionState { block_number: None, update_event: None },
                )
            },
    {
        proof {
            use_type_invariant(&*self);
            lemma_tx_map(self.entries@);
        }
        match find_tx(&self.entries, &tx_hash) {
            Some(_) => {},
            None => {
                let ghost pre = self.entries@;
                let entry = (
                    tx_hash,
                    UpdateTransactionState { block_number: None, update_event: None },
                );
                let mut txs = Vec::new();
                std::mem::swap(&mut txs, &mut self.entries);
                txs.push(entry);
                assert(txs@.drop_last() == pre);
                assert(distinct_hashes(txs@)) by {
                    assert forall|i: int, j: int| 0 <= i < j < txs@.len() implies (
                    #[trigger] txs@[i]).0 != (#[trigger] txs@[j]).0 by {
                        if j == pre.len() {
                            assert(txs@[i] == pre[i]);
                        } else {
                            assert(txs@[i] == pre[i] && txs@[j] == pre[j]);
                        }
                    }
                }
                self.entries = txs;
            },
        }
    }

    /// Records the state of a transaction, replacing any state it had.
    pub fn set(&mut self, tx_hash: Digest, state: UpdateTransactionState)
        ensures
            final(self)@ == old(self)@.insert(tx_hash, state),
    {
        proof {
            use_type_invariant(&*self);
            lemma_tx_map(self.entries@);
        }
        let ghost pre = self.entries@;
        let mut txs = Vec::new();
        std::mem::swap(&mut txs, &mut self.entries);
        match find_tx(&txs, &tx_hash) {
            Some(i) => {
                txs.set(i, (tx_hash, state));
                assert(distinct_hashes(txs@)) by {
                    assert forall|a: int, b: int| 0 <= a < b < txs@.len() implies (
                    #[trigger] txs@[a]).0 != (#[trigger] txs@[b]).0 by {
                        assert(pre[a].0 != pre[b].0);
                    }
                }
                proof {
                    lemma_tx_map(txs@);
                    assert(tx_map(txs@) =~= tx_map(pre).insert(tx_hash, state)) by {
                        assert forall|h: Digest| #[trigger] tx_map(txs@).dom().contains(h)
                            <==> tx_map(pre).insert(tx_hash, state).dom().contains(h) by {
                            if exists|k: int| 0 <= k < pre.len() && pre[k].0 == h {
                                let k = choose|k: int| 0 <= k < pre.len() && pre[k].0 == h;
                                assert(txs@[k].0 == h);
                            }
                            if exists|k: int| 0 <= k < txs@.len() && txs@[k].0 == h {
                                let k = choose|k: int| 0 <= k < txs@.len() && txs@[k].0 == h;
                                if k != i {
                                    assert(pre[k].0 == h);
                                }
                            }
                        }
                        assert forall|h: Digest| #[trigger] tx_map(txs@).dom().contains(h)
                            implies tx_map(txs@)[h] == tx_map(pre).insert(tx_hash, state)[h] by {
                            let k = choose|k: int| 0 <= k < txs@.len() && txs@[k].0 == h;
                            if k != i {
                                assert(pre[k] == txs@[k]);
                            }
                        }
                    }
                }
            },
            None => {
                txs.push((tx_hash, state));
                assert(txs@.drop_last() == pre);
                assert(distinct_hashes(txs@)) by {
                    assert forall|a: int, b: int| 0 <= a < b < txs@.len() implies (
                    #[trigger] txs@[a]).0 != (#[trigger] txs@[b]).0 by {
                        if b == pre.len() {
                            assert(txs@[a] == pre[a]);
                        } else {
                            assert(txs@[a] == pre[a] && txs@[b] == pre[b]);
                        }
                    }
                }
            },
        }
        self.entries = txs;
    }

    /// The recorded transactions, each hash once, in the order they were first recorded.
    pub fn to_list(&self) -> (r: Vec<(Digest, UpdateTransactionState)>)
        ensures
            tx_map(r@) == self@,
            distinct_hashes(r@),
    {
        proof {
            use_type_invariant(self);
        }
        let mut r: Vec<(Digest, UpdateTransactionState)> = Vec::new();
        let mut i: usize = 0;
        while i < self.entries.len()
            invariant
                i <= self.entries@.len(),
                r@ == self.entries@.take(i as int),
            decreases self.entries@.len() - i,
        {
            r.push(self.entries[i]);
            i = i + 1;
            assert(r@ =~= self.entries@.take(i as int));
        }
        assert(r@ =~= self.entries@);
        r
    }
}

/// The state of a work log kept between runs: the current work log, by its commit, the
/// journals of the log-builder receipts that built it, and the log-update transactions sent.
pub struct State {
    /// The work log this state is for.
    pub log_id: Address,
    /// Commit of the current work log.
    pub work_log_commit: Digest,
    /// Whether the current work log holds no job.
    pub work_log_is_empty: bool,
    /// Journals of the log-builder receipts, oldest first.
    pub journals: Vec<LogBuilderJournal>,
    /// The log-update transactions sent.
    pub update_transactions: UpdateTransactions,
    /// When the state last changed, in nanoseconds since the Unix epoch.
    pub updated_at: u128,
    /// Commit of the empty work log, where every chain of receipts starts: the commit of the
    /// work log whenever it holds no job.
    pub empty_commit: Digest,
}

impl State {
    /// The state is consistent: its receipts, all verified, chain from the empty commit to
    /// the current commit, or, with none, the work log is empty; and an empty work log has
    /// the empty commit.
    pub open spec fn valid(&self, empty_commit: Digest) -> bool {
        &&& validation(
            self.log_id,
            read_all(self.journals@),
            empty_commit,
            self.work_log_commit,
            self.work_log_is_empty,
        ) is Ok
        &&& self.work_log_is_empty ==> self.work_log_commit == empty_commit
    }

    /// A new state for the work log `log_id`: an empty work log, no receipts, no transactions,
    /// made at time `now`.
    pub fn new(log_id: Address, empty_commit: Digest, now: u128) -> (r: Self)
        ensures
            r.updated_at == now,
            r.empty_commit == empty_commit,
            r.log_id == log_id,
            r.work_log_commit == empty_commit,
            r.work_log_is_empty,
            r.journals@.len() == 0,
            r.update_transactions@ == Map::<Digest, UpdateTransactionState>::empty(),
            r.valid(empty_commit),
    {
        let r = State {
            log_id,
            work_log_commit: empty_commit,
            work_log_is_empty: true,
            journals: Vec::new(),
            update_transactions: UpdateTransactions::new(),
            updated_at: now,
            empty_commit,
        };
        assert(read_all(r.journals@).len() == 0);
        r
    }

    /// Validates the state, given what reading each of its receipts gave.
    pub fn validate(&self, readings: &Vec<ReceiptReading>, empty_commit: Digest) -> (r: Result<
        (),
        StateError,
    >)
        requires
            readings.len() < usize::MAX,
        ensures
            r == validation(
                self.log_id,
                readings@,
                empty_commit,
                self.work_log_commit,
                self.work_log_is_empty,
            ),
    {
        validate_chain(
            self.log_id,
            readings,
            empty_commit,
            self.work_log_commit,
            self.work_log_is_empty,
        )
    }

    /// Moves the state to a new work log, whose commit is `new_commit`, given the reading of
    /// the log-builder receipt that proves the update. The receipt must verify, and its
    /// journal must name the log builder `image_id`, be for this work log, and lead from the
    /// current commit to the new one; otherwise nothing changes. An update made at time `now`
    /// records it as the time of the last change. A new work log that holds no job has the
    /// empty commit, as every work log does; a valid state stays valid.
    pub fn update_work_log(
        &mut self,
        reading: ReceiptReading,
        image_id: Digest,
        new_commit: Digest,
        new_is_empty: bool,
        now: u128,
    ) -> (r: Result<(), UpdateError>)
        requires
            new_is_empty ==> new_commit == old(self).empty_commit,
        ensures
            final(self).empty_commit == old(self).empty_commit,
            old(self).valid(old(self).empty_commit) ==> final(self).valid(final(self).empty_commit),
            r is Ok ==> final(self).updated_at == now,
            r is Err ==> final(self).updated_at == old(self).updated_at,
            reading == ReceiptReading::Rejected ==> r == Err::<(), UpdateError>(
                UpdateError::ReceiptRejected,
            ),
            reading == ReceiptReading::Undecodable ==> r == Err::<(), UpdateError>(
                UpdateError::JournalUndecodable,
            ),
            reading matches ReceiptReading::Read(j) ==> {
                &&& j.self_image_id != image_id ==> r == Err::<(), UpdateError>(
                    UpdateError::ImageIdMismatch,
                )
                &&& j.self_image_id == image_id && j.work_log_id != old(self).log_id ==> r
                    == Err::<(), UpdateError>(UpdateError::LogIdMismatch)
                &&& j.self_image_id == image_id && j.work_log_id == old(self).log_id
                    && j.initial_commit != old(self).work_log_commit ==> r == Err::<
                    (),
                    UpdateError,
                >(UpdateError::InitialCommitMismatch)
                &&& j.self_image_id == image_id && j.work_log_id == old(self).log_id
                    && j.initial_commit == old(self).work_log_commit && j.updated_commit
                    != new_commit ==> r == Err::<(), UpdateError>(
                    UpdateError::UpdatedCommitMismatch,
                )
                &&& j.self_image_id == image_id && j.work_log_id == old(self).log_id
                    && j.initial_commit == old(self).work_log_commit && j.updated_commit
                    == new_commit ==> r is Ok
                &&& r is Ok ==> final(self).journals@ == old(self).journals@.push(j)
            },
            r is Ok ==> reading is Read && final(self).work_log_commit == new_commit
                && final(self).work_log_is_empty == new_is_empty,
            r is Err ==> final(self).work_log_commit == old(self).work_log_commit
                && final(self).work_log_is_empty == old(self).work_log_is_empty
                && final(self).journals@ == old(self).journals@,
            final(self).log_id == old(self).log_id,
            final(self).update_transactions@ == old(self).update_transactions@,
    {
        let j = match reading {
            ReceiptReading::Rejected => return Err(UpdateError::ReceiptRejected),
            ReceiptReading::Undecodable => return Err(UpdateError::JournalUndecodable),
            ReceiptReading::Read(j) => j,
        };
        if j.self_image_id != image_id {
            return Err(UpdateError::ImageIdMismatch);
        }
        if j.work_log_id != self.log_id {
            return Err(UpdateError::LogIdMismatch);
        }
        if j.initial_commit != self.work_log_commit {
            return Err(UpdateError::InitialCommitMismatch);
        }
        if j.updated_commit != new_commit {
            return Err(UpdateError::UpdatedCommitMismatch);
        }
        let ghost before = *self;
        self.journals.push(j);
        self.work_log_commit = new_commit;
        self.work_log_is_empty = new_is_empty;
        self.updated_at = now;
        proof {
            if before.valid(before.empty_commit) {
                lemma_update_keeps_valid(
                    before,
                    *self,
                    j,
                    image_id,
                    new_commit,
                    new_is_empty,
                    before.empty_commit,
                );
            }
        }
        Ok(())
    }

    /// Records a pending log-update transaction; a transaction already recorded keeps its
    /// state. The time `now` is recorded as the time of the last change.
    pub fn add_pending_update_tx(&mut self, tx_hash: Digest, now: u128)
        ensures
            final(self).empty_commit == old(self).empty_commit,
            final(self).updated_at == now,
            final(self).update_transactions@ == if old(
                self,
            ).update_transactions@.dom().contains(tx_hash) {
                old(self).update_transactions@
            } else {
                old(self).update_transactions@.insert(
                    tx_hash,
                    UpdateTransactionState { block_number: None, update_event: None },
                )
            },
            final(self).log_id == old(self).log_id,
            final(self).work_log_commit == old(self).work_log_commit,
            final(self).work_log_is_empty == old(self).work_log_is_empty,
            final(self).journals@ == old(self).journals@,
    {
        self.update_transactions.add_pending(tx_hash);
        self.updated_at = now;
    }

    /// Records a confirmed log-update transaction, given the first `WorkLogUpdated` event of
    /// its receipt and its block number; fails, changing nothing, where either is missing.
    /// A confirmation at time `now` records it as the time of the last change.
    pub fn confirm_update_tx(
        &mut self,
        tx_hash: Digest,
        update_event: Option<WorkLogUpdatedEvent>,
        block_number: Option<u64>,
        now: u128,
    ) -> (r: Result<(), TxError>)
        ensures
            final(self).empty_commit == old(self).empty_commit,
            r is Ok ==> final(self).updated_at == now,
            r is Err ==> final(self).updated_at == old(self).updated_at,
            update_event is None ==> r == Err::<(), TxError>(TxError::NoUpdateEvent),
            update_event is Some && block_number is None ==> r == Err::<(), TxError>(
                TxError::NoBlockNumber,
            ),
            update_event is Some && block_number is Some ==> r is Ok,
            r is Ok ==> final(self).update_transactions@ == old(
                self,
            ).update_transactions@.insert(
                tx_hash,
                UpdateTransactionState { block_number, update_event },
            ),
            r is Err ==> final(self).update_transactions@ == old(self).update_transactions@,
            final(self).log_id == old(self).log_id,
            final(self).work_log_commit == old(self).work_log_commit,
            final(self).work_log_is_empty == old(self).work_log_is_empty,
            final(self).journals@ == old(self).journals@,
    {
        if update_event.is_none() {
            return Err(TxError::NoUpdateEvent);
        }
        if block_number.is_none() {
            return Err(TxError::NoBlockNumber);
        }
        self.update_transactions.set(tx_hash, UpdateTransactionState { block_number, update_event });
        self.updated_at = now;
        Ok(())
    }
}

/// Every valid state stays valid through an update of its work log.
pub proof fn lemma_update_keeps_valid(
    s: State,
    t: State,
    j: LogBuilderJournal,
    image_id: Digest,
    new_commit: Digest,
    new_is_empty: bool,
    empty_commit: Digest,
)
    requires
        s.valid(empty_commit),
        new_is_empty ==> new_commit == empty_commit,
        j.self_image_id == image_id,
        j.work_log_id == s.log_id,
        j.initial_commit == s.work_log_commit,
        j.updated_commit == new_commit,
        t.log_id == s.log_id,
        t.journals@ == s.journals@.push(j),
        t.work_log_commit == new_commit,
        t.work_log_is_empty == new_is_empty,
    ensures
        t.valid(empty_commit),
{
    let f = |x: LogBuilderJournal| ReceiptReading::Read(x);
    let rs = read_all(s.journals@);
    assert(read_all(t.journals@) =~= rs.push(ReceiptReading::Read(j)));
    lemma_chain_walk_push(s.log_id, rs, ReceiptReading::Read(j), 0, empty_commit);
    if rs.len() == 0 {
        assert(chain_walk(s.log_id, rs, 0, empty_commit) == Ok::<Digest, StateError>(
            empty_commit,
        ));
    }
}

/// The state of a transaction recorded as pending.
pub open spec fn pending_state() -> UpdateTransactionState {
    UpdateTransactionState { block_number: None, update_event: None }
}

/// What recording `h` as pending makes of the transactions `m`.
pub open spec fn with_pending(
    m: Map<Digest, UpdateTransactionState>,
    h: Digest,
) -> Map<Digest, UpdateTransactionState> {
    if m.dom().contains(h) {
        m
    } else {
        m.insert(h, pending_state())
    }
}

/// Recording a transaction as pending once it is confirmed keeps its confirmation, and
/// recording it as pending twice is recording it once.
pub proof fn lemma_pending_keeps_state(
    m: Map<Digest, UpdateTransactionState>,
    h: Digest,
    confirmed: UpdateTransactionState,
)
    ensures
        with_pending(m.insert(h, confirmed), h) == m.insert(h, confirmed),
        with_pending(with_pending(m, h), h) == with_pending(m, h),
        with_pending(m, h).dom().contains(h),
{
}

/// The version byte of the first (and current) state encoding.
pub const STATE_VERSION_V1: u8 = 0;

/// Why a stored state cannot be read.
#[derive(Clone, Copy, Debug, PartialEq, Eq, Structural)]
pub enum FrameError {
    /// The buffer is empty.
    EmptyBuffer,
    /// The buffer starts with a version byte this code does not know.
    UnknownVersion { version: u8 },
}

impl FrameError {
    /// The text of the error: `cannot decode state from empty buffer`, or `unknown state
    /// version number: ` and the version byte in decimal.
    pub open spec fn text(self) -> Seq<char> {
        match self {
            FrameError::EmptyBuffer => "cannot decode state from empty buffer"@,
            FrameError::UnknownVersion { version } => "unknown state version number: "@
                + decimal_digits(version as nat),
        }
    }

    /// The text of the error.
    pub fn message(&self) -> (r: String)
        ensures
            r@ == self.text(),
    {
        match self {
            FrameError::EmptyBuffer => String::from_str("cannot decode state from empty buffer"),
            FrameError::UnknownVersion { version } => {
                let mut v = chars_of("unknown state version number: ");
                let d = u64_digits(*version as u64);
                let ghost start = v@;
                let mut i: usize = 0;
                while i < d.len()
                    invariant
                        i <= d.len(),
                        v@ == start + d@.take(i as int),
                    decreases d.len() - i,
                {
                    v.push(d[i]);
                    i = i + 1;
                    assert(v@ =~= start + d@.take(i as int));
                }
                assert(d@.take(d.len() as int) =~= d@);
                string_of(&v)
            },
        }
    }
}

/// The stored form of an encoded state: the version byte, then the encoding.
pub open spec fn framed(payload: Seq<u8>) -> Seq<u8> {
    seq![STATE_VERSION_V1] + payload
}

/// The encoding held in a stored state, or why there is none.
pub open spec fn unframed(buffer: Seq<u8>) -> Result<Seq<u8>, FrameError> {
    if buffer.len() == 0 {
        Err(FrameError::EmptyBuffer)
    } else if buffer[0] != STATE_VERSION_V1 {
        Err(FrameError::UnknownVersion { version: buffer[0] })
    } else {
        Ok(buffer.drop_first())
    }
}

/// Reading back a stored state gives the encoding that was stored.
pub proof fn lemma_unframe_framed(payload: Seq<u8>)
    ensures
        unframed(framed(payload)) == Ok::<Seq<u8>, FrameError>(payload),
{
    assert(framed(payload).drop_first() =~= payload);
}

/// Puts the version byte in front of an encoded state.
pub fn frame_state(payload: &Vec<u8>) -> (r: Vec<u8>)
    ensures
        r@ == framed(payload@),
{
    let mut r: Vec<u8> = Vec::new();
    r.push(STATE_VERSION_V1);
    let mut i: usize = 0;
    while i < payload.len()
        invariant
            i <= payload.len(),
            r@ == seq![STATE_VERSION_V1] + payload@.take(i as int),
        decreases payload.len() - i,
    {
        r.push(payload[i]);
        i = i + 1;
        assert(r@ =~= seq![STATE_VERSION_V1] + payload@.take(i as int));
    }
    assert(payload@.take(payload.len() as int) =~= payload@);
    r
}

/// The encoded state held in a stored buffer: the buffer must not be empty and must start
/// with a known version byte.
pub fn unframe_state(buffer: &Vec<u8>) -> (r: Result<Vec<u8>, FrameError>)
    ensures
        match (r, unframed(buffer@)) {
            (Ok(v), Ok(s)) => v@ == s,
            (Err(e), Err(f)) => e == f,
            _ => false,
        },
{
    if buffer.len() == 0 {
        return Err(FrameError::EmptyBuffer);
    }
    let version = buffer[0];
    if version != STATE_VERSION_V1 {
        return Err(FrameError::UnknownVersion { version });
    }
    let mut r: Vec<u8> = Vec::new();
    let mut i: usize = 1;
    while i < buffer.len()
        invariant
            1 <= i <= buffer.len(),
            r@ == buffer@.subrange(1, i as int),
        decreases buffer.len() - i,
    {
        r.push(buffer[i]);
        i = i + 1;
        assert(r@ =~= buffer@.subrange(1, i as int));
    }
    assert(buffer@.drop_first() =~= buffer@.subrange(1, buffer.len() as int));
    Ok(r)
}

} // verus!
