use boundless::address::{Address, Digest};
use boundless::u256::U256;
use boundless::work_log::{
    frame_state, unframe_state, FrameError, LogBuilderJournal, ReceiptReading, StateError,
    TxError, UpdateError, UpdateTransactionState, State, WorkLogUpdatedEvent,
};

fn d(n: u128) -> Digest {
    Digest { hi: 0, lo: n }
}

fn log_id() -> Address {
    Address { hi: 1, lo: 2 }
}

fn journal(from: u128, to: u128) -> LogBuilderJournal {
    LogBuilderJournal {
        self_image_id: d(99),
        work_log_id: log_id(),
        initial_commit: d(from),
        updated_commit: d(to),
        update_value: 10,
    }
}

#[test]
fn new_state_validates() {
    let s = State::new(log_id(), d(0), 1_000);
    assert_eq!(s.validate(&vec![], d(0)), Ok(()));
}

#[test]
fn updates_chain_and_validate() {
    let mut s = State::new(log_id(), d(0), 1_000);
    assert_eq!(s.update_work_log(ReceiptReading::Read(journal(0, 1)), d(99), d(1), false, 2_000), Ok(()));
    assert_eq!(s.update_work_log(ReceiptReading::Read(journal(1, 2)), d(99), d(2), false, 2_000), Ok(()));
    assert_eq!(s.journals.len(), 2);
    assert_eq!(s.work_log_commit, d(2));
    assert_eq!(s.updated_at, 2_000);
    let readings: Vec<ReceiptReading> = s.journals.iter().map(|j| ReceiptReading::Read(*j)).collect();
    assert_eq!(s.validate(&readings, d(0)), Ok(()));
}

#[test]
fn update_refusals_leave_the_state_unchanged() {
    let mut s = State::new(log_id(), d(0), 1_000);
    assert_eq!(s.update_work_log(ReceiptReading::Rejected, d(99), d(1), false, 2_000), Err(UpdateError::ReceiptRejected));
    assert_eq!(s.update_work_log(ReceiptReading::Undecodable, d(99), d(1), false, 2_000), Err(UpdateError::JournalUndecodable));
    assert_eq!(s.update_work_log(ReceiptReading::Read(journal(0, 1)), d(98), d(1), false, 2_000), Err(UpdateError::ImageIdMismatch));
    let mut other = journal(0, 1);
    other.work_log_id = Address { hi: 0, lo: 0 };
    assert_eq!(s.update_work_log(ReceiptReading::Read(other), d(99), d(1), false, 2_000), Err(UpdateError::LogIdMismatch));
    assert_eq!(s.update_work_log(ReceiptReading::Read(journal(5, 1)), d(99), d(1), false, 2_000), Err(UpdateError::InitialCommitMismatch));
    assert_eq!(s.update_work_log(ReceiptReading::Read(journal(0, 1)), d(99), d(3), false, 2_000), Err(UpdateError::UpdatedCommitMismatch));
    assert_eq!(s.work_log_commit, d(0));
    assert!(s.journals.is_empty());
    assert_eq!(s.updated_at, 1_000);
}

#[test]
fn validation_errors() {
    let s = State {
        log_id: log_id(),
        work_log_commit: d(2),
        work_log_is_empty: false,
        journals: vec![],
        update_transactions: boundless::work_log::UpdateTransactions::new(),
        updated_at: 0,
        empty_commit: d(0),
    };
    assert_eq!(s.validate(&vec![], d(0)), Err(StateError::NonEmptyLogWithoutReceipts));
    assert_eq!(
        s.validate(&vec![ReceiptReading::Read(journal(0, 1)), ReceiptReading::Rejected], d(0)),
        Err(StateError::ReceiptRejected { index: 1 })
    );
    assert_eq!(
        s.validate(&vec![ReceiptReading::Undecodable], d(0)),
        Err(StateError::JournalUndecodable { index: 0 })
    );
    assert_eq!(
        s.validate(&vec![ReceiptReading::Read(journal(1, 2))], d(0)),
        Err(StateError::FirstInitialCommitNotEmpty)
    );
    assert_eq!(
        s.validate(&vec![ReceiptReading::Read(journal(0, 1)), ReceiptReading::Read(journal(3, 2))], d(0)),
        Err(StateError::InitialCommitMismatch { index: 1 })
    );
    let mut other = journal(0, 2);
    other.work_log_id = Address { hi: 0, lo: 0 };
    assert_eq!(s.validate(&vec![ReceiptReading::Read(other)], d(0)), Err(StateError::LogIdMismatch { index: 0 }));
    assert_eq!(
        s.validate(&vec![ReceiptReading::Read(journal(0, 1))], d(0)),
        Err(StateError::FinalCommitMismatch)
    );
    assert_eq!(
        s.validate(&vec![ReceiptReading::Read(journal(0, 1)), ReceiptReading::Read(journal(1, 2))], d(0)),
        Ok(())
    );
}

#[test]
fn pending_then_confirmed_transactions() {
    let mut s = State::new(log_id(), d(0), 1_000);
    s.add_pending_update_tx(d(7), 3_000);
    let list = s.update_transactions.to_list();
    assert_eq!(list, vec![(d(7), UpdateTransactionState { block_number: None, update_event: None })]);
    let event = WorkLogUpdatedEvent {
        work_log_id: log_id(),
        epoch_number: U256::from_u64(3),
        initial_commit: d(0),
        updated_commit: d(1),
        update_value: U256::from_u64(10),
        value_recipient: log_id(),
    };
    assert_eq!(s.confirm_update_tx(d(7), None, Some(5), 4_000), Err(TxError::NoUpdateEvent));
    assert_eq!(s.confirm_update_tx(d(7), Some(event), None, 4_000), Err(TxError::NoBlockNumber));
    assert_eq!(s.confirm_update_tx(d(7), Some(event), Some(5), 4_000), Ok(()));
    s.add_pending_update_tx(d(7), 3_000);
    s.add_pending_update_tx(d(8), 3_000);
    let list = s.update_transactions.to_list();
    assert_eq!(
        list,
        vec![
            (d(7), UpdateTransactionState { block_number: Some(5), update_event: Some(event) }),
            (d(8), UpdateTransactionState { block_number: None, update_event: None }),
        ]
    );
}

#[test]
fn state_frames_round_trip() {
    let payload = vec![1u8, 2, 3];
    let framed = frame_state(&payload);
    assert_eq!(framed, vec![0u8, 1, 2, 3]);
    assert_eq!(unframe_state(&framed), Ok(payload));
    assert_eq!(unframe_state(&vec![]), Err(FrameError::EmptyBuffer));
    assert_eq!(unframe_state(&vec![7u8, 1]), Err(FrameError::UnknownVersion { version: 7 }));
    assert_eq!(unframe_state(&vec![0u8]), Ok(vec![]));
}

#[test]
fn frame_errors_have_their_texts() {
    let empty = unframe_state(&vec![]).unwrap_err();
    assert_eq!(empty.message(), "cannot decode state from empty buffer");
    let unknown = unframe_state(&vec![7u8, 1]).unwrap_err();
    assert_eq!(unknown.message(), "unknown state version number: 7");
    assert_eq!(FrameError::UnknownVersion { version: 255 }.message(), "unknown state version number: 255");
}
