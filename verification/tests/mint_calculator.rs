use boundless::address::{Address, Digest};
use boundless::claim::{EpochFinalizedRecord, UpdateRecord};
use boundless::mint::{EpochLog, WorkLogFilter};
use boundless::mint_calculator::{compute_mints, MintCalculatorMint, MintCalculatorUpdate, MintError};
use boundless::u256::U256;

fn addr(n: u128) -> Address {
    Address { hi: 0, lo: n }
}

fn digest(n: u128) -> Digest {
    Digest { hi: 0, lo: n }
}

fn fin(epoch: u64, work: u64, block: u64) -> EpochFinalizedRecord {
    EpochFinalizedRecord { epoch: U256::from_u64(epoch), total_work: U256::from_u64(work), block_number: block }
}

fn update(log: u128, from: u128, to: u128, value: u64, recipient: u128, epoch: u64) -> UpdateRecord {
    UpdateRecord {
        work_log_id: addr(log),
        initial_commit: digest(from),
        updated_commit: digest(to),
        update_value: U256::from_u64(value),
        value_recipient: addr(recipient),
        epoch_number: U256::from_u64(epoch),
        block_number: 1,
    }
}

fn cap(epoch: u64, log: u128, value: u64) -> (EpochLog, U256) {
    (EpochLog { epoch: U256::from_u64(epoch), log: addr(log) }, U256::from_u64(value))
}

#[test]
fn mints_are_proportional_and_capped() {
    let finalized = vec![fin(1, 100, 10)];
    let updates = vec![update(1, 0, 11, 60, 5, 1), update(2, 0, 21, 40, 6, 1)];
    let emissions = vec![(U256::from_u64(1), U256::from_u64(1000))];
    let caps = vec![cap(1, 1, 10_000), cap(1, 2, 100)];
    let finals = vec![(addr(1), digest(11)), (addr(2), digest(21))];
    let j = compute_mints(&finalized, &updates, &WorkLogFilter::any(), &emissions, &caps, &finals).unwrap();
    // 60/100 of 1000 rounds down to 599 through the 128-bit fraction; 40/100 is capped at 100.
    assert_eq!(
        j.mints,
        vec![
            MintCalculatorMint { recipient: addr(5), value: U256::from_u64(599) },
            MintCalculatorMint { recipient: addr(6), value: U256::from_u64(100) },
        ]
    );
    assert_eq!(
        j.updates,
        vec![
            MintCalculatorUpdate { work_log_id: addr(1), initial_commit: digest(0), updated_commit: digest(11) },
            MintCalculatorUpdate { work_log_id: addr(2), initial_commit: digest(0), updated_commit: digest(21) },
        ]
    );
}

#[test]
fn cap_is_shared_in_recipient_order_and_chains_join() {
    let finalized = vec![fin(3, 10, 10)];
    // One work log, two updates that chain, two recipients (listed out of order).
    let updates = vec![update(7, 1, 2, 5, 9, 3), update(7, 2, 3, 5, 8, 3)];
    let emissions = vec![(U256::from_u64(3), U256::from_u64(100))];
    let caps = vec![cap(3, 7, 60)];
    let finals = vec![(addr(7), digest(3))];
    let j = compute_mints(&finalized, &updates, &WorkLogFilter::any(), &emissions, &caps, &finals).unwrap();
    // Each share is exactly 1/2 of 100; recipient 8 comes first and takes 50, recipient 9
    // gets the 10 left of the cap.
    assert_eq!(
        j.mints,
        vec![
            MintCalculatorMint { recipient: addr(8), value: U256::from_u64(50) },
            MintCalculatorMint { recipient: addr(9), value: U256::from_u64(10) },
        ]
    );
    assert_eq!(
        j.updates,
        vec![MintCalculatorUpdate { work_log_id: addr(7), initial_commit: digest(1), updated_commit: digest(3) }]
    );
}

#[test]
fn unfinalized_and_filtered_updates_are_skipped() {
    let finalized = vec![fin(1, 100, 10)];
    let updates = vec![update(1, 0, 11, 60, 5, 2), update(2, 0, 21, 40, 6, 1)];
    let emissions = vec![(U256::from_u64(1), U256::from_u64(1000))];
    let caps = vec![cap(1, 2, 1000)];
    let finals = vec![(addr(2), digest(21))];
    let filter = WorkLogFilter::from_iter(vec![addr(1)]);
    let j = compute_mints(&finalized, &updates, &filter, &emissions, &caps, &finals).unwrap();
    assert!(j.mints.is_empty());
    assert!(j.updates.is_empty());
}

#[test]
fn refusals() {
    let emissions = vec![(U256::from_u64(1), U256::from_u64(1000))];
    let caps = vec![cap(1, 1, 1000)];
    let finals = vec![(addr(1), digest(11))];
    let any = WorkLogFilter::any();
    let one = vec![update(1, 0, 11, 60, 5, 1)];
    assert_eq!(
        compute_mints(&vec![fin(1, 100, 10), fin(1, 100, 11)], &one, &any, &emissions, &caps, &finals).err(),
        Some(MintError::DuplicateFinalization)
    );
    let broken = vec![update(1, 0, 11, 60, 5, 1), update(1, 12, 13, 1, 5, 1)];
    assert_eq!(
        compute_mints(&vec![fin(1, 100, 10)], &broken, &any, &emissions, &caps, &finals).err(),
        Some(MintError::BrokenChain)
    );
    assert_eq!(
        compute_mints(&vec![], &one, &any, &emissions, &caps, &finals).err(),
        Some(MintError::NoFinalizedEpoch)
    );
    assert_eq!(
        compute_mints(&vec![fin(1, 100, 10)], &one, &any, &emissions, &caps, &vec![(addr(1), digest(12))]).err(),
        Some(MintError::CommitMismatch)
    );
    assert_eq!(
        compute_mints(&vec![fin(1, 100, 10)], &one, &any, &vec![], &caps, &finals).err(),
        Some(MintError::MissingEmissions)
    );
    assert_eq!(
        compute_mints(&vec![fin(1, 100, 10)], &one, &any, &emissions, &vec![], &finals).err(),
        Some(MintError::MissingRewardCap)
    );
    // A value larger than the epoch's total work is a share above one.
    let too_much = vec![update(1, 0, 11, 200, 5, 1)];
    assert_eq!(
        compute_mints(&vec![fin(1, 100, 10)], &too_much, &any, &emissions, &caps, &finals).err(),
        Some(MintError::ValueOutOfRange)
    );
}
