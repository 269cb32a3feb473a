use boundless::claim::{claim_start, ClaimStart};
use boundless::address::{Address, Digest};
use boundless::block_search::{BlockSearch, EventScan, ScanStep};
use boundless::claim::{
    event_block_numbers, plan_claim, skipped_updates, reconstruct_update_chain, ClaimError, EpochFinalizedRecord,
    EpochSearch, UpdateRecord,
};
use boundless::u256::U256;

fn d(n: u128) -> Digest {
    Digest { hi: 0, lo: n }
}

fn update(from: u128, to: u128, epoch: u64, block: u64) -> UpdateRecord {
    UpdateRecord {
        work_log_id: Address { hi: 0, lo: 1 },
        initial_commit: d(from),
        updated_commit: d(to),
        update_value: U256::from_u64(10),
        value_recipient: Address { hi: 0, lo: 1 },
        epoch_number: U256::from_u64(epoch),
        block_number: block,
    }
}

#[test]
fn update_chain_follows_commits() {
    let events = vec![update(1, 2, 5, 100), update(0, 1, 4, 90), update(2, 3, 6, 110)];
    let chain = reconstruct_update_chain(&events, d(0), d(3)).unwrap();
    let commits: Vec<u128> = chain.iter().map(|u| u.updated_commit.lo).collect();
    assert_eq!(commits, vec![1, 2, 3]);
    assert_eq!(reconstruct_update_chain(&events, d(0), d(0)).unwrap(), vec![]);
    assert_eq!(reconstruct_update_chain(&events, d(0), d(9)), Err(d(3)));
    assert_eq!(reconstruct_update_chain(&events, d(7), d(9)), Err(d(7)));
}

#[test]
fn claim_keeps_finalized_epochs() {
    let chain = vec![update(0, 1, 4, 90), update(1, 2, 5, 100), update(2, 3, 6, 110)];
    let plan = plan_claim(&chain, U256::from_u64(6)).unwrap();
    assert_eq!(plan.finalized_updates.len(), 2);
    assert_eq!(plan.lower_limit_block_number, 90);
    assert_eq!(plan.epochs, vec![U256::from_u64(4), U256::from_u64(5)]);
    assert!(matches!(plan_claim(&chain, U256::from_u64(4)), Err(ClaimError::NoFinalizedUpdates)));
}

#[test]
fn epoch_search_stops_when_all_found() {
    let mut search = EpochSearch::new(vec![U256::from_u64(4), U256::from_u64(5)]);
    let batch = vec![
        EpochFinalizedRecord { epoch: U256::from_u64(5), total_work: U256::from_u64(1), block_number: 120 },
        EpochFinalizedRecord { epoch: U256::from_u64(7), total_work: U256::from_u64(1), block_number: 130 },
    ];
    assert!(search.record(&batch));
    let batch = vec![EpochFinalizedRecord { epoch: U256::from_u64(4), total_work: U256::from_u64(1), block_number: 95 }];
    assert!(!search.record(&batch));
    assert_eq!(search.found.len(), 2);
    let blocks = event_block_numbers(&vec![update(0, 1, 4, 90), update(1, 2, 5, 100)], &search.found);
    assert_eq!(blocks, vec![90, 95, 100, 120]);
}

fn timestamp(block: u64) -> u64 {
    1_000 + 12 * block
}

#[test]
fn block_search_finds_the_last_block_before_the_target() {
    let latest = 300_000;
    let target_secs = timestamp(123_456) + 5;
    let mut search = BlockSearch::new(latest, target_secs as u128 * 1_000_000_000, None);
    let mut steps = 0;
    while let Some(b) = search.next_block() {
        search.observe(timestamp(b));
        steps += 1;
        assert!(steps < 1_000);
    }
    assert_eq!(search.result(), Some(123_456));
}

#[test]
fn block_search_before_genesis_gives_block_zero() {
    let mut search = BlockSearch::new(250_000, 1, None);
    while let Some(b) = search.next_block() {
        search.observe(timestamp(b));
    }
    assert_eq!(search.result(), Some(0));
}

#[test]
fn event_scan_windows_go_backwards() {
    let mut scan = EventScan::new(15, 40, 10);
    let mut windows = Vec::new();
    loop {
        match scan.next_step() {
            ScanStep::Query { from, to } => {
                windows.push((from, to));
                scan.advance();
            }
            other => {
                assert_eq!(other, ScanStep::ReachedLowerLimit);
                break;
            }
        }
    }
    assert_eq!(windows, vec![(31, 40), (21, 30), (15, 20)]);
    let mut scan = EventScan::new(0, 5, 10);
    assert_eq!(scan.next_step(), ScanStep::Query { from: 1, to: 5 });
    scan.advance();
    assert_eq!(scan.next_step(), ScanStep::ReachedGenesis);
}

#[test]
fn claim_starts_only_where_commits_differ() {
    let a = Digest { hi: 1, lo: 2 };
    let b = Digest { hi: 1, lo: 3 };
    assert_eq!(claim_start(a, a), ClaimStart::AllClaimed);
    assert_eq!(claim_start(a, b), ClaimStart::Search { initial_commit: a, final_commit: b });
}

#[test]
fn block_search_looks_below_the_last_probe() {
    // Probes 150000 and 50000 are both after the target; the search goes on at block 0 and
    // bisects up to the last probe instead of stopping at block 0.
    let latest = 150_000;
    let target_secs = timestamp(30_000);
    let mut search = BlockSearch::new(latest, target_secs as u128 * 1_000_000_000, None);
    let mut steps = 0;
    while let Some(b) = search.next_block() {
        search.observe(timestamp(b));
        steps += 1;
        assert!(steps < 1_000);
    }
    assert_eq!(search.result(), Some(30_000));
}

#[test]
fn unfinalized_updates_are_skipped() {
    let chain = vec![update(0, 1, 4, 90), update(1, 2, 5, 100), update(2, 3, 6, 110)];
    let skipped = skipped_updates(&chain, U256::from_u64(5));
    assert_eq!(skipped, vec![update(1, 2, 5, 100), update(2, 3, 6, 110)]);
    assert!(skipped_updates(&chain, U256::from_u64(7)).is_empty());
}
