use boundless::address::{Address, Digest};
use boundless::claim::{EpochFinalizedRecord, UpdateRecord};
use boundless::mint::{plan_mint_input, EpochLog, MintCalculatorProverBuilder, MintInputError, WorkLogFilter};
use boundless::u256::U256;

fn a(n: u128) -> Address {
    Address { hi: 0, lo: n }
}

fn fin(epoch: u64, block: u64) -> EpochFinalizedRecord {
    EpochFinalizedRecord { epoch: U256::from_u64(epoch), total_work: U256::from_u64(100), block_number: block }
}

fn upd(log: u128, epoch: u64, value: u64, block: u64) -> UpdateRecord {
    UpdateRecord {
        work_log_id: a(log),
        initial_commit: Digest { hi: 0, lo: 0 },
        updated_commit: Digest { hi: 0, lo: 1 },
        update_value: U256::from_u64(value),
        value_recipient: a(log),
        epoch_number: U256::from_u64(epoch),
        block_number: block,
    }
}

#[test]
fn work_log_filters() {
    assert!(WorkLogFilter::any().includes(a(5)));
    assert!(!WorkLogFilter::none().includes(a(5)));
    let f = WorkLogFilter::from_iter(vec![a(3), a(1), a(3)]);
    assert!(f.includes(a(1)));
    assert!(f.includes(a(3)));
    assert!(!f.includes(a(2)));
    assert!(!WorkLogFilter::from_iter(vec![]).includes(a(1)));
    assert!(WorkLogFilter::default().includes(a(9)));
}

#[test]
fn mint_plan_without_finalization_fails() {
    let r = plan_mint_input(&vec![10, 11], &vec![], &vec![upd(1, 0, 5, 10)], &WorkLogFilter::any());
    assert!(matches!(r, Err(MintInputError::NoEpochFinalized)));
}

#[test]
fn mint_plan_covers_finalized_epochs() {
    let blocks = vec![30, 10, 20, 10];
    let finalized = vec![fin(1, 20), fin(0, 10)];
    let updates = vec![
        upd(5, 0, 7, 10),
        upd(4, 1, 0, 20),
        upd(6, 2, 9, 30),
        upd(5, 1, 3, 20),
        upd(4, 0, 2, 10),
    ];
    let plan = plan_mint_input(&blocks, &finalized, &updates, &WorkLogFilter::any()).unwrap();
    assert_eq!(plan.block_numbers, vec![10, 20, 30]);
    assert_eq!(plan.epochs, vec![U256::zero(), U256::from_u64(1)]);
    assert_eq!(plan.latest_finalization_block, 20);
    assert_eq!(plan.completeness_check_block, 19);
    assert_eq!(plan.work_logs, vec![a(4), a(5)]);
    assert_eq!(
        plan.reward_lookups,
        vec![
            EpochLog { epoch: U256::zero(), log: a(4) },
            EpochLog { epoch: U256::zero(), log: a(5) },
            EpochLog { epoch: U256::from_u64(1), log: a(5) },
        ]
    );
}

#[test]
fn mint_plan_honours_the_filter() {
    let finalized = vec![fin(0, 10)];
    let updates = vec![upd(5, 0, 7, 10), upd(4, 0, 2, 10)];
    let plan = plan_mint_input(&vec![10], &finalized, &updates, &WorkLogFilter::from_iter(vec![a(4)])).unwrap();
    assert_eq!(plan.work_logs, vec![a(4)]);
    assert_eq!(plan.reward_lookups, vec![EpochLog { epoch: U256::zero(), log: a(4) }]);
    let plan = plan_mint_input(&vec![10], &finalized, &updates, &WorkLogFilter::none()).unwrap();
    assert!(plan.work_logs.is_empty());
    assert!(plan.reward_lookups.is_empty());
}

#[test]
fn prover_builder_setters_keep_other_fields() {
    let mut b: MintCalculatorProverBuilder<(), ()> = MintCalculatorProverBuilder::new();
    b.chain_id = Some(11155111);
    b.zkc_address = Some(a(3));
    let b = b.prover(7u32).provider("rpc");
    assert_eq!(b.prover, Some(7u32));
    assert_eq!(b.provider, Some("rpc"));
    assert_eq!(b.chain_id, Some(11155111));
    assert_eq!(b.zkc_address, Some(a(3)));
    assert!(b.povw_accounting_address.is_none());
}
