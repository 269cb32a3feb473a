use boundless::mint::beacon_block_numbers;
use boundless::patched::PatchedIterator;

fn patch(items: Vec<u64>) -> Vec<u64> {
    PatchedIterator::<10>::new(items).collect_all()
}

#[test]
fn patched_iter() {
    assert_eq!(patch(vec![]), Vec::<u64>::new());
    assert_eq!(patch(vec![1]), vec![1]);
    assert_eq!(patch(vec![1, 5]), vec![1, 5]);
    assert_eq!(patch(vec![1, 5, 20]), vec![1, 5, 15, 20]);
    assert_eq!(patch(vec![1, 5, 20, 25]), vec![1, 5, 15, 20, 25]);
    assert_eq!(patch(vec![1, 5, 20, 25, 50]), vec![1, 5, 15, 20, 25, 35, 45, 50]);
}

#[test]
fn patched_iter_keeps_decreasing_steps() {
    assert_eq!(patch(vec![50, 1, 30]), vec![50, 1, 11, 21, 30]);
}

#[test]
fn patched_iter_steps_one_at_a_time() {
    let mut it = PatchedIterator::<10>::new(vec![0, 25]);
    assert_eq!(it.next(), Some(0));
    assert_eq!(it.next(), Some(10));
    assert_eq!(it.next(), Some(20));
    assert_eq!(it.next(), Some(25));
    assert_eq!(it.next(), None);
    assert_eq!(it.next(), None);
}

#[test]
fn beacon_blocks_reach_the_latest_block() {
    assert_eq!(beacon_block_numbers(vec![100], 20_000), vec![100, 8100, 16100, 19998]);
    assert_eq!(beacon_block_numbers(vec![], 2), vec![0]);
}
