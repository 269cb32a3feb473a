use boundless::amounts::{format_cycles, format_with_commas_u256, format_zkc, pad_u256, unpad_u256, DbError};
use boundless::text::format_with_commas;
use boundless::u256::U256;

#[test]
fn test_format_zkc() {
    assert_eq!(format_zkc("1000000000000000000000"), "1,000 ZKC");
    assert_eq!(format_zkc("1500000000000000000000000"), "1,500,000 ZKC");
    assert_eq!(format_zkc("788626950526189926000000"), "788,626 ZKC");
    assert_eq!(format_zkc("0"), "0 ZKC");
    assert_eq!(format_zkc("invalid"), "0 ZKC");
}

#[test]
fn test_format_cycles() {
    assert_eq!(format_cycles("1"), "1 cycles");
    assert_eq!(format_cycles("1000"), "1,000 cycles");
    assert_eq!(format_cycles("30711723851776"), "30,711,723,851,776 cycles");
    assert_eq!(format_cycles("5000000"), "5,000,000 cycles");
    assert_eq!(format_cycles("0"), "0 cycles");
}

#[test]
fn test_format_with_commas() {
    assert_eq!(format_with_commas(0), "0");
    assert_eq!(format_with_commas(100), "100");
    assert_eq!(format_with_commas(1000), "1,000");
    assert_eq!(format_with_commas(10000), "10,000");
    assert_eq!(format_with_commas(100000), "100,000");
    assert_eq!(format_with_commas(1000000), "1,000,000");
    assert_eq!(format_with_commas(1234567890), "1,234,567,890");
}

#[test]
fn format_with_commas_of_largest_values() {
    assert_eq!(format_with_commas(u64::MAX), "18,446,744,073,709,551,615");
    let max = U256::max_value();
    assert_eq!(
        format_with_commas_u256(max),
        "115,792,089,237,316,195,423,570,985,008,687,907,853,269,984,665,640,564,039,457,584,007,913,129,639,935"
    );
    assert_eq!(format_with_commas_u256(U256::from_u64(999)), "999");
}

#[test]
fn format_zkc_rounds_down_to_whole_tokens() {
    assert_eq!(format_zkc("999999999999999999"), "0 ZKC");
    assert_eq!(format_zkc("1999999999999999999"), "1 ZKC");
    assert_eq!(format_cycles("not a number"), "0 cycles");
}

#[test]
fn padded_storage_form_reads_back() {
    let v = U256::from_u64(1234);
    let s = pad_u256(v);
    assert_eq!(s.len(), 78);
    assert!(s.ends_with("1234"));
    assert!(s[..74].chars().all(|c| c == '0'));
    assert_eq!(unpad_u256(&s), Ok(v));
    assert_eq!(unpad_u256(&pad_u256(U256::zero())), Ok(U256::zero()));
    assert_eq!(unpad_u256(&pad_u256(U256::max_value())), Ok(U256::max_value()));
}

#[test]
fn unpad_rejects_garbage() {
    match unpad_u256("12x4") {
        Err(DbError::BadTransaction(msg)) => assert_eq!(msg, "Invalid U256 string: 12x4"),
        other => panic!("unexpected {:?}", other),
    }
}

#[test]
fn padded_text_orders_like_values() {
    let values = [0u128, 1, 9, 10, 99, 1_000_000, u128::MAX];
    for a in values {
        let pa = pad_u256(U256::from_u128(a));
        assert_eq!(pa.len(), 78);
        assert!(pa.chars().all(|c| c.is_ascii_digit()));
        for b in values {
            let pb = pad_u256(U256::from_u128(b));
            assert_eq!(a < b, pa < pb);
        }
    }
    let max = pad_u256(U256::max_value());
    assert_eq!(max.len(), 78);
    assert!(pad_u256(U256::from_u128(u128::MAX)) < max);
}
