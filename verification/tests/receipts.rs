use boundless::address::Address;
use boundless::receipts::{
    check_work_receipt, collect_loaded, continuation, foreign_log_ids, parse_log_id, parse_receipt_info,
    select_receipt_keys, state_source, PrepareError, ReceiptError, ReceiptInfoError, StateSource,
    WorkClaimReading, WorkReceiptInfo, WorkReceiptList,
};

fn info(key: &str, log: Option<&str>, job: Option<&str>) -> WorkReceiptInfo {
    WorkReceiptInfo {
        key: key.to_string(),
        povw_log_id: log.map(|s| s.to_string()),
        povw_job_number: job.map(|s| s.to_string()),
    }
}

const LOG: &str = "0x00000000000000000000000000000000000000ab";

#[test]
fn log_ids_parse_as_160_bit_numbers() {
    assert_eq!(parse_log_id(LOG), Some(Address { hi: 0, lo: 0xab }));
    assert_eq!(
        parse_log_id("0xffffffffffffffffffffffffffffffffffffffff"),
        Some(Address { hi: u32::MAX, lo: u128::MAX })
    );
    assert_eq!(parse_log_id("171"), Some(Address { hi: 0, lo: 171 }));
    assert_eq!(parse_log_id("0xzz"), None);
    assert_eq!(parse_log_id("0x1ffffffffffffffffffffffffffffffffffffffff"), None);
}

#[test]
fn receipt_info_parsing() {
    assert_eq!(parse_receipt_info(&info("k", Some(LOG), Some("12"))), Ok((Address { hi: 0, lo: 0xab }, 12)));
    assert_eq!(parse_receipt_info(&info("k", Some(LOG), Some("+12"))), Ok((Address { hi: 0, lo: 0xab }, 12)));
    assert_eq!(parse_receipt_info(&info("k", None, Some("12"))), Err(ReceiptInfoError::NoLogId));
    assert_eq!(parse_receipt_info(&info("k", Some("nope"), Some("12"))), Err(ReceiptInfoError::BadLogId));
    assert_eq!(parse_receipt_info(&info("k", Some(LOG), None)), Err(ReceiptInfoError::NoJobNumber));
    assert_eq!(parse_receipt_info(&info("k", Some(LOG), Some("-1"))), Err(ReceiptInfoError::BadJobNumber));
    assert_eq!(parse_receipt_info(&info("k", Some(LOG), Some(" 1"))), Err(ReceiptInfoError::BadJobNumber));
    assert_eq!(
        parse_receipt_info(&info("k", Some(LOG), Some("18446744073709551616"))),
        Err(ReceiptInfoError::BadJobNumber)
    );
}

#[test]
fn receipt_keys_to_fetch() {
    let list = WorkReceiptList {
        receipts: vec![
            info("a", Some(LOG), Some("1")),
            info("b", Some(LOG), Some("2")),
            info("c", Some("0x01"), Some("3")),
            info("d", None, None),
            info("a", Some(LOG), Some("1")),
            info("e", Some(LOG), Some("4")),
        ],
    };
    let keys = select_receipt_keys(Address { hi: 0, lo: 0xab }, &vec![2], &list);
    assert_eq!(keys, vec!["a".to_string(), "e".to_string()]);
}

#[test]
fn work_receipt_checks() {
    let log = Address { hi: 0, lo: 1 };
    assert_eq!(check_work_receipt(log, &vec![], WorkClaimReading::ClaimPruned), Err(ReceiptError::ClaimPruned));
    assert_eq!(check_work_receipt(log, &vec![], WorkClaimReading::WorkPruned), Err(ReceiptError::WorkPruned));
    let other = Address { hi: 0, lo: 2 };
    assert_eq!(
        check_work_receipt(log, &vec![], WorkClaimReading::Work { log_id: other, job: 1 }),
        Err(ReceiptError::LogIdMismatch { found: other })
    );
    assert_eq!(
        check_work_receipt(log, &vec![5, 1], WorkClaimReading::Work { log_id: log, job: 1 }),
        Err(ReceiptError::JobAlreadyInLog { job: 1 })
    );
    assert_eq!(check_work_receipt(log, &vec![5], WorkClaimReading::Work { log_id: log, job: 1 }), Ok(()));
}

#[test]
fn preparation_decisions() {
    let log = Address { hi: 0, lo: 1 };
    assert_eq!(state_source(Some(log), true), Err(PrepareError::StateFileExists));
    assert_eq!(state_source(Some(log), false), Ok(StateSource::New { log_id: log }));
    assert_eq!(state_source(None, true), Ok(StateSource::Load));
    assert_eq!(collect_loaded(vec![Some(1), None, Some(3)], false), Err(PrepareError::ReceiptLoadFailures));
    assert_eq!(collect_loaded(vec![Some(1), None, Some(3)], true), Ok(vec![1, 3]));
    assert_eq!(collect_loaded::<u8>(vec![], false), Ok(vec![]));
    assert_eq!(continuation(true, 0), Ok(None));
    assert_eq!(continuation(false, 0), Err(PrepareError::NoReceiptToContinueFrom));
    assert_eq!(continuation(false, 3), Ok(Some(2)));
}

#[test]
fn each_foreign_log_id_is_reported_once() {
    let other = "0x00000000000000000000000000000000000000cd";
    let list = WorkReceiptList {
        receipts: vec![
            info("a", Some(other), Some("1")),
            info("b", Some(LOG), Some("2")),
            info("c", Some(other), Some("3")),
            info("d", Some("171"), Some("4")),
            info("e", Some("nope"), Some("5")),
            info("f", Some("0xef"), None),
            info("g", Some("0xef"), Some("6")),
        ],
    };
    let me = Address { hi: 0, lo: 0xab };
    assert_eq!(
        foreign_log_ids(me, &list),
        vec![Address { hi: 0, lo: 0xcd }, Address { hi: 0, lo: 0xef }]
    );
}
