use boundless::address::{Address, Digest};
use boundless::cli::ProverConfig;
use boundless::log_updater::{
    check_recovered_signer, update_value_recipient, InputBuildError, InputBuilder,
    LogUpdaterProverBuilder, SignatureError, WorkLogUpdate,
};
use boundless::u256::U256;
use boundless::work_log::LogBuilderJournal;

fn journal(log: Address) -> LogBuilderJournal {
    LogBuilderJournal {
        self_image_id: Digest { hi: 1, lo: 1 },
        work_log_id: log,
        initial_commit: Digest { hi: 0, lo: 1 },
        updated_commit: Digest { hi: 0, lo: 2 },
        update_value: 77,
    }
}

#[test]
fn updates_from_journals() {
    let log = Address { hi: 0, lo: 5 };
    let u = WorkLogUpdate::from_log_builder_journal(journal(log), Address { hi: 0, lo: 6 });
    assert_eq!(u.work_log_id, log);
    assert_eq!(u.update_value, U256::from_u64(77));
    assert_eq!(u.value_recipient, Address { hi: 0, lo: 6 });
}

#[test]
fn signing_checks() {
    let log = Address { hi: 0, lo: 5 };
    let mut b = InputBuilder::new();
    assert_eq!(b.prepare_signing(log), Err(InputBuildError::UninitializedUpdate));
    b.update = Some(journal(log));
    assert_eq!(b.prepare_signing(log), Err(InputBuildError::UninitializedContractAddress));
    b.contract_address = Some(Address { hi: 0, lo: 9 });
    assert_eq!(b.prepare_signing(log), Err(InputBuildError::UninitializedChainId));
    b.chain_id = Some(31337);
    assert_eq!(b.prepare_signing(Address { hi: 0, lo: 4 }), Err(InputBuildError::SignerMismatch));
    let req = b.prepare_signing(log).unwrap();
    assert_eq!(req.update.value_recipient, log);
    assert_eq!(b.value_recipient, Some(log));
    assert_eq!(req.chain_id, 31337);
    assert!(b.signature.is_none());
}

#[test]
fn building_needs_every_field() {
    let log = Address { hi: 0, lo: 5 };
    let mut b = InputBuilder::new();
    b.update = Some(journal(log));
    b.value_recipient = Some(log);
    b.contract_address = Some(Address { hi: 0, lo: 9 });
    b.chain_id = Some(1);
    let mut missing_signature = InputBuilder::new();
    missing_signature.update = Some(journal(log));
    missing_signature.value_recipient = Some(log);
    assert!(matches!(missing_signature.build(), Err(InputBuildError::UninitializedSignature)));
    b.signature = Some(vec![1, 2, 3]);
    let input = b.build().unwrap();
    assert_eq!(input.signature, vec![1, 2, 3]);
    assert_eq!(input.chain_id, 1);
    let mut signed = InputBuilder::new();
    signed.signature = Some(vec![]);
    assert_eq!(signed.prepare_signing(log), Err(InputBuildError::AlreadySigned));
}

#[test]
fn signer_recovery_checks() {
    let a = Address { hi: 0, lo: 1 };
    let b = Address { hi: 0, lo: 2 };
    assert_eq!(check_recovered_signer(a, a), Ok(()));
    assert_eq!(check_recovered_signer(a, b), Err(SignatureError::SignerMismatch { recovered: a, expected: b }));
    assert_eq!(update_value_recipient(None, a), a);
    assert_eq!(update_value_recipient(Some(b), a), b);
}

#[test]
fn log_updater_builder_keeps_fields() {
    let mut b: LogUpdaterProverBuilder<()> = LogUpdaterProverBuilder::new();
    b.chain_id = Some(5);
    let b = b.prover("prover");
    assert_eq!(b.prover, Some("prover"));
    assert_eq!(b.chain_id, Some(5));
}

#[test]
fn prover_config_decisions() {
    let mut c = ProverConfig {
        bento_api_url: "http://localhost:8081".to_string(),
        bento_api_key: None,
        use_default_prover: false,
        skip_health_check: false,
    };
    assert_eq!(c.backend_env(), Some(("http://localhost:8081".to_string(), String::new())));
    assert!(c.uses_default_url());
    assert!(c.needs_health_check(false));
    assert!(!c.needs_health_check(true));
    c.bento_api_key = Some("key".to_string());
    c.bento_api_url = "https://bento.example".to_string();
    assert_eq!(c.backend_env(), Some(("https://bento.example".to_string(), "key".to_string())));
    assert!(!c.uses_default_url());
    c.use_default_prover = true;
    assert_eq!(c.backend_env(), None);
    assert!(!c.needs_health_check(false));
}
