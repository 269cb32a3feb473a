use boundless::address::Address;
use boundless::deployments::{collateral_token_supports_permit, Deployment};
use boundless::povw_deployments::Deployment as PovwDeployment;

#[test]
fn permit_support_by_chain() {
    assert!(collateral_token_supports_permit(1));
    assert!(collateral_token_supports_permit(11155111));
    assert!(collateral_token_supports_permit(31337));
    assert!(!collateral_token_supports_permit(8453));
    assert!(!collateral_token_supports_permit(84532));
}

#[test]
fn market_deployments_by_chain_id() {
    let sepolia = Deployment::from_chain_id(11155111).unwrap();
    assert_eq!(sepolia.chain_id, Some(11155111));
    assert_eq!(sepolia.boundless_market_address, Address { hi: 0xc211b581, lo: 0xcb62e3a6d396a592bab34979e1bbba7d });
    assert_eq!(sepolia.order_stream_url.as_deref(), Some("https://eth-sepolia.boundless.network"));
    assert!(sepolia.collateral_token_supports_permit());
    let base = Deployment::from_chain_id(8453).unwrap();
    assert_eq!(base.order_stream_url.as_deref(), Some("https://base-mainnet.boundless.network"));
    assert!(!base.collateral_token_supports_permit());
    let base_sepolia = Deployment::from_chain_id(84532).unwrap();
    assert_eq!(base_sepolia.chain_id, Some(84532));
    assert!(Deployment::from_chain_id(1).is_none());
    assert!(Deployment::from_chain_id(31337).is_none());
    assert!(Deployment::from_chain_id(424242424242).is_none());
}

#[test]
fn povw_deployments_by_chain_id() {
    let mainnet = PovwDeployment::from_chain_id(1).unwrap();
    assert_eq!(mainnet.chain_id, Some(1));
    assert_eq!(mainnet.zkc_address, Address { hi: 0x000006c2, lo: 0xa22ff4a44ff1f5d0f2ed65f781f55555 });
    let sepolia = PovwDeployment::from_chain_id(11155111).unwrap();
    assert_eq!(sepolia.povw_accounting_address, Address { hi: 0xc5e95673, lo: 0x2f4ba6b1973a859cf382244db6e84d0b });
    assert!(PovwDeployment::from_chain_id(8453).is_none());
}
