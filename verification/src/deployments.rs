//! The known deployments of the market contracts, chosen by chain ID, and the chains the
//! deployments are known on.
use crate::address::Address;
use vstd::prelude::*;

verus! {

/// Whether the collateral token on the chain supports ERC-20 permits: on Ethereum mainnet,
/// Sepolia and the local development chain.
pub fn collateral_token_supports_permit(chain_id: u64) -> (r: bool)
    ensures
        r == (chain_id == 1 || chain_id == 11155111 || chain_id == 31337),
{
    chain_id == 1 || chain_id == 11155111 || chain_id == 31337
}

/// The chains with known deployments, and all others.
#[derive(Clone, Copy, Debug, PartialEq, Eq, Structural)]
pub enum KnownChain {
    Mainnet,
    Sepolia,
    Base,
    BaseSepolia,
    Other,
}

/// EIP-155 chain IDs.
pub const MAINNET_CHAIN_ID: u64 = 1;
pub const SEPOLIA_CHAIN_ID: u64 = 11155111;
pub const BASE_CHAIN_ID: u64 = 8453;
pub const BASE_SEPOLIA_CHAIN_ID: u64 = 84532;

/// `alloy_chains::NamedChain::try_from(u64)`, which looks the chain ID up among the named
/// chains' EIP-155 IDs: 1 is `Mainnet`, 11155111 `Sepolia`, 8453 `Base` and 84532
/// `BaseSepolia`; every other ID, named or not, is `Other` here.
#[verifier::external_body]
pub(crate) fn named_chain(chain_id: u64) -> (r: KnownChain)
    ensures
        r == if chain_id == MAINNET_CHAIN_ID {
            KnownChain::Mainnet
        } else if chain_id == SEPOLIA_CHAIN_ID {
            KnownChain::Sepolia
        } else if chain_id == BASE_CHAIN_ID {
            KnownChain::Base
        } else if chain_id == BASE_SEPOLIA_CHAIN_ID {
            KnownChain::BaseSepolia
        } else {
            KnownChain::Other
        },
{
    match alloy_chains::NamedChain::try_from(chain_id) {
        Ok(alloy_chains::NamedChain::Mainnet) => KnownChain::Mainnet,
        Ok(alloy_chains::NamedChain::Sepolia) => KnownChain::Sepolia,
        Ok(alloy_chains::NamedChain::Base) => KnownChain::Base,
        Ok(alloy_chains::NamedChain::BaseSepolia) => KnownChain::BaseSepolia,
        _ => KnownChain::Other,
    }
}

/// A deployment of the Boundless market contracts.
pub struct Deployment {
    pub chain_id: Option<u64>,
    /// Address of the BoundlessMarket contract.
    pub boundless_market_address: Address,
    /// Address of the RiscZeroVerifierRouter contract.
    pub verifier_router_address: Option<Address>,
    /// Address of the RiscZeroSetVerifier contract.
    pub set_verifier_address: Address,
    pub collateral_token_address: Option<Address>,
    /// URL of the offchain order stream service.
    pub order_stream_url: Option<String>,
}

/// The market contract address on each chain with a deployment.
pub open spec fn market_address(chain_id: u64) -> Address {
    if chain_id == SEPOLIA_CHAIN_ID {
        Address { hi: 0xc211b581, lo: 0xcb62e3a6d396a592bab34979e1bbba7d }
    } else if chain_id == BASE_CHAIN_ID {
        Address { hi: 0xfd152dad, lo: 0xc5183870710fe54f939eae3ab9f0fe82 }
    } else {
        Address { hi: 0x56da3786, lo: 0x061c82214d18e634d2817e86ad42d7ce }
    }
}

/// The collateral token address on each chain with a deployment.
pub open spec fn collateral_token(chain_id: u64) -> Address {
    if chain_id == SEPOLIA_CHAIN_ID {
        Address { hi: 0xb4fc69a4, lo: 0x52d09d2662bd8c3b5bb756902260ae28 }
    } else if chain_id == BASE_CHAIN_ID {
        Address { hi: 0xaa61bb77, lo: 0x77bd01b684347961918f1e07fbbce7cf }
    } else {
        Address { hi: 0x8d4da4b7, lo: 0x938471a919b08f941461b2ed1679d7bb }
    }
}

impl Deployment {
    /// The deployment on Sepolia.
    pub fn sepolia() -> (r: Self)
        ensures
            r.chain_id == Some(SEPOLIA_CHAIN_ID),
            r.boundless_market_address == market_address(SEPOLIA_CHAIN_ID),
            r.collateral_token_address == Some(collateral_token(SEPOLIA_CHAIN_ID)),
            r.order_stream_url matches Some(u) && u@ == "https://eth-sepolia.boundless.network"@,
    {
        Deployment {
            chain_id: Some(SEPOLIA_CHAIN_ID),
            boundless_market_address: Address { hi: 0xc211b581, lo: 0xcb62e3a6d396a592bab34979e1bbba7d },
            verifier_router_address: Some(
                Address { hi: 0x925d8331, lo: 0xddc0a1f0d96e68cf073dfe1d92b69187 },
            ),
            set_verifier_address: Address { hi: 0xcb9d1434, lo: 0x7b1e816831ecee46ec199144f360b55c },
            collateral_token_address: Some(
                Address { hi: 0xb4fc69a4, lo: 0x52d09d2662bd8c3b5bb756902260ae28 },
            ),
            order_stream_url: Some("https://eth-sepolia.boundless.network".to_owned()),
        }
    }

    /// The deployment on Base.
    pub fn base() -> (r: Self)
        ensures
            r.chain_id == Some(BASE_CHAIN_ID),
            r.boundless_market_address == market_address(BASE_CHAIN_ID),
            r.collateral_token_address == Some(collateral_token(BASE_CHAIN_ID)),
            r.order_stream_url matches Some(u) && u@ == "https://base-mainnet.boundless.network"@,
    {
        Deployment {
            chain_id: Some(BASE_CHAIN_ID),
            boundless_market_address: Address { hi: 0xfd152dad, lo: 0xc5183870710fe54f939eae3ab9f0fe82 },
            verifier_router_address: Some(
                Address { hi: 0x0b144e07, lo: 0xa0826182b6b59788c34b32bfa86fb711 },
            ),
            set_verifier_address: Address { hi: 0x1ab08498, lo: 0xcff17b9723ed67143a050c8e8c2e3104 },
            collateral_token_address: Some(
                Address { hi: 0xaa61bb77, lo: 0x77bd01b684347961918f1e07fbbce7cf },
            ),
            order_stream_url: Some("https://base-mainnet.boundless.network".to_owned()),
        }
    }

    /// The deployment on Base Sepolia.
    pub fn base_sepolia() -> (r: Self)
        ensures
            r.chain_id == Some(BASE_SEPOLIA_CHAIN_ID),
            r.boundless_market_address == market_address(BASE_SEPOLIA_CHAIN_ID),
            r.collateral_token_address == Some(collateral_token(BASE_SEPOLIA_CHAIN_ID)),
            r.order_stream_url matches Some(u) && u@ == "https://base-sepolia.boundless.network"@,
    {
        Deployment {
            chain_id: Some(BASE_SEPOLIA_CHAIN_ID),
            boundless_market_address: Address { hi: 0x56da3786, lo: 0x061c82214d18e634d2817e86ad42d7ce },
            verifier_router_address: Some(
                Address { hi: 0x0b144e07, lo: 0xa0826182b6b59788c34b32bfa86fb711 },
            ),
            set_verifier_address: Address { hi: 0x1ab08498, lo: 0xcff17b9723ed67143a050c8e8c2e3104 },
            collateral_token_address: Some(
                Address { hi: 0x8d4da4b7, lo: 0x938471a919b08f941461b2ed1679d7bb },
            ),
            order_stream_url: Some("https://base-sepolia.boundless.network".to_owned()),
        }
    }

    /// The deployment on a known chain: Sepolia, Base and Base Sepolia have one.
    pub fn from_chain(chain: KnownChain) -> (r: Option<Self>)
        ensures
            r is Some <==> (chain == KnownChain::Sepolia || chain == KnownChain::Base || chain
                == KnownChain::BaseSepolia),
            chain == KnownChain::Sepolia ==> (r matches Some(d) && d.chain_id == Some(
                SEPOLIA_CHAIN_ID,
            )),
            chain == KnownChain::Base ==> (r matches Some(d) && d.chain_id == Some(BASE_CHAIN_ID)),
            chain == KnownChain::BaseSepolia ==> (r matches Some(d) && d.chain_id == Some(
                BASE_SEPOLIA_CHAIN_ID,
            )),
            r matches Some(d) ==> d.chain_id matches Some(id) && d.boundless_market_address
                == market_address(id) && d.collateral_token_address == Some(collateral_token(id)),
    {
        match chain {
            KnownChain::Sepolia => Some(Deployment::sepolia()),
            KnownChain::Base => Some(Deployment::base()),
            KnownChain::BaseSepolia => Some(Deployment::base_sepolia()),
            _ => None,
        }
    }

    /// The deployment on the chain with the given ID, where there is one.
    pub fn from_chain_id(chain_id: u64) -> (r: Option<Self>)
        ensures
            r is Some <==> (chain_id == SEPOLIA_CHAIN_ID || chain_id == BASE_CHAIN_ID || chain_id
                == BASE_SEPOLIA_CHAIN_ID),
            r matches Some(d) ==> d.chain_id == Some(chain_id) && d.boundless_market_address
                == market_address(chain_id) && d.collateral_token_address == Some(
                collateral_token(chain_id),
            ),
    {
        Deployment::from_chain(named_chain(chain_id))
    }

    /// Whether the deployment's collateral token supports ERC-20 permits.
    pub fn collateral_token_supports_permit(&self) -> (r: bool)
        requires
            self.chain_id is Some,
        ensures
            r == (self.chain_id->0 == 1 || self.chain_id->0 == 11155111 || self.chain_id->0
                == 31337),
    {
        match self.chain_id {
            Some(id) => collateral_token_supports_permit(id),
            None => false,
        }
    }
}

} // verus!
