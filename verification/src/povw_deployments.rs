//! The known deployments of the PoVW and ZKC contracts, chosen by chain ID.
use crate::address::Address;
use crate::deployments::{named_chain, KnownChain, MAINNET_CHAIN_ID, SEPOLIA_CHAIN_ID};
use vstd::prelude::*;

verus! {

/// A deployment of the PoVW and ZKC contracts.
#[derive(Clone, Copy, Debug, PartialEq, Eq, Structural)]
pub struct Deployment {
    pub chain_id: Option<u64>,
    pub povw_accounting_address: Address,
    pub povw_mint_address: Address,
    pub zkc_address: Address,
    pub vezkc_address: Address,
}

/// The PoVW deployment on Sepolia.
pub open spec fn povw_sepolia() -> Deployment {
    Deployment {
        chain_id: Some(SEPOLIA_CHAIN_ID),
        povw_accounting_address: Address { hi: 0xc5e95673, lo: 0x2f4ba6b1973a859cf382244db6e84d0b },
        povw_mint_address: Address { hi: 0xc98218aa, lo: 0xfe225035a34795bf4f6777b7d541e326 },
        zkc_address: Address { hi: 0xb4fc69a4, lo: 0x52d09d2662bd8c3b5bb756902260ae28 },
        vezkc_address: Address { hi: 0xc2334073, lo: 0x2038ca6c5765763180e81b395d2e9cca },
    }
}

/// The PoVW deployment on Ethereum mainnet.
pub open spec fn povw_mainnet() -> Deployment {
    Deployment {
        chain_id: Some(MAINNET_CHAIN_ID),
        povw_accounting_address: Address { hi: 0x319bd405, lo: 0x0b2170a7ae3ead3e6d5ab8a5c7cfbdf8 },
        povw_mint_address: Address { hi: 0xbfce7c2d, lo: 0x5e7eddeab71b3eeed770713c8b755397 },
        zkc_address: Address { hi: 0x000006c2, lo: 0xa22ff4a44ff1f5d0f2ed65f781f55555 },
        vezkc_address: Address { hi: 0xe8ae8ee8, lo: 0xffa57f6a79b6cbe06bafc0b05f3ffbf4 },
    }
}

impl Deployment {
    /// The deployment on a known chain: Sepolia and Ethereum mainnet have one.
    pub fn from_chain(chain: KnownChain) -> (r: Option<Self>)
        ensures
            r == match chain {
                KnownChain::Sepolia => Some(povw_sepolia()),
                KnownChain::Mainnet => Some(povw_mainnet()),
                _ => None::<Deployment>,
            },
    {
        match chain {
            KnownChain::Sepolia => Some(
                Deployment {
                    chain_id: Some(SEPOLIA_CHAIN_ID),
                    povw_accounting_address: Address {
                        hi: 0xc5e95673,
                        lo: 0x2f4ba6b1973a859cf382244db6e84d0b,
                    },
                    povw_mint_address: Address { hi: 0xc98218aa, lo: 0xfe225035a34795bf4f6777b7d541e326 },
                    zkc_address: Address { hi: 0xb4fc69a4, lo: 0x52d09d2662bd8c3b5bb756902260ae28 },
                    vezkc_address: Address { hi: 0xc2334073, lo: 0x2038ca6c5765763180e81b395d2e9cca },
                },
            ),
            KnownChain::Mainnet => Some(
                Deployment {
                    chain_id: Some(MAINNET_CHAIN_ID),
                    povw_accounting_address: Address {
                        hi: 0x319bd405,
                        lo: 0x0b2170a7ae3ead3e6d5ab8a5c7cfbdf8,
                    },
                    povw_mint_address: Address { hi: 0xbfce7c2d, lo: 0x5e7eddeab71b3eeed770713c8b755397 },
                    zkc_address: Address { hi: 0x000006c2, lo: 0xa22ff4a44ff1f5d0f2ed65f781f55555 },
                    vezkc_address: Address { hi: 0xe8ae8ee8, lo: 0xffa57f6a79b6cbe06bafc0b05f3ffbf4 },
                },
            ),
            _ => None,
        }
    }

    /// The deployment on the chain with the given ID, where there is one.
    pub fn from_chain_id(chain_id: u64) -> (r: Option<Self>)
        ensures
            r == if chain_id == SEPOLIA_CHAIN_ID {
                Some(povw_sepolia())
            } else if chain_id == MAINNET_CHAIN_ID {
                Some(povw_mainnet())
            } else {
                None::<Deployment>
            },
    {
        Deployment::from_chain(named_chain(chain_id))
    }
}

} // verus!
