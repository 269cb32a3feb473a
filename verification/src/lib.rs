//! Verified core logic of the Boundless tooling: 256-bit token arithmetic,
//! human-readable formatting, pagination of indexer responses, order
//! prioritization for the broker, PoVW work-log bookkeeping and the
//! decisions taken by the distributor and the reward-claim flow.
use vstd::prelude::*;

pub mod u256;
pub mod text;
pub mod address;
pub mod sorting;
pub mod units;
pub mod prioritization;
pub mod block_search;
pub mod claim;
pub mod distributor;
pub mod fixed_point;
pub mod patched;
pub mod amounts;
pub mod indexer;
pub mod sorted_set;
pub mod sorted_map;
pub mod mint;
pub mod mint_calculator;
pub mod staking;
pub mod work_log;
pub mod receipts;
pub mod deployments;
pub mod povw_deployments;
pub mod bento;
pub mod log_updater;
pub mod cli;
pub mod staking_views;
pub mod delegation_views;
pub mod db;

verus! {

} // verus!
