//! Node registry and stake ledger of a decentralised data cluster.

pub mod bounded;
pub mod cdn_node;
pub mod cluster;
pub mod clusters;
pub mod ledger;
pub mod node;
pub mod nodes;
pub mod primitives;
pub mod staking;
pub mod storage_node;
pub mod testing_utils;
pub mod vec_map;
