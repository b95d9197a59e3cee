//! What the staking logic asks of the clusters, and what the clusters ask of the nodes.

use crate::primitives::{AccountId, Balance, BlockNumber, ClusterId, NodePubKey, NodeType};
use vstd::prelude::*;

verus! {

/// Why a question about a cluster could not be answered.
#[derive(Clone, Copy, Debug, PartialEq, Eq, Structural)]
pub enum ClusterVisitorError {
    ClusterDoesNotExist,
    ClusterGovParamsNotSet,
}

/// Why a cluster refused to take or to release a node.
#[derive(Clone, Copy, Debug, PartialEq, Eq, Structural)]
pub enum ClusterManagerError {
    AttemptToAddNonExistentNode,
    AttemptToAddAlreadyAssignedNode,
    AttemptToRemoveNotAssignedNode,
    AttemptToRemoveNonExistentNode,
}

/// Why a cluster could not be created.
#[derive(Clone, Copy, Debug, PartialEq, Eq, Structural)]
pub enum ClusterCreatorError {
    ClusterAlreadyExists,
}

/// The parameters that a cluster is created with.
#[derive(Clone, Copy, Debug, PartialEq, Eq)]
pub struct ClusterParams {
    pub node_provider_auth_contract: AccountId,
}

/// What a cluster charges for its services.
#[derive(Clone, Copy, Debug, PartialEq, Eq, Structural)]
pub struct ClusterPricingParams {
    pub unit_per_mb_stored: u128,
    pub unit_per_mb_streamed: u128,
    pub unit_per_put_request: u128,
    pub unit_per_get_request: u128,
}

/// How a cluster shares its fees, each share in parts per billion.
#[derive(Clone, Copy, Debug, PartialEq, Eq, Structural)]
pub struct ClusterFeesParams {
    pub treasury_share: u32,
    pub validators_share: u32,
    pub cluster_reserve_share: u32,
}

/// What a cluster asks of the stake behind its nodes.
#[derive(Clone, Copy, Debug, PartialEq, Eq, Structural)]
pub struct ClusterBondingParams {
    pub cdn_bond_size: Balance,
    pub cdn_chill_delay: BlockNumber,
    pub cdn_unbonding_delay: BlockNumber,
    pub storage_bond_size: Balance,
    pub storage_chill_delay: BlockNumber,
    pub storage_unbonding_delay: BlockNumber,
}

/// The parameters of a cluster that its governance sets. The shares are in parts per
/// billion.
#[derive(Clone, Copy, Debug, PartialEq, Eq, Structural)]
pub struct ClusterGovParams {
    pub treasury_share: u32,
    pub validators_share: u32,
    pub cluster_reserve_share: u32,
    pub cdn_bond_size: Balance,
    pub cdn_chill_delay: BlockNumber,
    pub cdn_unbonding_delay: BlockNumber,
    pub storage_bond_size: Balance,
    pub storage_chill_delay: BlockNumber,
    pub storage_unbonding_delay: BlockNumber,
    pub unit_per_mb_stored: u128,
    pub unit_per_mb_streamed: u128,
    pub unit_per_put_request: u128,
    pub unit_per_get_request: u128,
}

/// Read-only questions about clusters. The answers to the three questions that the staking
/// logic asks have names, so that its contracts can speak of them.
pub trait ClusterVisitor {
    /// The one who answers is in order.
    spec fn visitor_wf(&self) -> bool;

    /// The least active stake with which a node of that kind may join the cluster.
    spec fn bond_size(&self, cluster_id: ClusterId, node_type: NodeType) -> Result<
        Balance,
        ClusterVisitorError,
    >;

    /// The eras between the announcement of an exit and the exit.
    spec fn chill_delay(&self, cluster_id: ClusterId, node_type: NodeType) -> Result<
        BlockNumber,
        ClusterVisitorError,
    >;

    /// The eras between an unbonding and the withdrawal.
    spec fn unbonding_delay(&self, cluster_id: ClusterId, node_type: NodeType) -> Result<
        BlockNumber,
        ClusterVisitorError,
    >;

    fn ensure_cluster(&self, cluster_id: &ClusterId) -> Result<(), ClusterVisitorError>
        requires
            self.visitor_wf(),
    ;

    fn get_bond_size(&self, cluster_id: &ClusterId, node_type: NodeType) -> (r: Result<
        Balance,
        ClusterVisitorError,
    >)
        requires
            self.visitor_wf(),
        ensures
            r == self.bond_size(*cluster_id, node_type),
    ;

    fn get_pricing_params(&self, cluster_id: &ClusterId) -> Result<
        ClusterPricingParams,
        ClusterVisitorError,
    >
        requires
            self.visitor_wf(),
    ;

    fn get_fees_params(&self, cluster_id: &ClusterId) -> Result<
        ClusterFeesParams,
        ClusterVisitorError,
    >
        requires
            self.visitor_wf(),
    ;

    fn get_reserve_account_id(&self, cluster_id: &ClusterId) -> Result<
        AccountId,
        ClusterVisitorError,
    >
        requires
            self.visitor_wf(),
    ;

    fn get_chill_delay(&self, cluster_id: &ClusterId, node_type: NodeType) -> (r: Result<
        BlockNumber,
        ClusterVisitorError,
    >)
        requires
            self.visitor_wf(),
        ensures
            r == self.chill_delay(*cluster_id, node_type),
    ;

    fn get_unbonding_delay(&self, cluster_id: &ClusterId, node_type: NodeType) -> (r: Result<
        BlockNumber,
        ClusterVisitorError,
    >)
        requires
            self.visitor_wf(),
        ensures
            r == self.unbonding_delay(*cluster_id, node_type),
    ;

    fn get_bonding_params(&self, cluster_id: &ClusterId) -> Result<
        ClusterBondingParams,
        ClusterVisitorError,
    >
        requires
            self.visitor_wf(),
    ;
}

/// Creation of clusters. Whether a cluster can be created has a name, so that the contracts
/// of callers can speak of it.
pub trait ClusterCreator {
    /// The one who creates is in order.
    spec fn creator_wf(&self) -> bool;

    /// How an attempt to create a cluster ends.
    spec fn creation(
        &self,
        cluster_id: ClusterId,
        cluster_manager_id: AccountId,
        cluster_reserve_id: AccountId,
        cluster_params: ClusterParams,
        cluster_gov_params: ClusterGovParams,
    ) -> Result<(), ClusterCreatorError>;

    fn create_new_cluster(
        &mut self,
        cluster_id: ClusterId,
        cluster_manager_id: AccountId,
        cluster_reserve_id: AccountId,
        cluster_params: ClusterParams,
        cluster_gov_params: ClusterGovParams,
    ) -> (r: Result<(), ClusterCreatorError>)
        requires
            old(self).creator_wf(),
        ensures
            final(self).creator_wf(),
            r == old(self).creation(
                cluster_id,
                cluster_manager_id,
                cluster_reserve_id,
                cluster_params,
                cluster_gov_params,
            ),
    ;
}

/// Membership of nodes in clusters, as the clusters keep it.
pub trait ClusterManager {
    /// The one who manages is in order.
    spec fn manager_wf(&self) -> bool;

    fn contains_node(&self, cluster_id: &ClusterId, node_pub_key: &NodePubKey) -> bool
        requires
            self.manager_wf(),
    ;

    fn add_node(&mut self, cluster_id: &ClusterId, node_pub_key: &NodePubKey) -> (r: Result<
        (),
        ClusterManagerError,
    >)
        requires
            old(self).manager_wf(),
        ensures
            final(self).manager_wf(),
    ;

    fn remove_node(&mut self, cluster_id: &ClusterId, node_pub_key: &NodePubKey) -> (r: Result<
        (),
        ClusterManagerError,
    >)
        requires
            old(self).manager_wf(),
        ensures
            final(self).manager_wf(),
    ;
}

} // verus!
