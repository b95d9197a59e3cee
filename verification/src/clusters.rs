//! A table of clusters that answers the questions of the staking logic.

use crate::cluster::{
    ClusterBondingParams, ClusterCreator, ClusterCreatorError, ClusterFeesParams, ClusterGovParams,
    ClusterParams, ClusterPricingParams, ClusterVisitor, ClusterVisitorError,
};
use crate::primitives::{AccountId, Balance, BlockNumber, ClusterId, NodeType};
use crate::vec_map::VecMap;
use vstd::prelude::*;

verus! {

/// A cluster: who manages it, where its reserve lies, and its parameters.
#[derive(Clone, Copy, Debug, PartialEq, Eq)]
pub struct Cluster {
    pub manager_id: AccountId,
    pub reserve_id: AccountId,
    pub params: ClusterParams,
    pub gov_params: ClusterGovParams,
}

impl Cluster {
    /// The least active stake for a node of one kind.
    pub open spec fn bond_size(self, node_type: NodeType) -> Balance {
        match node_type {
            NodeType::Storage => self.gov_params.storage_bond_size,
            NodeType::CDN => self.gov_params.cdn_bond_size,
        }
    }

    /// The eras between the announcement of an exit and the exit, for one kind of node.
    pub open spec fn chill_delay(self, node_type: NodeType) -> BlockNumber {
        match node_type {
            NodeType::Storage => self.gov_params.storage_chill_delay,
            NodeType::CDN => self.gov_params.cdn_chill_delay,
        }
    }

    /// The eras between an unbonding and the withdrawal, for one kind of node.
    pub open spec fn unbonding_delay(self, node_type: NodeType) -> BlockNumber {
        match node_type {
            NodeType::Storage => self.gov_params.storage_unbonding_delay,
            NodeType::CDN => self.gov_params.cdn_unbonding_delay,
        }
    }

    /// What the cluster charges.
    pub open spec fn pricing_params(self) -> ClusterPricingParams {
        ClusterPricingParams {
            unit_per_mb_stored: self.gov_params.unit_per_mb_stored,
            unit_per_mb_streamed: self.gov_params.unit_per_mb_streamed,
            unit_per_put_request: self.gov_params.unit_per_put_request,
            unit_per_get_request: self.gov_params.unit_per_get_request,
        }
    }

    /// How the cluster shares its fees.
    pub open spec fn fees_params(self) -> ClusterFeesParams {
        ClusterFeesParams {
            treasury_share: self.gov_params.treasury_share,
            validators_share: self.gov_params.validators_share,
            cluster_reserve_share: self.gov_params.cluster_reserve_share,
        }
    }

    /// What the cluster asks of the stake behind its nodes.
    pub open spec fn bonding_params(self) -> ClusterBondingParams {
        ClusterBondingParams {
            cdn_bond_size: self.gov_params.cdn_bond_size,
            cdn_chill_delay: self.gov_params.cdn_chill_delay,
            cdn_unbonding_delay: self.gov_params.cdn_unbonding_delay,
            storage_bond_size: self.gov_params.storage_bond_size,
            storage_chill_delay: self.gov_params.storage_chill_delay,
            storage_unbonding_delay: self.gov_params.storage_unbonding_delay,
        }
    }
}

/// What a table of clusters says of one cluster: the value that `pick` takes from it, or that
/// there is no such cluster.
pub open spec fn answer<A>(
    clusters: Map<ClusterId, Cluster>,
    cluster_id: ClusterId,
    pick: spec_fn(Cluster) -> A,
) -> Result<A, ClusterVisitorError> {
    if clusters.dom().contains(cluster_id) {
        Ok(pick(clusters[cluster_id]))
    } else {
        Err(ClusterVisitorError::ClusterDoesNotExist)
    }
}

/// The clusters, each under its identifier.
pub struct Clusters {
    clusters: VecMap<ClusterId, Cluster>,
}

impl Clusters {
    /// The table is in order.
    pub closed spec fn wf(&self) -> bool {
        self.clusters.wf()
    }

    /// The clusters of the table.
    pub closed spec fn view(&self) -> Map<ClusterId, Cluster> {
        self.clusters@
    }

    /// A table without clusters.
    pub fn new() -> (table: Self)
        ensures
            table.wf(),
            table@ == Map::<ClusterId, Cluster>::empty(),
    {
        Clusters { clusters: VecMap::new() }
    }

    fn cluster(&self, cluster_id: &ClusterId) -> (r: Result<Cluster, ClusterVisitorError>)
        requires
            self.wf(),
        ensures
            r == answer(self@, *cluster_id, |c: Cluster| c),
    {
        match self.clusters.get(cluster_id) {
            Some(cluster) => Ok(*cluster),
            None => Err(ClusterVisitorError::ClusterDoesNotExist),
        }
    }
}

impl ClusterVisitor for Clusters {
    open spec fn visitor_wf(&self) -> bool {
        self.wf()
    }

    open spec fn bond_size(&self, cluster_id: ClusterId, node_type: NodeType) -> Result<
        Balance,
        ClusterVisitorError,
    > {
        answer(self@, cluster_id, |c: Cluster| c.bond_size(node_type))
    }

    open spec fn chill_delay(&self, cluster_id: ClusterId, node_type: NodeType) -> Result<
        BlockNumber,
        ClusterVisitorError,
    > {
        answer(self@, cluster_id, |c: Cluster| c.chill_delay(node_type))
    }

    open spec fn unbonding_delay(&self, cluster_id: ClusterId, node_type: NodeType) -> Result<
        BlockNumber,
        ClusterVisitorError,
    > {
        answer(self@, cluster_id, |c: Cluster| c.unbonding_delay(node_type))
    }

    fn ensure_cluster(&self, cluster_id: &ClusterId) -> (r: Result<(), ClusterVisitorError>)
        ensures
            r == answer(self@, *cluster_id, |c: Cluster| ()),
    {
        match self.cluster(cluster_id) {
            Ok(_) => Ok(()),
            Err(e) => Err(e),
        }
    }

    fn get_bond_size(&self, cluster_id: &ClusterId, node_type: NodeType) -> (r: Result<
        Balance,
        ClusterVisitorError,
    >) {
        match self.cluster(cluster_id) {
            Ok(cluster) => Ok(
                match node_type {
                    NodeType::Storage => cluster.gov_params.storage_bond_size,
                    NodeType::CDN => cluster.gov_params.cdn_bond_size,
                },
            ),
            Err(e) => Err(e),
        }
    }

    fn get_pricing_params(&self, cluster_id: &ClusterId) -> (r: Result<
        ClusterPricingParams,
        ClusterVisitorError,
    >)
        ensures
            r == answer(self@, *cluster_id, |c: Cluster| c.pricing_params()),
    {
        match self.cluster(cluster_id) {
            Ok(cluster) => Ok(
                ClusterPricingParams {
                    unit_per_mb_stored: cluster.gov_params.unit_per_mb_stored,
                    unit_per_mb_streamed: cluster.gov_params.unit_per_mb_streamed,
                    unit_per_put_request: cluster.gov_params.unit_per_put_request,
                    unit_per_get_request: cluster.gov_params.unit_per_get_request,
                },
            ),
            Err(e) => Err(e),
        }
    }

    fn get_fees_params(&self, cluster_id: &ClusterId) -> (r: Result<
        ClusterFeesParams,
        ClusterVisitorError,
    >)
        ensures
            r == answer(self@, *cluster_id, |c: Cluster| c.fees_params()),
    {
        match self.cluster(cluster_id) {
            Ok(cluster) => Ok(
                ClusterFeesParams {
                    treasury_share: cluster.gov_params.treasury_share,
                    validators_share: cluster.gov_params.validators_share,
                    cluster_reserve_share: cluster.gov_params.cluster_reserve_share,
                },
            ),
            Err(e) => Err(e),
        }
    }

    fn get_reserve_account_id(&self, cluster_id: &ClusterId) -> (r: Result<
        AccountId,
        ClusterVisitorError,
    >)
        ensures
            r == answer(self@, *cluster_id, |c: Cluster| c.reserve_id),
    {
        match self.cluster(cluster_id) {
            Ok(cluster) => Ok(cluster.reserve_id),
            Err(e) => Err(e),
        }
    }

    fn get_chill_delay(&self, cluster_id: &ClusterId, node_type: NodeType) -> (r: Result<
        BlockNumber,
        ClusterVisitorError,
    >) {
        match self.cluster(cluster_id) {
            Ok(cluster) => Ok(
                match node_type {
                    NodeType::Storage => cluster.gov_params.storage_chill_delay,
                    NodeType::CDN => cluster.gov_params.cdn_chill_delay,
                },
            ),
            Err(e) => Err(e),
        }
    }

    fn get_unbonding_delay(&self, cluster_id: &ClusterId, node_type: NodeType) -> (r: Result<
        BlockNumber,
        ClusterVisitorError,
    >) {
        match self.cluster(cluster_id) {
            Ok(cluster) => Ok(
                match node_type {
                    NodeType::Storage => cluster.gov_params.storage_unbonding_delay,
                    NodeType::CDN => cluster.gov_params.cdn_unbonding_delay,
                },
            ),
            Err(e) => Err(e),
        }
    }

    fn get_bonding_params(&self, cluster_id: &ClusterId) -> (r: Result<
        ClusterBondingParams,
        ClusterVisitorError,
    >)
        ensures
            r == answer(self@, *cluster_id, |c: Cluster| c.bonding_params()),
    {
        match self.cluster(cluster_id) {
            Ok(cluster) => Ok(
                ClusterBondingParams {
                    cdn_bond_size: cluster.gov_params.cdn_bond_size,
                    cdn_chill_delay: cluster.gov_params.cdn_chill_delay,
                    cdn_unbonding_delay: cluster.gov_params.cdn_unbonding_delay,
                    storage_bond_size: cluster.gov_params.storage_bond_size,
                    storage_chill_delay: cluster.gov_params.storage_chill_delay,
                    storage_unbonding_delay: cluster.gov_params.storage_unbonding_delay,
                },
            ),
            Err(e) => Err(e),
        }
    }
}

/// Creating a cluster in a table: refused if the identifier is taken, else the cluster
/// stands under it.
pub open spec fn create_new_cluster_spec(
    clusters: Map<ClusterId, Cluster>,
    cluster_id: ClusterId,
    cluster: Cluster,
) -> (Map<ClusterId, Cluster>, Result<(), ClusterCreatorError>) {
    if clusters.dom().contains(cluster_id) {
        (clusters, Err(ClusterCreatorError::ClusterAlreadyExists))
    } else {
        (clusters.insert(cluster_id, cluster), Ok(()))
    }
}

impl ClusterCreator for Clusters {
    open spec fn creator_wf(&self) -> bool {
        self.wf()
    }

    open spec fn creation(
        &self,
        cluster_id: ClusterId,
        cluster_manager_id: AccountId,
        cluster_reserve_id: AccountId,
        cluster_params: ClusterParams,
        cluster_gov_params: ClusterGovParams,
    ) -> Result<(), ClusterCreatorError> {
        create_new_cluster_spec(
            self@,
            cluster_id,
            Cluster {
                manager_id: cluster_manager_id,
                reserve_id: cluster_reserve_id,
                params: cluster_params,
                gov_params: cluster_gov_params,
            },
        ).1
    }

    fn create_new_cluster(
        &mut self,
        cluster_id: ClusterId,
        cluster_manager_id: AccountId,
        cluster_reserve_id: AccountId,
        cluster_params: ClusterParams,
        cluster_gov_params: ClusterGovParams,
    ) -> (r: Result<(), ClusterCreatorError>)
        ensures
            (final(self)@, r) == create_new_cluster_spec(
                old(self)@,
                cluster_id,
                Cluster {
                    manager_id: cluster_manager_id,
                    reserve_id: cluster_reserve_id,
                    params: cluster_params,
                    gov_params: cluster_gov_params,
                },
            ),
    {
        if self.clusters.contains_key(&cluster_id) {
            return Err(ClusterCreatorError::ClusterAlreadyExists);
        }
        self.clusters.insert(
            cluster_id,
            Cluster {
                manager_id: cluster_manager_id,
                reserve_id: cluster_reserve_id,
                params: cluster_params,
                gov_params: cluster_gov_params,
            },
        );
        Ok(())
    }
}

} // verus!
