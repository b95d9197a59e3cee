//! Bonding, unbonding and withdrawal of stake, the admission of stashes to clusters and
//! their delayed exit, and the list of accounts that may manage clusters.

use crate::cluster::{ClusterVisitor, ClusterVisitorError};
use crate::ledger::{LedgerView, StakingLedger};
use crate::node::{NodeTrait, NodeView};
use crate::nodes::NodeRepository;
use crate::primitives::{
    AccountId, Balance, BlockNumber, ClusterId, EraIndex, Key, NodePubKey, NodeType,
};
use crate::vec_map::VecMap;
use vstd::prelude::*;

verus! {

/// The largest number of accounts that may manage clusters.
pub const MAX_CLUSTER_MANAGERS: usize = 32;

/// Who asks for an operation.
#[derive(Clone, Copy, Debug, PartialEq, Eq)]
pub enum Origin {
    /// The privileged caller.
    Root,
    /// An authenticated account.
    Signed(AccountId),
    /// A caller that has not been authenticated.
    Unsigned,
}

/// Why a staking operation was refused.
#[derive(Clone, Copy, Debug, PartialEq, Eq, Structural)]
pub enum Error {
    /// The account has no ledger.
    NotController,
    /// The account is not bonded.
    NotStash,
    /// The stash is bonded already.
    AlreadyBonded,
    /// The controller controls another stash.
    ControllerInUse,
    /// The node is bonded to another stash.
    NodeAlreadyBonded,
    /// The active stake is under the bond size of the cluster.
    InsufficientBond,
    /// The stash is in no cluster.
    NotActive,
    /// The node of the stash is not in the registry.
    NodeNotFound,
    /// The caller is not privileged.
    AuthorizationError,
    /// The list of cluster managers is full.
    TooManyClusterManagers,
    /// The cluster could not answer.
    ClusterVisitor(ClusterVisitorError),
}

/// The place of a stash in a cluster, with the era in which it announced its exit, if it
/// did.
#[derive(Clone, Copy, Debug, PartialEq, Eq)]
pub struct Membership {
    pub cluster_id: ClusterId,
    pub chill_requested_at: Option<EraIndex>,
}

/// The staking state as plain values.
pub struct StakingView {
    /// The controller of each bonded stash.
    pub bonded: Map<AccountId, AccountId>,
    /// The ledger of each controller.
    pub ledger: Map<AccountId, LedgerView>,
    /// The stash behind each bonded node.
    pub nodes: Map<NodePubKey, AccountId>,
    /// The stashes that provide storage, each with its cluster.
    pub storages: Map<AccountId, Membership>,
    /// The stashes that provide CDN service, each with its cluster.
    pub cdns: Map<AccountId, Membership>,
    /// The accounts that may manage clusters, in the order in which they were allowed.
    pub cluster_managers: Seq<AccountId>,
}

impl StakingView {
    /// The state before anything was bonded or allowed.
    pub open spec fn empty() -> StakingView {
        StakingView {
            bonded: Map::empty(),
            ledger: Map::empty(),
            nodes: Map::empty(),
            storages: Map::empty(),
            cdns: Map::empty(),
            cluster_managers: Seq::empty(),
        }
    }

    /// Every ledger is balanced; stashes and controllers are paired one to one; every
    /// bonded stash stands behind exactly one node; no manager is listed twice, and there
    /// are no more of them than allowed.
    pub open spec fn valid(self) -> bool {
        &&& forall|c: AccountId| #[trigger] self.ledger.dom().contains(c) ==> self.ledger[c].balanced()
        &&& forall|s: AccountId| #[trigger]
            self.bonded.dom().contains(s) ==> self.ledger.dom().contains(self.bonded[s])
                && self.ledger[self.bonded[s]].stash == s
        &&& forall|c: AccountId| #[trigger]
            self.ledger.dom().contains(c) ==> self.bonded.dom().contains(self.ledger[c].stash)
                && self.bonded[self.ledger[c].stash] == c
        &&& forall|k: NodePubKey| #[trigger]
            self.nodes.dom().contains(k) ==> self.bonded.dom().contains(self.nodes[k])
        &&& forall|k1: NodePubKey, k2: NodePubKey|
            #![trigger self.nodes.dom().contains(k1), self.nodes.dom().contains(k2)]
            self.nodes.dom().contains(k1) && self.nodes.dom().contains(k2) && self.nodes[k1]
                == self.nodes[k2] ==> k1 == k2
        &&& forall|s: AccountId| #[trigger] self.bonded.dom().contains(s) ==> self.has_node(s)
        &&& self.cluster_managers.no_duplicates()
        &&& self.cluster_managers.len() <= MAX_CLUSTER_MANAGERS
    }

    /// Some node is bonded to `stash`.
    pub open spec fn has_node(self, stash: AccountId) -> bool {
        exists|k: NodePubKey| #[trigger] self.nodes.dom().contains(k) && self.nodes[k] == stash
    }

    /// The node that is bonded to `stash`.
    pub open spec fn node_of(self, stash: AccountId) -> NodePubKey {
        choose|k: NodePubKey| #[trigger] self.nodes.dom().contains(k) && self.nodes[k] == stash
    }

    /// The nodes but for those of `stash`.
    pub open spec fn nodes_without(self, stash: AccountId) -> Map<NodePubKey, AccountId> {
        Map::new(
            |k: NodePubKey| self.nodes.dom().contains(k) && self.nodes[k] != stash,
            |k: NodePubKey| self.nodes[k],
        )
    }

    /// The cluster in which `stash` is active and the kind of its service there: CDN
    /// service, if it gives any, else storage.
    pub open spec fn role(self, stash: AccountId) -> Option<(ClusterId, NodeType)> {
        if self.cdns.dom().contains(stash) {
            Some((self.cdns[stash].cluster_id, NodeType::CDN))
        } else if self.storages.dom().contains(stash) {
            Some((self.storages[stash].cluster_id, NodeType::Storage))
        } else {
            None
        }
    }

    /// The stashes that give service of one kind.
    pub open spec fn members(self, node_type: NodeType) -> Map<AccountId, Membership> {
        match node_type {
            NodeType::Storage => self.storages,
            NodeType::CDN => self.cdns,
        }
    }

    /// The same state with other stashes giving service of one kind.
    pub open spec fn with_members(
        self,
        node_type: NodeType,
        members: Map<AccountId, Membership>,
    ) -> StakingView {
        match node_type {
            NodeType::Storage => StakingView { storages: members, ..self },
            NodeType::CDN => StakingView { cdns: members, ..self },
        }
    }

    /// The stashes that are active in `cluster_id` with service of one kind.
    pub open spec fn active_set(self, cluster_id: ClusterId, node_type: NodeType) -> Set<
        AccountId,
    > {
        Set::new(
            |s: AccountId|
                self.members(node_type).dom().contains(s) && self.members(node_type)[s].cluster_id
                    == cluster_id,
        )
    }

    /// Bonding `amount` of `stash` under `controller` behind `node`. The stash must not be
    /// bonded, the controller must be free and so must the node.
    pub open spec fn bond(
        self,
        stash: AccountId,
        controller: AccountId,
        node: NodePubKey,
        amount: Balance,
    ) -> (StakingView, Result<(), Error>) {
        if self.bonded.dom().contains(stash) {
            (self, Err(Error::AlreadyBonded))
        } else if self.ledger.dom().contains(controller) {
            (self, Err(Error::ControllerInUse))
        } else if self.nodes.dom().contains(node) {
            (self, Err(Error::NodeAlreadyBonded))
        } else {
            (
                StakingView {
                    bonded: self.bonded.insert(stash, controller),
                    ledger: self.ledger.insert(controller, LedgerView::bonded(stash, amount)),
                    nodes: self.nodes.insert(node, stash),
                    ..self
                },
                Ok(()),
            )
        }
    }

    /// The stash that `controller` controls. Meaningful where the controller has a ledger.
    pub open spec fn stash_of(self, controller: AccountId) -> AccountId {
        self.ledger[controller].stash
    }

    /// The delay that applies when `controller` unbonds: that of the cluster of its stash,
    /// for the kind of service that the stash gives there, and none where the stash is
    /// outside every cluster.
    pub open spec fn unbonding_delay<V: ClusterVisitor>(
        self,
        visitor: &V,
        controller: AccountId,
    ) -> Result<BlockNumber, ClusterVisitorError> {
        match self.role(self.stash_of(controller)) {
            Some((cluster_id, node_type)) => visitor.unbonding_delay(cluster_id, node_type),
            None => Ok(0),
        }
    }

    /// Unbonding up to `amount` for `controller` in `current_era`, where the cluster
    /// answered `delay`. With nothing to unbond nothing happens, and the answer does
    /// not matter. Else what unbonds can be withdrawn `delay` eras from now.
    pub open spec fn unbond(
        self,
        controller: AccountId,
        amount: Balance,
        current_era: EraIndex,
        delay: Result<BlockNumber, ClusterVisitorError>,
    ) -> (StakingView, Result<(), Error>) {
        if !self.ledger.dom().contains(controller) {
            (self, Err(Error::NotController))
        } else if self.ledger[controller].unbondable(amount) == 0 {
            (self, Ok(()))
        } else {
            match delay {
                Err(e) => (self, Err(Error::ClusterVisitor(e))),
                Ok(d) => (
                    StakingView {
                        ledger: self.ledger.insert(
                            controller,
                            self.ledger[controller].unbond(amount, (current_era + d) as EraIndex),
                        ),
                        ..self
                    },
                    Ok(()),
                ),
            }
        }
    }

    /// Withdrawing for `controller` all that is due in `current_era`. Where nothing is left
    /// of the total, the ledger goes, and with it the bond of the stash and the node
    /// behind which it stood.
    pub open spec fn withdraw_unbonded(self, controller: AccountId, current_era: EraIndex) -> (
        StakingView,
        Result<(), Error>,
    ) {
        if !self.ledger.dom().contains(controller) {
            (self, Err(Error::NotController))
        } else {
            let ledger = self.ledger[controller].withdraw(current_era);
            if ledger.total == 0 {
                (
                    StakingView {
                        bonded: self.bonded.remove(ledger.stash),
                        ledger: self.ledger.remove(controller),
                        nodes: self.nodes_without(ledger.stash),
                        ..self
                    },
                    Ok(()),
                )
            } else {
                (StakingView { ledger: self.ledger.insert(controller, ledger), ..self }, Ok(()))
            }
        }
    }

    /// Handing the ledger of `stash` to `new_controller`, who must not control another
    /// stash.
    pub open spec fn set_controller(self, stash: AccountId, new_controller: AccountId) -> (
        StakingView,
        Result<(), Error>,
    ) {
        if !self.bonded.dom().contains(stash) {
            (self, Err(Error::NotStash))
        } else if self.ledger.dom().contains(new_controller) && self.ledger[new_controller].stash
            != stash {
            (self, Err(Error::ControllerInUse))
        } else {
            let old_controller = self.bonded[stash];
            (
                StakingView {
                    bonded: self.bonded.insert(stash, new_controller),
                    ledger: self.ledger.remove(old_controller).insert(
                        new_controller,
                        self.ledger[old_controller],
                    ),
                    ..self
                },
                Ok(()),
            )
        }
    }

    /// Putting `stash` behind `new_node`, which must not stand for another stash.
    pub open spec fn set_node(self, stash: AccountId, new_node: NodePubKey) -> (
        StakingView,
        Result<(), Error>,
    ) {
        if !self.bonded.dom().contains(stash) {
            (self, Err(Error::NotStash))
        } else if self.nodes.dom().contains(new_node) && self.nodes[new_node] != stash {
            (self, Err(Error::NodeAlreadyBonded))
        } else {
            (StakingView { nodes: self.nodes_without(stash).insert(new_node, stash), ..self }, Ok(()))
        }
    }

    /// Admitting the stash of `controller` to `cluster_id` with service of one kind, where
    /// the cluster answered `bond_size`. The stash joins the active set without an
    /// announced exit, and its node in `registry` is assigned to the cluster.
    pub open spec fn join_cluster(
        self,
        registry: Map<NodePubKey, NodeView>,
        controller: AccountId,
        cluster_id: ClusterId,
        node_type: NodeType,
        bond_size: Result<Balance, ClusterVisitorError>,
    ) -> (StakingView, Map<NodePubKey, NodeView>, Result<(), Error>) {
        if !self.ledger.dom().contains(controller) {
            (self, registry, Err(Error::NotController))
        } else {
            let stash = self.stash_of(controller);
            let node = self.node_of(stash);
            match bond_size {
                Err(e) => (self, registry, Err(Error::ClusterVisitor(e))),
                Ok(size) => if self.ledger[controller].active < size {
                    (self, registry, Err(Error::InsufficientBond))
                } else if !registry.dom().contains(node) {
                    (self, registry, Err(Error::NodeNotFound))
                } else {
                    (
                        self.with_members(
                            node_type,
                            self.members(node_type).insert(
                                stash,
                                Membership { cluster_id, chill_requested_at: None },
                            ),
                        ),
                        registry.insert(node, registry[node].with_cluster_id(Some(cluster_id))),
                        Ok(()),
                    )
                },
            }
        }
    }

    /// The delay that applies when `controller` chills: that of the cluster of its stash
    /// for the kind of service that the stash gives there.
    pub open spec fn chill_delay<V: ClusterVisitor>(self, visitor: &V, controller: AccountId) -> Result<
        BlockNumber,
        ClusterVisitorError,
    > {
        match self.role(self.stash_of(controller)) {
            Some((cluster_id, node_type)) => visitor.chill_delay(cluster_id, node_type),
            None => Ok(0),
        }
    }

    /// The exit of the stash of `controller` from its cluster, asked for in `current_era`,
    /// where the cluster answered `delay`. The first call writes the era down and leaves
    /// the stash in the active set. A later call, `delay` eras after that or more, takes
    /// the stash out of the set and its node out of the cluster. A call in between does
    /// nothing. The answer of the cluster matters only once an era is written down.
    pub open spec fn chill(
        self,
        registry: Map<NodePubKey, NodeView>,
        controller: AccountId,
        current_era: EraIndex,
        delay: Result<BlockNumber, ClusterVisitorError>,
    ) -> (StakingView, Map<NodePubKey, NodeView>, Result<(), Error>) {
        if !self.ledger.dom().contains(controller) {
            (self, registry, Err(Error::NotController))
        } else {
            let stash = self.stash_of(controller);
            match self.role(stash) {
                None => (self, registry, Err(Error::NotActive)),
                Some((cluster_id, node_type)) => {
                    let members = self.members(node_type);
                    match members[stash].chill_requested_at {
                        None => (
                            self.with_members(
                                node_type,
                                members.insert(
                                    stash,
                                    Membership { cluster_id, chill_requested_at: Some(current_era) },
                                ),
                            ),
                            registry,
                            Ok(()),
                        ),
                        Some(requested_at) => match delay {
                            Err(e) => (self, registry, Err(Error::ClusterVisitor(e))),
                            Ok(d) => if current_era >= requested_at + d {
                                let node = self.node_of(stash);
                                (
                                    self.with_members(node_type, members.remove(stash)),
                                    if registry.dom().contains(node) {
                                        registry.insert(node, registry[node].with_cluster_id(None))
                                    } else {
                                        registry
                                    },
                                    Ok(()),
                                )
                            } else {
                                (self, registry, Ok(()))
                            },
                        },
                    }
                },
            }
        }
    }

    /// Allowing `grantee` to manage clusters, which only the privileged caller may do. An
    /// account that is allowed already stays so; a new one needs room in the list.
    pub open spec fn allow_cluster_manager(self, origin: Origin, grantee: AccountId) -> (
        StakingView,
        Result<(), Error>,
    ) {
        if !(origin is Root) {
            (self, Err(Error::AuthorizationError))
        } else if self.cluster_managers.contains(grantee) {
            (self, Ok(()))
        } else if self.cluster_managers.len() >= MAX_CLUSTER_MANAGERS {
            (self, Err(Error::TooManyClusterManagers))
        } else {
            (StakingView { cluster_managers: self.cluster_managers.push(grantee), ..self }, Ok(()))
        }
    }

    /// Taking the right to manage clusters from `revokee`, which only the privileged
    /// caller may do. For an account that is not allowed nothing happens.
    pub open spec fn disallow_cluster_manager(self, origin: Origin, revokee: AccountId) -> (
        StakingView,
        Result<(), Error>,
    ) {
        if !(origin is Root) {
            (self, Err(Error::AuthorizationError))
        } else if self.cluster_managers.contains(revokee) {
            (
                StakingView {
                    cluster_managers: self.cluster_managers.remove(
                        self.cluster_managers.index_of(revokee),
                    ),
                    ..self
                },
                Ok(()),
            )
        } else {
            (self, Ok(()))
        }
    }

    /// The state with no stash in any cluster.
    pub open spec fn without_members(self) -> StakingView {
        StakingView { storages: Map::empty(), cdns: Map::empty(), ..self }
    }
}

/// Bonding keeps the state valid.
pub proof fn lemma_bond_valid(
    state: StakingView,
    stash: AccountId,
    controller: AccountId,
    node: NodePubKey,
    amount: Balance,
)
    requires
        state.valid(),
    ensures
        state.bond(stash, controller, node, amount).0.valid(),
{
    let after = state.bond(stash, controller, node, amount).0;
    if state.bond(stash, controller, node, amount).1 is Ok {
        assert forall|s: AccountId| #[trigger] after.bonded.dom().contains(s) implies after.has_node(
            s,
        ) by {
            if s == stash {
                assert(after.nodes.dom().contains(node) && after.nodes[node] == s);
            } else {
                assert(state.has_node(s));
                let k = state.node_of(s);
                assert(after.nodes.dom().contains(k) && after.nodes[k] == s);
            }
        }
        assert forall|k1: NodePubKey, k2: NodePubKey|
            after.nodes.dom().contains(k1) && after.nodes.dom().contains(k2) && after.nodes[k1]
                == after.nodes[k2] implies k1 == k2 by {
            if k1 != node {
                assert(state.nodes.dom().contains(k1));
            }
            if k2 != node {
                assert(state.nodes.dom().contains(k2));
            }
        }
    }
}

/// Unbonding keeps the state valid.
pub proof fn lemma_unbond_valid(
    state: StakingView,
    controller: AccountId,
    amount: Balance,
    current_era: EraIndex,
    delay: Result<BlockNumber, ClusterVisitorError>,
)
    requires
        state.valid(),
    ensures
        state.unbond(controller, amount, current_era, delay).0.valid(),
{
    let after = state.unbond(controller, amount, current_era, delay).0;
    if after != state {
        let d = delay->Ok_0;
        let era = (current_era + d) as EraIndex;
        crate::ledger::lemma_unbond_balanced(state.ledger[controller], amount, era);
        assert forall|s: AccountId| #[trigger] after.bonded.dom().contains(s) implies after.has_node(
            s,
        ) by {
            assert(state.has_node(s));
            let k = state.node_of(s);
            assert(after.nodes.dom().contains(k) && after.nodes[k] == s);
        }
    }
}

/// In a valid state the node of a bonded stash is the only node that stands for it.
pub proof fn lemma_node_of(state: StakingView, stash: AccountId)
    requires
        state.valid(),
        state.bonded.dom().contains(stash),
    ensures
        state.nodes.dom().contains(state.node_of(stash)),
        state.nodes[state.node_of(stash)] == stash,
        forall|k: NodePubKey| #[trigger]
            state.nodes.dom().contains(k) && state.nodes[k] == stash ==> k == state.node_of(stash),
        state.nodes_without(stash) == state.nodes.remove(state.node_of(stash)),
{
    assert(state.has_node(stash));
    let node = state.node_of(stash);
    assert forall|k: NodePubKey| #[trigger]
        state.nodes.dom().contains(k) && state.nodes[k] == stash implies k == node by {
        assert(state.nodes.dom().contains(node));
    }
    assert(state.nodes_without(stash) =~= state.nodes.remove(node));
}

/// Withdrawing keeps the state valid.
pub proof fn lemma_withdraw_unbonded_valid(
    state: StakingView,
    controller: AccountId,
    current_era: EraIndex,
)
    requires
        state.valid(),
    ensures
        state.withdraw_unbonded(controller, current_era).0.valid(),
{
    let after = state.withdraw_unbonded(controller, current_era).0;
    if state.ledger.dom().contains(controller) {
        let ledger = state.ledger[controller].withdraw(current_era);
        let stash = ledger.stash;
        crate::ledger::lemma_withdraw_balanced(state.ledger[controller], current_era);
        assert(state.bonded.dom().contains(stash));
        lemma_node_of(state, stash);
        if ledger.total == 0 {
            assert forall|s: AccountId| #[trigger] after.bonded.dom().contains(s) implies {
                &&& after.ledger.dom().contains(after.bonded[s])
                &&& after.ledger[after.bonded[s]].stash == s
                &&& after.has_node(s)
            } by {
                assert(state.bonded.dom().contains(s));
                assert(state.has_node(s));
                let k = state.node_of(s);
                assert(after.nodes.dom().contains(k) && after.nodes[k] == s);
            }
            assert forall|c: AccountId| #[trigger] after.ledger.dom().contains(c) implies {
                &&& after.bonded.dom().contains(after.ledger[c].stash)
                &&& after.bonded[after.ledger[c].stash] == c
            } by {
                assert(state.ledger.dom().contains(c));
            }
            assert forall|k1: NodePubKey, k2: NodePubKey|
                after.nodes.dom().contains(k1) && after.nodes.dom().contains(k2) && after.nodes[k1]
                    == after.nodes[k2] implies k1 == k2 by {
                assert(state.nodes.dom().contains(k1) && state.nodes.dom().contains(k2));
            }
            assert forall|k: NodePubKey| #[trigger]
                after.nodes.dom().contains(k) implies after.bonded.dom().contains(after.nodes[k]) by {
                assert(state.nodes.dom().contains(k));
            }
        } else {
            assert forall|s: AccountId| #[trigger] after.bonded.dom().contains(s) implies after.has_node(
                s,
            ) by {
                assert(state.has_node(s));
                let k = state.node_of(s);
                assert(after.nodes.dom().contains(k) && after.nodes[k] == s);
            }
        }
    }
}

/// A change of controller keeps the state valid.
pub proof fn lemma_set_controller_valid(
    state: StakingView,
    stash: AccountId,
    new_controller: AccountId,
)
    requires
        state.valid(),
    ensures
        state.set_controller(stash, new_controller).0.valid(),
{
    let after = state.set_controller(stash, new_controller).0;
    if state.set_controller(stash, new_controller).1 is Ok {
        let old_controller = state.bonded[stash];
        assert(state.ledger.dom().contains(old_controller));
        assert forall|s: AccountId| #[trigger] after.bonded.dom().contains(s) implies {
            &&& after.ledger.dom().contains(after.bonded[s])
            &&& after.ledger[after.bonded[s]].stash == s
            &&& after.has_node(s)
        } by {
            assert(state.bonded.dom().contains(s));
            assert(state.has_node(s));
            let k = state.node_of(s);
            assert(after.nodes.dom().contains(k) && after.nodes[k] == s);
            if s != stash {
                assert(state.ledger.dom().contains(state.bonded[s]));
                if state.ledger.dom().contains(new_controller) {
                }
            }
        }
        assert forall|c: AccountId| #[trigger] after.ledger.dom().contains(c) implies {
            &&& after.ledger[c].balanced()
            &&& after.bonded.dom().contains(after.ledger[c].stash)
            &&& after.bonded[after.ledger[c].stash] == c
        } by {
            if c != new_controller {
                assert(state.ledger.dom().contains(c));
            }
        }
    }
}

/// A change of node keeps the state valid.
pub proof fn lemma_set_node_valid(state: StakingView, stash: AccountId, new_node: NodePubKey)
    requires
        state.valid(),
    ensures
        state.set_node(stash, new_node).0.valid(),
{
    let after = state.set_node(stash, new_node).0;
    if state.set_node(stash, new_node).1 is Ok {
        assert forall|s: AccountId| #[trigger] after.bonded.dom().contains(s) implies after.has_node(
            s,
        ) by {
            if s == stash {
                assert(after.nodes.dom().contains(new_node) && after.nodes[new_node] == s);
            } else {
                assert(state.has_node(s));
                let k = state.node_of(s);
                assert(after.nodes.dom().contains(k) && after.nodes[k] == s);
            }
        }
        assert forall|k1: NodePubKey, k2: NodePubKey|
            after.nodes.dom().contains(k1) && after.nodes.dom().contains(k2) && after.nodes[k1]
                == after.nodes[k2] implies k1 == k2 by {
            if k1 != new_node {
                assert(state.nodes.dom().contains(k1));
            }
            if k2 != new_node {
                assert(state.nodes.dom().contains(k2));
            }
        }
        assert forall|k: NodePubKey| #[trigger]
            after.nodes.dom().contains(k) implies after.bonded.dom().contains(after.nodes[k]) by {
            if k != new_node {
                assert(state.nodes.dom().contains(k));
            }
        }
    }
}

/// Who is in which cluster has no part in the validity of the state.
pub proof fn lemma_members_valid(
    state: StakingView,
    storages: Map<AccountId, Membership>,
    cdns: Map<AccountId, Membership>,
)
    requires
        state.valid(),
    ensures
        (StakingView { storages, cdns, ..state }).valid(),
{
    let after = StakingView { storages, cdns, ..state };
    assert forall|s: AccountId| #[trigger] after.bonded.dom().contains(s) implies after.has_node(
        s,
    ) by {
        assert(state.has_node(s));
        let k = state.node_of(s);
        assert(after.nodes.dom().contains(k) && after.nodes[k] == s);
    }
}

/// Allowing and disallowing cluster managers keeps the state valid.
pub proof fn lemma_cluster_managers_valid(state: StakingView, origin: Origin, account: AccountId)
    requires
        state.valid(),
    ensures
        state.allow_cluster_manager(origin, account).0.valid(),
        state.disallow_cluster_manager(origin, account).0.valid(),
{
    let allowed = state.allow_cluster_manager(origin, account).0;
    let managers = state.cluster_managers;
    assert(allowed.valid()) by {
        if allowed != state {
            let pushed = managers.push(account);
            assert forall|i: int, j: int|
                0 <= i < pushed.len() && 0 <= j < pushed.len() && i != j implies pushed[i]
                != pushed[j] by {
                if i < managers.len() {
                    assert(managers[i] == pushed[i]);
                }
                if j < managers.len() {
                    assert(managers[j] == pushed[j]);
                }
            }
            assert forall|s: AccountId| #[trigger] allowed.bonded.dom().contains(s) implies allowed.has_node(
            s) by {
                assert(state.has_node(s));
                let k = state.node_of(s);
                assert(allowed.nodes.dom().contains(k) && allowed.nodes[k] == s);
            }
        }
    }
    let disallowed = state.disallow_cluster_manager(origin, account).0;
    assert(disallowed.valid()) by {
        if disallowed != state {
            let at = managers.index_of(account);
            assert(0 <= at < managers.len());
            let removed = managers.remove(at);
            assert forall|i: int, j: int|
                0 <= i < removed.len() && 0 <= j < removed.len() && i != j implies removed[i]
                != removed[j] by {
                let i2 = if i < at {
                    i
                } else {
                    i + 1
                };
                let j2 = if j < at {
                    j
                } else {
                    j + 1
                };
                assert(removed[i] == managers[i2]);
                assert(removed[j] == managers[j2]);
            }
            assert forall|s: AccountId| #[trigger]
                disallowed.bonded.dom().contains(s) implies disallowed.has_node(s) by {
                assert(state.has_node(s));
                let k = state.node_of(s);
                assert(disallowed.nodes.dom().contains(k) && disallowed.nodes[k] == s);
            }
        }
    }
}

/// Admission to a cluster keeps the state valid.
pub proof fn lemma_join_cluster_valid(
    state: StakingView,
    registry: Map<NodePubKey, NodeView>,
    controller: AccountId,
    cluster_id: ClusterId,
    node_type: NodeType,
    bond_size: Result<Balance, ClusterVisitorError>,
)
    requires
        state.valid(),
    ensures
        state.join_cluster(registry, controller, cluster_id, node_type, bond_size).0.valid(),
{
    let after = state.join_cluster(registry, controller, cluster_id, node_type, bond_size).0;
    lemma_members_valid(state, after.storages, after.cdns);
    assert(after == StakingView { storages: after.storages, cdns: after.cdns, ..state });
}

/// The announcement of an exit and the exit keep the state valid.
pub proof fn lemma_chill_valid(
    state: StakingView,
    registry: Map<NodePubKey, NodeView>,
    controller: AccountId,
    current_era: EraIndex,
    delay: Result<BlockNumber, ClusterVisitorError>,
)
    requires
        state.valid(),
    ensures
        state.chill(registry, controller, current_era, delay).0.valid(),
{
    let after = state.chill(registry, controller, current_era, delay).0;
    lemma_members_valid(state, after.storages, after.cdns);
    assert(after == StakingView { storages: after.storages, cdns: after.cdns, ..state });
}

/// An admission puts the stash into the active set of its cluster and takes it out of the
/// active set of every other cluster, for the kind of service that it was admitted with.
/// A refusal leaves the state, and so every active set, as it was.
pub proof fn lemma_join_cluster_active_set(
    state: StakingView,
    registry: Map<NodePubKey, NodeView>,
    controller: AccountId,
    cluster_id: ClusterId,
    node_type: NodeType,
    bond_size: Result<Balance, ClusterVisitorError>,
    other: ClusterId,
)
    ensures
        ({
            let (after, _, outcome) = state.join_cluster(
                registry,
                controller,
                cluster_id,
                node_type,
                bond_size,
            );
            let stash = state.stash_of(controller);
            &&& outcome is Err ==> after == state
            &&& outcome is Ok ==> after.active_set(cluster_id, node_type) == state.active_set(
                cluster_id,
                node_type,
            ).insert(stash)
            &&& outcome is Ok && other != cluster_id ==> after.active_set(other, node_type)
                == state.active_set(other, node_type).remove(stash)
        }),
{
    let (after, _, outcome) = state.join_cluster(
        registry,
        controller,
        cluster_id,
        node_type,
        bond_size,
    );
    let stash = state.stash_of(controller);
    if outcome is Ok {
        assert(after.active_set(cluster_id, node_type) =~= state.active_set(
            cluster_id,
            node_type,
        ).insert(stash));
        if other != cluster_id {
            assert(after.active_set(other, node_type) =~= state.active_set(
                other,
                node_type,
            ).remove(stash));
        }
    }
}

/// The announcement of an exit leaves every active set as it was; the exit takes the stash
/// out of the active set of its cluster.
pub proof fn lemma_chill_active_set(
    state: StakingView,
    registry: Map<NodePubKey, NodeView>,
    controller: AccountId,
    current_era: EraIndex,
    delay: Result<BlockNumber, ClusterVisitorError>,
    cluster_id: ClusterId,
    node_type: NodeType,
)
    requires
        state.ledger.dom().contains(controller),
        state.role(state.stash_of(controller)) == Some((cluster_id, node_type)),
    ensures
        ({
            let (after, _, outcome) = state.chill(registry, controller, current_era, delay);
            let stash = state.stash_of(controller);
            let member = state.members(node_type)[stash];
            let set = state.active_set(cluster_id, node_type);
            &&& set.contains(stash)
            &&& member.chill_requested_at is None ==> outcome is Ok && after.active_set(
                cluster_id,
                node_type,
            ) == set
            &&& member.chill_requested_at matches Some(requested_at) ==> (match delay {
                Err(e) => outcome == Err::<(), Error>(Error::ClusterVisitor(e)) && after == state,
                Ok(d) => outcome is Ok && after.active_set(cluster_id, node_type) == (if current_era
                    >= requested_at + d {
                    set.remove(stash)
                } else {
                    set
                }),
            })
        }),
{
    let (after, _, outcome) = state.chill(registry, controller, current_era, delay);
    let stash = state.stash_of(controller);
    let set = state.active_set(cluster_id, node_type);
    assert(after.active_set(cluster_id, node_type) =~= set || after.active_set(
        cluster_id,
        node_type,
    ) =~= set.remove(stash));
}

/// A refused operation changes nothing: neither the staking state nor the registry.
pub proof fn lemma_refusal_changes_nothing(
    state: StakingView,
    registry: Map<NodePubKey, NodeView>,
    stash: AccountId,
    controller: AccountId,
    node: NodePubKey,
    amount: Balance,
    current_era: EraIndex,
    cluster_id: ClusterId,
    node_type: NodeType,
    answer: Result<BlockNumber, ClusterVisitorError>,
    bond_size: Result<Balance, ClusterVisitorError>,
    origin: Origin,
)
    ensures
        state.bond(stash, controller, node, amount).1 is Err ==> state.bond(
            stash,
            controller,
            node,
            amount,
        ).0 == state,
        state.unbond(controller, amount, current_era, answer).1 is Err ==> state.unbond(
            controller,
            amount,
            current_era,
            answer,
        ).0 == state,
        state.withdraw_unbonded(controller, current_era).1 is Err ==> state.withdraw_unbonded(
            controller,
            current_era,
        ).0 == state,
        state.set_controller(stash, controller).1 is Err ==> state.set_controller(
            stash,
            controller,
        ).0 == state,
        state.set_node(stash, node).1 is Err ==> state.set_node(stash, node).0 == state,
        ({
            let (after, nodes, outcome) = state.join_cluster(
                registry,
                controller,
                cluster_id,
                node_type,
                bond_size,
            );
            outcome is Err ==> after == state && nodes == registry
        }),
        ({
            let (after, nodes, outcome) = state.chill(registry, controller, current_era, answer);
            outcome is Err ==> after == state && nodes == registry
        }),
        state.allow_cluster_manager(origin, stash).1 is Err ==> state.allow_cluster_manager(
            origin,
            stash,
        ).0 == state,
        state.disallow_cluster_manager(origin, stash).1 is Err ==> state.disallow_cluster_manager(
            origin,
            stash,
        ).0 == state,
{
}

/// The views of the ledgers of a map.
pub open spec fn ledger_views(ledgers: Map<AccountId, StakingLedger>) -> Map<
    AccountId,
    LedgerView,
> {
    Map::new(|c: AccountId| ledgers.dom().contains(c), |c: AccountId| ledgers[c]@)
}

/// The staking state.
pub struct DdcStaking {
    bonded: VecMap<AccountId, AccountId>,
    ledger: VecMap<AccountId, StakingLedger>,
    nodes: VecMap<NodePubKey, AccountId>,
    storages: VecMap<AccountId, Membership>,
    cdns: VecMap<AccountId, Membership>,
    cluster_managers: Vec<AccountId>,
}

impl DdcStaking {
    /// The state as plain values.
    pub closed spec fn view(&self) -> StakingView {
        StakingView {
            bonded: self.bonded@,
            ledger: ledger_views(self.ledger@),
            nodes: self.nodes@,
            storages: self.storages@,
            cdns: self.cdns@,
            cluster_managers: self.cluster_managers@,
        }
    }

    /// The state is in order: its parts are, and its view is valid.
    pub closed spec fn wf(&self) -> bool {
        &&& self.bonded.wf()
        &&& self.ledger.wf()
        &&& self.nodes.wf()
        &&& self.storages.wf()
        &&& self.cdns.wf()
        &&& self@.valid()
    }

    /// A state that is in order has a valid view: among others, in each of its ledgers the
    /// total is the active stake plus the sum of what is unlocking.
    pub proof fn lemma_valid(&self)
        requires
            self.wf(),
        ensures
            self@.valid(),
            forall|c: AccountId| #[trigger]
                self@.ledger.dom().contains(c) ==> self@.ledger[c].total == self@.ledger[c].active
                    + crate::ledger::chunks_total(self@.ledger[c].unlocking),
    {
    }

    /// The state before anything was bonded or allowed.
    pub fn new() -> (state: Self)
        ensures
            state.wf(),
            state@ == StakingView::empty(),
    {
        let state = DdcStaking {
            bonded: VecMap::new(),
            ledger: VecMap::new(),
            nodes: VecMap::new(),
            storages: VecMap::new(),
            cdns: VecMap::new(),
            cluster_managers: Vec::new(),
        };
        assert(state@.ledger =~= Map::<AccountId, LedgerView>::empty());
        assert(state@.cluster_managers =~= Seq::<AccountId>::empty());
        state
    }

    /// Bonds `amount` of `stash` under `controller` behind `node`.
    pub fn bond(
        &mut self,
        stash: AccountId,
        controller: AccountId,
        node: NodePubKey,
        amount: Balance,
    ) -> (r: Result<(), Error>)
        requires
            old(self).wf(),
        ensures
            final(self).wf(),
            (final(self)@, r) == old(self)@.bond(stash, controller, node, amount),
    {
        if self.bonded.contains_key(&stash) {
            return Err(Error::AlreadyBonded);
        }
        if self.ledger.contains_key(&controller) {
            return Err(Error::ControllerInUse);
        }
        if self.nodes.contains_key(&node) {
            return Err(Error::NodeAlreadyBonded);
        }
        proof {
            lemma_bond_valid(self@, stash, controller, node, amount);
        }
        self.bonded.insert(stash, controller);
        self.ledger.insert(controller, StakingLedger::new(stash, amount));
        self.nodes.insert(node, stash);
        assert(self@.ledger =~= old(self)@.ledger.insert(
            controller,
            LedgerView::bonded(stash, amount),
        ));
        Ok(())
    }

    /// The cluster in which `stash` is active and the kind of its service there.
    pub fn role(&self, stash: &AccountId) -> (r: Option<(ClusterId, NodeType)>)
        requires
            self.wf(),
        ensures
            r == self@.role(*stash),
    {
        match self.cdns.get(stash) {
            Some(member) => Some((member.cluster_id, NodeType::CDN)),
            None => match self.storages.get(stash) {
                Some(member) => Some((member.cluster_id, NodeType::Storage)),
                None => None,
            },
        }
    }

    /// Unbonds up to `amount` for `controller`, where the cluster of its stash answered
    /// `delay` to the question after its unbonding delay.
    pub fn unbond_with_delay(
        &mut self,
        controller: AccountId,
        amount: Balance,
        current_era: EraIndex,
        delay: Result<BlockNumber, ClusterVisitorError>,
    ) -> (r: Result<(), Error>)
        requires
            old(self).wf(),
            delay matches Ok(d) ==> current_era + d <= EraIndex::MAX,
        ensures
            final(self).wf(),
            (final(self)@, r) == old(self)@.unbond(controller, amount, current_era, delay),
    {
        let active = match self.ledger.get(&controller) {
            Some(ledger) => ledger.active,
            None => {
                return Err(Error::NotController);
            },
        };
        if amount == 0 || active == 0 {
            return Ok(());
        }
        let d = match delay {
            Ok(d) => d,
            Err(e) => {
                return Err(Error::ClusterVisitor(e));
            },
        };
        proof {
            lemma_unbond_valid(self@, controller, amount, current_era, delay);
        }
        match self.ledger.remove(&controller) {
            Some(ledger) => {
                let mut ledger = ledger;
                ledger.unbond(amount, current_era + d);
                self.ledger.insert(controller, ledger);
            },
            None => {},
        }
        assert(self@.ledger =~= old(self)@.ledger.insert(
            controller,
            old(self)@.ledger[controller].unbond(amount, (current_era + d) as EraIndex),
        ));
        Ok(())
    }

    /// Unbonds up to `amount` for `controller`. The cluster is asked for its delay only
    /// where there is something to unbond and the stash is in a cluster.
    pub fn unbond<V: ClusterVisitor>(
        &mut self,
        visitor: &V,
        controller: AccountId,
        amount: Balance,
        current_era: EraIndex,
    ) -> (r: Result<(), Error>)
        requires
            old(self).wf(),
            visitor.visitor_wf(),
            old(self)@.ledger.dom().contains(controller) ==> (old(self)@.unbonding_delay(
                visitor,
                controller,
            ) matches Ok(d) ==> current_era + d <= EraIndex::MAX),
        ensures
            final(self).wf(),
            (final(self)@, r) == old(self)@.unbond(
                controller,
                amount,
                current_era,
                old(self)@.unbonding_delay(visitor, controller),
            ),
    {
        let (stash, active) = match self.ledger.get(&controller) {
            Some(ledger) => (ledger.stash, ledger.active),
            None => {
                return Err(Error::NotController);
            },
        };
        if amount == 0 || active == 0 {
            return Ok(());
        }
        let delay = match self.role(&stash) {
            Some((cluster_id, node_type)) => visitor.get_unbonding_delay(&cluster_id, node_type),
            None => Ok(0),
        };
        self.unbond_with_delay(controller, amount, current_era, delay)
    }

    /// Withdraws for `controller` all that is due in `current_era`.
    pub fn withdraw_unbonded(&mut self, controller: AccountId, current_era: EraIndex) -> (r: Result<
        (),
        Error,
    >)
        requires
            old(self).wf(),
        ensures
            final(self).wf(),
            (final(self)@, r) == old(self)@.withdraw_unbonded(controller, current_era),
    {
        if !self.ledger.contains_key(&controller) {
            return Err(Error::NotController);
        }
        proof {
            lemma_withdraw_unbonded_valid(self@, controller, current_era);
            lemma_node_of(self@, self@.stash_of(controller));
        }
        match self.ledger.remove(&controller) {
            Some(ledger) => {
                let mut ledger = ledger;
                ledger.withdraw(current_era);
                if ledger.total == 0 {
                    self.bonded.remove(&ledger.stash);
                    match self.nodes.find_key(&ledger.stash) {
                        Some(node) => {
                            self.nodes.remove(&node);
                        },
                        None => {},
                    }
                    assert(self@.ledger =~= old(self)@.ledger.remove(controller));
                } else {
                    self.ledger.insert(controller, ledger);
                    assert(self@.ledger =~= old(self)@.ledger.insert(
                        controller,
                        old(self)@.ledger[controller].withdraw(current_era),
                    ));
                }
            },
            None => {},
        }
        Ok(())
    }

    /// Hands the ledger of `stash` to `new_controller`.
    pub fn set_controller(&mut self, stash: AccountId, new_controller: AccountId) -> (r: Result<
        (),
        Error,
    >)
        requires
            old(self).wf(),
        ensures
            final(self).wf(),
            (final(self)@, r) == old(self)@.set_controller(stash, new_controller),
    {
        let old_controller = match self.bonded.get(&stash) {
            Some(controller) => *controller,
            None => {
                return Err(Error::NotStash);
            },
        };
        match self.ledger.get(&new_controller) {
            Some(ledger) => {
                if !ledger.stash.same(&stash) {
                    return Err(Error::ControllerInUse);
                }
            },
            None => {},
        }
        proof {
            lemma_set_controller_valid(self@, stash, new_controller);
        }
        match self.ledger.remove(&old_controller) {
            Some(ledger) => {
                self.ledger.insert(new_controller, ledger);
            },
            None => {},
        }
        self.bonded.insert(stash, new_controller);
        assert(self@.ledger =~= old(self)@.ledger.remove(old_controller).insert(
            new_controller,
            old(self)@.ledger[old_controller],
        ));
        Ok(())
    }

    /// Puts `stash` behind `new_node`.
    pub fn set_node(&mut self, stash: AccountId, new_node: NodePubKey) -> (r: Result<(), Error>)
        requires
            old(self).wf(),
        ensures
            final(self).wf(),
            (final(self)@, r) == old(self)@.set_node(stash, new_node),
    {
        if !self.bonded.contains_key(&stash) {
            return Err(Error::NotStash);
        }
        match self.nodes.get(&new_node) {
            Some(owner) => {
                if !owner.same(&stash) {
                    return Err(Error::NodeAlreadyBonded);
                }
            },
            None => {},
        }
        proof {
            lemma_set_node_valid(self@, stash, new_node);
            lemma_node_of(self@, stash);
        }
        match self.nodes.find_key(&stash) {
            Some(node) => {
                self.nodes.remove(&node);
            },
            None => {},
        }
        self.nodes.insert(new_node, stash);
        assert(self@.ledger =~= old(self)@.ledger);
        Ok(())
    }

    /// Admits the stash of `controller` to `cluster_id` with service of one kind, where
    /// the cluster answered `bond_size` to the question after its bond size for that kind.
    pub fn join_cluster<N: NodeRepository>(
        &mut self,
        nodes: &mut N,
        controller: AccountId,
        cluster_id: ClusterId,
        node_type: NodeType,
        bond_size: Result<Balance, ClusterVisitorError>,
    ) -> (r: Result<(), Error>)
        requires
            old(self).wf(),
            old(nodes).repository_wf(),
        ensures
            final(self).wf(),
            final(nodes).repository_wf(),
            (final(self)@, final(nodes).repository(), r) == old(self)@.join_cluster(
                old(nodes).repository(),
                controller,
                cluster_id,
                node_type,
                bond_size,
            ),
    {
        let (stash, active) = match self.ledger.get(&controller) {
            Some(ledger) => (ledger.stash, ledger.active),
            None => {
                return Err(Error::NotController);
            },
        };
        let size = match bond_size {
            Ok(size) => size,
            Err(e) => {
                return Err(Error::ClusterVisitor(e));
            },
        };
        if active < size {
            return Err(Error::InsufficientBond);
        }
        proof {
            assert(self@.ledger.dom().contains(controller));
            lemma_node_of(self@, stash);
            nodes.lemma_repository_keys();
            lemma_join_cluster_valid(
                self@,
                nodes.repository(),
                controller,
                cluster_id,
                node_type,
                bond_size,
            );
        }
        let node_key = match self.nodes.find_key(&stash) {
            Some(node_key) => node_key,
            None => {
                return Err(Error::NodeNotFound);
            },
        };
        let mut node = match nodes.get(node_key) {
            Ok(node) => node,
            Err(_) => {
                return Err(Error::NodeNotFound);
            },
        };
        node.set_cluster_id(Some(cluster_id));
        let _ = nodes.update(node);
        let member = Membership { cluster_id, chill_requested_at: None };
        match node_type {
            NodeType::Storage => {
                self.storages.insert(stash, member);
            },
            NodeType::CDN => {
                self.cdns.insert(stash, member);
            },
        }
        assert(self@.ledger =~= old(self)@.ledger);
        Ok(())
    }

    /// Admits the stash of `controller` to `cluster_id` as a provider of storage.
    pub fn store<N: NodeRepository, V: ClusterVisitor>(
        &mut self,
        nodes: &mut N,
        visitor: &V,
        controller: AccountId,
        cluster_id: ClusterId,
    ) -> (r: Result<(), Error>)
        requires
            old(self).wf(),
            visitor.visitor_wf(),
            old(nodes).repository_wf(),
        ensures
            final(self).wf(),
            final(nodes).repository_wf(),
            (final(self)@, final(nodes).repository(), r) == old(self)@.join_cluster(
                old(nodes).repository(),
                controller,
                cluster_id,
                NodeType::Storage,
                visitor.bond_size(cluster_id, NodeType::Storage),
            ),
    {
        let bond_size = visitor.get_bond_size(&cluster_id, NodeType::Storage);
        self.join_cluster(nodes, controller, cluster_id, NodeType::Storage, bond_size)
    }

    /// Admits the stash of `controller` to `cluster_id` as a provider of CDN service.
    pub fn serve<N: NodeRepository, V: ClusterVisitor>(
        &mut self,
        nodes: &mut N,
        visitor: &V,
        controller: AccountId,
        cluster_id: ClusterId,
    ) -> (r: Result<(), Error>)
        requires
            old(self).wf(),
            visitor.visitor_wf(),
            old(nodes).repository_wf(),
        ensures
            final(self).wf(),
            final(nodes).repository_wf(),
            (final(self)@, final(nodes).repository(), r) == old(self)@.join_cluster(
                old(nodes).repository(),
                controller,
                cluster_id,
                NodeType::CDN,
                visitor.bond_size(cluster_id, NodeType::CDN),
            ),
    {
        let bond_size = visitor.get_bond_size(&cluster_id, NodeType::CDN);
        self.join_cluster(nodes, controller, cluster_id, NodeType::CDN, bond_size)
    }

    /// Announces or completes the exit of the stash of `controller` from its cluster,
    /// where the cluster answered `delay` to the question after its chill delay.
    pub fn chill_with_delay<N: NodeRepository>(
        &mut self,
        nodes: &mut N,
        controller: AccountId,
        current_era: EraIndex,
        delay: Result<BlockNumber, ClusterVisitorError>,
    ) -> (r: Result<(), Error>)
        requires
            old(self).wf(),
            old(nodes).repository_wf(),
        ensures
            final(self).wf(),
            final(nodes).repository_wf(),
            (final(self)@, final(nodes).repository(), r) == old(self)@.chill(
                old(nodes).repository(),
                controller,
                current_era,
                delay,
            ),
    {
        let stash = match self.ledger.get(&controller) {
            Some(ledger) => ledger.stash,
            None => {
                return Err(Error::NotController);
            },
        };
        let (cluster_id, node_type) = match self.role(&stash) {
            Some(role) => role,
            None => {
                return Err(Error::NotActive);
            },
        };
        let member = match node_type {
            NodeType::Storage => self.storages.get(&stash),
            NodeType::CDN => self.cdns.get(&stash),
        };
        let requested_at = match member {
            Some(member) => member.chill_requested_at,
            None => None,
        };
        proof {
            lemma_chill_valid(self@, nodes.repository(), controller, current_era, delay);
        }
        match requested_at {
            None => {
                let member = Membership { cluster_id, chill_requested_at: Some(current_era) };
                match node_type {
                    NodeType::Storage => {
                        self.storages.insert(stash, member);
                    },
                    NodeType::CDN => {
                        self.cdns.insert(stash, member);
                    },
                }
                assert(self@.ledger =~= old(self)@.ledger);
                Ok(())
            },
            Some(requested_at) => {
                let d = match delay {
                    Ok(d) => d,
                    Err(e) => {
                        return Err(Error::ClusterVisitor(e));
                    },
                };
                if current_era as u64 >= requested_at as u64 + d as u64 {
                    proof {
                        assert(self@.ledger.dom().contains(controller));
                        lemma_node_of(self@, stash);
                        nodes.lemma_repository_keys();
                    }
                    match self.nodes.find_key(&stash) {
                        Some(node_key) => match nodes.get(node_key) {
                            Ok(node) => {
                                let mut node = node;
                                node.set_cluster_id(None);
                                let _ = nodes.update(node);
                            },
                            Err(_) => {},
                        },
                        None => {},
                    }
                    match node_type {
                        NodeType::Storage => {
                            self.storages.remove(&stash);
                        },
                        NodeType::CDN => {
                            self.cdns.remove(&stash);
                        },
                    }
                    assert(self@.ledger =~= old(self)@.ledger);
                }
                Ok(())
            },
        }
    }

    /// Announces or completes the exit of the stash of `controller` from its cluster.
    pub fn chill<N: NodeRepository, V: ClusterVisitor>(
        &mut self,
        nodes: &mut N,
        visitor: &V,
        controller: AccountId,
        current_era: EraIndex,
    ) -> (r: Result<(), Error>)
        requires
            old(self).wf(),
            visitor.visitor_wf(),
            old(nodes).repository_wf(),
        ensures
            final(self).wf(),
            final(nodes).repository_wf(),
            (final(self)@, final(nodes).repository(), r) == old(self)@.chill(
                old(nodes).repository(),
                controller,
                current_era,
                old(self)@.chill_delay(visitor, controller),
            ),
    {
        let stash = match self.ledger.get(&controller) {
            Some(ledger) => ledger.stash,
            None => {
                return Err(Error::NotController);
            },
        };
        let delay = match self.role(&stash) {
            Some((cluster_id, node_type)) => visitor.get_chill_delay(&cluster_id, node_type),
            None => Ok(0),
        };
        self.chill_with_delay(nodes, controller, current_era, delay)
    }

    fn manager_index(&self, account: &AccountId) -> (r: Option<usize>)
        ensures
            match r {
                Some(i) => i < self.cluster_managers@.len() && self.cluster_managers@[i as int]
                    == *account,
                None => !self.cluster_managers@.contains(*account),
            },
    {
        let mut i: usize = 0;
        while i < self.cluster_managers.len()
            invariant
                i <= self.cluster_managers@.len(),
                forall|j: int| 0 <= j < i ==> self.cluster_managers@[j] != *account,
            decreases self.cluster_managers@.len() - i,
        {
            if self.cluster_managers[i].same(account) {
                return Some(i);
            }
            i = i + 1;
        }
        None
    }

    /// Allows `grantee` to manage clusters.
    pub fn allow_cluster_manager(&mut self, origin: Origin, grantee: AccountId) -> (r: Result<
        (),
        Error,
    >)
        requires
            old(self).wf(),
        ensures
            final(self).wf(),
            (final(self)@, r) == old(self)@.allow_cluster_manager(origin, grantee),
    {
        match origin {
            Origin::Root => {},
            _ => {
                return Err(Error::AuthorizationError);
            },
        }
        if self.manager_index(&grantee).is_some() {
            return Ok(());
        }
        if self.cluster_managers.len() >= MAX_CLUSTER_MANAGERS {
            return Err(Error::TooManyClusterManagers);
        }
        proof {
            lemma_cluster_managers_valid(self@, origin, grantee);
        }
        self.cluster_managers.push(grantee);
        assert(self@.ledger =~= old(self)@.ledger);
        Ok(())
    }

    /// Takes the right to manage clusters from `revokee`.
    pub fn disallow_cluster_manager(&mut self, origin: Origin, revokee: AccountId) -> (r: Result<
        (),
        Error,
    >)
        requires
            old(self).wf(),
        ensures
            final(self).wf(),
            (final(self)@, r) == old(self)@.disallow_cluster_manager(origin, revokee),
    {
        match origin {
            Origin::Root => {},
            _ => {
                return Err(Error::AuthorizationError);
            },
        }
        match self.manager_index(&revokee) {
            Some(i) => {
                proof {
                    lemma_cluster_managers_valid(self@, origin, revokee);
                    let at = self.cluster_managers@.index_of(revokee);
                    assert(0 <= at < self.cluster_managers@.len());
                    assert(self.cluster_managers@[at] == revokee);
                    assert(at == i);
                }
                self.cluster_managers.remove(i);
                assert(self@.ledger =~= old(self)@.ledger);
                Ok(())
            },
            None => Ok(()),
        }
    }

    /// Takes every stash out of every cluster.
    pub fn clear_storages_and_cdns(&mut self)
        requires
            old(self).wf(),
        ensures
            final(self).wf(),
            final(self)@ == old(self)@.without_members(),
    {
        proof {
            lemma_members_valid(self@, Map::empty(), Map::empty());
        }
        self.cdns.clear();
        self.storages.clear();
        assert(self@.ledger =~= old(self)@.ledger);
    }

    /// The controller of `stash`, if the stash is bonded.
    pub fn bonded(&self, stash: &AccountId) -> (r: Option<AccountId>)
        requires
            self.wf(),
        ensures
            r == (if self@.bonded.dom().contains(*stash) {
                Some(self@.bonded[*stash])
            } else {
                None
            }),
    {
        match self.bonded.get(stash) {
            Some(controller) => Some(*controller),
            None => None,
        }
    }

    /// The ledger of `controller`, if it has one.
    pub fn ledger(&self, controller: &AccountId) -> (r: Option<StakingLedger>)
        requires
            self.wf(),
        ensures
            match r {
                Some(ledger) => self@.ledger.dom().contains(*controller) && ledger@
                    == self@.ledger[*controller],
                None => !self@.ledger.dom().contains(*controller),
            },
    {
        match self.ledger.get(controller) {
            Some(ledger) => Some(ledger.clone()),
            None => None,
        }
    }

    /// The stash behind `node`, if the node is bonded.
    pub fn nodes(&self, node: &NodePubKey) -> (r: Option<AccountId>)
        requires
            self.wf(),
        ensures
            r == (if self@.nodes.dom().contains(*node) {
                Some(self@.nodes[*node])
            } else {
                None
            }),
    {
        match self.nodes.get(node) {
            Some(stash) => Some(*stash),
            None => None,
        }
    }

    /// The place of `stash` among the providers of storage, if it has one.
    pub fn storages(&self, stash: &AccountId) -> (r: Option<Membership>)
        requires
            self.wf(),
        ensures
            r == (if self@.storages.dom().contains(*stash) {
                Some(self@.storages[*stash])
            } else {
                None
            }),
    {
        match self.storages.get(stash) {
            Some(member) => Some(*member),
            None => None,
        }
    }

    /// The place of `stash` among the providers of CDN service, if it has one.
    pub fn cdns(&self, stash: &AccountId) -> (r: Option<Membership>)
        requires
            self.wf(),
        ensures
            r == (if self@.cdns.dom().contains(*stash) {
                Some(self@.cdns[*stash])
            } else {
                None
            }),
    {
        match self.cdns.get(stash) {
            Some(member) => Some(*member),
            None => None,
        }
    }

    /// The accounts that may manage clusters.
    pub fn cluster_managers(&self) -> (r: Vec<AccountId>)
        ensures
            r@ == self@.cluster_managers,
    {
        let mut managers: Vec<AccountId> = Vec::new();
        let mut i: usize = 0;
        while i < self.cluster_managers.len()
            invariant
                i <= self.cluster_managers@.len(),
                managers@ == self.cluster_managers@.take(i as int),
            decreases self.cluster_managers@.len() - i,
        {
            managers.push(self.cluster_managers[i]);
            assert(managers@ =~= self.cluster_managers@.take(i + 1));
            i = i + 1;
        }
        assert(managers@ =~= self.cluster_managers@);
        managers
    }
}

} // verus!
