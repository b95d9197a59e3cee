//! The node registry: every node under its public key, and the two operations that node
//! providers call on it.

use crate::bounded::MAX_NODE_PARAMS_LEN;
use crate::cdn_node::CDNNode;
use crate::node::{Node, NodeError, NodeParams, NodeTrait, NodeView};
use crate::primitives::{AccountId, CDNNodePubKey, Key, NodePubKey, NodeType, StorageNodePubKey};
use crate::storage_node::StorageNode;
use crate::vec_map::VecMap;
use vstd::prelude::*;

verus! {

/// Why an operation on the registry was refused.
#[derive(Clone, Copy, Debug, PartialEq, Eq, Structural)]
pub enum Error {
    NodeAlreadyExists,
    NodeDoesNotExist,
    InvalidNodeParams,
    NodeParamsExceedsLimit,
    OnlyNodeProvider,
    NodeIsAssignedToCluster,
}

/// Why the store of nodes refused a request.
#[derive(Clone, Copy, Debug, PartialEq, Eq, Structural)]
pub enum NodeRepositoryError {
    StorageNodeAlreadyExists,
    CDNNodeAlreadyExists,
    StorageNodeDoesNotExist,
    CDNNodeDoesNotExist,
}

/// The error that the registry reports for an error of its store.
pub open spec fn error_of_repository_error(error: NodeRepositoryError) -> Error {
    match error {
        NodeRepositoryError::StorageNodeAlreadyExists => Error::NodeAlreadyExists,
        NodeRepositoryError::CDNNodeAlreadyExists => Error::NodeAlreadyExists,
        NodeRepositoryError::StorageNodeDoesNotExist => Error::NodeDoesNotExist,
        NodeRepositoryError::CDNNodeDoesNotExist => Error::NodeDoesNotExist,
    }
}

/// The error that the registry reports when a node cannot be built: a key, parameters or
/// properties of the wrong kind are invalid parameters; too many bytes exceed the limit.
pub open spec fn error_of_node_error(error: NodeError) -> Error {
    match error {
        NodeError::StorageNodeParamsExceedsLimit => Error::NodeParamsExceedsLimit,
        NodeError::CDNNodeParamsExceedsLimit => Error::NodeParamsExceedsLimit,
        _ => Error::InvalidNodeParams,
    }
}

impl From<NodeRepositoryError> for Error {
    fn from(error: NodeRepositoryError) -> (r: Self) {
        match error {
            NodeRepositoryError::StorageNodeAlreadyExists => Error::NodeAlreadyExists,
            NodeRepositoryError::CDNNodeAlreadyExists => Error::NodeAlreadyExists,
            NodeRepositoryError::StorageNodeDoesNotExist => Error::NodeDoesNotExist,
            NodeRepositoryError::CDNNodeDoesNotExist => Error::NodeDoesNotExist,
        }
    }
}

impl vstd::std_specs::convert::FromSpecImpl<NodeRepositoryError> for Error {
    open spec fn obeys_from_spec() -> bool {
        true
    }

    open spec fn from_spec(error: NodeRepositoryError) -> Error {
        error_of_repository_error(error)
    }
}

impl From<NodeError> for Error {
    fn from(error: NodeError) -> (r: Self) {
        match error {
            NodeError::StorageNodeParamsExceedsLimit => Error::NodeParamsExceedsLimit,
            NodeError::CDNNodeParamsExceedsLimit => Error::NodeParamsExceedsLimit,
            _ => Error::InvalidNodeParams,
        }
    }
}

impl vstd::std_specs::convert::FromSpecImpl<NodeError> for Error {
    open spec fn obeys_from_spec() -> bool {
        true
    }

    open spec fn from_spec(error: NodeError) -> Error {
        error_of_node_error(error)
    }
}

/// Every node of the registry stands under its own public key.
pub open spec fn keyed_by_pub_key(nodes: Map<NodePubKey, NodeView>) -> bool {
    forall|key: NodePubKey| #[trigger] nodes.dom().contains(key) ==> nodes[key].pub_key == key
}

/// The store's answer when a node of that kind is already there.
pub open spec fn already_exists(node_type: NodeType) -> NodeRepositoryError {
    match node_type {
        NodeType::Storage => NodeRepositoryError::StorageNodeAlreadyExists,
        NodeType::CDN => NodeRepositoryError::CDNNodeAlreadyExists,
    }
}

/// The store's answer when no node of that kind is there.
pub open spec fn does_not_exist(node_type: NodeType) -> NodeRepositoryError {
    match node_type {
        NodeType::Storage => NodeRepositoryError::StorageNodeDoesNotExist,
        NodeType::CDN => NodeRepositoryError::CDNNodeDoesNotExist,
    }
}

/// Storing a new node: refused if its key is taken, else the node stands under its key.
pub open spec fn create_spec(nodes: Map<NodePubKey, NodeView>, node: NodeView) -> (
    Map<NodePubKey, NodeView>,
    Result<(), NodeRepositoryError>,
) {
    if nodes.dom().contains(node.pub_key) {
        (nodes, Err(already_exists(node.pub_key.node_type())))
    } else {
        (nodes.insert(node.pub_key, node), Ok(()))
    }
}

/// Looking a node up by its key.
pub open spec fn get_spec(nodes: Map<NodePubKey, NodeView>, node_pub_key: NodePubKey) -> Result<
    NodeView,
    NodeRepositoryError,
> {
    if nodes.dom().contains(node_pub_key) {
        Ok(nodes[node_pub_key])
    } else {
        Err(does_not_exist(node_pub_key.node_type()))
    }
}

/// Storing a changed node: refused if its key is unknown, else the node replaces the one
/// under its key.
pub open spec fn update_spec(nodes: Map<NodePubKey, NodeView>, node: NodeView) -> (
    Map<NodePubKey, NodeView>,
    Result<(), NodeRepositoryError>,
) {
    if nodes.dom().contains(node.pub_key) {
        (nodes.insert(node.pub_key, node), Ok(()))
    } else {
        (nodes, Err(does_not_exist(node.pub_key.node_type())))
    }
}

/// Creating a node on behalf of `provider_id`: the node is built from the key and the
/// parameters and stored, and its key is the answer. Nothing changes on an error.
pub open spec fn create_node_spec(
    nodes: Map<NodePubKey, NodeView>,
    provider_id: AccountId,
    node_pub_key: NodePubKey,
    node_params: NodeParams,
) -> (Map<NodePubKey, NodeView>, Result<NodePubKey, Error>) {
    match Node::new_spec(node_pub_key, provider_id, node_params) {
        Err(e) => (nodes, Err(error_of_node_error(e))),
        Ok(node) => match create_spec(nodes, node) {
            (_, Err(e)) => (nodes, Err(error_of_repository_error(e))),
            (after, Ok(_)) => (after, Ok(node_pub_key)),
        },
    }
}

/// Removing a node on behalf of `provider_id`: the node has to exist, to be outside every
/// cluster, and to be provided by the caller, and these are tested in this order.
pub open spec fn remove_node_spec(
    nodes: Map<NodePubKey, NodeView>,
    provider_id: AccountId,
    node_pub_key: NodePubKey,
) -> (Map<NodePubKey, NodeView>, Result<(), Error>) {
    if !nodes.dom().contains(node_pub_key) {
        (nodes, Err(Error::NodeDoesNotExist))
    } else if nodes[node_pub_key].cluster_id is Some {
        (nodes, Err(Error::NodeIsAssignedToCluster))
    } else if nodes[node_pub_key].provider_id != provider_id {
        (nodes, Err(Error::OnlyNodeProvider))
    } else {
        (nodes.remove(node_pub_key), Ok(()))
    }
}

/// A node that is assigned to a cluster cannot be removed, whoever asks: the answer is
/// `NodeIsAssignedToCluster` and the registry stays as it was. For its provider, a node can
/// be removed exactly when it is outside every cluster.
pub proof fn lemma_remove_node_needs_unassigned(
    nodes: Map<NodePubKey, NodeView>,
    provider_id: AccountId,
    node_pub_key: NodePubKey,
)
    requires
        nodes.dom().contains(node_pub_key),
    ensures
        nodes[node_pub_key].cluster_id is Some ==> remove_node_spec(
            nodes,
            provider_id,
            node_pub_key,
        ) == (nodes, Err::<(), Error>(Error::NodeIsAssignedToCluster)),
        nodes[node_pub_key].provider_id == provider_id ==> (remove_node_spec(
            nodes,
            provider_id,
            node_pub_key,
        ).1 is Ok <==> nodes[node_pub_key].cluster_id is None),
{
}

/// Creating a node and then removing it, as its provider, gives back the registry as it
/// was before.
pub proof fn lemma_create_then_remove(
    nodes: Map<NodePubKey, NodeView>,
    provider_id: AccountId,
    node_pub_key: NodePubKey,
    node_params: NodeParams,
)
    requires
        create_node_spec(nodes, provider_id, node_pub_key, node_params).1 is Ok,
    ensures
        remove_node_spec(
            create_node_spec(nodes, provider_id, node_pub_key, node_params).0,
            provider_id,
            node_pub_key,
        ) == (nodes, Ok::<(), Error>(())),
{
    let created = create_node_spec(nodes, provider_id, node_pub_key, node_params).0;
    assert(created.remove(node_pub_key) =~= nodes);
}

/// Parameters over the bound of their kind are refused with `NodeParamsExceedsLimit` and
/// leave the registry as it was; a new node with parameters of its kind and within the
/// bound is stored with exactly those bytes.
pub proof fn lemma_params_bound(
    nodes: Map<NodePubKey, NodeView>,
    provider_id: AccountId,
    node_pub_key: NodePubKey,
    node_params: NodeParams,
)
    requires
        node_params.node_type() == node_pub_key.node_type(),
    ensures
        node_params.bytes().len() > MAX_NODE_PARAMS_LEN ==> create_node_spec(
            nodes,
            provider_id,
            node_pub_key,
            node_params,
        ) == (nodes, Err::<NodePubKey, Error>(Error::NodeParamsExceedsLimit)),
        node_params.bytes().len() <= MAX_NODE_PARAMS_LEN && !nodes.dom().contains(node_pub_key)
            ==> {
            let (after, outcome) = create_node_spec(nodes, provider_id, node_pub_key, node_params);
            &&& outcome == Ok::<NodePubKey, Error>(node_pub_key)
            &&& after.dom().contains(node_pub_key)
            &&& after[node_pub_key].props == node_params.bytes()
        },
{
}

/// A refused call changes nothing in the registry.
pub proof fn lemma_refusal_changes_nothing(
    nodes: Map<NodePubKey, NodeView>,
    provider_id: AccountId,
    node_pub_key: NodePubKey,
    node_params: NodeParams,
)
    ensures
        create_node_spec(nodes, provider_id, node_pub_key, node_params).1 is Err
            ==> create_node_spec(nodes, provider_id, node_pub_key, node_params).0 == nodes,
        remove_node_spec(nodes, provider_id, node_pub_key).1 is Err ==> remove_node_spec(
            nodes,
            provider_id,
            node_pub_key,
        ).0 == nodes,
{
}

/// A store of nodes, keyed by their public keys.
pub trait NodeRepository {
    /// The nodes in the store.
    spec fn repository(&self) -> Map<NodePubKey, NodeView>;

    /// The store is in order.
    spec fn repository_wf(&self) -> bool;

    proof fn lemma_repository_keys(&self)
        requires
            self.repository_wf(),
        ensures
            keyed_by_pub_key(self.repository()),
    ;

    fn create(&mut self, node: Node) -> (r: Result<(), NodeRepositoryError>)
        requires
            old(self).repository_wf(),
        ensures
            final(self).repository_wf(),
            (final(self).repository(), r) == create_spec(old(self).repository(), node@),
    ;

    fn get(&self, node_pub_key: NodePubKey) -> (r: Result<Node, NodeRepositoryError>)
        requires
            self.repository_wf(),
        ensures
            match (r, get_spec(self.repository(), node_pub_key)) {
                (Ok(node), Ok(view)) => node@ == view,
                (Err(e), Err(f)) => e == f,
                _ => false,
            },
    ;

    fn update(&mut self, node: Node) -> (r: Result<(), NodeRepositoryError>)
        requires
            old(self).repository_wf(),
        ensures
            final(self).repository_wf(),
            (final(self).repository(), r) == update_spec(old(self).repository(), node@),
    ;

    fn remove(&mut self, node_pub_key: NodePubKey) -> (r: Result<(), NodeRepositoryError>)
        requires
            old(self).repository_wf(),
        ensures
            final(self).repository_wf(),
            final(self).repository() == old(self).repository().remove(node_pub_key),
            r is Ok,
    ;
}

/// The node registry: storage nodes and CDN nodes, each kind under its own keys.
pub struct Pallet {
    storage_nodes: VecMap<StorageNodePubKey, StorageNode>,
    cdn_nodes: VecMap<CDNNodePubKey, CDNNode>,
}

impl Pallet {
    /// Both stores are in order and every node stands under its own key.
    pub closed spec fn wf(&self) -> bool {
        &&& self.storage_nodes.wf()
        &&& self.cdn_nodes.wf()
        &&& forall|key: StorageNodePubKey| #[trigger]
            self.storage_nodes@.dom().contains(key) ==> self.storage_nodes@[key].pub_key == key
        &&& forall|key: CDNNodePubKey| #[trigger]
            self.cdn_nodes@.dom().contains(key) ==> self.cdn_nodes@[key].pub_key == key
    }

    /// The nodes of the registry, each as plain values under its key.
    pub closed spec fn view(&self) -> Map<NodePubKey, NodeView> {
        Map::new(
            |key: NodePubKey|
                match key {
                    NodePubKey::StoragePubKey(k) => self.storage_nodes@.dom().contains(k),
                    NodePubKey::CDNPubKey(k) => self.cdn_nodes@.dom().contains(k),
                },
            |key: NodePubKey|
                match key {
                    NodePubKey::StoragePubKey(k) => self.storage_nodes@[k]@,
                    NodePubKey::CDNPubKey(k) => self.cdn_nodes@[k]@,
                },
        )
    }

    /// In a registry that is in order, every node stands under its own public key.
    pub proof fn lemma_keyed_by_pub_key(&self)
        requires
            self.wf(),
        ensures
            keyed_by_pub_key(self@),
    {
        assert forall|key: NodePubKey| #[trigger] self@.dom().contains(key) implies self@[key].pub_key
            == key by {
            match key {
                NodePubKey::StoragePubKey(k) => {
                    assert(self.storage_nodes@.dom().contains(k));
                },
                NodePubKey::CDNPubKey(k) => {
                    assert(self.cdn_nodes@.dom().contains(k));
                },
            }
        }
    }

    /// A registry without nodes.
    pub fn new() -> (registry: Self)
        ensures
            registry.wf(),
            registry@ == Map::<NodePubKey, NodeView>::empty(),
    {
        let registry = Pallet { storage_nodes: VecMap::new(), cdn_nodes: VecMap::new() };
        assert(registry@ =~= Map::<NodePubKey, NodeView>::empty());
        registry
    }

    /// The storage node under `pub_key`, if there is one.
    pub fn storage_nodes(&self, pub_key: &StorageNodePubKey) -> (r: Option<StorageNode>)
        requires
            self.wf(),
        ensures
            match r {
                Some(node) => self@.dom().contains(NodePubKey::StoragePubKey(*pub_key)) && node@
                    == self@[NodePubKey::StoragePubKey(*pub_key)],
                None => !self@.dom().contains(NodePubKey::StoragePubKey(*pub_key)),
            },
    {
        match self.storage_nodes.get(pub_key) {
            Some(node) => Some(node.clone()),
            None => None,
        }
    }

    /// The CDN node under `pub_key`, if there is one.
    pub fn cdn_nodes(&self, pub_key: &CDNNodePubKey) -> (r: Option<CDNNode>)
        requires
            self.wf(),
        ensures
            match r {
                Some(node) => self@.dom().contains(NodePubKey::CDNPubKey(*pub_key)) && node@
                    == self@[NodePubKey::CDNPubKey(*pub_key)],
                None => !self@.dom().contains(NodePubKey::CDNPubKey(*pub_key)),
            },
    {
        match self.cdn_nodes.get(pub_key) {
            Some(node) => Some(node.clone()),
            None => None,
        }
    }

    /// Registers a node that `provider_id` provides, and answers with its key.
    pub fn create_node(
        &mut self,
        provider_id: AccountId,
        node_pub_key: NodePubKey,
        node_params: NodeParams,
    ) -> (r: Result<NodePubKey, Error>)
        requires
            old(self).wf(),
        ensures
            final(self).wf(),
            (final(self)@, r) == create_node_spec(old(self)@, provider_id, node_pub_key, node_params),
    {
        let node = match Node::new(node_pub_key, provider_id, node_params) {
            Ok(node) => node,
            Err(e) => {
                return Err(Error::from(e));
            },
        };
        let node_pub_key = node.get_pub_key().to_owned();
        match self.create(node) {
            Ok(()) => Ok(node_pub_key),
            Err(e) => Err(Error::from(e)),
        }
    }

    /// Takes a node out of the registry for `provider_id`.
    pub fn remove_node(&mut self, provider_id: AccountId, node_pub_key: NodePubKey) -> (r: Result<
        (),
        Error,
    >)
        requires
            old(self).wf(),
        ensures
            final(self).wf(),
            (final(self)@, r) == remove_node_spec(old(self)@, provider_id, node_pub_key),
    {
        let node = match self.get(node_pub_key) {
            Ok(node) => node,
            Err(e) => {
                return Err(Error::from(e));
            },
        };
        if node.get_cluster_id().is_some() {
            return Err(Error::NodeIsAssignedToCluster);
        }
        if !node.get_provider_id().same(&provider_id) {
            return Err(Error::OnlyNodeProvider);
        }
        match self.remove(node_pub_key) {
            Ok(()) => Ok(()),
            Err(e) => Err(Error::from(e)),
        }
    }
}

impl NodeRepository for Pallet {
    open spec fn repository(&self) -> Map<NodePubKey, NodeView> {
        self@
    }

    open spec fn repository_wf(&self) -> bool {
        self.wf()
    }

    proof fn lemma_repository_keys(&self) {
        self.lemma_keyed_by_pub_key();
    }

    fn create(&mut self, node: Node) -> (r: Result<(), NodeRepositoryError>) {
        match node {
            Node::Storage(storage_node) => {
                if self.storage_nodes.contains_key(&storage_node.pub_key) {
                    return Err(NodeRepositoryError::StorageNodeAlreadyExists);
                }
                self.storage_nodes.insert(storage_node.pub_key, storage_node);
                assert(self@ =~= old(self)@.insert(node@.pub_key, node@));
                Ok(())
            },
            Node::CDN(cdn_node) => {
                if self.cdn_nodes.contains_key(&cdn_node.pub_key) {
                    return Err(NodeRepositoryError::CDNNodeAlreadyExists);
                }
                self.cdn_nodes.insert(cdn_node.pub_key, cdn_node);
                assert(self@ =~= old(self)@.insert(node@.pub_key, node@));
                Ok(())
            },
        }
    }

    fn get(&self, node_pub_key: NodePubKey) -> (r: Result<Node, NodeRepositoryError>) {
        match node_pub_key {
            NodePubKey::StoragePubKey(pub_key) => match self.storage_nodes.get(&pub_key) {
                Some(storage_node) => Ok(Node::Storage(storage_node.clone())),
                None => Err(NodeRepositoryError::StorageNodeDoesNotExist),
            },
            NodePubKey::CDNPubKey(pub_key) => match self.cdn_nodes.get(&pub_key) {
                Some(cdn_node) => Ok(Node::CDN(cdn_node.clone())),
                None => Err(NodeRepositoryError::CDNNodeDoesNotExist),
            },
        }
    }

    fn update(&mut self, node: Node) -> (r: Result<(), NodeRepositoryError>) {
        match node {
            Node::Storage(storage_node) => {
                if !self.storage_nodes.contains_key(&storage_node.pub_key) {
                    return Err(NodeRepositoryError::StorageNodeDoesNotExist);
                }
                self.storage_nodes.insert(storage_node.pub_key, storage_node);
                assert(self@ =~= old(self)@.insert(node@.pub_key, node@));
            },
            Node::CDN(cdn_node) => {
                if !self.cdn_nodes.contains_key(&cdn_node.pub_key) {
                    return Err(NodeRepositoryError::CDNNodeDoesNotExist);
                }
                self.cdn_nodes.insert(cdn_node.pub_key, cdn_node);
                assert(self@ =~= old(self)@.insert(node@.pub_key, node@));
            },
        }
        Ok(())
    }

    fn remove(&mut self, node_pub_key: NodePubKey) -> (r: Result<(), NodeRepositoryError>) {
        match node_pub_key {
            NodePubKey::StoragePubKey(pub_key) => {
                self.storage_nodes.remove(&pub_key);
                assert(self@ =~= old(self)@.remove(node_pub_key));
                Ok(())
            },
            NodePubKey::CDNPubKey(pub_key) => {
                self.cdn_nodes.remove(&pub_key);
                assert(self@ =~= old(self)@.remove(node_pub_key));
                Ok(())
            },
        }
    }
}

} // verus!
