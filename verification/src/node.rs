//! The node model: one contract for every kind of node.

use crate::cdn_node::{CDNNode, CDNNodeParams, CDNNodeProps};
use crate::primitives::{AccountId, ClusterId, NodePubKey, NodePubKeyRef, NodeType};
use crate::storage_node::{StorageNode, StorageNodeParams, StorageNodeProps};
use vstd::prelude::*;

verus! {

/// What a node is, as plain values: its key, the account that provides it, the cluster it is
/// assigned to, if any, and the bytes of its properties.
pub struct NodeView {
    pub pub_key: NodePubKey,
    pub provider_id: AccountId,
    pub cluster_id: Option<ClusterId>,
    pub props: Seq<u8>,
}

impl NodeView {
    /// The same node with other properties.
    pub open spec fn with_props(self, props: Seq<u8>) -> NodeView {
        NodeView { props, ..self }
    }

    /// The same node with another cluster assignment.
    pub open spec fn with_cluster_id(self, cluster_id: Option<ClusterId>) -> NodeView {
        NodeView { cluster_id, ..self }
    }
}

/// Why a node could not be built or changed.
#[derive(Clone, Copy, Debug, PartialEq, Eq, Structural)]
pub enum NodeError {
    InvalidStorageNodePubKey,
    InvalidCDNNodePubKey,
    InvalidStorageNodeParams,
    StorageNodeParamsExceedsLimit,
    InvalidCDNNodeParams,
    CDNNodeParamsExceedsLimit,
    InvalidStorageNodeProps,
    InvalidCDNNodeProps,
}

/// The input from which a node's properties are made. It may be of any length.
#[derive(Debug, PartialEq)]
pub enum NodeParams {
    StorageParams(StorageNodeParams),
    CDNParams(CDNNodeParams),
}

impl NodeParams {
    /// The kind of node that the parameters are meant for.
    pub open spec fn node_type(self) -> NodeType {
        match self {
            NodeParams::StorageParams(_) => NodeType::Storage,
            NodeParams::CDNParams(_) => NodeType::CDN,
        }
    }

    /// The bytes that the parameters carry.
    pub open spec fn bytes(self) -> Seq<u8> {
        match self {
            NodeParams::StorageParams(p) => p.params@,
            NodeParams::CDNParams(p) => p.params@,
        }
    }
}

impl Clone for NodeParams {
    fn clone(&self) -> (r: Self)
        ensures
            r.node_type() == self.node_type(),
            r.bytes() == self.bytes(),
    {
        match self {
            NodeParams::StorageParams(p) => NodeParams::StorageParams(p.clone()),
            NodeParams::CDNParams(p) => NodeParams::CDNParams(p.clone()),
        }
    }
}

/// The properties of a node, bounded in length.
#[derive(Debug, PartialEq)]
pub enum NodeProps {
    StorageProps(StorageNodeProps),
    CDNProps(CDNNodeProps),
}

impl NodeProps {
    /// The kind of node that the properties belong to.
    pub open spec fn node_type(self) -> NodeType {
        match self {
            NodeProps::StorageProps(_) => NodeType::Storage,
            NodeProps::CDNProps(_) => NodeType::CDN,
        }
    }

    /// The bytes that the properties hold.
    pub open spec fn bytes(self) -> Seq<u8> {
        match self {
            NodeProps::StorageProps(p) => p@,
            NodeProps::CDNProps(p) => p@,
        }
    }
}

/// Borrowed properties of a node.
#[derive(Debug, PartialEq)]
pub enum NodePropsRef<'a> {
    StoragePropsRef(&'a StorageNodeProps),
    CDNPropsRef(&'a CDNNodeProps),
}

impl<'a> NodePropsRef<'a> {
    /// The kind of node that the properties belong to.
    pub open spec fn node_type(self) -> NodeType {
        match self {
            NodePropsRef::StoragePropsRef(_) => NodeType::Storage,
            NodePropsRef::CDNPropsRef(_) => NodeType::CDN,
        }
    }

    /// The bytes that the properties hold.
    pub open spec fn bytes(self) -> Seq<u8> {
        match self {
            NodePropsRef::StoragePropsRef(p) => p@,
            NodePropsRef::CDNPropsRef(p) => p@,
        }
    }
}

/// How a result of the executable code matches what the model asks for: the same error, or a
/// node with the view that the model gives.
pub open spec fn built_as(built: Result<Node, NodeError>, model: Result<NodeView, NodeError>) -> bool {
    match (built, model) {
        (Ok(node), Ok(view)) => node@ == view,
        (Err(e), Err(f)) => e == f,
        _ => false,
    }
}

/// How a change of a node matches what the model asks for: the node takes the view that the
/// model gives, or stays as it was and the error is the model's.
pub open spec fn changed_as(
    before: NodeView,
    after: NodeView,
    outcome: Result<(), NodeError>,
    model: Result<NodeView, NodeError>,
) -> bool {
    match model {
        Ok(view) => outcome is Ok && after == view,
        Err(e) => outcome == Err::<(), NodeError>(e) && after == before,
    }
}

/// The contract that every kind of node meets.
pub trait NodeTrait: Sized {
    /// The node as plain values.
    spec fn node_view(&self) -> NodeView;

    /// What `new` makes of its arguments.
    spec fn new_spec(
        node_pub_key: NodePubKey,
        provider_id: AccountId,
        node_params: NodeParams,
    ) -> Result<NodeView, NodeError>;

    /// What `set_props` makes of a node and new properties.
    spec fn set_props_spec(node: NodeView, props: NodeProps) -> Result<NodeView, NodeError>;

    /// What `set_params` makes of a node and new parameters.
    spec fn set_params_spec(node: NodeView, node_params: NodeParams) -> Result<
        NodeView,
        NodeError,
    >;

    fn get_pub_key<'a>(&'a self) -> (r: NodePubKeyRef<'a>)
        ensures
            r@ == self.node_view().pub_key,
    ;

    fn get_provider_id(&self) -> (r: &AccountId)
        ensures
            *r == self.node_view().provider_id,
    ;

    fn get_props<'a>(&'a self) -> (r: NodePropsRef<'a>)
        ensures
            r.node_type() == self.node_view().pub_key.node_type(),
            r.bytes() == self.node_view().props,
    ;

    fn set_props(&mut self, props: NodeProps) -> (r: Result<(), NodeError>)
        ensures
            changed_as(
                old(self).node_view(),
                final(self).node_view(),
                r,
                Self::set_props_spec(old(self).node_view(), props),
            ),
    ;

    fn set_params(&mut self, node_params: NodeParams) -> (r: Result<(), NodeError>)
        ensures
            changed_as(
                old(self).node_view(),
                final(self).node_view(),
                r,
                Self::set_params_spec(old(self).node_view(), node_params),
            ),
    ;

    fn get_cluster_id(&self) -> (r: &Option<ClusterId>)
        ensures
            *r == self.node_view().cluster_id,
    ;

    fn set_cluster_id(&mut self, cluster_id: Option<ClusterId>)
        ensures
            final(self).node_view() == old(self).node_view().with_cluster_id(cluster_id),
    ;

    fn get_type(&self) -> (r: NodeType)
        ensures
            r == self.node_view().pub_key.node_type(),
    ;

    fn new(node_pub_key: NodePubKey, provider_id: AccountId, node_params: NodeParams) -> (r:
        Result<Node, NodeError>)
        ensures
            built_as(r, Self::new_spec(node_pub_key, provider_id, node_params)),
    ;
}

/// A node of either kind.
#[derive(Debug, PartialEq)]
pub enum Node {
    Storage(StorageNode),
    CDN(CDNNode),
}

impl View for Node {
    type V = NodeView;

    open spec fn view(&self) -> NodeView {
        match self {
            Node::Storage(node) => node@,
            Node::CDN(node) => node@,
        }
    }
}

impl Clone for Node {
    fn clone(&self) -> (r: Self)
        ensures
            r@ == self@,
    {
        match self {
            Node::Storage(node) => Node::Storage(node.clone()),
            Node::CDN(node) => Node::CDN(node.clone()),
        }
    }
}

impl NodeTrait for Node {
    open spec fn node_view(&self) -> NodeView {
        self@
    }

    /// The key decides the kind of the node; the parameters have to be of that kind and
    /// within its bound.
    open spec fn new_spec(
        node_pub_key: NodePubKey,
        provider_id: AccountId,
        node_params: NodeParams,
    ) -> Result<NodeView, NodeError> {
        match node_pub_key {
            NodePubKey::StoragePubKey(_) => StorageNode::new_spec(
                node_pub_key,
                provider_id,
                node_params,
            ),
            NodePubKey::CDNPubKey(_) => CDNNode::new_spec(node_pub_key, provider_id, node_params),
        }
    }

    open spec fn set_props_spec(node: NodeView, props: NodeProps) -> Result<NodeView, NodeError> {
        match node.pub_key {
            NodePubKey::StoragePubKey(_) => StorageNode::set_props_spec(node, props),
            NodePubKey::CDNPubKey(_) => CDNNode::set_props_spec(node, props),
        }
    }

    open spec fn set_params_spec(node: NodeView, node_params: NodeParams) -> Result<
        NodeView,
        NodeError,
    > {
        match node.pub_key {
            NodePubKey::StoragePubKey(_) => StorageNode::set_params_spec(node, node_params),
            NodePubKey::CDNPubKey(_) => CDNNode::set_params_spec(node, node_params),
        }
    }

    fn get_pub_key<'a>(&'a self) -> (r: NodePubKeyRef<'a>) {
        match self {
            Node::Storage(node) => node.get_pub_key(),
            Node::CDN(node) => node.get_pub_key(),
        }
    }

    fn get_provider_id(&self) -> (r: &AccountId) {
        match self {
            Node::Storage(node) => node.get_provider_id(),
            Node::CDN(node) => node.get_provider_id(),
        }
    }

    fn get_props<'a>(&'a self) -> (r: NodePropsRef<'a>) {
        match self {
            Node::Storage(node) => node.get_props(),
            Node::CDN(node) => node.get_props(),
        }
    }

    fn set_props(&mut self, props: NodeProps) -> (r: Result<(), NodeError>) {
        match self {
            Node::Storage(node) => node.set_props(props),
            Node::CDN(node) => node.set_props(props),
        }
    }

    fn set_params(&mut self, node_params: NodeParams) -> (r: Result<(), NodeError>) {
        match self {
            Node::Storage(node) => node.set_params(node_params),
            Node::CDN(node) => node.set_params(node_params),
        }
    }

    fn get_cluster_id(&self) -> (r: &Option<ClusterId>) {
        match self {
            Node::Storage(node) => node.get_cluster_id(),
            Node::CDN(node) => node.get_cluster_id(),
        }
    }

    fn set_cluster_id(&mut self, cluster_id: Option<ClusterId>) {
        match self {
            Node::Storage(node) => node.set_cluster_id(cluster_id),
            Node::CDN(node) => node.set_cluster_id(cluster_id),
        }
    }

    fn get_type(&self) -> (r: NodeType) {
        match self {
            Node::Storage(node) => node.get_type(),
            Node::CDN(node) => node.get_type(),
        }
    }

    fn new(node_pub_key: NodePubKey, provider_id: AccountId, node_params: NodeParams) -> (r:
        Result<Node, NodeError>) {
        match node_pub_key {
            NodePubKey::StoragePubKey(_) => StorageNode::new(node_pub_key, provider_id, node_params),
            NodePubKey::CDNPubKey(_) => CDNNode::new(node_pub_key, provider_id, node_params),
        }
    }
}

} // verus!
