//! Storage nodes.

use crate::bounded::{bounded_bytes, bounded_clone, bounded_from_vec, BoundedBytes, MAX_NODE_PARAMS_LEN};
use crate::node::{Node, NodeError, NodeParams, NodeProps, NodePropsRef, NodeTrait, NodeView};
use crate::primitives::{AccountId, StorageNodePubKey, ClusterId, NodePubKey, NodePubKeyRef, NodeType};
use vstd::prelude::*;

verus! {

/// The largest number of bytes that the properties of a storage node may take.
pub const MAX_STORAGE_NODE_PARAMS_LEN: usize = MAX_NODE_PARAMS_LEN;

/// The properties of a storage node: operational parameters, not yet given a structure, kept as
/// bytes in a bounded buffer.
#[derive(Debug, PartialEq)]
pub struct StorageNodeProps {
    pub params: BoundedBytes,
}

impl View for StorageNodeProps {
    type V = Seq<u8>;

    open spec fn view(&self) -> Seq<u8> {
        bounded_bytes(self.params)
    }
}

impl Clone for StorageNodeProps {
    fn clone(&self) -> (r: Self)
        ensures
            r@ == self@,
    {
        StorageNodeProps { params: bounded_clone(&self.params) }
    }
}

/// The input from which the properties of a storage node are made.
#[derive(Debug, PartialEq)]
pub struct StorageNodeParams {
    pub params: Vec<u8>,
}

impl Clone for StorageNodeParams {
    fn clone(&self) -> (r: Self)
        ensures
            r.params@ == self.params@,
    {
        StorageNodeParams { params: self.params.clone() }
    }
}

/// A storage node.
#[derive(Debug, PartialEq)]
pub struct StorageNode {
    pub pub_key: StorageNodePubKey,
    pub provider_id: AccountId,
    pub cluster_id: Option<ClusterId>,
    pub props: StorageNodeProps,
}

impl View for StorageNode {
    type V = NodeView;

    open spec fn view(&self) -> NodeView {
        NodeView {
            pub_key: NodePubKey::StoragePubKey(self.pub_key),
            provider_id: self.provider_id,
            cluster_id: self.cluster_id,
            props: self.props@,
        }
    }
}

impl Clone for StorageNode {
    fn clone(&self) -> (r: Self)
        ensures
            r@ == self@,
    {
        StorageNode {
            pub_key: self.pub_key,
            provider_id: self.provider_id,
            cluster_id: self.cluster_id,
            props: self.props.clone(),
        }
    }
}

impl NodeTrait for StorageNode {
    open spec fn node_view(&self) -> NodeView {
        self@
    }

    /// A storage node comes from a storage key and storage parameters of at most
    /// `MAX_STORAGE_NODE_PARAMS_LEN` bytes. It starts outside every cluster.
    open spec fn new_spec(
        node_pub_key: NodePubKey,
        provider_id: AccountId,
        node_params: NodeParams,
    ) -> Result<NodeView, NodeError> {
        if node_pub_key.node_type() != NodeType::Storage {
            Err(NodeError::InvalidStorageNodePubKey)
        } else if node_params.node_type() != NodeType::Storage {
            Err(NodeError::InvalidStorageNodeParams)
        } else if node_params.bytes().len() > MAX_STORAGE_NODE_PARAMS_LEN {
            Err(NodeError::StorageNodeParamsExceedsLimit)
        } else {
            Ok(
                NodeView {
                    pub_key: node_pub_key,
                    provider_id,
                    cluster_id: None,
                    props: node_params.bytes(),
                },
            )
        }
    }

    open spec fn set_props_spec(node: NodeView, props: NodeProps) -> Result<NodeView, NodeError> {
        if props.node_type() != NodeType::Storage {
            Err(NodeError::InvalidStorageNodeProps)
        } else {
            Ok(node.with_props(props.bytes()))
        }
    }

    open spec fn set_params_spec(node: NodeView, node_params: NodeParams) -> Result<
        NodeView,
        NodeError,
    > {
        if node_params.node_type() != NodeType::Storage {
            Err(NodeError::InvalidStorageNodeParams)
        } else if node_params.bytes().len() > MAX_STORAGE_NODE_PARAMS_LEN {
            Err(NodeError::StorageNodeParamsExceedsLimit)
        } else {
            Ok(node.with_props(node_params.bytes()))
        }
    }

    fn get_pub_key<'a>(&'a self) -> (r: NodePubKeyRef<'a>) {
        NodePubKeyRef::StoragePubKeyRef(&self.pub_key)
    }

    fn get_provider_id(&self) -> (r: &AccountId) {
        &self.provider_id
    }

    fn get_props<'a>(&'a self) -> (r: NodePropsRef<'a>) {
        NodePropsRef::StoragePropsRef(&self.props)
    }

    fn set_props(&mut self, props: NodeProps) -> (r: Result<(), NodeError>) {
        match props {
            NodeProps::StorageProps(props) => {
                self.props = props;
                Ok(())
            },
            _ => Err(NodeError::InvalidStorageNodeProps),
        }
    }

    fn set_params(&mut self, node_params: NodeParams) -> (r: Result<(), NodeError>) {
        match node_params {
            NodeParams::StorageParams(storage_params) => match bounded_from_vec(storage_params.params) {
                Ok(buffer) => {
                    self.props.params = buffer;
                    Ok(())
                },
                Err(_) => Err(NodeError::StorageNodeParamsExceedsLimit),
            },
            _ => Err(NodeError::InvalidStorageNodeParams),
        }
    }

    fn get_cluster_id(&self) -> (r: &Option<ClusterId>) {
        &self.cluster_id
    }

    fn set_cluster_id(&mut self, cluster_id: Option<ClusterId>) {
        self.cluster_id = cluster_id;
    }

    fn get_type(&self) -> (r: NodeType) {
        NodeType::Storage
    }

    fn new(node_pub_key: NodePubKey, provider_id: AccountId, node_params: NodeParams) -> (r:
        Result<Node, NodeError>) {
        match node_pub_key {
            NodePubKey::StoragePubKey(pub_key) => match node_params {
                NodeParams::StorageParams(node_params) => match bounded_from_vec(node_params.params) {
                    Ok(buffer) => Ok(
                        Node::Storage(
                            StorageNode {
                                provider_id,
                                pub_key,
                                cluster_id: None,
                                props: StorageNodeProps { params: buffer },
                            },
                        ),
                    ),
                    Err(_) => Err(NodeError::StorageNodeParamsExceedsLimit),
                },
                _ => Err(NodeError::InvalidStorageNodeParams),
            },
            _ => Err(NodeError::InvalidStorageNodePubKey),
        }
    }
}

} // verus!
