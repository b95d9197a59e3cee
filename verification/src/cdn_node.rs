//! CDN nodes.

use crate::bounded::{bounded_bytes, bounded_clone, bounded_from_vec, BoundedBytes, MAX_NODE_PARAMS_LEN};
use crate::node::{Node, NodeError, NodeParams, NodeProps, NodePropsRef, NodeTrait, NodeView};
use crate::primitives::{AccountId, CDNNodePubKey, ClusterId, NodePubKey, NodePubKeyRef, NodeType};
use vstd::prelude::*;

verus! {

/// The largest number of bytes that the properties of a CDN node may take.
pub const MAX_CDN_NODE_PARAMS_LEN: usize = MAX_NODE_PARAMS_LEN;

/// The properties of a CDN node: operational parameters, not yet given a structure, kept as
/// bytes in a bounded buffer.
#[derive(Debug, PartialEq)]
pub struct CDNNodeProps {
    pub params: BoundedBytes,
}

impl View for CDNNodeProps {
    type V = Seq<u8>;

    open spec fn view(&self) -> Seq<u8> {
        bounded_bytes(self.params)
    }
}

impl Clone for CDNNodeProps {
    fn clone(&self) -> (r: Self)
        ensures
            r@ == self@,
    {
        CDNNodeProps { params: bounded_clone(&self.params) }
    }
}

/// The input from which the properties of a CDN node are made.
#[derive(Debug, PartialEq)]
pub struct CDNNodeParams {
    pub params: Vec<u8>,
}

impl Clone for CDNNodeParams {
    fn clone(&self) -> (r: Self)
        ensures
            r.params@ == self.params@,
    {
        CDNNodeParams { params: self.params.clone() }
    }
}

/// A CDN node.
#[derive(Debug, PartialEq)]
pub struct CDNNode {
    pub pub_key: CDNNodePubKey,
    pub provider_id: AccountId,
    pub cluster_id: Option<ClusterId>,
    pub props: CDNNodeProps,
}

impl View for CDNNode {
    type V = NodeView;

    open spec fn view(&self) -> NodeView {
        NodeView {
            pub_key: NodePubKey::CDNPubKey(self.pub_key),
            provider_id: self.provider_id,
            cluster_id: self.cluster_id,
            props: self.props@,
        }
    }
}

impl Clone for CDNNode {
    fn clone(&self) -> (r: Self)
        ensures
            r@ == self@,
    {
        CDNNode {
            pub_key: self.pub_key,
            provider_id: self.provider_id,
            cluster_id: self.cluster_id,
            props: self.props.clone(),
        }
    }
}

impl NodeTrait for CDNNode {
    open spec fn node_view(&self) -> NodeView {
        self@
    }

    /// A CDN node comes from a CDN key and CDN parameters of at most
    /// `MAX_CDN_NODE_PARAMS_LEN` bytes. It starts outside every cluster.
    open spec fn new_spec(
        node_pub_key: NodePubKey,
        provider_id: AccountId,
        node_params: NodeParams,
    ) -> Result<NodeView, NodeError> {
        if node_pub_key.node_type() != NodeType::CDN {
            Err(NodeError::InvalidCDNNodePubKey)
        } else if node_params.node_type() != NodeType::CDN {
            Err(NodeError::InvalidCDNNodeParams)
        } else if node_params.bytes().len() > MAX_CDN_NODE_PARAMS_LEN {
            Err(NodeError::CDNNodeParamsExceedsLimit)
        } else {
            Ok(
                NodeView {
                    pub_key: node_pub_key,
                    provider_id,
                    cluster_id: None,
                    props: node_params.bytes(),
                },
            )
        }
    }

    open spec fn set_props_spec(node: NodeView, props: NodeProps) -> Result<NodeView, NodeError> {
        if props.node_type() != NodeType::CDN {
            Err(NodeError::InvalidCDNNodeProps)
        } else {
            Ok(node.with_props(props.bytes()))
        }
    }

    open spec fn set_params_spec(node: NodeView, node_params: NodeParams) -> Result<
        NodeView,
        NodeError,
    > {
        if node_params.node_type() != NodeType::CDN {
            Err(NodeError::InvalidCDNNodeParams)
        } else if node_params.bytes().len() > MAX_CDN_NODE_PARAMS_LEN {
            Err(NodeError::CDNNodeParamsExceedsLimit)
        } else {
            Ok(node.with_props(node_params.bytes()))
        }
    }

    fn get_pub_key<'a>(&'a self) -> (r: NodePubKeyRef<'a>) {
        NodePubKeyRef::CDNPubKeyRef(&self.pub_key)
    }

    fn get_provider_id(&self) -> (r: &AccountId) {
        &self.provider_id
    }

    fn get_props<'a>(&'a self) -> (r: NodePropsRef<'a>) {
        NodePropsRef::CDNPropsRef(&self.props)
    }

    fn set_props(&mut self, props: NodeProps) -> (r: Result<(), NodeError>) {
        match props {
            NodeProps::CDNProps(props) => {
                self.props = props;
                Ok(())
            },
            _ => Err(NodeError::InvalidCDNNodeProps),
        }
    }

    fn set_params(&mut self, node_params: NodeParams) -> (r: Result<(), NodeError>) {
        match node_params {
            NodeParams::CDNParams(cdn_params) => match bounded_from_vec(cdn_params.params) {
                Ok(buffer) => {
                    self.props.params = buffer;
                    Ok(())
                },
                Err(_) => Err(NodeError::CDNNodeParamsExceedsLimit),
            },
            _ => Err(NodeError::InvalidCDNNodeParams),
        }
    }

    fn get_cluster_id(&self) -> (r: &Option<ClusterId>) {
        &self.cluster_id
    }

    fn set_cluster_id(&mut self, cluster_id: Option<ClusterId>) {
        self.cluster_id = cluster_id;
    }

    fn get_type(&self) -> (r: NodeType) {
        NodeType::CDN
    }

    fn new(node_pub_key: NodePubKey, provider_id: AccountId, node_params: NodeParams) -> (r:
        Result<Node, NodeError>) {
        match node_pub_key {
            NodePubKey::CDNPubKey(pub_key) => match node_params {
                NodeParams::CDNParams(node_params) => match bounded_from_vec(node_params.params) {
                    Ok(buffer) => Ok(
                        Node::CDN(
                            CDNNode {
                                provider_id,
                                pub_key,
                                cluster_id: None,
                                props: CDNNodeProps { params: buffer },
                            },
                        ),
                    ),
                    Err(_) => Err(NodeError::CDNNodeParamsExceedsLimit),
                },
                _ => Err(NodeError::InvalidCDNNodeParams),
            },
            _ => Err(NodeError::InvalidCDNNodePubKey),
        }
    }
}

} // verus!
