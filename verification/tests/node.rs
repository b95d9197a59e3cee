use ddc_node_staking::cdn_node::{CDNNode, CDNNodeParams, CDNNodeProps};
use ddc_node_staking::node::{Node, NodeError, NodeParams, NodeProps, NodePropsRef, NodeTrait};
use ddc_node_staking::primitives::{
    AccountId32, ClusterId, Key, NodePubKey, NodePubKeyRef, NodeType,
};
use ddc_node_staking::storage_node::{StorageNode, StorageNodeParams, StorageNodeProps};

fn account(byte: u8) -> AccountId32 {
    AccountId32::new([byte; 32])
}

fn cdn_params(bytes: Vec<u8>) -> NodeParams {
    NodeParams::CDNParams(CDNNodeParams { params: bytes })
}

fn storage_params(bytes: Vec<u8>) -> NodeParams {
    NodeParams::StorageParams(StorageNodeParams { params: bytes })
}

fn cdn(bytes: Vec<u8>) -> CDNNode {
    match CDNNode::new(NodePubKey::CDNPubKey(account(9)), account(1), cdn_params(bytes)) {
        Ok(Node::CDN(node)) => node,
        _ => panic!("no CDN node"),
    }
}

fn storage(bytes: Vec<u8>) -> StorageNode {
    match StorageNode::new(NodePubKey::StoragePubKey(account(9)), account(1), storage_params(bytes)) {
        Ok(Node::Storage(node)) => node,
        _ => panic!("no storage node"),
    }
}

#[test]
fn node_type_has_tags_1_and_2() {
    assert_eq!(u8::from(NodeType::Storage), 1);
    assert_eq!(u8::from(NodeType::CDN), 2);
    assert_eq!(NodeType::try_from(1u8), Ok(NodeType::Storage));
    assert_eq!(NodeType::try_from(2u8), Ok(NodeType::CDN));
    assert_eq!(NodeType::try_from(0u8), Err(()));
    assert_eq!(NodeType::try_from(3u8), Err(()));
    assert_eq!(NodeType::try_from(255u8), Err(()));
}

#[test]
fn a_borrowed_key_gives_the_key() {
    let key = account(4);
    assert_eq!(NodePubKeyRef::StoragePubKeyRef(&key).to_owned(), NodePubKey::StoragePubKey(key));
    assert_eq!(NodePubKeyRef::CDNPubKeyRef(&key).to_owned(), NodePubKey::CDNPubKey(key));
    assert_ne!(NodePubKeyRef::CDNPubKeyRef(&key).to_owned(), NodePubKey::StoragePubKey(key));
}

#[test]
fn keys_compare_by_kind_and_bytes() {
    let mut bytes = [0u8; 32];
    bytes[31] = 1;
    assert!(account(0).same(&AccountId32::new([0; 32])));
    assert!(!account(0).same(&AccountId32::new(bytes)));
    assert!(NodePubKey::CDNPubKey(account(1)).same(&NodePubKey::CDNPubKey(account(1))));
    assert!(!NodePubKey::CDNPubKey(account(1)).same(&NodePubKey::StoragePubKey(account(1))));
    assert!(!NodePubKey::CDNPubKey(account(1)).same(&NodePubKey::CDNPubKey(account(2))));
    assert!(ClusterId::new([3; 20]).same(&ClusterId::new([3; 20])));
    assert!(!ClusterId::new([3; 20]).same(&ClusterId::new([4; 20])));
    assert_eq!(NodePubKey::CDNPubKey(account(1)).node_type(), NodeType::CDN);
    assert_eq!(NodePubKey::StoragePubKey(account(1)).node_type(), NodeType::Storage);
}

#[test]
fn a_new_cdn_node_holds_what_it_was_given() {
    let node = cdn(vec![1, 255]);
    assert_eq!(node.get_pub_key().to_owned(), NodePubKey::CDNPubKey(account(9)));
    assert_eq!(*node.get_provider_id(), account(1));
    assert_eq!(*node.get_cluster_id(), None);
    assert_eq!(node.get_type(), NodeType::CDN);
    match node.get_props() {
        NodePropsRef::CDNPropsRef(props) => assert_eq!(props.params.to_vec(), vec![1, 255]),
        _ => panic!("props of the wrong kind"),
    }
}

#[test]
fn a_new_storage_node_holds_what_it_was_given() {
    let node = storage(vec![1, 255]);
    assert_eq!(node.get_pub_key().to_owned(), NodePubKey::StoragePubKey(account(9)));
    assert_eq!(*node.get_provider_id(), account(1));
    assert_eq!(*node.get_cluster_id(), None);
    assert_eq!(node.get_type(), NodeType::Storage);
    match node.get_props() {
        NodePropsRef::StoragePropsRef(props) => assert_eq!(props.params.to_vec(), vec![1, 255]),
        _ => panic!("props of the wrong kind"),
    }
}

#[test]
fn a_cdn_node_needs_a_cdn_key_and_cdn_params_within_the_bound() {
    let cdn_key = NodePubKey::CDNPubKey(account(9));
    let storage_key = NodePubKey::StoragePubKey(account(9));
    assert_eq!(
        CDNNode::new(storage_key, account(1), cdn_params(vec![1])),
        Err(NodeError::InvalidCDNNodePubKey)
    );
    assert_eq!(
        CDNNode::new(cdn_key, account(1), storage_params(vec![1])),
        Err(NodeError::InvalidCDNNodeParams)
    );
    assert_eq!(
        CDNNode::new(cdn_key, account(1), cdn_params(vec![0; 2049])),
        Err(NodeError::CDNNodeParamsExceedsLimit)
    );
    assert!(CDNNode::new(cdn_key, account(1), cdn_params(vec![0; 2048])).is_ok());
}

#[test]
fn a_storage_node_needs_a_storage_key_and_storage_params_within_the_bound() {
    let cdn_key = NodePubKey::CDNPubKey(account(9));
    let storage_key = NodePubKey::StoragePubKey(account(9));
    assert_eq!(
        StorageNode::new(cdn_key, account(1), storage_params(vec![1])),
        Err(NodeError::InvalidStorageNodePubKey)
    );
    assert_eq!(
        StorageNode::new(storage_key, account(1), cdn_params(vec![1])),
        Err(NodeError::InvalidStorageNodeParams)
    );
    assert_eq!(
        StorageNode::new(storage_key, account(1), storage_params(vec![0; 2049])),
        Err(NodeError::StorageNodeParamsExceedsLimit)
    );
    assert!(StorageNode::new(storage_key, account(1), storage_params(vec![0; 2048])).is_ok());
}

#[test]
fn the_key_decides_the_kind_of_a_node() {
    let cdn_key = NodePubKey::CDNPubKey(account(9));
    let storage_key = NodePubKey::StoragePubKey(account(9));
    assert!(matches!(Node::new(cdn_key, account(1), cdn_params(vec![1])), Ok(Node::CDN(_))));
    assert!(matches!(
        Node::new(storage_key, account(1), storage_params(vec![1])),
        Ok(Node::Storage(_))
    ));
    assert_eq!(
        Node::new(cdn_key, account(1), storage_params(vec![1])),
        Err(NodeError::InvalidCDNNodeParams)
    );
    assert_eq!(
        Node::new(storage_key, account(1), cdn_params(vec![1])),
        Err(NodeError::InvalidStorageNodeParams)
    );
}

#[test]
fn set_params_replaces_the_props_or_leaves_them() {
    let mut node = cdn(vec![1, 2, 3]);
    assert_eq!(node.set_params(cdn_params(vec![4, 5])), Ok(()));
    assert_eq!(node.props.params.to_vec(), vec![4, 5]);
    assert_eq!(node.set_params(cdn_params(vec![0; 2049])), Err(NodeError::CDNNodeParamsExceedsLimit));
    assert_eq!(node.props.params.to_vec(), vec![4, 5]);
    assert_eq!(node.set_params(storage_params(vec![6])), Err(NodeError::InvalidCDNNodeParams));
    assert_eq!(node.props.params.to_vec(), vec![4, 5]);
    assert_eq!(*node.get_provider_id(), account(1));

    let mut node = storage(vec![1, 2, 3]);
    assert_eq!(node.set_params(storage_params(vec![4, 5])), Ok(()));
    assert_eq!(node.props.params.to_vec(), vec![4, 5]);
    assert_eq!(
        node.set_params(storage_params(vec![0; 2049])),
        Err(NodeError::StorageNodeParamsExceedsLimit)
    );
    assert_eq!(node.set_params(cdn_params(vec![6])), Err(NodeError::InvalidStorageNodeParams));
    assert_eq!(node.props.params.to_vec(), vec![4, 5]);
}

#[test]
fn set_props_takes_props_of_the_same_kind() {
    let donor = cdn(vec![8, 8]);
    let storage_donor = storage(vec![7]);
    let mut node = cdn(vec![1]);
    assert_eq!(node.set_props(NodeProps::CDNProps(donor.props.clone())), Ok(()));
    assert_eq!(node.props.params.to_vec(), vec![8, 8]);
    assert_eq!(
        node.set_props(NodeProps::StorageProps(storage_donor.props.clone())),
        Err(NodeError::InvalidCDNNodeProps)
    );
    assert_eq!(node.props.params.to_vec(), vec![8, 8]);

    let mut node = storage(vec![1]);
    assert_eq!(node.set_props(NodeProps::StorageProps(storage_donor.props.clone())), Ok(()));
    assert_eq!(node.props.params.to_vec(), vec![7]);
    assert_eq!(
        node.set_props(NodeProps::CDNProps(donor.props.clone())),
        Err(NodeError::InvalidStorageNodeProps)
    );
    assert_eq!(node.props.params.to_vec(), vec![7]);
}

#[test]
fn a_node_of_either_kind_answers_like_its_variant() {
    let mut node = Node::CDN(cdn(vec![1, 2]));
    assert_eq!(node.get_pub_key().to_owned(), NodePubKey::CDNPubKey(account(9)));
    assert_eq!(*node.get_provider_id(), account(1));
    assert_eq!(node.get_type(), NodeType::CDN);
    assert!(matches!(node.get_props(), NodePropsRef::CDNPropsRef(_)));
    node.set_cluster_id(Some(ClusterId::new([2; 20])));
    assert_eq!(*node.get_cluster_id(), Some(ClusterId::new([2; 20])));
    assert_eq!(node.set_params(storage_params(vec![1])), Err(NodeError::InvalidCDNNodeParams));
    assert_eq!(node.set_params(cdn_params(vec![3])), Ok(()));
    match &node {
        Node::CDN(inner) => {
            assert_eq!(inner.props.params.to_vec(), vec![3]);
            assert_eq!(inner.cluster_id, Some(ClusterId::new([2; 20])));
        },
        _ => panic!("the node changed its kind"),
    }

    let mut node = Node::Storage(storage(vec![1, 2]));
    assert_eq!(node.get_type(), NodeType::Storage);
    assert!(matches!(node.get_props(), NodePropsRef::StoragePropsRef(_)));
    assert_eq!(
        node.set_props(NodeProps::CDNProps(cdn(vec![1]).props)),
        Err(NodeError::InvalidStorageNodeProps)
    );
    node.set_cluster_id(None);
    assert_eq!(*node.get_cluster_id(), None);
}

#[test]
fn a_copy_of_a_node_is_equal_to_it() {
    let node = Node::CDN(cdn(vec![1, 2, 3]));
    assert_eq!(node.clone(), node);
    let props: CDNNodeProps = cdn(vec![5]).props;
    assert_eq!(props.clone().params.to_vec(), vec![5]);
    let props: StorageNodeProps = storage(vec![6]).props;
    assert_eq!(props.clone().params.to_vec(), vec![6]);
    let params = cdn_params(vec![1, 2]);
    assert_eq!(params.clone(), params);
}
