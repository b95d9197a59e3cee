use ddc_node_staking::cdn_node::{CDNNode, CDNNodeParams};
use ddc_node_staking::node::{Node, NodeError, NodeParams, NodeTrait};
use ddc_node_staking::nodes::{Error, NodeRepository, NodeRepositoryError, Pallet};
use ddc_node_staking::primitives::{AccountId32, ClusterId, NodePubKey};
use ddc_node_staking::storage_node::StorageNodeParams;

fn account(byte: u8) -> AccountId32 {
    AccountId32::new([byte; 32])
}

fn cdn_params(bytes: Vec<u8>) -> NodeParams {
    NodeParams::CDNParams(CDNNodeParams { params: bytes })
}

fn storage_params(bytes: Vec<u8>) -> NodeParams {
    NodeParams::StorageParams(StorageNodeParams { params: bytes })
}

fn cdn_node(registry: &Pallet, key: u8) -> CDNNode {
    registry.cdn_nodes(&account(key)).expect("the node is missing")
}

#[test]
fn cdn_props_of_2048_bytes_are_stored() {
    let mut registry = Pallet::new();
    let key = NodePubKey::CDNPubKey(account(7));
    let bytes: Vec<u8> = (0..2048u32).map(|i| (i % 251) as u8).collect();
    let created = registry.create_node(account(1), key, cdn_params(bytes.clone()));
    assert_eq!(created, Ok(key));
    match registry.get(key) {
        Ok(Node::CDN(node)) => {
            assert_eq!(node.pub_key, account(7));
            assert_eq!(node.props.params.to_vec(), bytes);
            assert_eq!(node.provider_id, account(1));
            assert_eq!(node.cluster_id, None);
        },
        _ => panic!("the node is missing"),
    }
}

#[test]
fn cdn_props_of_2049_bytes_are_refused() {
    let mut registry = Pallet::new();
    let key = NodePubKey::CDNPubKey(account(7));
    let created = registry.create_node(account(1), key, cdn_params(vec![9u8; 2049]));
    assert_eq!(created, Err(Error::NodeParamsExceedsLimit));
    assert!(matches!(registry.get(key), Err(NodeRepositoryError::CDNNodeDoesNotExist)));
    assert!(registry.cdn_nodes(&account(7)).is_none());
}

#[test]
fn storage_props_keep_the_same_bound() {
    let mut registry = Pallet::new();
    let key = NodePubKey::StoragePubKey(account(7));
    assert_eq!(
        registry.create_node(account(1), key, storage_params(vec![0u8; 2049])),
        Err(Error::NodeParamsExceedsLimit)
    );
    assert!(registry.storage_nodes(&account(7)).is_none());
    assert_eq!(registry.create_node(account(1), key, storage_params(vec![5u8; 2048])), Ok(key));
    let node = registry.storage_nodes(&account(7)).expect("the node is missing");
    assert_eq!(node.props.params.to_vec(), vec![5u8; 2048]);
}

#[test]
fn empty_props_are_accepted() {
    let mut registry = Pallet::new();
    let key = NodePubKey::CDNPubKey(account(7));
    assert_eq!(registry.create_node(account(1), key, cdn_params(Vec::new())), Ok(key));
    assert!(cdn_node(&registry, 7).props.params.is_empty());
}

#[test]
fn a_key_is_taken_once() {
    let mut registry = Pallet::new();
    let key = NodePubKey::CDNPubKey(account(7));
    assert_eq!(registry.create_node(account(1), key, cdn_params(vec![1])), Ok(key));
    assert_eq!(
        registry.create_node(account(2), key, cdn_params(vec![2])),
        Err(Error::NodeAlreadyExists)
    );
    let node = cdn_node(&registry, 7);
    assert_eq!(node.provider_id, account(1));
    assert_eq!(node.props.params.to_vec(), vec![1]);
}

#[test]
fn the_two_kinds_have_keys_of_their_own() {
    let mut registry = Pallet::new();
    let cdn = NodePubKey::CDNPubKey(account(7));
    let storage = NodePubKey::StoragePubKey(account(7));
    assert_eq!(registry.create_node(account(1), cdn, cdn_params(vec![1])), Ok(cdn));
    assert_eq!(registry.create_node(account(2), storage, storage_params(vec![2])), Ok(storage));
    assert_eq!(cdn_node(&registry, 7).provider_id, account(1));
    assert_eq!(registry.storage_nodes(&account(7)).unwrap().provider_id, account(2));
}

#[test]
fn params_of_the_other_kind_are_invalid() {
    let mut registry = Pallet::new();
    let cdn = NodePubKey::CDNPubKey(account(7));
    let storage = NodePubKey::StoragePubKey(account(8));
    assert_eq!(
        registry.create_node(account(1), cdn, storage_params(vec![1])),
        Err(Error::InvalidNodeParams)
    );
    assert_eq!(
        registry.create_node(account(1), storage, cdn_params(vec![1])),
        Err(Error::InvalidNodeParams)
    );
    assert!(registry.get(cdn).is_err());
    assert!(registry.get(storage).is_err());
}

#[test]
fn create_then_remove_gives_the_registry_back() {
    let mut registry = Pallet::new();
    let other = NodePubKey::StoragePubKey(account(5));
    assert_eq!(registry.create_node(account(2), other, storage_params(vec![4, 4])), Ok(other));
    let key = NodePubKey::CDNPubKey(account(7));
    assert_eq!(registry.create_node(account(1), key, cdn_params(vec![1, 2, 3])), Ok(key));
    assert_eq!(registry.remove_node(account(1), key), Ok(()));
    assert!(matches!(registry.get(key), Err(NodeRepositoryError::CDNNodeDoesNotExist)));
    let kept = registry.storage_nodes(&account(5)).expect("the other node is gone");
    assert_eq!(kept.provider_id, account(2));
    assert_eq!(kept.props.params.to_vec(), vec![4, 4]);
    assert_eq!(registry.create_node(account(1), key, cdn_params(vec![1, 2, 3])), Ok(key));
}

#[test]
fn remove_node_of_an_unknown_key_fails() {
    let mut registry = Pallet::new();
    assert_eq!(
        registry.remove_node(account(1), NodePubKey::CDNPubKey(account(7))),
        Err(Error::NodeDoesNotExist)
    );
    assert_eq!(
        registry.remove_node(account(1), NodePubKey::StoragePubKey(account(7))),
        Err(Error::NodeDoesNotExist)
    );
}

#[test]
fn only_the_provider_removes_a_node() {
    let mut registry = Pallet::new();
    let key = NodePubKey::CDNPubKey(account(7));
    assert_eq!(registry.create_node(account(1), key, cdn_params(vec![1])), Ok(key));
    assert_eq!(registry.remove_node(account(2), key), Err(Error::OnlyNodeProvider));
    assert!(registry.get(key).is_ok());
    assert_eq!(registry.remove_node(account(1), key), Ok(()));
}

#[test]
fn an_assigned_node_is_not_removed_whoever_asks() {
    let mut registry = Pallet::new();
    let key = NodePubKey::CDNPubKey(account(7));
    assert_eq!(registry.create_node(account(1), key, cdn_params(vec![1])), Ok(key));
    let mut node = registry.get(key).unwrap();
    node.set_cluster_id(Some(ClusterId::new([1; 20])));
    assert_eq!(registry.update(node), Ok(()));
    assert_eq!(registry.remove_node(account(1), key), Err(Error::NodeIsAssignedToCluster));
    assert_eq!(registry.remove_node(account(2), key), Err(Error::NodeIsAssignedToCluster));
    assert_eq!(cdn_node(&registry, 7).cluster_id, Some(ClusterId::new([1; 20])));
    let mut node = registry.get(key).unwrap();
    node.set_cluster_id(None);
    assert_eq!(registry.update(node), Ok(()));
    assert_eq!(registry.remove_node(account(1), key), Ok(()));
}

#[test]
fn the_store_creates_gets_updates_and_removes() {
    let mut registry = Pallet::new();
    let key = NodePubKey::StoragePubKey(account(3));
    let node = Node::new(key, account(1), storage_params(vec![1, 2])).unwrap();
    assert_eq!(registry.update(node.clone()), Err(NodeRepositoryError::StorageNodeDoesNotExist));
    assert_eq!(registry.create(node.clone()), Ok(()));
    assert_eq!(registry.create(node.clone()), Err(NodeRepositoryError::StorageNodeAlreadyExists));
    assert_eq!(registry.get(key), Ok(node.clone()));
    let mut changed = node.clone();
    assert_eq!(changed.set_params(storage_params(vec![7, 7, 7])), Ok(()));
    assert_eq!(registry.update(changed.clone()), Ok(()));
    assert_eq!(registry.get(key), Ok(changed));
    assert_eq!(registry.remove(key), Ok(()));
    assert_eq!(registry.get(key), Err(NodeRepositoryError::StorageNodeDoesNotExist));
    assert_eq!(registry.remove(key), Ok(()));

    let cdn_key = NodePubKey::CDNPubKey(account(3));
    let cdn = Node::new(cdn_key, account(1), cdn_params(vec![1, 2])).unwrap();
    assert_eq!(registry.update(cdn.clone()), Err(NodeRepositoryError::CDNNodeDoesNotExist));
    assert_eq!(registry.get(cdn_key), Err(NodeRepositoryError::CDNNodeDoesNotExist));
    assert_eq!(registry.create(cdn.clone()), Ok(()));
    assert_eq!(registry.create(cdn), Err(NodeRepositoryError::CDNNodeAlreadyExists));
}

#[test]
fn errors_of_the_store_and_of_nodes_become_errors_of_the_registry() {
    assert_eq!(Error::from(NodeRepositoryError::StorageNodeAlreadyExists), Error::NodeAlreadyExists);
    assert_eq!(Error::from(NodeRepositoryError::CDNNodeAlreadyExists), Error::NodeAlreadyExists);
    assert_eq!(Error::from(NodeRepositoryError::StorageNodeDoesNotExist), Error::NodeDoesNotExist);
    assert_eq!(Error::from(NodeRepositoryError::CDNNodeDoesNotExist), Error::NodeDoesNotExist);
    assert_eq!(Error::from(NodeError::InvalidStorageNodeParams), Error::InvalidNodeParams);
    assert_eq!(Error::from(NodeError::InvalidCDNNodeParams), Error::InvalidNodeParams);
    assert_eq!(Error::from(NodeError::InvalidStorageNodePubKey), Error::InvalidNodeParams);
    assert_eq!(Error::from(NodeError::InvalidCDNNodePubKey), Error::InvalidNodeParams);
    assert_eq!(Error::from(NodeError::InvalidStorageNodeProps), Error::InvalidNodeParams);
    assert_eq!(Error::from(NodeError::InvalidCDNNodeProps), Error::InvalidNodeParams);
    assert_eq!(Error::from(NodeError::StorageNodeParamsExceedsLimit), Error::NodeParamsExceedsLimit);
    assert_eq!(Error::from(NodeError::CDNNodeParamsExceedsLimit), Error::NodeParamsExceedsLimit);
}
