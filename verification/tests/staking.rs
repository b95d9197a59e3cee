use ddc_node_staking::cdn_node::CDNNodeParams;
use ddc_node_staking::cluster::{
    ClusterCreator, ClusterGovParams, ClusterParams, ClusterVisitorError,
};
use ddc_node_staking::clusters::Clusters;
use ddc_node_staking::ledger::{StakingLedger, UnlockChunk};
use ddc_node_staking::node::NodeParams;
use ddc_node_staking::nodes::{Error as NodesError, Pallet};
use ddc_node_staking::primitives::{AccountId32, ClusterId, NodePubKey, NodeType};
use ddc_node_staking::staking::{DdcStaking, Error, Membership, Origin, MAX_CLUSTER_MANAGERS};
use ddc_node_staking::storage_node::StorageNodeParams;

fn account(byte: u8) -> AccountId32 {
    AccountId32::new([byte; 32])
}

fn cluster(byte: u8) -> ClusterId {
    ClusterId::new([byte; 20])
}

fn gov_params(bond_size: u128, chill_delay: u32, unbonding_delay: u32) -> ClusterGovParams {
    ClusterGovParams {
        treasury_share: 0,
        validators_share: 0,
        cluster_reserve_share: 0,
        cdn_bond_size: bond_size,
        cdn_chill_delay: chill_delay,
        cdn_unbonding_delay: unbonding_delay,
        storage_bond_size: bond_size + 1,
        storage_chill_delay: chill_delay + 1,
        storage_unbonding_delay: unbonding_delay + 1,
        unit_per_mb_stored: 1,
        unit_per_mb_streamed: 2,
        unit_per_put_request: 3,
        unit_per_get_request: 4,
    }
}

fn clusters_with(id: ClusterId, params: ClusterGovParams) -> Clusters {
    let mut clusters = Clusters::new();
    let created = clusters.create_new_cluster(
        id,
        account(200),
        account(201),
        ClusterParams { node_provider_auth_contract: account(202) },
        params,
    );
    assert_eq!(created, Ok(()));
    clusters
}

fn ledger(total: u128, active: u128, unlocking: Vec<(u128, u32)>) -> StakingLedger {
    StakingLedger {
        stash: account(b'A'),
        total,
        active,
        unlocking: unlocking.into_iter().map(|(value, era)| UnlockChunk { value, era }).collect(),
    }
}

const A: u8 = b'A';
const B: u8 = b'B';

fn key() -> NodePubKey {
    NodePubKey::CDNPubKey(account(b'K'))
}

fn bonded(amount: u128) -> (Pallet, DdcStaking) {
    let mut registry = Pallet::new();
    assert_eq!(
        registry.create_node(
            account(A),
            key(),
            NodeParams::CDNParams(CDNNodeParams { params: vec![1, 255] })
        ),
        Ok(key())
    );
    let mut staking = DdcStaking::new();
    assert_eq!(staking.bond(account(A), account(B), key(), amount), Ok(()));
    (registry, staking)
}

#[test]
fn bond_unbond_and_withdraw() {
    let clusters = clusters_with(cluster(1), gov_params(10, 50, 10));
    let (mut registry, mut staking) = bonded(100);
    assert_eq!(staking.ledger(&account(B)), Some(ledger(100, 100, vec![])));
    assert_eq!(staking.bonded(&account(A)), Some(account(B)));
    assert_eq!(staking.nodes(&key()), Some(account(A)));

    assert_eq!(staking.serve(&mut registry, &clusters, account(B), cluster(1)), Ok(()));
    assert_eq!(staking.unbond(&clusters, account(B), 50, 5), Ok(()));
    assert_eq!(staking.ledger(&account(B)), Some(ledger(100, 50, vec![(50, 15)])));

    assert_eq!(staking.withdraw_unbonded(account(B), 14), Ok(()));
    assert_eq!(staking.ledger(&account(B)), Some(ledger(100, 50, vec![(50, 15)])));

    assert_eq!(staking.withdraw_unbonded(account(B), 15), Ok(()));
    assert_eq!(staking.ledger(&account(B)), Some(ledger(50, 50, vec![])));
    assert_eq!(staking.bonded(&account(A)), Some(account(B)));
}

#[test]
fn unbond_with_a_given_delay() {
    let (_, mut staking) = bonded(100);
    assert_eq!(staking.unbond_with_delay(account(B), 50, 5, Ok(10)), Ok(()));
    assert_eq!(staking.ledger(&account(B)), Some(ledger(100, 50, vec![(50, 15)])));
    assert_eq!(
        staking.unbond_with_delay(
            account(B),
            10,
            6,
            Err(ClusterVisitorError::ClusterGovParamsNotSet)
        ),
        Err(Error::ClusterVisitor(ClusterVisitorError::ClusterGovParamsNotSet))
    );
    assert_eq!(staking.ledger(&account(B)), Some(ledger(100, 50, vec![(50, 15)])));
    assert_eq!(
        staking.unbond_with_delay(account(B), 0, 6, Err(ClusterVisitorError::ClusterDoesNotExist)),
        Ok(())
    );
    assert_eq!(staking.unbond_with_delay(account(B), 10, 5, Ok(10)), Ok(()));
    assert_eq!(staking.ledger(&account(B)), Some(ledger(100, 40, vec![(60, 15)])));
    assert_eq!(staking.unbond_with_delay(account(B), 10, 0, Ok(3)), Ok(()));
    assert_eq!(staking.ledger(&account(B)), Some(ledger(100, 30, vec![(10, 3), (60, 15)])));
    assert_eq!(staking.unbond_with_delay(account(9), 10, 0, Ok(3)), Err(Error::NotController));
}

#[test]
fn outside_every_cluster_unbonding_is_not_delayed() {
    let clusters = Clusters::new();
    let (_, mut staking) = bonded(100);
    assert_eq!(staking.unbond(&clusters, account(B), 30, 7), Ok(()));
    assert_eq!(staking.ledger(&account(B)), Some(ledger(100, 70, vec![(30, 7)])));
    assert_eq!(staking.withdraw_unbonded(account(B), 7), Ok(()));
    assert_eq!(staking.ledger(&account(B)), Some(ledger(70, 70, vec![])));
}

#[test]
fn unbonding_takes_the_delay_of_the_kind_of_service() {
    let clusters = clusters_with(cluster(1), gov_params(10, 50, 10));
    let (mut registry, mut staking) = bonded(100);
    assert_eq!(staking.store(&mut registry, &clusters, account(B), cluster(1)), Ok(()));
    assert_eq!(staking.unbond(&clusters, account(B), 20, 5), Ok(()));
    assert_eq!(staking.ledger(&account(B)), Some(ledger(100, 80, vec![(20, 16)])));
    assert_eq!(staking.serve(&mut registry, &clusters, account(B), cluster(1)), Ok(()));
    assert_eq!(staking.unbond(&clusters, account(B), 20, 5), Ok(()));
    assert_eq!(staking.ledger(&account(B)), Some(ledger(100, 60, vec![(20, 15), (20, 16)])));
}

#[test]
fn unbond_reports_what_the_cluster_reports() {
    let clusters = clusters_with(cluster(1), gov_params(10, 50, 10));
    let (mut registry, mut staking) = bonded(100);
    assert_eq!(staking.serve(&mut registry, &clusters, account(B), cluster(1)), Ok(()));
    let gone = Clusters::new();
    assert_eq!(
        staking.unbond(&gone, account(B), 20, 5),
        Err(Error::ClusterVisitor(ClusterVisitorError::ClusterDoesNotExist))
    );
    assert_eq!(staking.ledger(&account(B)), Some(ledger(100, 100, vec![])));
    assert_eq!(staking.unbond(&gone, account(B), 0, 5), Ok(()));
    assert_eq!(staking.unbond(&gone, account(9), 20, 5), Err(Error::NotController));
}

#[test]
fn bond_refuses_what_is_taken() {
    let (_, mut staking) = bonded(100);
    let other = NodePubKey::StoragePubKey(account(b'K'));
    assert_eq!(staking.bond(account(A), account(3), other, 1), Err(Error::AlreadyBonded));
    assert_eq!(staking.bond(account(2), account(B), other, 1), Err(Error::ControllerInUse));
    assert_eq!(staking.bond(account(2), account(3), key(), 1), Err(Error::NodeAlreadyBonded));
    assert_eq!(staking.bonded(&account(2)), None);
    assert_eq!(staking.ledger(&account(3)), None);
    assert_eq!(staking.nodes(&other), None);
    assert_eq!(staking.bond(account(2), account(3), other, 1), Ok(()));
    assert_eq!(staking.nodes(&other), Some(account(2)));
    assert_eq!(staking.ledger(&account(B)), Some(ledger(100, 100, vec![])));
}

#[test]
fn a_stash_may_control_itself() {
    let mut staking = DdcStaking::new();
    assert_eq!(staking.bond(account(A), account(A), key(), 10), Ok(()));
    assert_eq!(staking.bonded(&account(A)), Some(account(A)));
    assert_eq!(staking.ledger(&account(A)), Some(ledger(10, 10, vec![])));
}

#[test]
fn withdrawal_of_everything_ends_the_bond() {
    let clusters = Clusters::new();
    let (_, mut staking) = bonded(100);
    let other = NodePubKey::StoragePubKey(account(7));
    assert_eq!(staking.bond(account(2), account(3), other, 5), Ok(()));
    assert_eq!(staking.unbond(&clusters, account(B), 100, 3), Ok(()));
    assert_eq!(staking.withdraw_unbonded(account(B), 2), Ok(()));
    assert_eq!(staking.ledger(&account(B)), Some(ledger(100, 0, vec![(100, 3)])));
    assert_eq!(staking.withdraw_unbonded(account(B), 3), Ok(()));
    assert_eq!(staking.ledger(&account(B)), None);
    assert_eq!(staking.bonded(&account(A)), None);
    assert_eq!(staking.nodes(&key()), None);
    assert_eq!(staking.bonded(&account(2)), Some(account(3)));
    assert_eq!(staking.nodes(&other), Some(account(2)));
    assert_eq!(staking.withdraw_unbonded(account(B), 3), Err(Error::NotController));
    assert_eq!(staking.bond(account(A), account(B), key(), 1), Ok(()));
}

#[test]
fn serve_needs_the_bond_size_of_the_cluster() {
    let clusters = clusters_with(cluster(1), gov_params(10, 50, 10));
    let (mut registry, mut staking) = bonded(9);
    assert_eq!(
        staking.serve(&mut registry, &clusters, account(B), cluster(1)),
        Err(Error::InsufficientBond)
    );
    assert_eq!(staking.cdns(&account(A)), None);
    assert_eq!(staking.storages(&account(A)), None);
    assert_eq!(registry.cdn_nodes(&account(b'K')).unwrap().cluster_id, None);

    let (mut registry, mut staking) = bonded(10);
    assert_eq!(
        staking.store(&mut registry, &clusters, account(B), cluster(1)),
        Err(Error::InsufficientBond)
    );
    assert_eq!(staking.serve(&mut registry, &clusters, account(B), cluster(1)), Ok(()));
    assert_eq!(
        staking.cdns(&account(A)),
        Some(Membership { cluster_id: cluster(1), chill_requested_at: None })
    );
    assert_eq!(staking.storages(&account(A)), None);
    assert_eq!(registry.cdn_nodes(&account(b'K')).unwrap().cluster_id, Some(cluster(1)));
    assert_eq!(staking.role(&account(A)), Some((cluster(1), NodeType::CDN)));
}

#[test]
fn active_stake_counts_for_the_bond_size() {
    let clusters = clusters_with(cluster(1), gov_params(10, 50, 10));
    let (mut registry, mut staking) = bonded(15);
    assert_eq!(staking.unbond(&clusters, account(B), 6, 0), Ok(()));
    assert_eq!(
        staking.serve(&mut registry, &clusters, account(B), cluster(1)),
        Err(Error::InsufficientBond)
    );
}

#[test]
fn store_and_serve_report_what_the_cluster_reports() {
    let clusters = clusters_with(cluster(1), gov_params(10, 50, 10));
    let (mut registry, mut staking) = bonded(100);
    assert_eq!(
        staking.serve(&mut registry, &clusters, account(B), cluster(2)),
        Err(Error::ClusterVisitor(ClusterVisitorError::ClusterDoesNotExist))
    );
    assert_eq!(
        staking.store(&mut registry, &clusters, account(B), cluster(2)),
        Err(Error::ClusterVisitor(ClusterVisitorError::ClusterDoesNotExist))
    );
    assert_eq!(
        staking.join_cluster(
            &mut registry,
            account(B),
            cluster(1),
            NodeType::Storage,
            Err(ClusterVisitorError::ClusterGovParamsNotSet)
        ),
        Err(Error::ClusterVisitor(ClusterVisitorError::ClusterGovParamsNotSet))
    );
    assert_eq!(
        staking.serve(&mut registry, &clusters, account(9), cluster(2)),
        Err(Error::NotController)
    );
    assert_eq!(
        staking.store(&mut registry, &clusters, account(A), cluster(1)),
        Err(Error::NotController)
    );
    assert_eq!(staking.cdns(&account(A)), None);
    assert_eq!(staking.storages(&account(A)), None);
    assert_eq!(registry.cdn_nodes(&account(b'K')).unwrap().cluster_id, None);
}

#[test]
fn store_and_serve_need_the_node_in_the_registry() {
    let clusters = clusters_with(cluster(1), gov_params(10, 50, 10));
    let mut registry = Pallet::new();
    let mut staking = DdcStaking::new();
    assert_eq!(staking.bond(account(A), account(B), key(), 100), Ok(()));
    assert_eq!(
        staking.serve(&mut registry, &clusters, account(B), cluster(1)),
        Err(Error::NodeNotFound)
    );
    assert_eq!(staking.cdns(&account(A)), None);
}

#[test]
fn store_admits_a_provider_of_storage() {
    let clusters = clusters_with(cluster(1), gov_params(10, 50, 10));
    let mut registry = Pallet::new();
    let node = NodePubKey::StoragePubKey(account(7));
    assert_eq!(
        registry.create_node(
            account(A),
            node,
            NodeParams::StorageParams(StorageNodeParams { params: vec![1] })
        ),
        Ok(node)
    );
    let mut staking = DdcStaking::new();
    assert_eq!(staking.bond(account(A), account(B), node, 11), Ok(()));
    assert_eq!(staking.store(&mut registry, &clusters, account(B), cluster(1)), Ok(()));
    assert_eq!(
        staking.storages(&account(A)),
        Some(Membership { cluster_id: cluster(1), chill_requested_at: None })
    );
    assert_eq!(staking.cdns(&account(A)), None);
    assert_eq!(registry.storage_nodes(&account(7)).unwrap().cluster_id, Some(cluster(1)));
    assert_eq!(staking.role(&account(A)), Some((cluster(1), NodeType::Storage)));
    assert_eq!(
        registry.remove_node(account(A), node),
        Err(NodesError::NodeIsAssignedToCluster)
    );
}

#[test]
fn chill_announces_waits_and_leaves() {
    let clusters = clusters_with(cluster(1), gov_params(10, 50, 10));
    let (mut registry, mut staking) = bonded(100);
    assert_eq!(staking.serve(&mut registry, &clusters, account(B), cluster(1)), Ok(()));

    assert_eq!(staking.chill(&mut registry, &clusters, account(B), 1), Ok(()));
    assert_eq!(
        staking.cdns(&account(A)),
        Some(Membership { cluster_id: cluster(1), chill_requested_at: Some(1) })
    );
    assert_eq!(registry.cdn_nodes(&account(b'K')).unwrap().cluster_id, Some(cluster(1)));

    assert_eq!(staking.chill(&mut registry, &clusters, account(B), 50), Ok(()));
    assert_eq!(
        staking.cdns(&account(A)),
        Some(Membership { cluster_id: cluster(1), chill_requested_at: Some(1) })
    );
    assert_eq!(registry.cdn_nodes(&account(b'K')).unwrap().cluster_id, Some(cluster(1)));

    assert_eq!(staking.chill(&mut registry, &clusters, account(B), 51), Ok(()));
    assert_eq!(staking.cdns(&account(A)), None);
    assert_eq!(registry.cdn_nodes(&account(b'K')).unwrap().cluster_id, None);
    assert_eq!(staking.role(&account(A)), None);

    assert_eq!(staking.chill(&mut registry, &clusters, account(B), 52), Err(Error::NotActive));
    assert_eq!(registry.remove_node(account(A), key()), Ok(()));
}

#[test]
fn chill_refuses_strangers_and_the_inactive() {
    let clusters = clusters_with(cluster(1), gov_params(10, 50, 10));
    let (mut registry, mut staking) = bonded(100);
    assert_eq!(staking.chill(&mut registry, &clusters, account(9), 1), Err(Error::NotController));
    assert_eq!(staking.chill(&mut registry, &clusters, account(B), 1), Err(Error::NotActive));
}

#[test]
fn chill_with_a_given_delay() {
    let (mut registry, mut staking) = bonded(100);
    assert_eq!(
        staking.join_cluster(&mut registry, account(B), cluster(1), NodeType::CDN, Ok(100)),
        Ok(())
    );
    let gone = Err(ClusterVisitorError::ClusterDoesNotExist);
    assert_eq!(staking.chill_with_delay(&mut registry, account(B), 7, gone), Ok(()));
    assert_eq!(
        staking.cdns(&account(A)),
        Some(Membership { cluster_id: cluster(1), chill_requested_at: Some(7) })
    );
    assert_eq!(
        staking.chill_with_delay(&mut registry, account(B), 8, gone),
        Err(Error::ClusterVisitor(ClusterVisitorError::ClusterDoesNotExist))
    );
    assert_eq!(staking.chill_with_delay(&mut registry, account(B), 8, Ok(2)), Ok(()));
    assert!(staking.cdns(&account(A)).is_some());
    assert_eq!(staking.chill_with_delay(&mut registry, account(B), u32::MAX, Ok(u32::MAX)), Ok(()));
    assert!(staking.cdns(&account(A)).is_some());
    assert_eq!(staking.chill_with_delay(&mut registry, account(B), 9, Ok(2)), Ok(()));
    assert_eq!(staking.cdns(&account(A)), None);
    assert_eq!(registry.cdn_nodes(&account(b'K')).unwrap().cluster_id, None);
}

#[test]
fn a_delay_of_zero_lets_the_second_call_leave() {
    let (mut registry, mut staking) = bonded(100);
    assert_eq!(
        staking.join_cluster(&mut registry, account(B), cluster(1), NodeType::Storage, Ok(0)),
        Ok(())
    );
    assert_eq!(staking.chill_with_delay(&mut registry, account(B), 4, Ok(0)), Ok(()));
    assert!(staking.storages(&account(A)).is_some());
    assert_eq!(staking.chill_with_delay(&mut registry, account(B), 4, Ok(0)), Ok(()));
    assert_eq!(staking.storages(&account(A)), None);
}

#[test]
fn serving_again_takes_the_announcement_back() {
    let clusters = clusters_with(cluster(1), gov_params(10, 50, 10));
    let (mut registry, mut staking) = bonded(100);
    assert_eq!(staking.serve(&mut registry, &clusters, account(B), cluster(1)), Ok(()));
    assert_eq!(staking.chill(&mut registry, &clusters, account(B), 1), Ok(()));
    assert_eq!(staking.serve(&mut registry, &clusters, account(B), cluster(1)), Ok(()));
    assert_eq!(
        staking.cdns(&account(A)),
        Some(Membership { cluster_id: cluster(1), chill_requested_at: None })
    );
}

#[test]
fn set_controller_hands_the_ledger_over() {
    let clusters = Clusters::new();
    let (_, mut staking) = bonded(100);
    assert_eq!(staking.unbond(&clusters, account(B), 40, 3), Ok(()));
    assert_eq!(staking.set_controller(account(A), account(3)), Ok(()));
    assert_eq!(staking.bonded(&account(A)), Some(account(3)));
    assert_eq!(staking.ledger(&account(B)), None);
    assert_eq!(staking.ledger(&account(3)), Some(ledger(100, 60, vec![(40, 3)])));
    assert_eq!(staking.unbond(&clusters, account(B), 1, 3), Err(Error::NotController));
    assert_eq!(staking.unbond(&clusters, account(3), 1, 3), Ok(()));
}

#[test]
fn set_controller_refuses_strangers_and_busy_controllers() {
    let (_, mut staking) = bonded(100);
    let other = NodePubKey::StoragePubKey(account(7));
    assert_eq!(staking.bond(account(2), account(3), other, 5), Ok(()));
    assert_eq!(staking.set_controller(account(9), account(4)), Err(Error::NotStash));
    assert_eq!(staking.set_controller(account(B), account(4)), Err(Error::NotStash));
    assert_eq!(staking.set_controller(account(A), account(3)), Err(Error::ControllerInUse));
    assert_eq!(staking.bonded(&account(A)), Some(account(B)));
    assert_eq!(staking.ledger(&account(B)), Some(ledger(100, 100, vec![])));
    assert_eq!(staking.set_controller(account(A), account(B)), Ok(()));
    assert_eq!(staking.bonded(&account(A)), Some(account(B)));
    assert_eq!(staking.ledger(&account(B)), Some(ledger(100, 100, vec![])));
}

#[test]
fn set_node_moves_the_stash_behind_another_node() {
    let (_, mut staking) = bonded(100);
    let new_node = NodePubKey::CDNPubKey(account(1));
    assert_eq!(staking.set_node(account(A), new_node), Ok(()));
    assert_eq!(staking.nodes(&new_node), Some(account(A)));
    assert_eq!(staking.nodes(&key()), None);
    assert_eq!(staking.set_node(account(A), new_node), Ok(()));
    assert_eq!(staking.nodes(&new_node), Some(account(A)));
}

#[test]
fn set_node_refuses_strangers_and_taken_nodes() {
    let (_, mut staking) = bonded(100);
    let other = NodePubKey::StoragePubKey(account(7));
    assert_eq!(staking.bond(account(2), account(3), other, 5), Ok(()));
    assert_eq!(staking.set_node(account(9), NodePubKey::CDNPubKey(account(1))), Err(Error::NotStash));
    assert_eq!(staking.set_node(account(A), other), Err(Error::NodeAlreadyBonded));
    assert_eq!(staking.nodes(&key()), Some(account(A)));
    assert_eq!(staking.nodes(&other), Some(account(2)));
}

#[test]
fn after_set_node_the_new_node_joins_the_cluster() {
    let clusters = clusters_with(cluster(1), gov_params(10, 50, 10));
    let (mut registry, mut staking) = bonded(100);
    let new_node = NodePubKey::CDNPubKey(account(1));
    assert_eq!(
        registry.create_node(
            account(A),
            new_node,
            NodeParams::CDNParams(CDNNodeParams { params: vec![] })
        ),
        Ok(new_node)
    );
    assert_eq!(staking.set_node(account(A), new_node), Ok(()));
    assert_eq!(staking.serve(&mut registry, &clusters, account(B), cluster(1)), Ok(()));
    assert_eq!(registry.cdn_nodes(&account(1)).unwrap().cluster_id, Some(cluster(1)));
    assert_eq!(registry.cdn_nodes(&account(b'K')).unwrap().cluster_id, None);
}

#[test]
fn only_root_allows_and_disallows_cluster_managers() {
    let mut staking = DdcStaking::new();
    assert_eq!(
        staking.allow_cluster_manager(Origin::Signed(account(1)), account(1)),
        Err(Error::AuthorizationError)
    );
    assert_eq!(
        staking.allow_cluster_manager(Origin::Unsigned, account(1)),
        Err(Error::AuthorizationError)
    );
    assert!(staking.cluster_managers().is_empty());
    assert_eq!(staking.allow_cluster_manager(Origin::Root, account(1)), Ok(()));
    assert_eq!(
        staking.disallow_cluster_manager(Origin::Signed(account(1)), account(1)),
        Err(Error::AuthorizationError)
    );
    assert_eq!(
        staking.disallow_cluster_manager(Origin::Unsigned, account(1)),
        Err(Error::AuthorizationError)
    );
    assert_eq!(staking.cluster_managers(), vec![account(1)]);
}

#[test]
fn cluster_managers_are_a_set_in_the_order_of_their_admission() {
    let mut staking = DdcStaking::new();
    assert_eq!(staking.allow_cluster_manager(Origin::Root, account(3)), Ok(()));
    assert_eq!(staking.allow_cluster_manager(Origin::Root, account(1)), Ok(()));
    assert_eq!(staking.allow_cluster_manager(Origin::Root, account(2)), Ok(()));
    assert_eq!(staking.allow_cluster_manager(Origin::Root, account(1)), Ok(()));
    assert_eq!(staking.cluster_managers(), vec![account(3), account(1), account(2)]);
    assert_eq!(staking.disallow_cluster_manager(Origin::Root, account(1)), Ok(()));
    assert_eq!(staking.cluster_managers(), vec![account(3), account(2)]);
    assert_eq!(staking.disallow_cluster_manager(Origin::Root, account(1)), Ok(()));
    assert_eq!(staking.disallow_cluster_manager(Origin::Root, account(9)), Ok(()));
    assert_eq!(staking.cluster_managers(), vec![account(3), account(2)]);
}

#[test]
fn the_list_of_cluster_managers_is_bounded() {
    let mut staking = DdcStaking::new();
    assert_eq!(MAX_CLUSTER_MANAGERS, 32);
    for i in 0..32u8 {
        assert_eq!(staking.allow_cluster_manager(Origin::Root, account(i)), Ok(()));
    }
    assert_eq!(staking.cluster_managers().len(), 32);
    assert_eq!(
        staking.allow_cluster_manager(Origin::Root, account(32)),
        Err(Error::TooManyClusterManagers)
    );
    assert_eq!(staking.allow_cluster_manager(Origin::Root, account(5)), Ok(()));
    assert_eq!(staking.cluster_managers().len(), 32);
    assert_eq!(staking.disallow_cluster_manager(Origin::Root, account(0)), Ok(()));
    assert_eq!(staking.allow_cluster_manager(Origin::Root, account(32)), Ok(()));
    assert_eq!(staking.cluster_managers().len(), 32);
    assert_eq!(staking.cluster_managers()[31], account(32));
}

#[test]
fn clearing_the_clusters_keeps_the_bonds() {
    let clusters = clusters_with(cluster(1), gov_params(10, 50, 10));
    let (mut registry, mut staking) = bonded(100);
    assert_eq!(staking.serve(&mut registry, &clusters, account(B), cluster(1)), Ok(()));
    assert_eq!(staking.store(&mut registry, &clusters, account(B), cluster(1)), Ok(()));
    staking.clear_storages_and_cdns();
    assert_eq!(staking.cdns(&account(A)), None);
    assert_eq!(staking.storages(&account(A)), None);
    assert_eq!(staking.ledger(&account(B)), Some(ledger(100, 100, vec![])));
    assert_eq!(staking.bonded(&account(A)), Some(account(B)));
    assert_eq!(staking.nodes(&key()), Some(account(A)));
}

fn is_balanced(ledger: &StakingLedger) -> bool {
    let unlocking: u128 = ledger.unlocking.iter().map(|chunk| chunk.value).sum();
    ledger.total == ledger.active + unlocking
        && ledger.unlocking.windows(2).all(|pair| pair[0].era < pair[1].era)
}

#[test]
fn every_ledger_stays_balanced() {
    let clusters = clusters_with(cluster(1), gov_params(10, 50, 10));
    let (mut registry, mut staking) = bonded(1000);
    let other = NodePubKey::StoragePubKey(account(7));
    assert_eq!(staking.bond(account(2), account(3), other, 77), Ok(()));
    let controllers = [account(B), account(3)];
    let balanced = |staking: &DdcStaking| {
        controllers.iter().all(|c| staking.ledger(c).map_or(true, |l| is_balanced(&l)))
    };
    assert!(balanced(&staking));
    assert_eq!(staking.unbond(&clusters, account(B), 100, 3), Ok(()));
    assert!(balanced(&staking));
    assert_eq!(staking.serve(&mut registry, &clusters, account(B), cluster(1)), Ok(()));
    assert_eq!(staking.unbond(&clusters, account(B), 200, 3), Ok(()));
    assert!(balanced(&staking));
    assert_eq!(staking.unbond(&clusters, account(B), 50, 3), Ok(()));
    assert_eq!(staking.unbond(&clusters, account(3), 7, 1), Ok(()));
    assert!(balanced(&staking));
    assert_eq!(
        staking.ledger(&account(B)),
        Some(ledger(1000, 650, vec![(100, 3), (250, 13)]))
    );
    assert_eq!(staking.set_controller(account(A), account(4)), Ok(()));
    assert!(staking.ledger(&account(4)).map_or(false, |l| is_balanced(&l)));
    assert_eq!(staking.withdraw_unbonded(account(4), 5), Ok(()));
    assert_eq!(staking.ledger(&account(4)), Some(ledger(900, 650, vec![(250, 13)])));
    assert_eq!(staking.unbond(&clusters, account(4), 10_000, 6), Ok(()));
    assert_eq!(staking.ledger(&account(4)), Some(ledger(900, 0, vec![(250, 13), (650, 16)])));
    assert_eq!(staking.withdraw_unbonded(account(4), 15), Ok(()));
    assert_eq!(staking.ledger(&account(4)), Some(ledger(650, 0, vec![(650, 16)])));
    assert_eq!(staking.withdraw_unbonded(account(3), 1), Ok(()));
    assert!(balanced(&staking));
    assert_eq!(staking.ledger(&account(3)).unwrap().total, 70);
}
