use ddc_node_staking::clusters::Clusters;
use ddc_node_staking::nodes::Pallet;
use ddc_node_staking::primitives::{AccountId32, ClusterId, NodePubKey};
use ddc_node_staking::staking::{DdcStaking, Origin};
use ddc_node_staking::testing_utils::{
    clear_storages_and_cdns, create_funded_user, create_stash_controller_node,
    create_stash_controller_node_with_balance, fixture_account,
};

const MINIMUM_BALANCE: u128 = 10;
const USER_SEED: u32 = 999666;

fn stash(n: u32) -> AccountId32 {
    fixture_account("stash", n)
}

fn controller(n: u32) -> AccountId32 {
    fixture_account("controller", n)
}

struct World {
    registry: Pallet,
    staking: DdcStaking,
    clusters: Clusters,
}

fn world() -> World {
    World { registry: Pallet::new(), staking: DdcStaking::new(), clusters: Clusters::new() }
}

fn with_stash(n: u32, balance_factor: u32) -> World {
    let mut w = world();
    let made = create_stash_controller_node(
        &mut w.registry,
        &mut w.staking,
        n,
        MINIMUM_BALANCE,
        balance_factor,
    );
    assert_eq!(made, Ok((stash(n), controller(n), NodePubKey::CDNPubKey(AccountId32::new([0; 32])))));
    w
}

fn with_stash_in_cluster(n: u32, balance_factor: u128, node: NodePubKey) -> World {
    let mut w = world();
    let made = create_stash_controller_node_with_balance(
        &mut w.registry,
        &mut w.staking,
        &mut w.clusters,
        n,
        MINIMUM_BALANCE,
        balance_factor,
        node,
    );
    assert_eq!(made, Ok((stash(n), controller(n), node)));
    w
}

#[test]
fn bond() {
    let mut w = world();
    let (user, funds) = create_funded_user("stash", USER_SEED, MINIMUM_BALANCE, 100);
    assert_eq!((user, funds), (stash(USER_SEED), 1000));
    let (other, funds) = create_funded_user("controller", USER_SEED, MINIMUM_BALANCE, 100);
    assert_eq!((other, funds), (controller(USER_SEED), 1000));
    assert_ne!(user, other);
    let node = NodePubKey::CDNPubKey(AccountId32::new([0; 32]));
    let amount = MINIMUM_BALANCE * 10;
    assert_eq!(w.staking.bond(stash(USER_SEED), controller(USER_SEED), node, amount), Ok(()));
    assert!(w.staking.bonded(&stash(USER_SEED)).is_some());
    assert!(w.staking.ledger(&controller(USER_SEED)).is_some());
    assert!(w.staking.nodes(&node).is_some());
}

#[test]
fn unbond() {
    let mut w = with_stash(0, 100);
    clear_storages_and_cdns(&mut w.staking);
    let original_bonded = w.staking.ledger(&controller(0)).expect("ledger not created before").active;
    assert_eq!(original_bonded, 100);
    let amount = MINIMUM_BALANCE * 5;
    assert_eq!(w.staking.unbond(&w.clusters, controller(0), amount, 0), Ok(()));
    let new_bonded = w.staking.ledger(&controller(0)).expect("ledger not created after").active;
    assert!(original_bonded > new_bonded);
    assert_eq!(new_bonded, 50);
}

#[test]
fn withdraw_unbonded() {
    let mut w = with_stash(0, 100);
    let amount = MINIMUM_BALANCE * 5;
    assert_eq!(w.staking.unbond(&w.clusters, controller(0), amount, 0), Ok(()));
    let original_total = w.staking.ledger(&controller(0)).expect("ledger not created before").total;
    assert_eq!(w.staking.withdraw_unbonded(controller(0), u32::MAX), Ok(()));
    let new_total = w.staking.ledger(&controller(0)).expect("ledger not created after").total;
    assert!(original_total > new_total);
    assert_eq!((original_total, new_total), (100, 50));
}

#[test]
fn store() {
    let node = NodePubKey::StoragePubKey(AccountId32::new([0; 32]));
    let mut w = with_stash_in_cluster(0, 100, node);
    assert_eq!(
        w.staking.store(&mut w.registry, &w.clusters, controller(0), ClusterId::new([1; 20])),
        Ok(())
    );
    assert!(w.staking.storages(&stash(0)).is_some());
}

#[test]
fn serve() {
    let node = NodePubKey::CDNPubKey(AccountId32::new([0; 32]));
    let mut w = with_stash_in_cluster(0, 100, node);
    assert_eq!(
        w.staking.serve(&mut w.registry, &w.clusters, controller(0), ClusterId::new([1; 20])),
        Ok(())
    );
    assert!(w.staking.cdns(&stash(0)).is_some());
}

#[test]
fn chill() {
    let node = NodePubKey::CDNPubKey(AccountId32::new([0; 32]));
    let mut w = with_stash_in_cluster(0, 100, node);
    clear_storages_and_cdns(&mut w.staking);
    let cluster = ClusterId::new([1; 20]);
    assert_eq!(w.staking.serve(&mut w.registry, &w.clusters, controller(0), cluster), Ok(()));
    assert!(w.staking.cdns(&stash(0)).is_some());
    assert_eq!(w.staking.chill(&mut w.registry, &w.clusters, controller(0), 1), Ok(()));
    assert!(w.staking.cdns(&stash(0)).is_some());
    assert_eq!(w.staking.chill(&mut w.registry, &w.clusters, controller(0), 1 + 50), Ok(()));
    assert!(w.staking.cdns(&stash(0)).is_none());
}

#[test]
fn set_controller() {
    let mut w = with_stash(USER_SEED, 100);
    let new_controller = fixture_account("new_controller", USER_SEED);
    assert_eq!(w.staking.set_controller(stash(USER_SEED), new_controller), Ok(()));
    assert!(w.staking.ledger(&new_controller).is_some());
}

#[test]
fn set_node() {
    let mut w = with_stash(USER_SEED, 100);
    let new_node = NodePubKey::CDNPubKey(AccountId32::new([1; 32]));
    assert_eq!(w.staking.set_node(stash(USER_SEED), new_node), Ok(()));
    assert!(w.staking.nodes(&new_node).is_some());
}

#[test]
fn allow_cluster_manager() {
    let mut w = world();
    let new_cluster_manager = fixture_account("cluster_manager", USER_SEED);
    assert_eq!(w.staking.allow_cluster_manager(Origin::Root, new_cluster_manager), Ok(()));
    assert!(w.staking.cluster_managers().contains(&new_cluster_manager));
}

#[test]
fn disallow_cluster_manager() {
    let mut w = world();
    let new_cluster_manager = fixture_account("cluster_manager", USER_SEED);
    assert_eq!(w.staking.allow_cluster_manager(Origin::Root, new_cluster_manager), Ok(()));
    assert!(w.staking.cluster_managers().contains(&new_cluster_manager));
    assert_eq!(w.staking.disallow_cluster_manager(Origin::Root, new_cluster_manager), Ok(()));
    assert!(!w.staking.cluster_managers().contains(&new_cluster_manager));
}
