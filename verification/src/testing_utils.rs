//! Fixtures: a funded user, and a stash with its controller behind a node.
//!
//! The accounts of the fixtures are those of `frame_benchmarking::account`. What that function
//! returns is given a name here and not computed: Verus believes that the same name, index
//! and seed give the same account, and knows no more of it.

use crate::cdn_node::CDNNodeParams;
use crate::cluster::{ClusterCreator, ClusterCreatorError, ClusterGovParams, ClusterParams};
use crate::node::{NodeParams, NodeView};
use crate::nodes::Pallet;
use crate::primitives::{AccountId, AccountId32, Balance, ClusterId, NodePubKey};
use crate::staking::{DdcStaking, StakingView};
use crate::storage_node::StorageNodeParams;
use vstd::prelude::*;

verus! {

/// Why a fixture could not be set up.
#[derive(Clone, Copy, Debug, PartialEq, Eq, Structural)]
pub enum FixtureError {
    /// The node registry refused the node.
    Node(crate::nodes::Error),
    /// The cluster could not be created.
    Cluster(ClusterCreatorError),
    /// The stash could not be bonded.
    Staking(crate::staking::Error),
}

/// The seed of every account of the fixtures.
pub const SEED: u32 = 0;

/// The 32 bytes of the account that `frame_benchmarking::account` derives from a name, an
/// index and a seed.
pub uninterp spec fn benchmark_account(name: Seq<char>, index: u32, seed: u32) -> Seq<u8>;

/// The account of the fixtures for a name and an index.
pub open spec fn account_of(name: Seq<char>, index: u32) -> AccountId {
    AccountId32 { bytes: choose|bytes: [u8; 32]| bytes@ == benchmark_account(name, index, SEED) }
}

/// `frame_benchmarking::account`, believed: the account is a function of the name, the index
/// and the seed.
#[verifier::external_body]
fn account(name: &'static str, index: u32, seed: u32) -> (r: AccountId)
    ensures
        r.bytes@ == benchmark_account(name@, index, seed),
{
    AccountId32 { bytes: frame_benchmarking::account::<[u8; 32]>(name, index, seed) }
}

/// The account of the fixtures for a name and an index.
pub fn fixture_account(name: &'static str, index: u32) -> (r: AccountId)
    ensures
        r == account_of(name@, index),
{
    let r = account(name, index, SEED);
    proof {
        let chosen = choose|bytes: [u8; 32]| bytes@ == benchmark_account(name@, index, SEED);
        assert(r.bytes@ == benchmark_account(name@, index, SEED));
        assert(chosen =~= r.bytes);
    }
    r
}

/// The bytes that the fixtures give their nodes as parameters.
pub open spec fn fixture_params() -> Seq<u8> {
    seq![1u8, 255u8]
}

/// The public key of the node of `create_stash_controller_node`: a CDN key of zeros.
pub open spec fn fixture_node() -> NodePubKey {
    NodePubKey::CDNPubKey(
        AccountId32 { bytes: vstd::array::spec_array_fill_for_copy_type::<u8, 32>(0u8) },
    )
}

/// The cluster that `create_stash_controller_node_with_balance` creates.
pub open spec fn fixture_cluster_id() -> ClusterId {
    ClusterId { bytes: vstd::array::spec_array_fill_for_copy_type::<u8, 20>(1u8) }
}

/// The parameters of the fixtures' cluster: bond sizes of 10, delays of 50 eras, prices of
/// 10 and no shares.
pub open spec fn fixture_gov_params() -> ClusterGovParams {
    ClusterGovParams {
        treasury_share: 0,
        validators_share: 0,
        cluster_reserve_share: 0,
        cdn_bond_size: 10,
        cdn_chill_delay: 50,
        cdn_unbonding_delay: 50,
        storage_bond_size: 10,
        storage_chill_delay: 50,
        storage_unbonding_delay: 50,
        unit_per_mb_stored: 10,
        unit_per_mb_streamed: 10,
        unit_per_put_request: 10,
        unit_per_get_request: 10,
    }
}

/// The node that a fixture registers for `stash` under `node`.
pub open spec fn fixture_node_view(stash: AccountId, node: NodePubKey) -> NodeView {
    NodeView { pub_key: node, provider_id: stash, cluster_id: None, props: fixture_params() }
}

/// What the fixtures bond for a balance factor: the minimum balance once for each ten of
/// the factor, and once at least.
pub open spec fn fixture_bond(minimum_balance: Balance, balance_factor: u32) -> int {
    if balance_factor / 10 >= 1 {
        minimum_balance * (balance_factor / 10)
    } else {
        minimum_balance as int
    }
}

/// Bonding a stash once its cluster was asked for: an error of the cluster ends the
/// fixture, else the stash is bonded and the three names are the answer.
pub open spec fn bond_in_cluster_spec(
    staking: StakingView,
    created: Result<(), ClusterCreatorError>,
    stash: AccountId,
    controller: AccountId,
    node: NodePubKey,
    amount: Balance,
) -> (StakingView, Result<(AccountId, AccountId, NodePubKey), FixtureError>) {
    match created {
        Err(e) => (staking, Err(FixtureError::Cluster(e))),
        Ok(_) => match staking.bond(stash, controller, node, amount) {
            (_, Err(e)) => (staking, Err(FixtureError::Staking(e))),
            (after, Ok(_)) => (after, Ok((stash, controller, node))),
        },
    }
}

/// What the fixtures hand over when they ask for their cluster: its identifier, its
/// parameters, which name `stash` as the contract that admits node providers, and the
/// parameters that its governance sets.
pub fn fixture_cluster(stash: AccountId) -> (r: (ClusterId, ClusterParams, ClusterGovParams))
    ensures
        r.0 == fixture_cluster_id(),
        r.1 == (ClusterParams { node_provider_auth_contract: stash }),
        r.2 == fixture_gov_params(),
{
    (
        ClusterId::new([1u8;20]),
        ClusterParams { node_provider_auth_contract: stash },
        ClusterGovParams {
            treasury_share: 0,
            validators_share: 0,
            cluster_reserve_share: 0,
            cdn_bond_size: 10,
            cdn_chill_delay: 50,
            cdn_unbonding_delay: 50,
            storage_bond_size: 10,
            storage_chill_delay: 50,
            storage_unbonding_delay: 50,
            unit_per_mb_stored: 10,
            unit_per_mb_streamed: 10,
            unit_per_put_request: 10,
            unit_per_get_request: 10,
        },
    )
}

/// Takes every stash out of every cluster.
pub fn clear_storages_and_cdns(staking: &mut DdcStaking)
    requires
        old(staking).wf(),
    ensures
        final(staking).wf(),
        final(staking)@ == old(staking)@.without_members(),
{
    staking.clear_storages_and_cdns();
}

/// A user of the fixtures and the balance to fund it with: `balance_factor` times the
/// minimum balance.
pub fn create_funded_user(
    string: &'static str,
    n: u32,
    minimum_balance: Balance,
    balance_factor: u32,
) -> (r: (AccountId, Balance))
    requires
        minimum_balance * balance_factor <= Balance::MAX,
    ensures
        r.0 == account_of(string@, n),
        r.1 == minimum_balance * balance_factor,
{
    let user = fixture_account(string, n);
    let factor: Balance = balance_factor as Balance;
    (user, minimum_balance * factor)
}

/// A user of the fixtures and the balance to fund it with, for a factor of the width of a
/// balance.
pub fn create_funded_user_with_balance(
    string: &'static str,
    n: u32,
    minimum_balance: Balance,
    balance_factor: u128,
) -> (r: (AccountId, Balance))
    requires
        minimum_balance * balance_factor <= Balance::MAX,
    ensures
        r.0 == account_of(string@, n),
        r.1 == minimum_balance * balance_factor,
{
    let user = fixture_account(string, n);
    (user, minimum_balance * balance_factor)
}

/// Registers the fixtures' CDN node for the stash of index `n` and bonds the stash under
/// the controller of that index behind it. An error leaves what was done before it: a node
/// that was registered stays.
pub fn create_stash_controller_node(
    nodes: &mut Pallet,
    staking: &mut DdcStaking,
    n: u32,
    minimum_balance: Balance,
    balance_factor: u32,
) -> (r: Result<(AccountId, AccountId, NodePubKey), FixtureError>)
    requires
        old(nodes).wf(),
        old(staking).wf(),
        minimum_balance * balance_factor <= Balance::MAX,
    ensures
        final(nodes).wf(),
        final(staking).wf(),
        old(nodes)@.dom().contains(fixture_node()) ==> r == Err::<
            (AccountId, AccountId, NodePubKey),
            FixtureError,
        >(FixtureError::Node(crate::nodes::Error::NodeAlreadyExists)) && final(nodes)@ == old(
            nodes,
        )@ && final(staking)@ == old(staking)@,
        !old(nodes)@.dom().contains(fixture_node()) ==> final(nodes)@ == old(nodes)@.insert(
            fixture_node(),
            fixture_node_view(account_of("stash"@, n), fixture_node()),
        ) && (final(staking)@, r) == bond_in_cluster_spec(
            old(staking)@,
            Ok(()),
            account_of("stash"@, n),
            account_of("controller"@, n),
            fixture_node(),
            fixture_bond(minimum_balance, balance_factor) as Balance,
        ),
{
    let (stash, _) = create_funded_user("stash", n, minimum_balance, balance_factor);
    let (controller, _) = create_funded_user("controller", n, minimum_balance, balance_factor);
    let node = NodePubKey::CDNPubKey(AccountId32::new([0u8;32]));
    let params = vec![1u8, 255u8];
    assert(params@ =~= fixture_params());
    match nodes.create_node(stash, node, NodeParams::CDNParams(CDNNodeParams { params })) {
        Ok(_) => {},
        Err(e) => {
            return Err(FixtureError::Node(e));
        },
    }
    let tenth: u32 = balance_factor / 10;
    let amount = if tenth >= 1 {
        assert(minimum_balance * tenth <= minimum_balance * balance_factor) by (nonlinear_arith)
            requires
                tenth <= balance_factor,
        ;
        minimum_balance * (tenth as Balance)
    } else {
        minimum_balance
    };
    bond_in_cluster(staking, Ok(()), stash, controller, node, amount)
}

/// Bonds `stash` under `controller` behind `node`, where the creation of its cluster
/// ended as `created` says.
pub fn bond_in_cluster(
    staking: &mut DdcStaking,
    created: Result<(), ClusterCreatorError>,
    stash: AccountId,
    controller: AccountId,
    node: NodePubKey,
    amount: Balance,
) -> (r: Result<(AccountId, AccountId, NodePubKey), FixtureError>)
    requires
        old(staking).wf(),
    ensures
        final(staking).wf(),
        (final(staking)@, r) == bond_in_cluster_spec(
            old(staking)@,
            created,
            stash,
            controller,
            node,
            amount,
        ),
{
    match created {
        Ok(()) => {},
        Err(e) => {
            return Err(FixtureError::Cluster(e));
        },
    }
    match staking.bond(stash, controller, node, amount) {
        Ok(()) => Ok((stash, controller, node)),
        Err(e) => Err(FixtureError::Staking(e)),
    }
}

/// Registers a node of the kind of `node_pub_key` for the stash of index `n`, creates the
/// fixtures' cluster with the stash as its manager and reserve, and bonds `balance_factor`
/// times the minimum balance of the stash under the controller of that index behind the
/// node. An error leaves what was done before it. Whether the cluster can be created is for
/// `clusters` to say; what becomes of `clusters` is for it to say too.
pub fn create_stash_controller_node_with_balance<C: ClusterCreator>(
    nodes: &mut Pallet,
    staking: &mut DdcStaking,
    clusters: &mut C,
    n: u32,
    minimum_balance: Balance,
    balance_factor: u128,
    node_pub_key: NodePubKey,
) -> (r: Result<(AccountId, AccountId, NodePubKey), FixtureError>)
    requires
        old(nodes).wf(),
        old(staking).wf(),
        old(clusters).creator_wf(),
        minimum_balance * balance_factor <= Balance::MAX,
    ensures
        final(nodes).wf(),
        final(staking).wf(),
        final(clusters).creator_wf(),
        old(nodes)@.dom().contains(node_pub_key) ==> r == Err::<
            (AccountId, AccountId, NodePubKey),
            FixtureError,
        >(FixtureError::Node(crate::nodes::Error::NodeAlreadyExists)) && final(nodes)@ == old(
            nodes,
        )@ && final(staking)@ == old(staking)@,
        !old(nodes)@.dom().contains(node_pub_key) ==> final(nodes)@ == old(nodes)@.insert(
            node_pub_key,
            fixture_node_view(account_of("stash"@, n), node_pub_key),
        ) && (final(staking)@, r) == bond_in_cluster_spec(
            old(staking)@,
            old(clusters).creation(
                fixture_cluster_id(),
                account_of("stash"@, n),
                account_of("stash"@, n),
                ClusterParams { node_provider_auth_contract: account_of("stash"@, n) },
                fixture_gov_params(),
            ),
            account_of("stash"@, n),
            account_of("controller"@, n),
            node_pub_key,
            (minimum_balance * balance_factor) as Balance,
        ),
{
    let (stash, amount) = create_funded_user_with_balance(
        "stash",
        n,
        minimum_balance,
        balance_factor,
    );
    let (controller, _) = create_funded_user_with_balance(
        "controller",
        n,
        minimum_balance,
        balance_factor,
    );
    let params = vec![1u8, 255u8];
    assert(params@ =~= fixture_params());
    let node_params = match node_pub_key {
        NodePubKey::CDNPubKey(_) => NodeParams::CDNParams(CDNNodeParams { params }),
        NodePubKey::StoragePubKey(_) => NodeParams::StorageParams(StorageNodeParams { params }),
    };
    match nodes.create_node(stash, node_pub_key, node_params) {
        Ok(_) => {},
        Err(e) => {
            return Err(FixtureError::Node(e));
        },
    }
    let (cluster_id, cluster_params, cluster_gov_params) = fixture_cluster(stash);
    let created = clusters.create_new_cluster(
        cluster_id,
        stash,
        stash,
        cluster_params,
        cluster_gov_params,
    );
    bond_in_cluster(staking, created, stash, controller, node_pub_key, amount)
}

} // verus!
