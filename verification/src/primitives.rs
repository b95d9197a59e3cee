//! Identifiers and scalar types shared by the node registry and the staking ledger.

use vstd::prelude::*;

verus! {

/// An amount of stake.
pub type Balance = u128;

/// The index of an era, the epoch counter that the host supplies.
pub type EraIndex = u32;

/// The unit in which the clusters give their delays. The staking logic counts them in eras.
pub type BlockNumber = u32;

/// Types that can serve as keys: their executable comparison decides equality.
pub trait Key: Sized {
    /// Whether the two values are equal.
    fn same(&self, other: &Self) -> (r: bool)
        ensures
            r == (*self == *other),
    ;
}

fn same_bytes<const N: usize>(a: &[u8; N], b: &[u8; N]) -> (r: bool)
    ensures
        r == (*a == *b),
{
    let mut i: usize = 0;
    while i < N
        invariant
            i <= N,
            forall|j: int| 0 <= j < i ==> a[j] == b[j],
        decreases N - i,
    {
        if a[i] != b[i] {
            return false;
        }
        i = i + 1;
    }
    assert(*a =~= *b);
    true
}

/// A 32-byte account identifier. Node public keys have the same shape.
#[derive(Clone, Copy, Debug, PartialEq, Eq, Hash)]
pub struct AccountId32 {
    pub bytes: [u8; 32],
}

/// The account type of stashes, controllers and node providers.
pub type AccountId = AccountId32;

/// The public key of a storage node.
pub type StorageNodePubKey = AccountId32;

/// The public key of a CDN node.
pub type CDNNodePubKey = AccountId32;

impl AccountId32 {
    /// The account with these bytes.
    pub fn new(bytes: [u8; 32]) -> (r: Self)
        ensures
            r.bytes == bytes,
    {
        AccountId32 { bytes }
    }
}

impl Key for AccountId32 {
    fn same(&self, other: &Self) -> (r: bool) {
        same_bytes(&self.bytes, &other.bytes)
    }
}

/// A 20-byte cluster identifier.
#[derive(Clone, Copy, Debug, PartialEq, Eq, Hash)]
pub struct ClusterId {
    pub bytes: [u8; 20],
}

impl ClusterId {
    /// The cluster identifier with these bytes.
    pub fn new(bytes: [u8; 20]) -> (r: Self)
        ensures
            r.bytes == bytes,
    {
        ClusterId { bytes }
    }
}

impl Key for ClusterId {
    fn same(&self, other: &Self) -> (r: bool) {
        same_bytes(&self.bytes, &other.bytes)
    }
}

/// The kind of a node.
#[derive(Clone, Copy, Debug, PartialEq, Eq, Structural)]
pub enum NodeType {
    Storage,
    CDN,
}

/// The number that stands for a node kind on the wire: 1 for storage, 2 for CDN.
pub open spec fn node_type_tag(node_type: NodeType) -> u8 {
    match node_type {
        NodeType::Storage => 1,
        NodeType::CDN => 2,
    }
}

impl From<NodeType> for u8 {
    fn from(node_type: NodeType) -> (tag: u8) {
        match node_type {
            NodeType::Storage => 1,
            NodeType::CDN => 2,
        }
    }
}

impl vstd::std_specs::convert::FromSpecImpl<NodeType> for u8 {
    open spec fn obeys_from_spec() -> bool {
        true
    }

    open spec fn from_spec(node_type: NodeType) -> u8 {
        node_type_tag(node_type)
    }
}

impl TryFrom<u8> for NodeType {
    type Error = ();

    fn try_from(value: u8) -> (r: Result<Self, ()>) {
        match value {
            1 => Ok(NodeType::Storage),
            2 => Ok(NodeType::CDN),
            _ => Err(()),
        }
    }
}

impl vstd::std_specs::convert::TryFromSpecImpl<u8> for NodeType {
    open spec fn obeys_try_from_spec() -> bool {
        true
    }

    open spec fn try_from_spec(value: u8) -> Result<Self, ()> {
        if value == 1 {
            Ok(NodeType::Storage)
        } else if value == 2 {
            Ok(NodeType::CDN)
        } else {
            Err(())
        }
    }
}

/// The public key of a node, tagged with the node's kind.
#[derive(Clone, Copy, Debug, PartialEq, Eq, Hash)]
pub enum NodePubKey {
    StoragePubKey(StorageNodePubKey),
    CDNPubKey(CDNNodePubKey),
}

impl NodePubKey {
    /// The kind of node that the key names.
    pub open spec fn spec_node_type(self) -> NodeType {
        match self {
            NodePubKey::StoragePubKey(_) => NodeType::Storage,
            NodePubKey::CDNPubKey(_) => NodeType::CDN,
        }
    }

    /// The kind of node that the key names.
    #[verifier::when_used_as_spec(spec_node_type)]
    pub fn node_type(self) -> (t: NodeType)
        ensures
            t == self.spec_node_type(),
    {
        match self {
            NodePubKey::StoragePubKey(_) => NodeType::Storage,
            NodePubKey::CDNPubKey(_) => NodeType::CDN,
        }
    }
}

impl Key for NodePubKey {
    fn same(&self, other: &Self) -> (r: bool) {
        match (self, other) {
            (NodePubKey::StoragePubKey(a), NodePubKey::StoragePubKey(b)) => a.same(b),
            (NodePubKey::CDNPubKey(a), NodePubKey::CDNPubKey(b)) => a.same(b),
            _ => false,
        }
    }
}

/// A borrowed node public key.
#[derive(Clone, Copy, Debug, PartialEq)]
pub enum NodePubKeyRef<'a> {
    StoragePubKeyRef(&'a StorageNodePubKey),
    CDNPubKeyRef(&'a CDNNodePubKey),
}

impl<'a> NodePubKeyRef<'a> {
    /// The key that the reference points at.
    pub open spec fn view(&self) -> NodePubKey {
        match *self {
            NodePubKeyRef::StoragePubKeyRef(pub_key_ref) => NodePubKey::StoragePubKey(*pub_key_ref),
            NodePubKeyRef::CDNPubKeyRef(pub_key_ref) => NodePubKey::CDNPubKey(*pub_key_ref),
        }
    }

    /// A key of its own for the key behind the reference.
    pub fn to_owned(&self) -> (key: NodePubKey)
        ensures
            key == self@,
    {
        match self {
            NodePubKeyRef::StoragePubKeyRef(pub_key_ref) => NodePubKey::StoragePubKey(
                **pub_key_ref,
            ),
            NodePubKeyRef::CDNPubKeyRef(pub_key_ref) => NodePubKey::CDNPubKey(**pub_key_ref),
        }
    }
}

} // verus!
