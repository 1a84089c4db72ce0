//! Domain-separated signing roots and the object root of a delegation.

use vstd::prelude::*;
use crate::primitives::{merkle_root, merkle_root_of, signature_of};
use crate::types::{BlsPublicKey, ProxyDelegation};

verus! {

/// The domain separation tag of the signature scheme: the ASCII bytes of
/// `BLS_SIG_BLS12381G2_XMD:SHA-256_SSWU_RO_POP_`.
pub const BLS_DST_SIG: [u8; 43] = [
    66, 76, 83, 95, 83, 73, 71, 95, 66, 76, 83, 49, 50, 51, 56, 49, 71, 50, 95, 88, 77, 68, 58,
    83, 72, 65, 45, 50, 53, 54, 95, 83, 83, 87, 85, 95, 82, 79, 95, 80, 79, 80, 95,
];

/// A message that can be signed: anything that can give its 32-byte object
/// root.
pub trait ObjectTreeHash {
    /// Computes the object root of the message.
    fn tree_hash(&self) -> [u8; 32];
}

/// The root that is actually signed: the Merkle root of the two-leaf tree
/// whose leaves are the object root and the signing domain.
pub open spec fn signing_root(object_root: Seq<u8>, signing_domain: Seq<u8>) -> Seq<u8> {
    merkle_root_of(object_root + signing_domain, 2)
}

/// The signature that the key encoded by `secret` gives to an object root
/// under a signing domain.
pub open spec fn builder_signature(
    secret: Seq<u8>,
    signing_domain: Seq<u8>,
    object_root: Seq<u8>,
) -> Seq<u8> {
    signature_of(secret, signing_root(object_root, signing_domain), BLS_DST_SIG@)
}

/// The object root of a public key: its 48 bytes over two leaves.
pub open spec fn public_key_root(key: BlsPublicKey) -> Seq<u8> {
    merkle_root_of(key@, 2)
}

/// The object root of a delegation: the two-leaf tree over the roots of the
/// delegator's and the proxy's key, in this order.
pub open spec fn delegation_root(message: ProxyDelegation) -> Seq<u8> {
    merkle_root_of(public_key_root(message.delegator) + public_key_root(message.proxy), 2)
}

/// Lays two 32-byte chunks side by side.
fn join_chunks(left: &[u8; 32], right: &[u8; 32]) -> (joined: [u8; 64])
    ensures
        joined@ == left@ + right@,
{
    let mut joined = [0u8; 64];
    let mut i: usize = 0;
    while i < 32
        invariant
            i <= 32,
            forall|j: int| 0 <= j < i ==> joined@[j] == left@[j],
            forall|j: int| 0 <= j < i ==> joined@[32 + j] == right@[j],
        decreases 32 - i,
    {
        joined[i] = left[i];
        joined[i + 32] = right[i];
        i += 1;
    }
    assert(joined@ =~= left@ + right@);
    joined
}

/// Computes the root to sign for an object root under a signing domain.
pub fn compute_signing_root(object_root: [u8; 32], signing_domain: [u8; 32]) -> (root: [u8; 32])
    ensures
        root@ == signing_root(object_root@, signing_domain@),
{
    let leaves = join_chunks(&object_root, &signing_domain);
    merkle_root(&leaves, 2)
}

impl ProxyDelegation {
    /// Computes the object root of the delegation.
    pub fn tree_hash_root(&self) -> (root: [u8; 32])
        ensures
            root@ == delegation_root(*self),
    {
        let delegator = merkle_root(&self.delegator.bytes, 2);
        let proxy = merkle_root(&self.proxy.bytes, 2);
        let leaves = join_chunks(&delegator, &proxy);
        merkle_root(&leaves, 2)
    }
}

impl ObjectTreeHash for ProxyDelegation {
    fn tree_hash(&self) -> (root: [u8; 32])
        ensures
            root@ == delegation_root(*self),
    {
        self.tree_hash_root()
    }
}

} // verus!
