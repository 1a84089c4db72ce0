//! Identities, signatures and the delegation message.

use vstd::prelude::*;

verus! {

/// A BLS public key in compressed form: the identity under which a signer is
/// registered and looked up.
#[derive(Clone, Copy, Debug, PartialEq, Eq, Hash)]
pub struct BlsPublicKey {
    pub bytes: [u8; 48],
}

impl View for BlsPublicKey {
    type V = Seq<u8>;

    open spec fn view(&self) -> Seq<u8> {
        self.bytes@
    }
}

impl BlsPublicKey {
    /// Wraps the 48 bytes of a compressed public key.
    pub fn new(bytes: [u8; 48]) -> (key: BlsPublicKey)
        ensures
            key.bytes == bytes,
    {
        BlsPublicKey { bytes }
    }

    /// Whether two keys hold the same bytes.
    pub fn same_as(&self, other: &BlsPublicKey) -> (same: bool)
        ensures
            same == (self@ == other@),
            same == (*self == *other),
    {
        let mut i: usize = 0;
        while i < 48
            invariant
                i <= 48,
                forall|j: int| 0 <= j < i ==> self.bytes@[j] == other.bytes@[j],
            decreases 48 - i,
        {
            if self.bytes[i] != other.bytes[i] {
                return false;
            }
            i += 1;
        }
        assert(self.bytes@ =~= other.bytes@);
        assert(self.bytes =~= other.bytes);
        true
    }
}

/// Two keys are the same key exactly when they hold the same bytes.
pub proof fn lemma_key_is_its_bytes(a: BlsPublicKey, b: BlsPublicKey)
    ensures
        (a@ == b@) == (a == b),
{
    if a@ == b@ {
        assert(a.bytes =~= b.bytes);
    }
}

/// A BLS signature in compressed form.
#[derive(Clone, Copy, Debug, PartialEq, Eq, Hash)]
pub struct BlsSignature {
    pub bytes: [u8; 96],
}

impl View for BlsSignature {
    type V = Seq<u8>;

    open spec fn view(&self) -> Seq<u8> {
        self.bytes@
    }
}

impl BlsSignature {
    /// Wraps the 96 bytes of a compressed signature.
    pub fn new(bytes: [u8; 96]) -> (signature: BlsSignature)
        ensures
            signature.bytes == bytes,
    {
        BlsSignature { bytes }
    }
}

/// The chain a manager signs for. A chain fixes the builder domain, the
/// 32-byte constant mixed into every signing root so that a signature made
/// for one chain is worthless on another.
#[derive(Clone, Copy, Debug, PartialEq, Eq)]
pub struct Chain {
    pub builder_domain: [u8; 32],
}

impl Chain {
    /// The chain whose builder signatures are made under `builder_domain`.
    pub fn new(builder_domain: [u8; 32]) -> (chain: Chain)
        ensures
            chain.builder_domain == builder_domain,
    {
        Chain { builder_domain }
    }

    /// The domain under which builder messages are signed on this chain.
    pub fn builder_domain(&self) -> (domain: [u8; 32])
        ensures
            domain == self.builder_domain,
    {
        self.builder_domain
    }
}

/// The statement that `proxy` may sign on behalf of `delegator`.
#[derive(Clone, Copy, Debug, PartialEq, Eq)]
pub struct ProxyDelegation {
    pub delegator: BlsPublicKey,
    pub proxy: BlsPublicKey,
}

/// A delegation together with the delegator's signature over it.
#[derive(Clone, Copy, Debug, PartialEq, Eq)]
pub struct SignedProxyDelegation {
    pub message: ProxyDelegation,
    pub signature: BlsSignature,
}

} // verus!
