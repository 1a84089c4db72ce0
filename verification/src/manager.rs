//! The registry of consensus and proxy signers, and the delegation protocol
//! that mints proxies.

use vstd::prelude::*;
use crate::error::SignError;
use crate::primitives::public_key_of;
use crate::registry::Registry;
use crate::signature::{builder_signature, delegation_root, ObjectTreeHash};
use crate::signer::Signer;
use crate::types::{
    lemma_key_is_its_bytes, BlsPublicKey, BlsSignature, Chain, ProxyDelegation,
    SignedProxyDelegation,
};

verus! {

/// A proxy key together with the delegation that authorises it. The
/// delegation always names the public key of the signer as its proxy.
pub struct ProxySigner {
    signer: Signer,
    delegation: SignedProxyDelegation,
}

impl ProxySigner {
    #[verifier::type_invariant]
    spec fn bound(self) -> bool {
        self.delegation.message.proxy@ == self.signer.public_key()
    }

    /// The proxy key.
    pub closed spec fn signer(self) -> Signer {
        self.signer
    }

    /// The delegation that authorises the proxy key.
    pub closed spec fn delegation(self) -> SignedProxyDelegation {
        self.delegation
    }

    /// Pairs a signer with its delegation, or gives `None` where the
    /// delegation names another key as its proxy.
    pub fn new(signer: Signer, delegation: SignedProxyDelegation) -> (proxy: Option<ProxySigner>)
        ensures
            proxy is Some == (delegation.message.proxy@ == signer.public_key()),
            proxy matches Some(p) ==> p.signer() == signer && p.delegation() == delegation,
    {
        if signer.pubkey().same_as(&delegation.message.proxy) {
            Some(ProxySigner { signer, delegation })
        } else {
            None
        }
    }
}

/// All signers a validator controls on one chain: its consensus signers and
/// the proxy signers created for them, each found by its public key.
pub struct SigningManager {
    chain: Chain,
    consensus_signers: Registry<Signer>,
    proxy_signers: Registry<ProxySigner>,
}

/// `after` is `before` with `signer` registered as a consensus signer under
/// its own public key, in place of what was registered there.
pub open spec fn consensus_signer_added(
    before: SigningManager,
    after: SigningManager,
    signer: Signer,
) -> bool {
    &&& after.chain() == before.chain()
    &&& after.consensus() == before.consensus().insert(signer.public_key(), signer)
    &&& after.proxies() == before.proxies()
}

/// `after` is `before` with `proxy` registered as a proxy signer under the
/// public key of its signer, in place of what was registered there.
pub open spec fn proxy_signer_added(
    before: SigningManager,
    after: SigningManager,
    proxy: ProxySigner,
) -> bool {
    &&& after.chain() == before.chain()
    &&& after.consensus() == before.consensus()
    &&& after.proxies() == before.proxies().insert(proxy.signer().public_key(), proxy)
}

/// Nothing was registered between `before` and `after`.
pub open spec fn unchanged(before: SigningManager, after: SigningManager) -> bool {
    &&& after.chain() == before.chain()
    &&& after.consensus() == before.consensus()
    &&& after.proxies() == before.proxies()
}

/// `after` is `before` with `signer` registered as a proxy of `delegator`,
/// and `signed` is the delegation that says so: it binds the signer's public
/// key to the delegator and carries the signature of the delegator's
/// consensus signer over that statement.
pub open spec fn proxy_created(
    before: SigningManager,
    after: SigningManager,
    delegator: BlsPublicKey,
    signer: Signer,
    signed: SignedProxyDelegation,
) -> bool {
    &&& before.consensus().dom().contains(delegator@)
    &&& before.consensus()[delegator@].public_key() == delegator@
    &&& signed.message.delegator == delegator
    &&& signed.message.proxy@ == signer.public_key()
    &&& signed.signature@ == before.consensus()[delegator@].signature(
        before.chain(),
        delegation_root(signed.message),
    )
    &&& after.chain() == before.chain()
    &&& after.consensus() == before.consensus()
    &&& after.proxies() == before.proxies().insert(
        signed.message.proxy@,
        after.proxies()[signed.message.proxy@],
    )
    &&& after.proxies()[signed.message.proxy@].signer() == signer
    &&& after.proxies()[signed.message.proxy@].delegation() == signed
}

impl SigningManager {
    #[verifier::type_invariant]
    spec fn keyed_by_pubkey(self) -> bool {
        &&& forall|key: Seq<u8>|
            self.consensus_signers@.dom().contains(key) ==> (
            #[trigger] self.consensus_signers@[key]).public_key() == key
        &&& forall|key: Seq<u8>|
            self.proxy_signers@.dom().contains(key) ==> {
                &&& (#[trigger] self.proxy_signers@[key]).signer.public_key() == key
                &&& self.proxy_signers@[key].delegation.message.proxy@ == key
            }
    }

    /// The chain whose builder domain every signature is made under.
    pub closed spec fn chain(self) -> Chain {
        self.chain
    }

    /// The consensus signers, each under its public key.
    pub closed spec fn consensus(self) -> Map<Seq<u8>, Signer> {
        self.consensus_signers@
    }

    /// The proxy signers, each under its public key.
    pub closed spec fn proxies(self) -> Map<Seq<u8>, ProxySigner> {
        self.proxy_signers@
    }

    /// Whether a proxy signer is registered under `pubkey`.
    pub open spec fn holds_proxy(self, pubkey: BlsPublicKey) -> bool {
        self.proxies().dom().contains(pubkey@)
    }

    /// What asking for the delegation of `proxy_pubkey` gives.
    pub open spec fn delegation_of(self, proxy_pubkey: BlsPublicKey) -> Result<
        SignedProxyDelegation,
        SignError,
    > {
        if self.proxies().dom().contains(proxy_pubkey@) {
            Ok(self.proxies()[proxy_pubkey@].delegation())
        } else {
            Err(SignError::UnknownProxySigner(proxy_pubkey))
        }
    }

    /// A manager for `chain` with no signers.
    pub fn new(chain: Chain) -> (manager: SigningManager)
        ensures
            manager.chain() == chain,
            manager.consensus() == Map::<Seq<u8>, Signer>::empty(),
            manager.proxies() == Map::<Seq<u8>, ProxySigner>::empty(),
    {
        SigningManager {
            chain,
            consensus_signers: Registry::new(),
            proxy_signers: Registry::new(),
        }
    }

    /// Registers a consensus signer under its public key. A signer already
    /// registered under that key is replaced.
    pub fn add_consensus_signer(&mut self, signer: Signer)
        ensures
            consensus_signer_added(*old(self), *final(self), signer),
    {
        proof {
            use_type_invariant(&*self);
        }
        let key = signer.pubkey();
        let mut signers: Registry<Signer> = Registry::new();
        core::mem::swap(&mut self.consensus_signers, &mut signers);
        signers.insert(key, signer);
        core::mem::swap(&mut self.consensus_signers, &mut signers);
    }

    /// Registers a proxy signer under the public key of its signer. A proxy
    /// already registered under that key is replaced.
    pub fn add_proxy_signer(&mut self, proxy: ProxySigner)
        ensures
            proxy_signer_added(*old(self), *final(self), proxy),
    {
        proof {
            use_type_invariant(&*self);
            use_type_invariant(&proxy);
        }
        let key = proxy.delegation.message.proxy;
        let mut proxies: Registry<ProxySigner> = Registry::new();
        core::mem::swap(&mut self.proxy_signers, &mut proxies);
        proxies.insert(key, proxy);
        core::mem::swap(&mut self.proxy_signers, &mut proxies);
    }

    /// Whether a consensus signer is registered under `pubkey`.
    pub fn has_consensus(&self, pubkey: &BlsPublicKey) -> (found: bool)
        ensures
            found == self.consensus().dom().contains(pubkey@),
    {
        self.consensus_signers.contains_key(pubkey)
    }

    /// Whether a proxy signer is registered under `pubkey`.
    pub fn has_proxy(&self, pubkey: &BlsPublicKey) -> (found: bool)
        ensures
            found == self.holds_proxy(*pubkey),
    {
        self.proxy_signers.contains_key(pubkey)
    }

    /// The delegation of the proxy signer registered under `proxy_pubkey`.
    pub fn get_delegation(&self, proxy_pubkey: &BlsPublicKey) -> (result: Result<
        SignedProxyDelegation,
        SignError,
    >)
        ensures
            result == self.delegation_of(*proxy_pubkey),
            result matches Ok(signed) ==> signed.message.proxy == *proxy_pubkey,
    {
        proof {
            use_type_invariant(self);
        }
        match self.proxy_signers.get(proxy_pubkey) {
            Some(proxy) => {
                proof {
                    lemma_key_is_its_bytes(proxy.delegation.message.proxy, *proxy_pubkey);
                }
                Ok(proxy.delegation)
            },
            None => Err(SignError::UnknownProxySigner(*proxy_pubkey)),
        }
    }

    /// Signs an object root with the consensus signer registered under
    /// `pubkey`.
    pub fn sign_consensus_root(&self, pubkey: &BlsPublicKey, object_root: [u8; 32]) -> (result:
        Result<BlsSignature, SignError>)
        ensures
            match result {
                Ok(signature) => {
                    &&& self.consensus().dom().contains(pubkey@)
                    &&& self.consensus()[pubkey@].public_key() == pubkey@
                    &&& signature@ == self.consensus()[pubkey@].signature(
                        self.chain(),
                        object_root@,
                    )
                },
                Err(error) => {
                    &&& !self.consensus().dom().contains(pubkey@)
                    &&& error == SignError::UnknownConsensusSigner(*pubkey)
                },
            },
    {
        proof {
            use_type_invariant(self);
        }
        match self.consensus_signers.get(pubkey) {
            Some(signer) => Ok(signer.sign_root(self.chain, object_root)),
            None => Err(SignError::UnknownConsensusSigner(*pubkey)),
        }
    }

    /// Signs a message with the consensus signer registered under `pubkey`.
    /// The message is asked for its object root only where the signer exists.
    pub fn sign_consensus<T: ObjectTreeHash>(&self, pubkey: &BlsPublicKey, msg: &T) -> (result:
        Result<BlsSignature, SignError>)
        ensures
            match result {
                Ok(signature) => {
                    &&& self.consensus().dom().contains(pubkey@)
                    &&& self.consensus()[pubkey@].public_key() == pubkey@
                    &&& exists|object_root: [u8; 32]|
                        call_ensures(T::tree_hash, (msg,), object_root) && signature@
                            == self.consensus()[pubkey@].signature(self.chain(), object_root@)
                },
                Err(error) => {
                    &&& !self.consensus().dom().contains(pubkey@)
                    &&& error == SignError::UnknownConsensusSigner(*pubkey)
                },
            },
    {
        proof {
            use_type_invariant(self);
        }
        match self.consensus_signers.get(pubkey) {
            Some(signer) => Ok(signer.sign(self.chain, msg)),
            None => Err(SignError::UnknownConsensusSigner(*pubkey)),
        }
    }

    /// Signs an object root with the proxy signer registered under `pubkey`.
    pub fn sign_proxy_root(&self, pubkey: &BlsPublicKey, object_root: [u8; 32]) -> (result: Result<
        BlsSignature,
        SignError,
    >)
        ensures
            match result {
                Ok(signature) => {
                    &&& self.proxies().dom().contains(pubkey@)
                    &&& self.proxies()[pubkey@].signer().public_key() == pubkey@
                    &&& signature@ == self.proxies()[pubkey@].signer().signature(
                        self.chain(),
                        object_root@,
                    )
                },
                Err(error) => {
                    &&& !self.proxies().dom().contains(pubkey@)
                    &&& error == SignError::UnknownProxySigner(*pubkey)
                },
            },
    {
        proof {
            use_type_invariant(self);
        }
        match self.proxy_signers.get(pubkey) {
            Some(proxy) => Ok(proxy.signer.sign_root(self.chain, object_root)),
            None => Err(SignError::UnknownProxySigner(*pubkey)),
        }
    }

    /// Signs a message with the proxy signer registered under `pubkey`. The
    /// message is asked for its object root only where the signer exists.
    pub fn sign_proxy<T: ObjectTreeHash>(&self, pubkey: &BlsPublicKey, msg: &T) -> (result: Result<
        BlsSignature,
        SignError,
    >)
        ensures
            match result {
                Ok(signature) => {
                    &&& self.proxies().dom().contains(pubkey@)
                    &&& self.proxies()[pubkey@].signer().public_key() == pubkey@
                    &&& exists|object_root: [u8; 32]|
                        call_ensures(T::tree_hash, (msg,), object_root) && signature@
                            == self.proxies()[pubkey@].signer().signature(
                            self.chain(),
                            object_root@,
                        )
                },
                Err(error) => {
                    &&& !self.proxies().dom().contains(pubkey@)
                    &&& error == SignError::UnknownProxySigner(*pubkey)
                },
            },
    {
        proof {
            use_type_invariant(self);
        }
        match self.proxy_signers.get(pubkey) {
            Some(proxy) => Ok(proxy.signer.sign(self.chain, msg)),
            None => Err(SignError::UnknownProxySigner(*pubkey)),
        }
    }

    /// Makes `signer` a proxy of the consensus signer registered under
    /// `delegator`: has the delegator sign the delegation, registers the
    /// proxy with it, and returns the signed delegation. Where no consensus
    /// signer is registered under `delegator`, nothing is registered.
    pub fn create_proxy_with(&mut self, delegator: BlsPublicKey, signer: Signer) -> (result: Result<
        SignedProxyDelegation,
        SignError,
    >)
        ensures
            match result {
                Ok(signed) => proxy_created(*old(self), *final(self), delegator, signer, signed),
                Err(error) => {
                    &&& !old(self).consensus().dom().contains(delegator@)
                    &&& error == SignError::UnknownConsensusSigner(delegator)
                    &&& unchanged(*old(self), *final(self))
                },
            },
    {
        proof {
            use_type_invariant(&*self);
        }
        let message = ProxyDelegation { delegator, proxy: signer.pubkey() };
        match self.sign_consensus_root(&delegator, message.tree_hash_root()) {
            Ok(signature) => {
                let signed = SignedProxyDelegation { message, signature };
                self.add_proxy_signer(ProxySigner { signer, delegation: signed });
                Ok(signed)
            },
            Err(error) => Err(error),
        }
    }

    /// Mints a proxy for the consensus signer registered under `delegator`:
    /// a signer over a fresh random key, registered with a delegation that
    /// the delegator signed. Where no consensus signer is registered under
    /// `delegator`, nothing is registered.
    pub fn create_proxy(&mut self, delegator: BlsPublicKey) -> (result: Result<
        SignedProxyDelegation,
        SignError,
    >)
        ensures
            match result {
                Ok(signed) => exists|signer: Signer|
                    proxy_created(*old(self), *final(self), delegator, signer, signed),
                Err(error) => {
                    &&& !old(self).consensus().dom().contains(delegator@)
                    &&& error == SignError::UnknownConsensusSigner(delegator)
                    &&& unchanged(*old(self), *final(self))
                },
            },
    {
        let signer = Signer::new_random();
        self.create_proxy_with(delegator, signer)
    }

    /// The public keys of all consensus signers, each once.
    pub fn consensus_pubkeys(&self) -> (keys: Vec<BlsPublicKey>)
        ensures
            self.consensus().dom().finite(),
            keys@.no_duplicates(),
            keys@.len() == self.consensus().dom().len(),
            forall|key: BlsPublicKey| keys@.contains(key) == self.consensus().dom().contains(key@),
    {
        registered_keys(&self.consensus_signers)
    }

    /// The public keys of all proxy signers, each once.
    pub fn proxy_pubkeys(&self) -> (keys: Vec<BlsPublicKey>)
        ensures
            self.proxies().dom().finite(),
            keys@.no_duplicates(),
            keys@.len() == self.proxies().dom().len(),
            forall|key: BlsPublicKey| keys@.contains(key) == self.proxies().dom().contains(key@),
    {
        registered_keys(&self.proxy_signers)
    }

    /// The delegations of all proxy signers: one for each, none twice.
    pub fn delegations(&self) -> (signed: Vec<SignedProxyDelegation>)
        ensures
            self.proxies().dom().finite(),
            signed@.no_duplicates(),
            signed@.len() == self.proxies().dom().len(),
            forall|i: int|
                0 <= i < signed@.len() ==> self.delegation_of(#[trigger] signed@[i].message.proxy)
                    == Ok::<SignedProxyDelegation, SignError>(signed@[i]),
            forall|key: BlsPublicKey|
                self.holds_proxy(key) ==> signed@.contains(
                    #[trigger] self.proxies()[key@].delegation(),
                ),
    {
        proof {
            use_type_invariant(self);
        }
        let count = self.proxy_signers.len();
        let ghost order = self.proxy_signers.order();
        let ghost proxies = self.proxy_signers@;
        let mut signed: Vec<SignedProxyDelegation> = Vec::new();
        let mut i: usize = 0;
        while i < count
            invariant
                i <= count,
                count == order.len(),
                order == self.proxy_signers.order(),
                proxies == self.proxy_signers@,
                signed@.len() == i,
                forall|j: int| 0 <= j < i ==> proxies.dom().contains(#[trigger] order[j]),
                forall|j: int| 0 <= j < i ==> #[trigger] signed@[j] == proxies[order[j]].delegation,
            decreases count - i,
        {
            let proxy = self.proxy_signers.value_at(i);
            signed.push(proxy.delegation);
            i += 1;
        }
        proof {
            let order = self.proxy_signers.order();
            assert forall|a: int, b: int| 0 <= a < signed@.len() && 0 <= b < signed@.len() && a
                != b implies signed@[a] != signed@[b] by {
                assert(signed@[a].message.proxy@ == order[a]);
                assert(signed@[b].message.proxy@ == order[b]);
            }
            assert forall|key: BlsPublicKey| self.holds_proxy(key) implies signed@.contains(
                #[trigger] self.proxies()[key@].delegation(),
            ) by {
                assert(order.to_set().contains(key@));
                let j = choose|j: int| 0 <= j < order.len() && order[j] == key@;
                assert(signed@[j] == self.proxies()[key@].delegation());
            }
        }
        signed
    }
}

/// The keys of a registry, each once.
fn registered_keys<V>(registry: &Registry<V>) -> (keys: Vec<BlsPublicKey>)
    ensures
        registry@.dom().finite(),
        keys@.no_duplicates(),
        keys@.len() == registry@.dom().len(),
        forall|key: BlsPublicKey| keys@.contains(key) == registry@.dom().contains(key@),
{
    let count = registry.len();
    let mut keys: Vec<BlsPublicKey> = Vec::new();
    let mut i: usize = 0;
    while i < count
        invariant
            i <= count,
            count == registry.order().len(),
            keys@.len() == i,
            forall|j: int| 0 <= j < i ==> keys@[j]@ == registry.order()[j],
        decreases count - i,
    {
        keys.push(registry.key_at(i));
        i += 1;
    }
    proof {
        let order = registry.order();
        assert forall|a: int, b: int| 0 <= a < keys@.len() && 0 <= b < keys@.len() && a
            != b implies keys@[a] != keys@[b] by {
            assert(order[a] != order[b]);
        }
        assert forall|key: BlsPublicKey| keys@.contains(key) == registry@.dom().contains(key@) by {
            if keys@.contains(key) {
                let j = choose|j: int| 0 <= j < keys@.len() && keys@[j] == key;
                assert(order[j] == key@);
                assert(order.to_set().contains(key@));
            }
            if registry@.dom().contains(key@) {
                assert(order.to_set().contains(key@));
                let j = choose|j: int| 0 <= j < order.len() && order[j] == key@;
                lemma_key_is_its_bytes(keys@[j], key);
                assert(keys@[j] == key);
            }
        }
    }
    keys
}

/// After a proxy was created for a delegator, the delegation that came back
/// names that delegator; the proxy is registered under the key that the
/// delegation names; asking for the delegation of that key gives the very
/// delegation that came back; and its signature is the one that the
/// delegator's consensus signer, whose public key is the delegator's
/// identity, gives to the delegation's object root on the manager's chain.
pub proof fn lemma_created_proxy_is_registered(
    before: SigningManager,
    after: SigningManager,
    delegator: BlsPublicKey,
    signer: Signer,
    signed: SignedProxyDelegation,
)
    requires
        proxy_created(before, after, delegator, signer, signed),
    ensures
        signed.message.delegator == delegator,
        after.holds_proxy(signed.message.proxy),
        after.delegation_of(signed.message.proxy) == Ok::<SignedProxyDelegation, SignError>(
            signed,
        ),
        public_key_of(before.consensus()[delegator@].secret()) == delegator@,
        signed.signature@ == builder_signature(
            before.consensus()[delegator@].secret(),
            after.chain().builder_domain@,
            delegation_root(signed.message),
        ),
{
}

/// Registering a second consensus signer with the public key of the first
/// leaves one entry under that key, the second signer: no key is added, and
/// the manager is as if the first had never been registered.
pub proof fn lemma_same_key_replaces(
    start: SigningManager,
    once: SigningManager,
    twice: SigningManager,
    first: Signer,
    second: Signer,
)
    requires
        consensus_signer_added(start, once, first),
        consensus_signer_added(once, twice, second),
        first.public_key() == second.public_key(),
    ensures
        twice.consensus().dom() == once.consensus().dom(),
        twice.consensus().dom().len() == once.consensus().dom().len(),
        twice.consensus()[second.public_key()] == second,
        consensus_signer_added(start, twice, second),
{
    assert(twice.consensus().dom() =~= once.consensus().dom());
    assert(twice.consensus() =~= start.consensus().insert(second.public_key(), second));
}

} // verus!
