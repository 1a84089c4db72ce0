use cb_crypto::{
    BlsPublicKey, BlsSignature, Chain, ObjectTreeHash, ProxyDelegation, ProxySigner, SignError,
    SignedProxyDelegation, Signer, SigningManager,
};

struct Note {
    root: [u8; 32],
}

impl ObjectTreeHash for Note {
    fn tree_hash(&self) -> [u8; 32] {
        self.root
    }
}

const DOMAIN: [u8; 32] = [0x5au8; 32];

fn manager() -> SigningManager {
    SigningManager::new(Chain::new(DOMAIN))
}

fn signer(seed: u8) -> Signer {
    Signer::new_from_bytes(&[seed; 32])
}

fn pubkey(seed: u8) -> BlsPublicKey {
    signer(seed).pubkey()
}

fn signing_root(object_root: [u8; 32]) -> Vec<u8> {
    let mut leaves: Vec<u8> = object_root.to_vec();
    leaves.extend_from_slice(&DOMAIN);
    tree_hash::merkle_root(&leaves, 2).as_slice().to_vec()
}

fn verifies(pubkey: &BlsPublicKey, object_root: [u8; 32], signature: &BlsSignature) -> bool {
    let key = blst::min_pk::PublicKey::from_bytes(&pubkey.bytes).unwrap();
    let sig = blst::min_pk::Signature::from_bytes(&signature.bytes).unwrap();
    let dst: &[u8] = alloy_rpc_types_beacon::constants::BLS_DST_SIG;
    let root = signing_root(object_root);
    sig.verify(true, &root, dst, &[], &key, true) == blst::BLST_ERROR::BLST_SUCCESS
}

fn sorted(mut keys: Vec<BlsPublicKey>) -> Vec<BlsPublicKey> {
    keys.sort_by(|a, b| a.bytes.cmp(&b.bytes));
    keys
}

#[test]
fn new_manager_is_empty() {
    let manager = manager();
    assert!(manager.consensus_pubkeys().is_empty());
    assert!(manager.proxy_pubkeys().is_empty());
    assert!(manager.delegations().is_empty());
    assert!(!manager.has_consensus(&pubkey(1)));
    assert!(!manager.has_proxy(&pubkey(1)));
}

#[test]
fn added_consensus_signer_is_found() {
    let mut manager = manager();
    manager.add_consensus_signer(signer(1));
    assert!(manager.has_consensus(&pubkey(1)));
    assert!(!manager.has_consensus(&pubkey(2)));
    assert!(!manager.has_proxy(&pubkey(1)));
    assert_eq!(manager.consensus_pubkeys(), vec![pubkey(1)]);
}

#[test]
fn consensus_pubkeys_lists_each_signer_once() {
    let mut manager = manager();
    for seed in [3u8, 1u8, 2u8, 1u8, 3u8] {
        manager.add_consensus_signer(signer(seed));
    }
    let expected = sorted(vec![pubkey(1), pubkey(2), pubkey(3)]);
    assert_eq!(sorted(manager.consensus_pubkeys()), expected);
}

#[test]
fn same_key_twice_leaves_one_entry() {
    let mut manager = manager();
    manager.add_consensus_signer(signer(1));
    assert_eq!(manager.consensus_pubkeys().len(), 1);
    manager.add_consensus_signer(signer(1));
    assert_eq!(manager.consensus_pubkeys().len(), 1);
    assert_eq!(manager.consensus_pubkeys(), vec![pubkey(1)]);
    let signature = manager.sign_consensus_root(&pubkey(1), [4u8; 32]).unwrap();
    assert_eq!(signature, signer(1).sign_root(Chain::new(DOMAIN), [4u8; 32]));
}

#[test]
fn sign_consensus_uses_the_registered_key() {
    let mut manager = manager();
    manager.add_consensus_signer(signer(1));
    manager.add_consensus_signer(signer(2));
    let object_root: [u8; 32] = [4u8; 32];
    let signature = manager.sign_consensus_root(&pubkey(2), object_root).unwrap();
    assert!(verifies(&pubkey(2), object_root, &signature));
    assert!(!verifies(&pubkey(1), object_root, &signature));
    let by_message = manager.sign_consensus(&pubkey(2), &Note { root: object_root }).unwrap();
    assert_eq!(by_message, signature);
}

#[test]
fn sign_consensus_with_unknown_key_fails() {
    let mut manager = manager();
    manager.add_consensus_signer(signer(1));
    let unknown = pubkey(9);
    let note = Note { root: [4u8; 32] };
    assert_eq!(
        manager.sign_consensus(&unknown, &note),
        Err(SignError::UnknownConsensusSigner(unknown))
    );
    assert_eq!(
        manager.sign_consensus_root(&unknown, [4u8; 32]),
        Err(SignError::UnknownConsensusSigner(unknown))
    );
    assert!(!manager.has_consensus(&unknown));
    assert!(!manager.has_proxy(&unknown));
    assert_eq!(manager.consensus_pubkeys(), vec![pubkey(1)]);
    assert!(manager.proxy_pubkeys().is_empty());
}

#[test]
fn create_proxy_for_unknown_delegator_fails() {
    let mut manager = manager();
    manager.add_consensus_signer(signer(1));
    let unknown = pubkey(9);
    assert_eq!(manager.create_proxy(unknown), Err(SignError::UnknownConsensusSigner(unknown)));
    assert_eq!(
        manager.create_proxy_with(unknown, signer(5)),
        Err(SignError::UnknownConsensusSigner(unknown))
    );
    assert!(manager.proxy_pubkeys().is_empty());
    assert!(manager.delegations().is_empty());
    assert!(!manager.has_proxy(&pubkey(5)));
    assert_eq!(manager.consensus_pubkeys(), vec![pubkey(1)]);
}

#[test]
fn proxy_lookups_with_unknown_key_fail() {
    let mut manager = manager();
    manager.add_consensus_signer(signer(1));
    let consensus = pubkey(1);
    let note = Note { root: [4u8; 32] };
    assert_eq!(manager.sign_proxy(&consensus, &note), Err(SignError::UnknownProxySigner(consensus)));
    assert_eq!(
        manager.sign_proxy_root(&consensus, [4u8; 32]),
        Err(SignError::UnknownProxySigner(consensus))
    );
    assert_eq!(manager.get_delegation(&consensus), Err(SignError::UnknownProxySigner(consensus)));
    manager.create_proxy(consensus).unwrap();
    let unknown = pubkey(9);
    assert_eq!(manager.get_delegation(&unknown), Err(SignError::UnknownProxySigner(unknown)));
    assert_eq!(manager.sign_proxy(&unknown, &note), Err(SignError::UnknownProxySigner(unknown)));
}

#[test]
fn created_proxy_is_registered_with_its_delegation() {
    let mut manager = manager();
    manager.add_consensus_signer(signer(1));
    let delegator = pubkey(1);
    let signed = manager.create_proxy(delegator).unwrap();
    assert_eq!(signed.message.delegator, delegator);
    assert_ne!(signed.message.proxy, delegator);
    assert!(manager.has_proxy(&signed.message.proxy));
    assert!(!manager.has_consensus(&signed.message.proxy));
    assert_eq!(manager.get_delegation(&signed.message.proxy), Ok(signed));
    assert_eq!(manager.proxy_pubkeys(), vec![signed.message.proxy]);
    assert_eq!(manager.delegations(), vec![signed]);
    assert!(verifies(&delegator, signed.message.tree_hash_root(), &signed.signature));
}

#[test]
fn create_proxy_with_binds_the_given_signer() {
    let mut manager = manager();
    manager.add_consensus_signer(signer(1));
    let signed = manager.create_proxy_with(pubkey(1), signer(7)).unwrap();
    let message = ProxyDelegation { delegator: pubkey(1), proxy: pubkey(7) };
    let signature = signer(1).sign_root(Chain::new(DOMAIN), message.tree_hash_root());
    assert_eq!(signed, SignedProxyDelegation { message, signature });
    let by_proxy = manager.sign_proxy_root(&pubkey(7), [4u8; 32]).unwrap();
    assert_eq!(by_proxy, signer(7).sign_root(Chain::new(DOMAIN), [4u8; 32]));
}

#[test]
fn proxy_signs_and_both_signatures_verify() {
    let mut manager = manager();
    manager.add_consensus_signer(signer(1));
    let consensus = pubkey(1);
    let signed = manager.create_proxy(consensus).unwrap();
    let proxy = signed.message.proxy;
    let note = Note { root: [0xc3u8; 32] };
    let signature = manager.sign_proxy(&proxy, &note).unwrap();
    assert!(verifies(&proxy, note.root, &signature));
    assert!(!verifies(&consensus, note.root, &signature));
    assert!(verifies(&consensus, signed.message.tree_hash_root(), &signed.signature));
    assert!(!verifies(&proxy, signed.message.tree_hash_root(), &signed.signature));
}

#[test]
fn delegations_hold_one_entry_per_proxy() {
    let mut manager = manager();
    manager.add_consensus_signer(signer(1));
    manager.add_consensus_signer(signer(2));
    let mut created: Vec<SignedProxyDelegation> = Vec::new();
    for delegator in [pubkey(2), pubkey(1), pubkey(2)] {
        created.push(manager.create_proxy(delegator).unwrap());
    }
    let listed = manager.delegations();
    assert_eq!(listed.len(), 3);
    for signed in &created {
        assert_eq!(listed.iter().filter(|d| *d == signed).count(), 1);
        assert_eq!(manager.get_delegation(&signed.message.proxy), Ok(*signed));
    }
    let keys: Vec<BlsPublicKey> = created.iter().map(|d| d.message.proxy).collect();
    assert_eq!(sorted(manager.proxy_pubkeys()), sorted(keys));
    assert_eq!(manager.consensus_pubkeys().len(), 2);
}

#[test]
fn listings_are_snapshots() {
    let mut manager = manager();
    manager.add_consensus_signer(signer(1));
    let before = manager.delegations();
    let keys_before = manager.proxy_pubkeys();
    manager.create_proxy(pubkey(1)).unwrap();
    assert!(before.is_empty());
    assert!(keys_before.is_empty());
    assert_eq!(manager.delegations().len(), 1);
}

#[test]
fn delegation_outlives_a_replaced_delegator() {
    let mut manager = manager();
    manager.add_consensus_signer(signer(1));
    let signed = manager.create_proxy(pubkey(1)).unwrap();
    manager.add_consensus_signer(signer(1));
    assert_eq!(manager.get_delegation(&signed.message.proxy), Ok(signed));
    assert_eq!(manager.delegations(), vec![signed]);
}

#[test]
fn proxy_signer_needs_a_matching_delegation() {
    let message = ProxyDelegation { delegator: pubkey(1), proxy: pubkey(7) };
    let signature = signer(1).sign_root(Chain::new(DOMAIN), message.tree_hash_root());
    let signed = SignedProxyDelegation { message, signature };
    assert!(ProxySigner::new(signer(7), signed).is_some());
    assert!(ProxySigner::new(signer(8), signed).is_none());
    assert!(ProxySigner::new(signer(1), signed).is_none());
}

#[test]
fn added_proxy_signer_replaces_the_one_under_its_key() {
    let mut manager = manager();
    manager.add_consensus_signer(signer(1));
    manager.add_consensus_signer(signer(2));
    let first = manager.create_proxy_with(pubkey(1), signer(7)).unwrap();
    let message = ProxyDelegation { delegator: pubkey(2), proxy: pubkey(7) };
    let signature = signer(2).sign_root(Chain::new(DOMAIN), message.tree_hash_root());
    let second = SignedProxyDelegation { message, signature };
    assert_ne!(first, second);
    manager.add_proxy_signer(ProxySigner::new(signer(7), second).unwrap());
    assert_eq!(manager.proxy_pubkeys(), vec![pubkey(7)]);
    assert_eq!(manager.delegations(), vec![second]);
    assert_eq!(manager.get_delegation(&pubkey(7)), Ok(second));
    let other = SignedProxyDelegation {
        message: ProxyDelegation { delegator: pubkey(1), proxy: pubkey(8) },
        signature,
    };
    manager.add_proxy_signer(ProxySigner::new(signer(8), other).unwrap());
    assert_eq!(sorted(manager.proxy_pubkeys()), sorted(vec![pubkey(7), pubkey(8)]));
    assert_eq!(manager.get_delegation(&pubkey(8)), Ok(other));
}

#[test]
fn consensus_and_proxy_registries_are_separate() {
    let mut manager = manager();
    manager.add_consensus_signer(signer(1));
    manager.add_consensus_signer(signer(7));
    manager.create_proxy_with(pubkey(1), signer(7)).unwrap();
    assert!(manager.has_consensus(&pubkey(7)));
    assert!(manager.has_proxy(&pubkey(7)));
    assert!(!manager.has_proxy(&pubkey(1)));
    assert_eq!(manager.consensus_pubkeys().len(), 2);
    assert_eq!(manager.proxy_pubkeys().len(), 1);
}
