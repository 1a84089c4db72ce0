//! A signing key and the two things it can be asked for: its public identity
//! and a signature.

use vstd::prelude::*;
use crate::primitives::{
    check_secret_key, derive_public_key, generate_secret_key, generated_key_of, is_secret_key,
    public_key_of, random_key_material, sign_message,
};
use crate::signature::{builder_signature, compute_signing_root, ObjectTreeHash, BLS_DST_SIG};
use crate::types::{BlsPublicKey, BlsSignature, Chain};

verus! {

/// The encoding of a secret scalar. The bytes never leave this module.
pub struct SecretKey {
    bytes: [u8; 32],
}

impl SecretKey {
    #[verifier::type_invariant]
    spec fn well_formed(self) -> bool {
        is_secret_key(self.bytes@)
    }

    /// The bytes that encode the key.
    pub closed spec fn encoding(self) -> Seq<u8> {
        self.bytes@
    }
}

/// A signing capability. Today the only backend is a key held in memory.
pub enum Signer {
    Plain(SecretKey),
}

impl Signer {
    /// The bytes that encode the signer's secret key.
    pub open spec fn secret(self) -> Seq<u8> {
        match self {
            Signer::Plain(secret) => secret.encoding(),
        }
    }

    /// The signer's public identity. It depends on the secret alone.
    pub open spec fn public_key(self) -> Seq<u8> {
        public_key_of(self.secret())
    }

    /// The signature this signer gives to an object root on a chain.
    pub open spec fn signature(self, chain: Chain, object_root: Seq<u8>) -> Seq<u8> {
        builder_signature(self.secret(), chain.builder_domain@, object_root)
    }

    /// A signer over the key that `bytes` encode.
    pub fn new_from_bytes(bytes: &[u8]) -> (signer: Signer)
        requires
            is_secret_key(bytes@),
        ensures
            signer.secret() == bytes@,
    {
        let mut secret = [0u8; 32];
        let mut i: usize = 0;
        while i < 32
            invariant
                i <= 32,
                bytes@.len() == 32,
                forall|j: int| 0 <= j < i ==> secret@[j] == bytes@[j],
            decreases 32 - i,
        {
            secret[i] = bytes[i];
            i += 1;
        }
        assert(secret@ =~= bytes@);
        Signer::Plain(SecretKey { bytes: secret })
    }

    /// A signer over the key that key generation derives from
    /// `key_material`.
    pub fn from_key_material(key_material: &[u8; 32]) -> (signer: Signer)
        ensures
            signer.secret() == generated_key_of(key_material@),
            is_secret_key(signer.secret()),
    {
        let secret = generate_secret_key(key_material);
        Signer::new_from_bytes(&secret)
    }

    /// A signer over a fresh key: the key that key generation derives from
    /// 32 bytes drawn from the random source.
    pub fn new_random() -> (signer: Signer)
        ensures
            is_secret_key(signer.secret()),
            exists|key_material: Seq<u8>|
                key_material.len() == 32 && signer.secret() == generated_key_of(key_material),
    {
        let key_material = random_key_material();
        let signer = Signer::from_key_material(&key_material);
        assert(key_material@.len() == 32 && signer.secret() == generated_key_of(key_material@));
        signer
    }

    /// A signer over the key that `bytes` encode, or `None` where they encode
    /// none.
    pub fn try_from_bytes(bytes: &[u8]) -> (signer: Option<Signer>)
        ensures
            signer is Some == is_secret_key(bytes@),
            signer matches Some(s) ==> s.secret() == bytes@,
    {
        if check_secret_key(bytes) {
            Some(Signer::new_from_bytes(bytes))
        } else {
            None
        }
    }

    /// The signer's public identity.
    pub fn pubkey(&self) -> (key: BlsPublicKey)
        ensures
            key@ == self.public_key(),
    {
        match self {
            Signer::Plain(secret) => {
                proof {
                    use_type_invariant(secret);
                }
                BlsPublicKey { bytes: derive_public_key(&secret.bytes) }
            },
        }
    }

    /// Signs an object root under the builder domain of `chain`.
    pub fn sign_root(&self, chain: Chain, object_root: [u8; 32]) -> (signature: BlsSignature)
        ensures
            signature@ == self.signature(chain, object_root@),
    {
        match self {
            Signer::Plain(secret) => {
                proof {
                    use_type_invariant(secret);
                }
                let root = compute_signing_root(object_root, chain.builder_domain());
                BlsSignature { bytes: sign_message(&secret.bytes, &root, &BLS_DST_SIG) }
            },
        }
    }

    /// Signs a message under the builder domain of `chain`: asks the message
    /// for its object root and signs that.
    pub fn sign<T: ObjectTreeHash>(&self, chain: Chain, msg: &T) -> (signature: BlsSignature)
        ensures
            exists|object_root: [u8; 32]|
                call_ensures(T::tree_hash, (msg,), object_root) && signature@ == self.signature(
                    chain,
                    object_root@,
                ),
    {
        let object_root = msg.tree_hash();
        self.sign_root(chain, object_root)
    }
}

/// A signer rebuilt from the secret bytes of another has the same public key.
pub proof fn lemma_same_secret_same_pubkey(first: Signer, rebuilt: Signer)
    requires
        rebuilt.secret() == first.secret(),
    ensures
        rebuilt.public_key() == first.public_key(),
{
}

} // verus!
