//! The BLS primitive, the Merkle hash and the random source.
//!
//! Nothing in this module is proved. Each function makes one call into
//! `blst`, `tree_hash` or `rand` and states what that crate's source shows of
//! the result; the rest of the library is verified against these statements.

use vstd::prelude::*;

verus! {

/// The number that `bytes` write in base 256, most significant byte first.
pub open spec fn big_endian(bytes: Seq<u8>) -> nat
    decreases bytes.len(),
{
    if bytes.len() == 0 {
        0
    } else {
        big_endian(bytes.drop_last()) * 256 + bytes.last() as nat
    }
}

/// The order of the group in which BLS12-381 keys live.
pub open spec fn group_order() -> nat {
    0x73eda753299d7d483339d80809a1d80553bda402fffe5bfeffffffff00000001nat
}

/// Whether `bytes` encode a secret key: 32 bytes that write, most significant
/// byte first, a number that is not zero and below the group order.
pub open spec fn is_secret_key(bytes: Seq<u8>) -> bool {
    bytes.len() == 32 && 0 < big_endian(bytes) < group_order()
}

/// The encoding of the secret key that key generation derives from
/// `key_material` and empty key info: what `blst::min_pk::SecretKey::key_gen`
/// returns, as `blst::min_pk::SecretKey::to_bytes` writes it out.
pub uninterp spec fn generated_key_of(key_material: Seq<u8>) -> Seq<u8>;

/// The public key that belongs to the secret key encoded by `secret`, in
/// compressed form: what `blst::min_pk::SecretKey::sk_to_pk` derives and
/// `blst::min_pk::PublicKey::to_bytes` writes out.
pub uninterp spec fn public_key_of(secret: Seq<u8>) -> Seq<u8>;

/// The compressed signature of `message` under the secret key encoded by
/// `secret` and the domain separation tag `dst`, with no augmentation: what
/// `blst::min_pk::SecretKey::sign` computes.
pub uninterp spec fn signature_of(secret: Seq<u8>, message: Seq<u8>, dst: Seq<u8>) -> Seq<u8>;

/// The Merkle root of `bytes` split into 32-byte leaves, over at least
/// `minimum_leaf_count` leaves: what `tree_hash::merkle_root` computes.
pub uninterp spec fn merkle_root_of(bytes: Seq<u8>, minimum_leaf_count: nat) -> Seq<u8>;

/// Calls `blst::min_pk::SecretKey::from_bytes` and reports whether it accepted
/// the bytes. The call rejects any input that is not 32 bytes long, reads the
/// 32 bytes as a number, most significant byte first, and accepts it where it
/// is not zero and below the group order: the contract says so.
#[verifier::external_body]
pub(crate) fn check_secret_key(bytes: &[u8]) -> (valid: bool)
    ensures
        valid == is_secret_key(bytes@),
{
    blst::min_pk::SecretKey::from_bytes(bytes).is_ok()
}

/// Calls `blst::min_pk::SecretKey::sk_to_pk` on the key that `secret` encodes
/// and returns the public key in compressed form. The contract names the
/// result as a function of the secret bytes.
#[verifier::external_body]
pub(crate) fn derive_public_key(secret: &[u8; 32]) -> (public: [u8; 48])
    requires
        is_secret_key(secret@),
    ensures
        public@ == public_key_of(secret@),
{
    blst::min_pk::SecretKey::from_bytes(secret).unwrap().sk_to_pk().to_bytes()
}

/// Calls `blst::min_pk::SecretKey::sign` with the key that `secret` encodes,
/// an empty augmentation, and returns the signature in compressed form. The
/// contract names the result as a function of secret, message and tag.
#[verifier::external_body]
pub(crate) fn sign_message(secret: &[u8; 32], message: &[u8], dst: &[u8]) -> (signature: [u8; 96])
    requires
        is_secret_key(secret@),
    ensures
        signature@ == signature_of(secret@, message@, dst@),
{
    blst::min_pk::SecretKey::from_bytes(secret).unwrap().sign(message, dst, &[]).to_bytes()
}

/// Calls `blst::min_pk::SecretKey::key_gen` with empty key info and returns
/// the generated key's encoding. The call fails only on less than 32 bytes of
/// key material, and its result depends on its arguments alone: the contract
/// names it. Key generation reduces its output modulo the group order and
/// starts over while the result is zero, so the contract also claims that
/// the encoding is that of a secret key.
#[verifier::external_body]
pub(crate) fn generate_secret_key(key_material: &[u8; 32]) -> (secret: [u8; 32])
    ensures
        secret@ == generated_key_of(key_material@),
        is_secret_key(secret@),
{
    blst::min_pk::SecretKey::key_gen(key_material, &[]).unwrap().to_bytes()
}

/// Fills 32 bytes from `rand`'s thread-local generator. Nothing is claimed of
/// the bytes.
#[verifier::external_body]
pub(crate) fn random_key_material() -> [u8; 32] {
    let mut key_material = [0u8; 32];
    rand::RngCore::fill_bytes(&mut rand::thread_rng(), &mut key_material);
    key_material
}

/// Calls `tree_hash::merkle_root` on at most 64 bytes and at most two
/// leaves, where the call hashes one block, or pads, and cannot fail. The
/// contract names the 32-byte root as a function of the bytes and the leaf
/// count.
#[verifier::external_body]
pub(crate) fn merkle_root(bytes: &[u8], minimum_leaf_count: usize) -> (root: [u8; 32])
    requires
        bytes@.len() <= 64,
        minimum_leaf_count <= 2,
    ensures
        root@ == merkle_root_of(bytes@, minimum_leaf_count as nat),
{
    tree_hash::merkle_root(bytes, minimum_leaf_count).0
}

} // verus!
