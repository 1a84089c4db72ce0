//! Key custody and signing authority for a validator's consensus identity.
//!
//! A [`SigningManager`] holds the consensus signers of a validator and the
//! proxy signers minted on their behalf. Each proxy comes with a delegation
//! signed by the consensus key that authorised it, so that every signature
//! made with a proxy key can be traced back to a consensus identity.

pub mod error;
pub mod manager;
pub mod primitives;
pub mod registry;
pub mod signature;
pub mod signer;
pub mod types;

pub use error::SignError;
pub use manager::{ProxySigner, SigningManager};
pub use signature::ObjectTreeHash;
pub use signer::{SecretKey, Signer};
pub use types::{BlsPublicKey, BlsSignature, Chain, ProxyDelegation, SignedProxyDelegation};
