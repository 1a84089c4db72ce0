//! What a signing request can fail with.

use vstd::prelude::*;
use crate::types::BlsPublicKey;

verus! {

/// Why the manager refused a request. Either way the manager is left as it
/// was and stays usable.
#[derive(Clone, Copy, Debug, PartialEq, Eq)]
pub enum SignError {
    /// No consensus signer is registered under this identity.
    UnknownConsensusSigner(BlsPublicKey),
    /// No proxy signer is registered under this identity.
    UnknownProxySigner(BlsPublicKey),
}

} // verus!
