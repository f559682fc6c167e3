//! A signature the lock must check, as handed to a verifier.

use vstd::prelude::*;

verus! {

/// Which signing hash a lock signature covers.
#[derive(Clone, Copy, Debug, PartialEq, Eq, Structural)]
pub enum SignatureOrigin {
    SighashAll,
    OtxBase,
    OtxAppend,
}

/// One signature the current lock must check: the seal found for it, the
/// witness that carries it, and the message hash it signs.
#[derive(Clone, Debug, PartialEq, Eq)]
pub struct LockSignatureRequest {
    pub script_hash: [u8; 32],
    pub carrier_witness_index: usize,
    pub origin: SignatureOrigin,
    pub seal: Vec<u8>,
    pub signing_message_hash: [u8; 32],
}

} // verus!
