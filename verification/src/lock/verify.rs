//! Checking one seal: recovering the signer's public key and comparing its
//! hash with the identity in the lock's arguments.

use vstd::prelude::*;

use super::args::AuthContext;

verus! {

/// Why a verifier refused a seal.
#[derive(Clone, Copy, Debug, PartialEq, Eq, Structural)]
pub enum VerifyError {
    /// The seal does not have the shape the verifier reads.
    InvalidSealEncoding,
    /// The seal is not a valid signature of the message by the identity.
    VerificationFailed,
    /// The verifier has no signature backend to check with.
    BackendUnavailable,
}

/// Any acceptance predicate qualifies; `choose` over it picks one nobody knows.
pub open spec fn spec_some_acceptance(f: spec_fn(AuthContext, Seq<u8>, Seq<u8>) -> bool) -> bool {
    true
}

/// A verifier of seals: whether `seal` is a valid signature of
/// `signing_message_hash` by the identity `auth`. Users of the library may
/// bring their own; each says, by `accepts`, which seals it accepts.
pub trait LockVerifier {
    /// The seals this verifier accepts. A verifier that does not say is
    /// taken to accept an unknown set of seals.
    open spec fn accepts(&self, auth: AuthContext, seal: Seq<u8>, signing_message_hash: Seq<u8>) -> bool {
        let unknown = choose|f: spec_fn(AuthContext, Seq<u8>, Seq<u8>) -> bool| #[trigger] spec_some_acceptance(f);
        unknown(auth, seal, signing_message_hash)
    }

    /// Checks `seal` against `signing_message_hash` for `auth`.
    fn verify(&self, auth: &AuthContext, seal: &[u8], signing_message_hash: &[u8; 32]) -> (res: Result<(), VerifyError>)
        ensures
            res is Ok <==> self.accepts(*auth, seal@, signing_message_hash@),
    ;
}

/// The compressed SEC1 encoding of the secp256k1 public key that
/// `VerifyingKey::recover_from_prehash` of the k256 crate recovers from a
/// prehash, a 64-byte `r || s` signature and a recovery id, when all three are
/// accepted.
pub uninterp spec fn secp256k1_recovered_key(prehash: Seq<u8>, signature: Seq<u8>, recovery: u8) -> Option<Seq<u8>>;

/// The digest `ckb_hash::blake2b_256` gives: 32-byte blake2b with the
/// personalization `ckb-default-hash`.
pub uninterp spec fn ckb_default_hash(data: Seq<u8>) -> Seq<u8>;

/// Recovers the signer's public key with the k256 crate: `RecoveryId::try_from`
/// reads the recovery id, `Signature::from_slice` the `r || s` pair,
/// `VerifyingKey::recover_from_prehash` recovers the key and `to_sec1_point(true)`
/// encodes it compressed. The intermediate values are instances of generic
/// types of a crate this library does not name, so the four calls stand in one
/// item. Claimed: the result is the named recovery of the arguments, and there
/// is none for a recovery id above 3 or a signature that is not 64 bytes long,
/// as `RecoveryId::from_byte` and `Signature::from_slice` check. Which keys the
/// curve arithmetic recovers is not stated.
#[verifier::external_body]
fn recover_compressed_key(prehash: &[u8; 32], signature: &[u8], recovery: u8) -> (res: Option<[u8; 33]>)
    ensures
        match res {
            Some(key) => secp256k1_recovered_key(prehash@, signature@, recovery) == Some(key@),
            None => secp256k1_recovered_key(prehash@, signature@, recovery) is None,
        },
        recovery > 3 ==> res is None,
        signature@.len() != 64 ==> res is None,
{
    let recovery_id = k256::ecdsa::RecoveryId::try_from(recovery).ok()?;
    let signature = k256::ecdsa::Signature::from_slice(signature).ok()?;
    let key = k256::ecdsa::VerifyingKey::recover_from_prehash(prehash, &signature, recovery_id).ok()?;
    let point = key.to_sec1_point(true);
    point.as_bytes().try_into().ok()
}

/// Calls `ckb_hash::blake2b_256`. Claimed: the digest is the named CKB hash of
/// the data; its value is not stated.
#[verifier::external_body]
fn ckb_blake2b_256(data: &[u8]) -> (res: [u8; 32])
    ensures
        res@ == ckb_default_hash(data@),
{
    ckb_hash::blake2b_256(data)
}

/// A seal accepted for `identity`: 65 bytes, a recoverable signature in the
/// first 64 and the recovery id in the last, whose recovered key hashes to a
/// digest that starts with the identity.
pub open spec fn spec_seal_accepted(identity: Seq<u8>, seal: Seq<u8>, signing_message_hash: Seq<u8>) -> bool {
    &&& seal.len() == 65
    &&& match secp256k1_recovered_key(signing_message_hash, seal.take(64), seal[64]) {
        Some(key) => ckb_default_hash(key).take(20) == identity,
        None => false,
    }
}

/// Checks seals with secp256k1 public key recovery.
#[derive(Clone, Copy, Debug, Default)]
pub struct LocalVerifier;

/// Whether the first 20 bytes of `digest` are `identity`.
fn identity_matches(digest: &[u8; 32], identity: &[u8; 20]) -> (res: bool)
    ensures
        res == (digest@.take(20) == identity@),
{
    let mut i: usize = 0;
    while i < 20
        invariant
            0 <= i <= 20,
            digest@.len() == 32,
            identity@.len() == 20,
            forall|j: int| 0 <= j < i ==> digest@[j] == identity@[j],
        decreases 20 - i,
    {
        if digest[i] != identity[i] {
            proof {
                assert(digest@.take(20)[i as int] != identity@[i as int]);
            }
            return false;
        }
        i = i + 1;
    }
    proof {
        assert(digest@.take(20) =~= identity@);
    }
    true
}

impl LockVerifier for LocalVerifier {
    open spec fn accepts(&self, auth: AuthContext, seal: Seq<u8>, signing_message_hash: Seq<u8>) -> bool {
        spec_seal_accepted(auth.identity@, seal, signing_message_hash)
    }

    /// Checks one seal: a seal that is not 65 bytes long is badly encoded,
    /// any other refusal is a failed verification. The secp256k1 backend is
    /// always linked, so this verifier never reports `BackendUnavailable`: a
    /// well-shaped seal that does not recover to the identity is a failed
    /// verification.
    fn verify(&self, auth: &AuthContext, seal: &[u8], signing_message_hash: &[u8; 32]) -> (res: Result<(), VerifyError>)
        ensures
            res is Ok <==> spec_seal_accepted(auth.identity@, seal@, signing_message_hash@),
            seal@.len() != 65 ==> res == Err::<(), VerifyError>(VerifyError::InvalidSealEncoding),
            seal@.len() == 65 && res is Err ==> res == Err::<(), VerifyError>(VerifyError::VerificationFailed),
    {
        if seal.len() != 65 {
            return Err(VerifyError::InvalidSealEncoding);
        }
        let recovery = seal[64];
        let signature = vstd::slice::slice_subrange(seal, 0, 64);
        proof {
            assert(signature@ =~= seal@.take(64));
        }
        let key = match recover_compressed_key(signing_message_hash, signature, recovery) {
            Some(key) => key,
            None => return Err(VerifyError::VerificationFailed),
        };
        let digest = ckb_blake2b_256(vstd::array::array_as_slice(&key));
        if identity_matches(&digest, &auth.identity) {
            Ok(())
        } else {
            Err(VerifyError::VerificationFailed)
        }
    }
}

} // verus!
