//! Finding the seal a lock script left in a list of seals.

use vstd::prelude::*;

use crate::error::CoreError;
use crate::hash::spec_chunk;
use crate::reader::{cursor_bytes, hash32_eq};
use crate::view::{LockSealModel, LockSealView};

verus! {

/// Reading the first `n` seals in order: the bytes of the only seal for
/// `script_hash` so far, none, or the first error (a second seal for the
/// script, or an unreadable seal).
pub open spec fn spec_unique_seal_prefix(seals: Seq<LockSealModel>, script_hash: Seq<u8>, n: nat) -> Result<Option<Seq<u8>>, CoreError>
    decreases n,
{
    if n == 0 {
        Ok(None)
    } else {
        match spec_unique_seal_prefix(seals, script_hash, (n - 1) as nat) {
            Err(e) => Err(e),
            Ok(prev) => if seals[n - 1].script_hash == script_hash {
                if prev is Some {
                    Err(CoreError::DuplicateSealPair)
                } else {
                    match spec_chunk(seals[n - 1].seal, CoreError::MalformedCobuild) {
                        Ok(b) => Ok(Some(b)),
                        Err(e) => Err(e),
                    }
                }
            } else {
                Ok(prev)
            },
        }
    }
}

/// The bytes of the one seal for `script_hash`; none is a missing seal.
pub open spec fn spec_unique_lock_seal(seals: Seq<LockSealModel>, script_hash: Seq<u8>) -> Result<Seq<u8>, CoreError> {
    match spec_unique_seal_prefix(seals, script_hash, seals.len()) {
        Err(e) => Err(e),
        Ok(None) => Err(CoreError::MissingSealPair),
        Ok(Some(b)) => Ok(b),
    }
}

/// An error among the first seals is the error of the whole list.
pub proof fn lemma_unique_seal_err_stays(seals: Seq<LockSealModel>, script_hash: Seq<u8>, k: nat, n: nat)
    requires
        k <= n,
        spec_unique_seal_prefix(seals, script_hash, k) is Err,
    ensures
        spec_unique_seal_prefix(seals, script_hash, n) == spec_unique_seal_prefix(seals, script_hash, k),
    decreases n - k,
{
    if k < n {
        lemma_unique_seal_err_stays(seals, script_hash, k, (n - 1) as nat);
    }
}

/// How many of the first `n` seals are for `script_hash`.
pub open spec fn spec_seal_count(seals: Seq<LockSealModel>, script_hash: Seq<u8>, n: nat) -> nat
    decreases n,
{
    if n == 0 {
        0
    } else {
        spec_seal_count(seals, script_hash, (n - 1) as nat) + if seals[n - 1].script_hash == script_hash { 1nat } else { 0nat }
    }
}

/// What the search over the first `n` seals gives, by how many are for the script.
proof fn lemma_seal_prefix_counts(seals: Seq<LockSealModel>, script_hash: Seq<u8>, n: nat)
    requires
        n <= seals.len(),
    ensures
        spec_seal_count(seals, script_hash, n) == 0 ==> spec_unique_seal_prefix(seals, script_hash, n) == Ok::<Option<Seq<u8>>, CoreError>(None),
        spec_seal_count(seals, script_hash, n) >= 2 ==> spec_unique_seal_prefix(seals, script_hash, n) is Err,
        spec_unique_seal_prefix(seals, script_hash, n) matches Ok(Some(b)) ==> {
            &&& spec_seal_count(seals, script_hash, n) == 1
            &&& exists|i: int| 0 <= i < n && (#[trigger] seals[i]).script_hash == script_hash
                && spec_chunk(seals[i].seal, CoreError::MalformedCobuild) == Ok::<Seq<u8>, CoreError>(b)
        },
        spec_unique_seal_prefix(seals, script_hash, n) == Ok::<Option<Seq<u8>>, CoreError>(None) ==> spec_seal_count(seals, script_hash, n) == 0,
    decreases n,
{
    if n > 0 {
        lemma_seal_prefix_counts(seals, script_hash, (n - 1) as nat);
        if let Ok(Some(b)) = spec_unique_seal_prefix(seals, script_hash, n) {
            if !(seals[n - 1].script_hash == script_hash) {
                let i = choose|i: int| 0 <= i < n - 1 && (#[trigger] seals[i]).script_hash == script_hash
                    && spec_chunk(seals[i].seal, CoreError::MalformedCobuild) == Ok::<Seq<u8>, CoreError>(b);
                assert(0 <= i < n);
            } else {
                assert(seals[n - 1].script_hash == script_hash);
            }
        }
    }
}

/// A lock leaves exactly one seal: with none for it the search reports a
/// missing seal, with two or more it fails, and when it succeeds exactly one
/// seal names the lock and the result is that seal's bytes.
pub proof fn lock_seal_is_unique(seals: Seq<LockSealModel>, script_hash: Seq<u8>)
    ensures
        spec_seal_count(seals, script_hash, seals.len()) == 0 ==> spec_unique_lock_seal(seals, script_hash) == Err::<Seq<u8>, CoreError>(
            CoreError::MissingSealPair,
        ),
        spec_seal_count(seals, script_hash, seals.len()) >= 2 ==> spec_unique_lock_seal(seals, script_hash) is Err,
        spec_unique_lock_seal(seals, script_hash) matches Ok(b) ==> {
            &&& spec_seal_count(seals, script_hash, seals.len()) == 1
            &&& exists|i: int| 0 <= i < seals.len() && (#[trigger] seals[i]).script_hash == script_hash
                && spec_chunk(seals[i].seal, CoreError::MalformedCobuild) == Ok::<Seq<u8>, CoreError>(b)
        },
{
    lemma_seal_prefix_counts(seals, script_hash, seals.len());
}

/// The bytes of the one seal the lock `script_hash` left among `seals`.
pub fn unique_lock_seal(script_hash: [u8; 32], seals: &[LockSealView]) -> (res: Result<Vec<u8>, CoreError>)
    ensures
        match spec_unique_lock_seal(seals@.map_values(|s: LockSealView| s@), script_hash@) {
            Ok(b) => res matches Ok(v) && v@ == b,
            Err(e) => res == Err::<Vec<u8>, CoreError>(e),
        },
{
    let ghost models = seals@.map_values(|s: LockSealView| s@);
    let mut found: Option<Vec<u8>> = None;
    let mut i: usize = 0;
    while i < seals.len()
        invariant
            models == seals@.map_values(|s: LockSealView| s@),
            0 <= i <= seals@.len(),
            spec_unique_seal_prefix(models, script_hash@, i as nat) == Ok::<Option<Seq<u8>>, CoreError>(
                match found {
                    Some(v) => Some(v@),
                    None => None,
                },
            ),
        decreases seals@.len() - i,
    {
        let seal = &seals[i];
        proof {
            assert(models[i as int] == seal@);
        }
        if hash32_eq(&seal.script_hash, &script_hash) {
            if found.is_some() {
                proof {
                    lemma_unique_seal_err_stays(models, script_hash@, (i + 1) as nat, seals@.len());
                }
                return Err(CoreError::DuplicateSealPair);
            }
            let bytes = match cursor_bytes(&seal.seal) {
                Ok(b) => b,
                Err(e) => {
                    proof {
                        lemma_unique_seal_err_stays(models, script_hash@, (i + 1) as nat, seals@.len());
                    }
                    return Err(e);
                },
            };
            found = Some(bytes);
        }
        i = i + 1;
    }
    match found {
        Some(b) => Ok(b),
        None => Err(CoreError::MissingSealPair),
    }
}

} // verus!
