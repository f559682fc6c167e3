use vstd::prelude::*;

verus! {

/// Errors reported by the Cobuild core logic.
#[derive(Clone, Copy, Debug, PartialEq, Eq, Structural)]
pub enum CoreError {
    MalformedCobuild,
    InvalidOtxLayout,
    InvalidContextInput,
    InvalidMessageTarget,
    MissingHashInput,
    HashInputTooLarge,
    ActionNotFound,
    DuplicateSighashAll,
    MissingLockGroupCoverage,
    MissingLockSeal,
    DuplicateLockSeal,
    DuplicateMatchingAction,
    InvalidLockGroupWitness,
    MissingSealPair,
    DuplicateSealPair,
    InvalidSealScope,
}

} // verus!
