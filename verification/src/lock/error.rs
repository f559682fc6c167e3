//! The lock's errors and the exit codes they end the script with.

use vstd::prelude::*;

use crate::error::CoreError;

verus! {

/// Why the lock refused the transaction.
#[derive(Clone, Copy, Debug, PartialEq, Eq, Structural)]
pub enum Error {
    SysIndexOutOfBound,
    SysItemMissing,
    SysLengthNotEnough,
    SysEncoding,
    SysWaitFailure,
    SysInvalidFd,
    SysOtherEndClosed,
    SysMaxVmsSpawned,
    SysMaxFdsCreated,
    SyscallUnknown,
    InvalidArgs,
    MalformedCobuild,
    InvalidOtxLayout,
    InvalidMessageTarget,
    DuplicateSighashAll,
    MissingLockGroupCoverage,
    MissingSealPair,
    DuplicateSealPair,
    InvalidSealScope,
    DuplicateMatchingAction,
    InvalidLockGroupWitness,
    LockSemanticFailure,
    ActionNotFound,
    VerifyFailure,
    InternalFailure,
    InvalidContextInput,
    MissingHashInput,
    HashInputTooLarge,
}

/// The exit code of each error: syscall failures from 1, arguments at 20,
/// Cobuild protocol errors from 30, semantic failures from 40, signature
/// failures at 50 and internal failures from 60.
pub open spec fn error_code(e: Error) -> i8 {
    match e {
        Error::SysIndexOutOfBound => 1,
        Error::SysItemMissing => 2,
        Error::SysLengthNotEnough => 3,
        Error::SysEncoding => 4,
        Error::SysWaitFailure => 5,
        Error::SysInvalidFd => 6,
        Error::SysOtherEndClosed => 7,
        Error::SysMaxVmsSpawned => 8,
        Error::SysMaxFdsCreated => 9,
        Error::SyscallUnknown => 10,
        Error::InvalidArgs => 20,
        Error::MalformedCobuild => 30,
        Error::InvalidOtxLayout => 31,
        Error::InvalidMessageTarget => 32,
        Error::DuplicateSighashAll => 33,
        Error::MissingLockGroupCoverage => 34,
        Error::MissingSealPair => 35,
        Error::DuplicateSealPair => 36,
        Error::InvalidSealScope => 37,
        Error::DuplicateMatchingAction => 38,
        Error::InvalidLockGroupWitness => 39,
        Error::LockSemanticFailure => 40,
        Error::ActionNotFound => 41,
        Error::VerifyFailure => 50,
        Error::InternalFailure => 60,
        Error::InvalidContextInput => 61,
        Error::MissingHashInput => 62,
        Error::HashInputTooLarge => 63,
    }
}

impl Error {
    /// The exit code the script ends with.
    pub fn code(self) -> (res: i8)
        ensures
            res == error_code(self),
    {
        match self {
            Error::SysIndexOutOfBound => 1,
            Error::SysItemMissing => 2,
            Error::SysLengthNotEnough => 3,
            Error::SysEncoding => 4,
            Error::SysWaitFailure => 5,
            Error::SysInvalidFd => 6,
            Error::SysOtherEndClosed => 7,
            Error::SysMaxVmsSpawned => 8,
            Error::SysMaxFdsCreated => 9,
            Error::SyscallUnknown => 10,
            Error::InvalidArgs => 20,
            Error::MalformedCobuild => 30,
            Error::InvalidOtxLayout => 31,
            Error::InvalidMessageTarget => 32,
            Error::DuplicateSighashAll => 33,
            Error::MissingLockGroupCoverage => 34,
            Error::MissingSealPair => 35,
            Error::DuplicateSealPair => 36,
            Error::InvalidSealScope => 37,
            Error::DuplicateMatchingAction => 38,
            Error::InvalidLockGroupWitness => 39,
            Error::LockSemanticFailure => 40,
            Error::ActionNotFound => 41,
            Error::VerifyFailure => 50,
            Error::InternalFailure => 60,
            Error::InvalidContextInput => 61,
            Error::MissingHashInput => 62,
            Error::HashInputTooLarge => 63,
        }
    }
}

impl From<Error> for i8 {
    fn from(error: Error) -> (res: i8) {
        error.code()
    }
}

impl vstd::std_specs::convert::FromSpecImpl<Error> for i8 {
    open spec fn obeys_from_spec() -> bool {
        true
    }

    open spec fn from_spec(error: Error) -> i8 {
        error_code(error)
    }
}

/// The lock error each core error is reported as: the same error, with a
/// missing or repeated lock seal reported as a missing or repeated seal pair.
pub open spec fn spec_from_core(e: CoreError) -> Error {
    match e {
        CoreError::MalformedCobuild => Error::MalformedCobuild,
        CoreError::InvalidOtxLayout => Error::InvalidOtxLayout,
        CoreError::InvalidContextInput => Error::InvalidContextInput,
        CoreError::InvalidMessageTarget => Error::InvalidMessageTarget,
        CoreError::MissingHashInput => Error::MissingHashInput,
        CoreError::HashInputTooLarge => Error::HashInputTooLarge,
        CoreError::ActionNotFound => Error::ActionNotFound,
        CoreError::DuplicateSighashAll => Error::DuplicateSighashAll,
        CoreError::MissingLockGroupCoverage => Error::MissingLockGroupCoverage,
        CoreError::MissingLockSeal => Error::MissingSealPair,
        CoreError::DuplicateLockSeal => Error::DuplicateSealPair,
        CoreError::DuplicateMatchingAction => Error::DuplicateMatchingAction,
        CoreError::InvalidLockGroupWitness => Error::InvalidLockGroupWitness,
        CoreError::MissingSealPair => Error::MissingSealPair,
        CoreError::DuplicateSealPair => Error::DuplicateSealPair,
        CoreError::InvalidSealScope => Error::InvalidSealScope,
    }
}

impl From<CoreError> for Error {
    fn from(error: CoreError) -> (res: Error) {
        match error {
            CoreError::MalformedCobuild => Error::MalformedCobuild,
            CoreError::InvalidOtxLayout => Error::InvalidOtxLayout,
            CoreError::InvalidContextInput => Error::InvalidContextInput,
            CoreError::InvalidMessageTarget => Error::InvalidMessageTarget,
            CoreError::MissingHashInput => Error::MissingHashInput,
            CoreError::HashInputTooLarge => Error::HashInputTooLarge,
            CoreError::ActionNotFound => Error::ActionNotFound,
            CoreError::DuplicateSighashAll => Error::DuplicateSighashAll,
            CoreError::MissingLockGroupCoverage => Error::MissingLockGroupCoverage,
            CoreError::MissingLockSeal => Error::MissingSealPair,
            CoreError::DuplicateLockSeal => Error::DuplicateSealPair,
            CoreError::DuplicateMatchingAction => Error::DuplicateMatchingAction,
            CoreError::InvalidLockGroupWitness => Error::InvalidLockGroupWitness,
            CoreError::MissingSealPair => Error::MissingSealPair,
            CoreError::DuplicateSealPair => Error::DuplicateSealPair,
            CoreError::InvalidSealScope => Error::InvalidSealScope,
        }
    }
}

impl vstd::std_specs::convert::FromSpecImpl<CoreError> for Error {
    open spec fn obeys_from_spec() -> bool {
        true
    }

    open spec fn from_spec(error: CoreError) -> Error {
        spec_from_core(error)
    }
}

/// A failed syscall, as the host reports it.
#[derive(Clone, Copy, Debug, PartialEq, Eq, Structural)]
pub enum SysFailure {
    IndexOutOfBound,
    ItemMissing,
    LengthNotEnough(usize),
    Encoding,
    WaitFailure,
    InvalidFd,
    OtherEndClosed,
    MaxVmsSpawned,
    MaxFdsCreated,
    TypeIdError,
    Unknown(u64),
}

/// The lock error each failed syscall is reported as.
pub open spec fn spec_from_sys(e: SysFailure) -> Error {
    match e {
        SysFailure::IndexOutOfBound => Error::SysIndexOutOfBound,
        SysFailure::ItemMissing => Error::SysItemMissing,
        SysFailure::LengthNotEnough(_) => Error::SysLengthNotEnough,
        SysFailure::Encoding => Error::SysEncoding,
        SysFailure::WaitFailure => Error::SysWaitFailure,
        SysFailure::InvalidFd => Error::SysInvalidFd,
        SysFailure::OtherEndClosed => Error::SysOtherEndClosed,
        SysFailure::MaxVmsSpawned => Error::SysMaxVmsSpawned,
        SysFailure::MaxFdsCreated => Error::SysMaxFdsCreated,
        SysFailure::TypeIdError => Error::SyscallUnknown,
        SysFailure::Unknown(_) => Error::SyscallUnknown,
    }
}

impl From<SysFailure> for Error {
    fn from(error: SysFailure) -> (res: Error) {
        match error {
            SysFailure::IndexOutOfBound => Error::SysIndexOutOfBound,
            SysFailure::ItemMissing => Error::SysItemMissing,
            SysFailure::LengthNotEnough(_) => Error::SysLengthNotEnough,
            SysFailure::Encoding => Error::SysEncoding,
            SysFailure::WaitFailure => Error::SysWaitFailure,
            SysFailure::InvalidFd => Error::SysInvalidFd,
            SysFailure::OtherEndClosed => Error::SysOtherEndClosed,
            SysFailure::MaxVmsSpawned => Error::SysMaxVmsSpawned,
            SysFailure::MaxFdsCreated => Error::SysMaxFdsCreated,
            SysFailure::TypeIdError => Error::SyscallUnknown,
            SysFailure::Unknown(_) => Error::SyscallUnknown,
        }
    }
}

impl vstd::std_specs::convert::FromSpecImpl<SysFailure> for Error {
    open spec fn obeys_from_spec() -> bool {
        true
    }

    open spec fn from_spec(error: SysFailure) -> Error {
        spec_from_sys(error)
    }
}

/// Distinct errors end the script with distinct exit codes, and no error
/// ends it with the success code 0.
pub proof fn error_codes_are_distinct(a: Error, b: Error)
    ensures
        error_code(a) != 0,
        error_code(a) == error_code(b) ==> a == b,
{
}

} // verus!
