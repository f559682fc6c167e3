use cobuild_otx::error::CoreError;
use cobuild_otx::lock::args::{AuthContext, AUTH_ARGS_LEN};
use cobuild_otx::lock::entry::{exit_code, map_verify_error, verify_required_seals, verify_required_signatures};
use cobuild_otx::lock::error::{Error, SysFailure};
use cobuild_otx::lock::verify::{LocalVerifier, LockVerifier, VerifyError};
use cobuild_otx::plan::{LockValidationPlan, SignatureOrigin, SigningRequirement};

struct FailingVerifier;

impl LockVerifier for FailingVerifier {
    fn verify(&self, _auth: &AuthContext, _seal: &[u8], _signing_message_hash: &[u8; 32]) -> Result<(), VerifyError> {
        Err(VerifyError::VerificationFailed)
    }
}

struct AcceptingVerifier;

impl LockVerifier for AcceptingVerifier {
    fn verify(&self, _auth: &AuthContext, _seal: &[u8], _signing_message_hash: &[u8; 32]) -> Result<(), VerifyError> {
        Ok(())
    }
}

#[test]
fn parses_auth_identity() {
    let args = [7u8; 20];
    let auth = AuthContext::try_from(args.as_slice()).unwrap();
    assert_eq!(auth.identity, [7u8; 20]);
}

#[test]
fn rejects_wrong_arg_length() {
    assert!(AuthContext::try_from(&[7u8; 19][..]).is_err());
    assert!(AuthContext::try_from(&[7u8; 21][..]).is_err());
}

#[test]
fn auth_args_errors_are_invalid_args() {
    assert_eq!(AUTH_ARGS_LEN, 20);
    assert_eq!(AuthContext::from_args(&[]), Err(Error::InvalidArgs));
    let mut args = [0u8; 20];
    for (i, b) in args.iter_mut().enumerate() {
        *b = i as u8;
    }
    assert_eq!(AuthContext::from_args(&args).unwrap().identity, args);
}

#[test]
fn error_codes_are_grouped_by_category() {
    assert_eq!(Error::SysIndexOutOfBound.code(), 1);
    assert_eq!(Error::SysItemMissing.code(), 2);
    assert_eq!(Error::SysLengthNotEnough.code(), 3);
    assert_eq!(Error::SysEncoding.code(), 4);
    assert_eq!(Error::SysWaitFailure.code(), 5);
    assert_eq!(Error::SysInvalidFd.code(), 6);
    assert_eq!(Error::SysOtherEndClosed.code(), 7);
    assert_eq!(Error::SysMaxVmsSpawned.code(), 8);
    assert_eq!(Error::SysMaxFdsCreated.code(), 9);
    assert_eq!(Error::SyscallUnknown.code(), 10);

    assert_eq!(Error::InvalidArgs.code(), 20);
    assert_eq!(Error::MalformedCobuild.code(), 30);
    assert_eq!(Error::InvalidOtxLayout.code(), 31);
    assert_eq!(Error::InvalidMessageTarget.code(), 32);
    assert_eq!(Error::DuplicateSighashAll.code(), 33);
    assert_eq!(Error::MissingLockGroupCoverage.code(), 34);
    assert_eq!(Error::MissingSealPair.code(), 35);
    assert_eq!(Error::DuplicateSealPair.code(), 36);
    assert_eq!(Error::InvalidSealScope.code(), 37);
    assert_eq!(Error::DuplicateMatchingAction.code(), 38);
    assert_eq!(Error::InvalidLockGroupWitness.code(), 39);

    assert_eq!(Error::LockSemanticFailure.code(), 40);
    assert_eq!(Error::VerifyFailure.code(), 50);
    assert_eq!(Error::InternalFailure.code(), 60);
    assert_eq!(Error::InvalidContextInput.code(), 61);
    assert_eq!(Error::MissingHashInput.code(), 62);
    assert_eq!(Error::HashInputTooLarge.code(), 63);
}

#[test]
fn errors_convert_to_stable_exit_codes() {
    assert_eq!(i8::from(Error::InvalidArgs), 20);
    assert_eq!(i8::from(Error::MalformedCobuild), 30);
    assert_eq!(i8::from(Error::InvalidOtxLayout), 31);
    assert_eq!(i8::from(Error::LockSemanticFailure), 40);
    assert_eq!(i8::from(Error::VerifyFailure), 50);
    assert_eq!(i8::from(Error::InternalFailure), 60);
    assert_eq!(i8::from(Error::MissingHashInput), 62);
}

#[test]
fn sys_errors_map_to_contract_errors() {
    assert_eq!(Error::from(SysFailure::ItemMissing), Error::SysItemMissing);
    assert_eq!(Error::from(SysFailure::IndexOutOfBound), Error::SysIndexOutOfBound);
    assert_eq!(Error::from(SysFailure::LengthNotEnough(32)), Error::SysLengthNotEnough);
    assert_eq!(Error::from(SysFailure::Encoding), Error::SysEncoding);
    assert_eq!(Error::from(SysFailure::Unknown(255)), Error::SyscallUnknown);
    assert_eq!(Error::from(SysFailure::TypeIdError), Error::SyscallUnknown);
    assert_eq!(Error::from(SysFailure::MaxFdsCreated), Error::SysMaxFdsCreated);
}

#[test]
fn core_errors_map_to_dedicated_contract_errors() {
    assert_eq!(Error::from(CoreError::MalformedCobuild), Error::MalformedCobuild);
    assert_eq!(Error::from(CoreError::InvalidOtxLayout), Error::InvalidOtxLayout);
    assert_eq!(Error::from(CoreError::InvalidMessageTarget), Error::InvalidMessageTarget);
    assert_eq!(Error::from(CoreError::DuplicateSighashAll), Error::DuplicateSighashAll);
    assert_eq!(Error::from(CoreError::MissingLockGroupCoverage), Error::MissingLockGroupCoverage);
    assert_eq!(Error::from(CoreError::MissingSealPair), Error::MissingSealPair);
    assert_eq!(Error::from(CoreError::DuplicateSealPair), Error::DuplicateSealPair);
    assert_eq!(Error::from(CoreError::InvalidSealScope), Error::InvalidSealScope);
    assert_eq!(Error::from(CoreError::DuplicateMatchingAction), Error::DuplicateMatchingAction);
    assert_eq!(Error::from(CoreError::InvalidLockGroupWitness), Error::InvalidLockGroupWitness);
    assert_eq!(Error::from(CoreError::InvalidContextInput), Error::InvalidContextInput);
    assert_eq!(Error::from(CoreError::MissingHashInput), Error::MissingHashInput);
    assert_eq!(Error::from(CoreError::HashInputTooLarge), Error::HashInputTooLarge);
}

#[test]
fn lock_seal_errors_map_to_seal_pair_errors() {
    assert_eq!(Error::from(CoreError::MissingLockSeal), Error::MissingSealPair);
    assert_eq!(Error::from(CoreError::DuplicateLockSeal), Error::DuplicateSealPair);
    assert_eq!(Error::from(CoreError::ActionNotFound), Error::ActionNotFound);
    assert_eq!(Error::ActionNotFound.code(), 41);
}

#[test]
fn distinct_errors_have_distinct_nonzero_codes() {
    let all = [
        Error::SysIndexOutOfBound, Error::SysItemMissing, Error::SysLengthNotEnough, Error::SysEncoding,
        Error::SysWaitFailure, Error::SysInvalidFd, Error::SysOtherEndClosed, Error::SysMaxVmsSpawned,
        Error::SysMaxFdsCreated, Error::SyscallUnknown, Error::InvalidArgs, Error::MalformedCobuild,
        Error::InvalidOtxLayout, Error::InvalidMessageTarget, Error::DuplicateSighashAll,
        Error::MissingLockGroupCoverage, Error::MissingSealPair, Error::DuplicateSealPair,
        Error::InvalidSealScope, Error::DuplicateMatchingAction, Error::InvalidLockGroupWitness,
        Error::LockSemanticFailure, Error::ActionNotFound, Error::VerifyFailure, Error::InternalFailure,
        Error::InvalidContextInput, Error::MissingHashInput, Error::HashInputTooLarge,
    ];
    for (i, a) in all.iter().enumerate() {
        assert_ne!(a.code(), 0);
        for (j, b) in all.iter().enumerate() {
            assert_eq!(a.code() == b.code(), i == j);
        }
    }
}

#[test]
fn exit_code_is_zero_only_on_success() {
    assert_eq!(exit_code(Ok(())), 0);
    assert_eq!(exit_code(Err(Error::VerifyFailure)), 50);
    assert_eq!(exit_code(Err(Error::LockSemanticFailure)), 40);
}

#[test]
fn verifier_trait_returns_verify_error() {
    let auth = AuthContext { identity: [0u8; 20] };
    assert_eq!(FailingVerifier.verify(&auth, &[0u8; 65], &[1u8; 32]), Err(VerifyError::VerificationFailed));
}

#[test]
fn local_verifier_rejects_invalid_seal_encoding() {
    let auth = AuthContext { identity: [0u8; 20] };
    assert_eq!(LocalVerifier.verify(&auth, &[0u8; 64], &[1u8; 32]), Err(VerifyError::InvalidSealEncoding));
}

#[test]
fn local_verifier_refuses_zero_seal_of_valid_shape() {
    let auth = AuthContext { identity: [0u8; 20] };
    assert_eq!(LocalVerifier.verify(&auth, &[0u8; 65], &[1u8; 32]), Err(VerifyError::VerificationFailed));
}

#[test]
fn local_verifier_rejects_recovery_id_above_three() {
    let auth = AuthContext { identity: [0u8; 20] };
    let mut seal = [1u8; 65];
    seal[64] = 4;
    assert_eq!(LocalVerifier.verify(&auth, &seal, &[1u8; 32]), Err(VerifyError::VerificationFailed));
}

fn requirement(seal: Vec<u8>) -> SigningRequirement {
    SigningRequirement {
        origin: SignatureOrigin::TxLevel,
        carrier_witness_index: 0,
        seal,
        signing_message_hash: [9u8; 32],
    }
}

#[test]
fn empty_plan_is_a_semantic_failure() {
    let auth = AuthContext { identity: [0u8; 20] };
    let plan = LockValidationPlan { lock_script_hash: [1u8; 32], required_signatures: Vec::new(), related_actions: Vec::new() };
    assert_eq!(verify_required_signatures(&AcceptingVerifier, &auth, &plan), Err(Error::LockSemanticFailure));
}

#[test]
fn every_required_signature_must_be_accepted() {
    let auth = AuthContext { identity: [0u8; 20] };
    let plan = LockValidationPlan {
        lock_script_hash: [1u8; 32],
        required_signatures: vec![requirement(vec![1u8; 65]), requirement(vec![2u8; 65])],
        related_actions: Vec::new(),
    };
    assert_eq!(verify_required_signatures(&AcceptingVerifier, &auth, &plan), Ok(()));
    assert_eq!(verify_required_signatures(&FailingVerifier, &auth, &plan), Err(Error::VerifyFailure));
    assert_eq!(verify_required_signatures(&LocalVerifier, &auth, &plan), Err(Error::VerifyFailure));
}

fn signer_identity(secret: &[u8; 32]) -> [u8; 20] {
    let key = k256::ecdsa::SigningKey::from_slice(secret).unwrap();
    let point = key.verifying_key().to_sec1_point(true);
    let digest = ckb_hash::blake2b_256(point.as_bytes());
    let mut identity = [0u8; 20];
    identity.copy_from_slice(&digest[..20]);
    identity
}

fn seal_for(secret: &[u8; 32], prehash: &[u8; 32]) -> Vec<u8> {
    let key = k256::ecdsa::SigningKey::from_slice(secret).unwrap();
    let (signature, recovery_id) = key.sign_prehash_recoverable(prehash);
    let mut seal = signature.to_bytes().to_vec();
    seal.push(recovery_id.to_byte());
    seal
}

#[test]
fn local_verifier_accepts_seal_of_the_identity() {
    let secret = [0x11u8; 32];
    let prehash = [0x42u8; 32];
    let auth = AuthContext { identity: signer_identity(&secret) };
    let seal = seal_for(&secret, &prehash);
    assert_eq!(seal.len(), 65);
    assert_eq!(LocalVerifier.verify(&auth, &seal, &prehash), Ok(()));
}

#[test]
fn local_verifier_rejects_seal_of_another_identity_or_message() {
    let secret = [0x11u8; 32];
    let prehash = [0x42u8; 32];
    let seal = seal_for(&secret, &prehash);
    let other = AuthContext { identity: signer_identity(&[0x22u8; 32]) };
    assert_eq!(LocalVerifier.verify(&other, &seal, &prehash), Err(VerifyError::VerificationFailed));
    let auth = AuthContext { identity: signer_identity(&secret) };
    assert_eq!(LocalVerifier.verify(&auth, &seal, &[0x43u8; 32]), Err(VerifyError::VerificationFailed));
}

#[test]
fn plan_with_valid_seals_is_accepted_by_local_verifier() {
    let secret = [0x33u8; 32];
    let auth = AuthContext { identity: signer_identity(&secret) };
    let mut first = requirement(seal_for(&secret, &[9u8; 32]));
    first.signing_message_hash = [9u8; 32];
    let plan = LockValidationPlan { lock_script_hash: [1u8; 32], required_signatures: vec![first], related_actions: Vec::new() };
    assert_eq!(verify_required_signatures(&LocalVerifier, &auth, &plan), Ok(()));
}

#[test]
fn required_seals_are_checked_in_order_with_secp256k1() {
    let secret = [0x44u8; 32];
    let auth = AuthContext { identity: signer_identity(&secret) };
    let mut good = requirement(seal_for(&secret, &[5u8; 32]));
    good.signing_message_hash = [5u8; 32];
    let bad = requirement(vec![0u8; 65]);
    let empty = LockValidationPlan { lock_script_hash: [1u8; 32], required_signatures: Vec::new(), related_actions: Vec::new() };
    assert_eq!(verify_required_seals(&auth, &empty), Err(Error::LockSemanticFailure));
    let ok = LockValidationPlan { lock_script_hash: [1u8; 32], required_signatures: vec![good.clone()], related_actions: Vec::new() };
    assert_eq!(verify_required_seals(&auth, &ok), Ok(()));
    let mixed = LockValidationPlan { lock_script_hash: [1u8; 32], required_signatures: vec![good, bad], related_actions: Vec::new() };
    assert_eq!(verify_required_seals(&auth, &mixed), Err(Error::VerifyFailure));
}

#[test]
fn every_verifier_refusal_is_a_signature_failure() {
    assert_eq!(map_verify_error(VerifyError::InvalidSealEncoding), Error::VerifyFailure);
    assert_eq!(map_verify_error(VerifyError::VerificationFailed), Error::VerifyFailure);
    assert_eq!(map_verify_error(VerifyError::BackendUnavailable), Error::VerifyFailure);
}
