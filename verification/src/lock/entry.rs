//! One run of the lock over a built context.

use vstd::prelude::*;

use super::args::AuthContext;
use super::error::{spec_from_core, Error};
use super::verify::{spec_seal_accepted, LocalVerifier, LockVerifier, VerifyError};
use crate::engine::CobuildContext;
use crate::plan::{LockPlanModel, LockValidationPlan};

verus! {

/// Every required signature of a plan is accepted by `verifier`.
pub open spec fn spec_all_accepted<V: LockVerifier>(verifier: &V, auth: AuthContext, plan: LockPlanModel) -> bool {
    forall|i: int| 0 <= i < plan.required_signatures.len() ==> verifier.accepts(
        auth,
        (#[trigger] plan.required_signatures[i]).seal,
        plan.required_signatures[i].signing_message_hash,
    )
}

/// What checking a plan's signatures with `verifier` gives: an empty plan
/// gives the lock nothing to check and is a semantic failure; otherwise
/// success exactly when the verifier accepts every required seal, in order,
/// and a signature failure at the first refusal.
pub open spec fn spec_verified<V: LockVerifier>(verifier: &V, auth: AuthContext, plan: LockPlanModel) -> Result<(), Error> {
    if plan.required_signatures.len() == 0 {
        Err(Error::LockSemanticFailure)
    } else if spec_all_accepted(verifier, auth, plan) {
        Ok(())
    } else {
        Err(Error::VerifyFailure)
    }
}

/// The lock's error for a verifier's refusal.
pub fn map_verify_error(error: VerifyError) -> (res: Error)
    ensures
        res == Error::VerifyFailure,
{
    match error {
        VerifyError::InvalidSealEncoding => Error::VerifyFailure,
        VerifyError::VerificationFailed => Error::VerifyFailure,
        VerifyError::BackendUnavailable => Error::VerifyFailure,
    }
}

/// Checks every signature the lock's plan requires with a caller-supplied
/// verifier, in order: a context whose plan fails reports the plan's error;
/// otherwise the plan's signatures are checked as `spec_verified` says.
pub fn run<V: LockVerifier>(verifier: &V, auth: &AuthContext, context: &CobuildContext) -> (res: Result<(), Error>)
    requires
        context.wf(),
    ensures
        match context.spec_lock_plan() {
            Err(e) => res == Err::<(), Error>(spec_from_core(e)),
            Ok(plan) => res == spec_verified(verifier, *auth, plan),
        },
{
    let plan = match context.plan_lock_validation() {
        Ok(plan) => plan,
        Err(e) => return Err(Error::from(e)),
    };
    verify_required_signatures(verifier, auth, &plan)
}

/// Checks the required signatures of a plan with a caller-supplied verifier,
/// in order, stopping at the first refusal; an empty plan is a semantic failure.
pub fn verify_required_signatures<V: LockVerifier>(verifier: &V, auth: &AuthContext, plan: &LockValidationPlan) -> (res: Result<(), Error>)
    ensures
        res == spec_verified(verifier, *auth, plan@),
{
    let n = plan.required_signatures.len();
    if n == 0 {
        return Err(Error::LockSemanticFailure);
    }
    let mut i: usize = 0;
    while i < n
        invariant
            n == plan.required_signatures@.len(),
            n == plan@.required_signatures.len(),
            0 <= i <= n,
            forall|j: int| 0 <= j < i ==> verifier.accepts(
                *auth,
                (#[trigger] plan@.required_signatures[j]).seal,
                plan@.required_signatures[j].signing_message_hash,
            ),
        decreases n - i,
    {
        let requirement = &plan.required_signatures[i];
        proof {
            assert(plan@.required_signatures[i as int] == plan.required_signatures@[i as int]@);
        }
        match verifier.verify(auth, requirement.seal.as_slice(), &requirement.signing_message_hash) {
            Ok(()) => {},
            Err(e) => {
                return Err(map_verify_error(e));
            },
        }
        i = i + 1;
    }
    Ok(())
}

/// The lock's decision over a built context, with secp256k1 seals: the plan's
/// error when planning fails, a semantic failure when the plan requires no
/// signature, success exactly when every required seal recovers to the
/// identity, and a signature failure otherwise.
pub fn check_lock(auth: &AuthContext, context: &CobuildContext) -> (res: Result<(), Error>)
    requires
        context.wf(),
    ensures
        match context.spec_lock_plan() {
            Err(e) => res == Err::<(), Error>(spec_from_core(e)),
            Ok(plan) => if plan.required_signatures.len() == 0 {
                res == Err::<(), Error>(Error::LockSemanticFailure)
            } else if forall|i: int| 0 <= i < plan.required_signatures.len() ==> spec_seal_accepted(
                auth.identity@,
                (#[trigger] plan.required_signatures[i]).seal,
                plan.required_signatures[i].signing_message_hash,
            ) {
                res == Ok::<(), Error>(())
            } else {
                res == Err::<(), Error>(Error::VerifyFailure)
            },
        },
{
    let plan = match context.plan_lock_validation() {
        Ok(plan) => plan,
        Err(e) => return Err(Error::from(e)),
    };
    verify_required_seals(auth, &plan)
}

/// Checks the required seals of a plan with secp256k1 recovery, in order.
pub fn verify_required_seals(auth: &AuthContext, plan: &LockValidationPlan) -> (res: Result<(), Error>)
    ensures
        plan@.required_signatures.len() == 0 ==> res == Err::<(), Error>(Error::LockSemanticFailure),
        plan@.required_signatures.len() > 0 ==> if forall|i: int| 0 <= i < plan@.required_signatures.len() ==> spec_seal_accepted(
            auth.identity@,
            (#[trigger] plan@.required_signatures[i]).seal,
            plan@.required_signatures[i].signing_message_hash,
        ) {
            res == Ok::<(), Error>(())
        } else {
            res == Err::<(), Error>(Error::VerifyFailure)
        },
{
    let n = plan.required_signatures.len();
    if n == 0 {
        return Err(Error::LockSemanticFailure);
    }
    let verifier = LocalVerifier;
    let mut i: usize = 0;
    while i < n
        invariant
            n == plan.required_signatures@.len(),
            0 <= i <= n,
            forall|j: int| 0 <= j < i ==> spec_seal_accepted(
                auth.identity@,
                (#[trigger] plan@.required_signatures[j]).seal,
                plan@.required_signatures[j].signing_message_hash,
            ),
        decreases n - i,
    {
        let requirement = &plan.required_signatures[i];
        let checked = verifier.verify(auth, requirement.seal.as_slice(), &requirement.signing_message_hash);
        if checked.is_err() {
            proof {
                let r = plan@.required_signatures[i as int];
                assert(r == plan.required_signatures@[i as int]@);
                assert(!spec_seal_accepted(auth.identity@, r.seal, r.signing_message_hash));
            }
            return Err(Error::VerifyFailure);
        }
        i = i + 1;
    }
    Ok(())
}

/// The exit code of a run: 0 on success, the error's code otherwise.
pub fn exit_code(result: Result<(), Error>) -> (res: i8)
    ensures
        result is Ok ==> res == 0,
        result matches Err(e) ==> res == super::error::error_code(e),
{
    match result {
        Ok(()) => 0,
        Err(e) => e.code(),
    }
}

} // verus!
