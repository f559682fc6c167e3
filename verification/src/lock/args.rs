//! The lock's script arguments.

use vstd::prelude::*;

use super::error::Error;

verus! {

/// The length of the lock's arguments: a 20-byte public key hash.
pub const AUTH_ARGS_LEN: usize = 20;

/// Whom the lock authorizes: the first 20 bytes of the hash of a compressed public key.
#[derive(Clone, Copy, Debug, PartialEq, Eq)]
pub struct AuthContext {
    pub identity: [u8; 20],
}

/// What the arguments `args` give: their bytes as the identity when there are
/// exactly 20 of them, an argument error otherwise.
pub open spec fn spec_auth_from_args(args: Seq<u8>) -> Result<AuthContext, Error> {
    if args.len() == AUTH_ARGS_LEN {
        Ok(AuthContext { identity: choose|a: [u8; 20]| a@ == args })
    } else {
        Err(Error::InvalidArgs)
    }
}

impl AuthContext {
    /// Reads the identity from the lock's arguments.
    pub fn from_args(args: &[u8]) -> (res: Result<AuthContext, Error>)
        ensures
            res == spec_auth_from_args(args@),
            args@.len() == AUTH_ARGS_LEN <==> res is Ok,
            res matches Ok(auth) ==> auth.identity@ == args@,
    {
        if args.len() != AUTH_ARGS_LEN {
            return Err(Error::InvalidArgs);
        }
        let mut identity = [0u8; 20];
        let mut i: usize = 0;
        while i < 20
            invariant
                args@.len() == 20,
                0 <= i <= 20,
                identity@.len() == 20,
                forall|j: int| 0 <= j < i ==> identity@[j] == args@[j],
            decreases 20 - i,
        {
            identity[i] = args[i];
            i = i + 1;
        }
        proof {
            assert(identity@ =~= args@);
            let chosen = choose|a: [u8; 20]| a@ == args@;
            assert(chosen@ == args@);
            assert(chosen@ =~= identity@);
            assert(chosen == identity);
        }
        Ok(AuthContext { identity })
    }
}

impl<'a> TryFrom<&'a [u8]> for AuthContext {
    type Error = Error;

    fn try_from(args: &'a [u8]) -> (res: Result<AuthContext, Error>) {
        AuthContext::from_args(args)
    }
}

impl<'a> vstd::std_specs::convert::TryFromSpecImpl<&'a [u8]> for AuthContext {
    open spec fn obeys_try_from_spec() -> bool {
        true
    }

    open spec fn try_from_spec(args: &'a [u8]) -> Result<AuthContext, Error> {
        spec_auth_from_args(args@)
    }
}

} // verus!
