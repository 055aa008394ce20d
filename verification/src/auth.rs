//! Account identities for the credential-store collaborator.
//!
//! Credentials themselves live in the operating system's credential store,
//! an external collaborator reached by the application layer; this core
//! only carries the identity of an account — which service and which
//! username — never a secret.
use vstd::prelude::*;

verus! {

/// The identity of one stored account: the service it belongs to and the
/// username under that service.
#[derive(Clone)]
pub struct AccountInfo {
    pub service: String,
    pub username: String,
}

/// Handle for credential operations. The operations themselves are
/// performed by the credential-store collaborator on behalf of the caller.
pub struct AuthManager {}

impl AuthManager {
    pub fn new() -> (r: AuthManager)
        ensures
            r == (AuthManager {  }),
    {
        AuthManager {  }
    }
}

} // verus!
