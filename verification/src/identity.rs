//! The Identity Vault connection lifecycle: which request bodies a connection
//! can be created or imported from.
use vstd::prelude::*;

verus! {

/// Body for `POST /api/identities/connections`.
pub struct CreateConnectionBody {
    /// The identity profile this connection belongs to.
    pub profile_id: String,
    /// The domain this login is for (no domain is special-cased).
    pub domain: String,
    /// Which credential backend captures it (`manual` when absent).
    pub source: Option<String>,
}

/// Body for `POST /api/identities/connections/:id/import`: the credential
/// plaintext to seal.
pub struct ImportConnectionBody {
    pub state: String,
}

/// A connection can be created only with both a profile and a domain;
/// otherwise `Err("profile_id and domain are required")` (a 400).
pub fn check_create_connection(body: &CreateConnectionBody) -> (r: Result<(), &'static str>)
    ensures
        match r {
            Ok(()) => body.profile_id@.len() > 0 && body.domain@.len() > 0,
            Err(e) => (body.profile_id@.len() == 0 || body.domain@.len() == 0) && e@
                == "profile_id and domain are required"@,
        },
{
    if body.profile_id.as_str().unicode_len() == 0 || body.domain.as_str().unicode_len() == 0 {
        Err("profile_id and domain are required")
    } else {
        Ok(())
    }
}

/// Credential state can be imported only when it is not empty; otherwise
/// `Err("state is required")` (a 400).
pub fn check_import_connection(body: &ImportConnectionBody) -> (r: Result<(), &'static str>)
    ensures
        match r {
            Ok(()) => body.state@.len() > 0,
            Err(e) => body.state@.len() == 0 && e@ == "state is required"@,
        },
{
    if body.state.as_str().unicode_len() == 0 {
        Err("state is required")
    } else {
        Ok(())
    }
}

} // verus!
