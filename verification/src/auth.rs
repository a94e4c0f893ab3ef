//! Which authentication capabilities this build has.
//!
//! The personal-access-token provider is linked into this build; whether it
//! may serve production traffic is fixed by the provider itself.

use vstd::prelude::*;

verus! {

/// Whether this build can authenticate with a personal access token in
/// production.
pub fn pat_allowed_in_production() -> (r: bool)
    ensures
        r == crate::token_pool::ALLOWED_IN_PRODUCTION,
{
    crate::token_pool::ALLOWED_IN_PRODUCTION
}

/// Whether any provider is compiled in. A binary with none cannot serve a
/// cache miss, so this is checked at startup rather than on first request.
pub fn any_provider_available() -> (r: bool)
    ensures
        r,
{
    true
}

} // verus!
