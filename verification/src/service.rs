//! How a rank was obtained.

use vstd::prelude::*;

verus! {

/// Whether a rank came from cache or had to be computed.
#[derive(Debug, Clone, Copy, PartialEq, Eq, Structural)]
pub enum CacheOutcome {
    Hit,
    Miss,
}

impl CacheOutcome {
    /// The `x-cache` header value.
    pub fn as_header(self) -> (r: &'static str)
        ensures
            r@ == match self {
                CacheOutcome::Hit => "HIT"@,
                CacheOutcome::Miss => "MISS"@,
            },
    {
        match self {
            CacheOutcome::Hit => "HIT",
            CacheOutcome::Miss => "MISS",
        }
    }

    /// A rank is a miss exactly when the computation ran.
    pub fn from_computed(computed: bool) -> (r: Self)
        ensures
            r == if computed { CacheOutcome::Miss } else { CacheOutcome::Hit },
    {
        if computed {
            CacheOutcome::Miss
        } else {
            CacheOutcome::Hit
        }
    }
}

} // verus!
