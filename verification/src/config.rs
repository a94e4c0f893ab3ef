//! Runtime settings: the decisions made about the environment's values.
//!
//! Reading the environment and opening sockets belong to the service; which
//! value a setting takes given what was read is decided here.

use crate::strings::{trimmed, trim};
use vstd::prelude::*;

verus! {

/// Which environment the service runs in. Gates development-only affordances.
#[derive(Debug, Clone, Copy, PartialEq, Eq, Structural)]
pub enum Environment {
    Development,
    Production,
}

impl Environment {
    pub fn is_production(self) -> (r: bool)
        ensures
            r == (self == Environment::Production),
    {
        match self {
            Environment::Production => true,
            Environment::Development => false,
        }
    }

    /// The environment `APP_ENV` names: `production` or `prod` for
    /// production, anything else (or nothing) for development.
    pub fn from_app_env(value: Option<&str>) -> (r: Self)
        ensures
            r == match value {
                Some(v) => if v@ == "production"@ || v@ == "prod"@ {
                    Environment::Production
                } else {
                    Environment::Development
                },
                None => Environment::Development,
            },
    {
        match value {
            Some(v) => if crate::strings::same_text(v, "production") || crate::strings::same_text(v, "prod") {
                Environment::Production
            } else {
                Environment::Development
            },
            None => Environment::Development,
        }
    }
}

/// A setting's value: what was read unless it is missing or blank, in which
/// case the default.
pub open spec fn setting_value(read: Option<Seq<char>>, default: Seq<char>) -> Seq<char> {
    match read {
        Some(v) => if trimmed(v).len() == 0 {
            default
        } else {
            v
        },
        None => default,
    }
}

/// A string setting with a default for when it is missing or blank.
pub fn setting_or(read: Option<&str>, default: &str) -> (r: String)
    ensures
        r@ == setting_value(
            match read {
                Some(v) => Some(v@),
                None => None,
            },
            default@,
        ),
{
    match read {
        Some(v) => {
            let t = trim(v);
            if t.as_str().is_empty() {
                String::from_str(default)
            } else {
                String::from_str(v)
            }
        },
        None => String::from_str(default),
    }
}

/// Where the durable cache lives when `CACHE_PATH` is unset.
pub const DEFAULT_CACHE_PATH: &'static str = "./data/cache.db";

/// The durable cache's path given `CACHE_PATH`: empty or `none` disables the
/// durable layer explicitly, rather than silently falling back when a volume
/// fails to mount; unset means the default path.
pub fn cache_path_setting(read: Option<&str>) -> (r: Option<String>)
    ensures
        match read {
            Some(v) => if v@.len() == 0 || v@ == "none"@ {
                r is None
            } else {
                r matches Some(p) && p@ == v@
            },
            None => r matches Some(p) && p@ == DEFAULT_CACHE_PATH@,
        },
{
    match read {
        Some(v) => if v.is_empty() || crate::strings::same_text(v, "none") {
            None
        } else {
            Some(String::from_str(v))
        },
        None => Some(String::from_str(DEFAULT_CACHE_PATH)),
    }
}

/// `OffsetDateTime::now_utc().year()`: the current UTC year by the wall
/// clock. The clock decides the value; all that is claimed is the range of
/// years the `time` crate can represent.
#[verifier::external_body]
pub fn current_year() -> (r: i32)
    ensures
        -999_999 <= r <= 999_999,
{
    time::OffsetDateTime::now_utc().year()
}

} // verus!
