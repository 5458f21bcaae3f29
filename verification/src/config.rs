//! Runtime configuration: env-driven, with defaults.

use vstd::prelude::*;

use crate::text::{chars_of, parse_u64, parse_u64_chars, trim, trim_chars};

verus! {

#[derive(Clone, Debug)]
pub struct Config {
    /// Address the HTTP server binds to.
    pub bind_addr: String,
    /// Freshness ceiling applied when a request omits one (7 days).
    pub default_max_source_age_minutes: u64,
}

pub open spec fn default_bind_addr() -> Seq<char> {
    "127.0.0.1:8011"@
}

pub open spec fn default_max_age() -> u64 {
    10080
}

impl Default for Config {
    fn default() -> (c: Self)
        ensures
            c.bind_addr@ == default_bind_addr(),
            c.default_max_source_age_minutes == default_max_age(),
    {
        Config { bind_addr: "127.0.0.1:8011".to_owned(), default_max_source_age_minutes: 7 * 24 * 60 }
    }
}

impl Config {
    /// The configuration given the values of `CONTEXT_RUNTIME_BIND` and
    /// `CONTEXT_RUNTIME_MAX_SOURCE_AGE_MINUTES` (`None` when unset): a bind
    /// address that is not blank replaces the default, and an age that
    /// parses as a `u64` after trimming replaces the default ceiling.
    pub fn from_env_values(bind: Option<String>, max_age: Option<String>) -> (c: Self)
        ensures
            c.bind_addr@ == (match bind {
                Some(b) => if trim(b@).len() > 0 { b@ } else { default_bind_addr() },
                None => default_bind_addr(),
            }),
            c.default_max_source_age_minutes == (match max_age {
                Some(a) => match parse_u64(trim(a@)) {
                    Some(v) => v,
                    None => default_max_age(),
                },
                None => default_max_age(),
            }),
    {
        let mut cfg = Config::default();
        if let Some(addr) = bind {
            let t = trim_chars(&chars_of(addr.as_str()));
            if t.len() > 0 {
                cfg.bind_addr = addr;
            }
        }
        if let Some(age) = max_age {
            let t = trim_chars(&chars_of(age.as_str()));
            if let Some(parsed) = parse_u64_chars(&t) {
                cfg.default_max_source_age_minutes = parsed;
            }
        }
        cfg
    }
}

} // verus!
