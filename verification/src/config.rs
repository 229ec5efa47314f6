//! Assembles the runtime configuration from raw environment values.
//! Reading the environment is the caller's job; every fallback and every
//! numeral is resolved here.

use vstd::prelude::*;

use crate::models::Config;
use crate::text::{parse_u16_or, parse_u32_or, parse_u64_or, parse_usize_or, parses_to_u64};

verus! {

impl Config {
    /// Resolves each raw environment value, falling back to the
    /// documented default where a variable is missing, and to the same
    /// default where its numeral does not parse or does not fit.
    pub fn from_values(
        host: Option<String>,
        port: Option<String>,
        external_api_base: Option<String>,
        cors_origin: Option<String>,
        rate_limit_per_minute: Option<String>,
        request_timeout_seconds: Option<String>,
        max_concurrent_requests: Option<String>,
    ) -> (cfg: Config)
        ensures
            host matches Some(h) ==> cfg.host == h,
            host is None ==> cfg.host@ == "127.0.0.1"@,
            port matches Some(s) ==> cfg.port as int == (match parses_to_u64(s@) {
                Some(v) => if v <= u16::MAX {
                    v
                } else {
                    3001int
                },
                None => 3001int,
            }),
            port is None ==> cfg.port == 3001,
            external_api_base matches Some(b) ==> cfg.external_api_base == b,
            external_api_base is None ==> cfg.external_api_base@
                == "https://abes.platform.simplifii.com/api/v1"@,
            cors_origin matches Some(c) ==> cfg.cors_origin == c,
            cors_origin is None ==> cfg.cors_origin@ == "http://localhost:3000"@,
            rate_limit_per_minute matches Some(s) ==> cfg.rate_limit_per_minute as int == (
            match parses_to_u64(s@) {
                Some(v) => if v <= u32::MAX {
                    v
                } else {
                    100int
                },
                None => 100int,
            }),
            rate_limit_per_minute is None ==> cfg.rate_limit_per_minute == 100,
            request_timeout_seconds matches Some(s) ==> cfg.request_timeout_seconds as int == (
            match parses_to_u64(s@) {
                Some(v) => v,
                None => 10int,
            }),
            request_timeout_seconds is None ==> cfg.request_timeout_seconds == 10,
            max_concurrent_requests matches Some(s) ==> cfg.max_concurrent_requests as int == (
            match parses_to_u64(s@) {
                Some(v) => if v <= usize::MAX {
                    v
                } else {
                    100int
                },
                None => 100int,
            }),
            max_concurrent_requests is None ==> cfg.max_concurrent_requests == 100,
    {
        Config {
            host: match host {
                Some(h) => h,
                None => String::from_str("127.0.0.1"),
            },
            port: match port {
                Some(s) => parse_u16_or(s.as_str(), 3001),
                None => 3001,
            },
            external_api_base: match external_api_base {
                Some(b) => b,
                None => String::from_str("https://abes.platform.simplifii.com/api/v1"),
            },
            cors_origin: match cors_origin {
                Some(c) => c,
                None => String::from_str("http://localhost:3000"),
            },
            rate_limit_per_minute: match rate_limit_per_minute {
                Some(s) => parse_u32_or(s.as_str(), 100),
                None => 100,
            },
            request_timeout_seconds: match request_timeout_seconds {
                Some(s) => parse_u64_or(s.as_str(), 10),
                None => 10,
            },
            max_concurrent_requests: match max_concurrent_requests {
                Some(s) => parse_usize_or(s.as_str(), 100),
                None => 100,
            },
        }
    }
}

} // verus!
