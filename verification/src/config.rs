//! Reading the runtime configuration from environment values: which values
//! count as set, how numbers are read, and the PumpPortal URL with its key.

use vstd::prelude::*;
use crate::text::{contains_text, has_infix, parse_u64, parse_u64_spec, push_char, trim, trim_spec};

verus! {

/// The default PumpPortal websocket endpoint.
pub const PUMPPORTAL_WS_URL: &'static str = "wss://pumpportal.fun/api/data";

/// An environment value counts as set when it is not blank.
pub open spec fn env_set(raw: Option<Seq<char>>) -> Option<Seq<char>> {
    match raw {
        Some(v) => if trim_spec(v).len() > 0 { Some(v) } else { None },
        None => None,
    }
}

/// The view of an optional string.
pub open spec fn ostr(o: Option<String>) -> Option<Seq<char>> {
    match o { Some(s) => Some(s@), None => None }
}

/// `raw` when it is not blank.
pub fn env_value(raw: Option<String>) -> (r: Option<String>)
    ensures
        ostr(r) == env_set(ostr(raw)),
{
    match raw {
        Some(v) => {
            let t = trim(v.as_str());
            if t.as_str().is_empty() { None } else { Some(v) }
        },
        None => None,
    }
}

/// The set value, or `default`.
pub fn env_str_or(raw: Option<String>, default: &str) -> (r: String)
    ensures
        r@ == (match env_set(ostr(raw)) { Some(v) => v, None => default@ }),
{
    match env_value(raw) {
        Some(v) => v,
        None => String::from_str(default),
    }
}

/// The set value read as an unsigned integer (as `str::parse::<u64>` reads
/// it, the value untrimmed), or `default` when unset or unreadable.
pub open spec fn env_u64_spec(raw: Option<Seq<char>>, default: u64) -> u64 {
    match env_set(raw) {
        Some(v) => match parse_u64_spec(v) { Some(n) => n, None => default },
        None => default,
    }
}

/// The set value read as a `u64`, or `default`.
pub fn env_u64_or(raw: Option<String>, default: u64) -> (n: u64)
    ensures
        n == env_u64_spec(ostr(raw), default),
{
    match env_value(raw) {
        Some(v) => match parse_u64(v.as_str()) {
            Some(n) => n,
            None => default,
        },
        None => default,
    }
}

/// The set value read as a `usize` (the `u64` reading, when it fits), or
/// `default`.
pub open spec fn env_usize_spec(raw: Option<Seq<char>>, default: usize) -> usize {
    match env_set(raw) {
        Some(v) => match parse_u64_spec(v) {
            Some(n) => if n <= usize::MAX { n as usize } else { default },
            None => default,
        },
        None => default,
    }
}

/// The set value read as a `usize`, or `default`.
pub fn env_usize_or(raw: Option<String>, default: usize) -> (n: usize)
    ensures
        n == env_usize_spec(ostr(raw), default),
{
    match env_value(raw) {
        Some(v) => match parse_u64(v.as_str()) {
            Some(n) => if n <= usize::MAX as u64 { n as usize } else { default },
            None => default,
        },
        None => default,
    }
}

/// The PumpPortal URL: `base`, with `api-key=<key>` appended as a query
/// parameter (after `&` when `base` already has a query, `?` otherwise)
/// when a non-empty key is given.
pub open spec fn ws_url_spec(api_key: Option<Seq<char>>, base: Seq<char>) -> Seq<char> {
    match api_key {
        Some(k) => if k.len() > 0 {
            base + seq![if has_infix(base, seq!['?']) { '&' } else { '?' }] + "api-key="@ + k
        } else {
            base
        },
        None => base,
    }
}

/// The PumpPortal URL with the API key, if any.
pub fn pumpportal_ws_url(api_key: &Option<String>, base: String) -> (url: String)
    ensures
        url@ == ws_url_spec(ostr(*api_key), base@),
{
    match api_key {
        Some(k) => {
            if k.as_str().is_empty() {
                return base;
            }
            let sep = if contains_text(base.as_str(), "?") { '&' } else { '?' };
            proof {
                reveal_strlit("?");
                assert("?"@ =~= seq!['?']);
            }
            let mut url = base;
            push_char(&mut url, sep);
            url.append("api-key=");
            url.append(k.as_str());
            assert(url@ =~= ws_url_spec(ostr(*api_key), base@));
            url
        },
        None => base,
    }
}

/// The Helius path cannot start: no API key, and none in the URL.
pub open spec fn helius_key_missing_spec(api_key: Option<Seq<char>>, ws_url: Seq<char>) -> bool {
    api_key is None && !has_infix(ws_url, "api-key="@)
}

/// Whether the Helius path lacks an API key (neither given nor in the URL).
pub fn helius_key_missing(api_key: &Option<String>, ws_url: &str) -> (r: bool)
    ensures
        r == helius_key_missing_spec(ostr(*api_key), ws_url@),
{
    api_key.is_none() && !contains_text(ws_url, "api-key=")
}

} // verus!
