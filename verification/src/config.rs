//! Settings that the environment supplies: whether caching is on, how long
//! an entry lives, and whether a connection is to be opened at all.

use vstd::prelude::*;

use crate::text::parse_unsigned;
use crate::text::parsed_unsigned;

verus! {

/// The variable that holds the full connection URI.
pub const ENV_REDIS_URL: &'static str = "REDIS_URL";

/// The variable that switches caching on or off.
pub const ENV_CACHE_ENABLED: &'static str = "CACHE_ENABLED";

/// The variable that holds the lifetime of an entry, in seconds.
pub const ENV_CACHE_TTL_SECONDS: &'static str = "CACHE_TTL_SECONDS";

/// The lifetime of an entry where none is configured, in seconds.
pub const DEFAULT_TTL_SECONDS: u64 = 3600;

/// `text` with every character in lower case, as Unicode defines it.
pub uninterp spec fn lowercase(text: Seq<char>) -> Seq<char>;

/// Calls `str::to_lowercase`. Trusted: the result is the lower-case form of
/// `text`, a function of `text` alone.
#[verifier::external_body]
fn to_lowercase(text: &str) -> (lowered: String)
    ensures
        lowered@ == lowercase(text@),
{
    text.to_lowercase()
}

/// Whether caching is on for the given value of the switch: on where the
/// switch is unset, else on exactly when its lower-case form reads `true`.
pub open spec fn cache_enabled(switch: Option<Seq<char>>) -> bool {
    match switch {
        Some(text) => lowercase(text) == "true"@,
        None => true,
    }
}

/// The number of seconds that a setting gives: the number that its value
/// denotes, or `fallback` where it is unset or denotes no number that fits
/// 64 bits.
pub open spec fn configured_seconds(value: Option<Seq<char>>, fallback: nat) -> nat {
    match value {
        Some(text) => match parsed_unsigned(text, u64::MAX as nat) {
            Some(seconds) => seconds,
            None => fallback,
        },
        None => fallback,
    }
}

/// The lifetime of an entry that the given value configures.
pub open spec fn cache_ttl(value: Option<Seq<char>>) -> nat {
    configured_seconds(value, DEFAULT_TTL_SECONDS as nat)
}

/// The view of an optional text.
pub open spec fn text_view(value: Option<&str>) -> Option<Seq<char>> {
    match value {
        Some(text) => Some(text@),
        None => None,
    }
}

/// Whether a switch already in lower case reads `true`.
pub fn reads_true(lowered: &str) -> (result: bool)
    ensures
        result == (lowered@ == "true"@),
{
    let given = lowered.to_owned();
    let wanted = "true".to_owned();
    given == wanted
}

/// Whether caching is on, given the value of the switch (`None` if unset).
pub fn is_cache_enabled(switch: Option<&str>) -> (enabled: bool)
    ensures
        enabled == cache_enabled(text_view(switch)),
{
    match switch {
        Some(text) => {
            let lowered = to_lowercase(text);
            reads_true(lowered.as_str())
        },
        None => true,
    }
}

/// The number of seconds that a setting gives, given its value (`None` if
/// unset) and the number to fall back on.
pub fn seconds_or(value: Option<&str>, fallback: u64) -> (seconds: u64)
    ensures
        seconds as nat == configured_seconds(text_view(value), fallback as nat),
{
    match value {
        Some(text) => match parse_unsigned(text, u64::MAX) {
            Some(seconds) => seconds,
            None => fallback,
        },
        None => fallback,
    }
}

/// The lifetime of an entry in seconds, given the configured value (`None`
/// if unset).
pub fn get_cache_ttl(value: Option<&str>) -> (seconds: u64)
    ensures
        seconds as nat == cache_ttl(text_view(value)),
{
    seconds_or(value, DEFAULT_TTL_SECONDS)
}

/// What to do about the connection when a cache manager starts.
#[derive(Debug)]
pub enum ConnectPlan {
    /// Caching is switched off: open nothing.
    Disabled,
    /// Caching is on but no connection URI is configured.
    Unconfigured,
    /// Open a connection to this URI.
    Connect(String),
}

/// Decides whether to connect: not at all while caching is off, and
/// otherwise to the configured URI, if there is one.
pub fn connection_plan(enabled: bool, url: Option<String>) -> (plan: ConnectPlan)
    ensures
        !enabled ==> plan is Disabled,
        enabled && url.is_none() ==> plan is Unconfigured,
        enabled && url.is_some() ==> plan == ConnectPlan::Connect(url.unwrap()),
{
    if !enabled {
        ConnectPlan::Disabled
    } else {
        match url {
            Some(uri) => ConnectPlan::Connect(uri),
            None => ConnectPlan::Unconfigured,
        }
    }
}

} // verus!
