//! Settings of the plain store operations.

use vstd::prelude::*;

use crate::config::configured_seconds;
use crate::config::seconds_or;
use crate::config::text_view;

verus! {

/// The variable that holds the lifetime of a value that is set only if
/// absent, in seconds.
pub const ENV_IDEMPOTENT_EXPIRY: &'static str = "IDEMPOTENT_EXPIRY_IN_SEC";

/// The lifetime of such a value where none is configured, in seconds.
pub const DEFAULT_IDEMPOTENT_EXPIRY: u64 = 120;

/// The lifetime of a value that is set only if absent, given the configured
/// value (`None` if unset).
pub fn idempotent_expiry(value: Option<&str>) -> (seconds: u64)
    ensures
        seconds as nat == configured_seconds(text_view(value), DEFAULT_IDEMPOTENT_EXPIRY as nat),
{
    seconds_or(value, DEFAULT_IDEMPOTENT_EXPIRY)
}

} // verus!
