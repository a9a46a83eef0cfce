//! Decisions of the refresh coordinator: whether a trigger is inside the
//! cooldown window, whether the extension path defers to the runtime-proxy
//! path, and how environment values are read. The waiting itself (sending
//! the completion channel, draining it, the post-refresh grace sleep) is
//! plain channel plumbing around these.

use vstd::prelude::*;

use crate::httpapi::opt_view;
use crate::numeric::{all_dec_digits, dec_value, parse_u64};

verus! {

/// A refresh trigger acts only when the cooldown has elapsed.
pub fn should_refresh(elapsed_ms: u64, cooldown_ms: u64) -> (r: bool)
    ensures
        r == (elapsed_ms >= cooldown_ms),
{
    elapsed_ms >= cooldown_ms
}

/// The extension trigger defers to the runtime-proxy trigger when the proxy
/// is enabled and its cooldown has elapsed: the proxy will refresh, so the
/// extension must not.
pub fn extension_defers(sync_port: u16, elapsed_ms: u64, sync_cooldown_ms: u64) -> (r: bool)
    ensures
        r == (sync_port != 0 && elapsed_ms >= sync_cooldown_ms),
{
    sync_port != 0 && elapsed_ms >= sync_cooldown_ms
}

/// What an environment value means as a number: its decimal value when it
/// is one that fits `u64`, the default otherwise (invalid values fall back
/// silently).
pub open spec fn spec_env_u64(v: Option<Seq<char>>, default: u64) -> int {
    match v {
        Some(s) => if s.len() > 0 && all_dec_digits(s) && dec_value(s) <= u64::MAX {
            dec_value(s)
        } else {
            default as int
        },
        None => default as int,
    }
}

/// Reads a numeric environment value, falling back to the default.
pub fn env_u64(v: &Option<String>, default: u64) -> (r: u64)
    ensures
        r as int == spec_env_u64(opt_view(*v), default),
{
    match v {
        Some(s) => match parse_u64(s.as_str()) {
            Some(n) => n,
            None => default,
        },
        None => default,
    }
}

} // verus!
