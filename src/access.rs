//! The time-gated access check: an installation recorded at or before a fixed
//! moment may use the application.
use vstd::prelude::*;
use crate::json::{parse_uint, uint_text};
use crate::text::{chars_of, trim, trim_chars};

verus! {

/// 2025-12-20 00:00:00, as seconds since the Unix epoch.
pub const THRESHOLD_TIME: u64 = 1766294400;

/// The outcome of the access check.
#[derive(Clone, Copy, Debug, PartialEq, Eq, Structural)]
pub struct AccessStatus {
    pub allowed: bool,
    pub install_time: u64,
    pub threshold_time: u64,
}

/// Access is allowed when the installation time is not after the threshold.
pub fn access_status(install_time: u64) -> (r: AccessStatus)
    ensures
        r.allowed == (install_time <= THRESHOLD_TIME),
        r.install_time == install_time,
        r.threshold_time == THRESHOLD_TIME,
{
    AccessStatus { allowed: install_time <= THRESHOLD_TIME, install_time, threshold_time: THRESHOLD_TIME }
}

/// A decimal number as `u64`'s `from_str` reads it: an optional `+`, then
/// digits.
pub open spec fn signed_uint_text(s: Seq<char>) -> Option<u64> {
    if s.len() > 0 && s[0] == '+' {
        uint_text(s.subrange(1, s.len() as int))
    } else {
        uint_text(s)
    }
}

/// Reads a stored installation time: an optional `+` and decimal digits, with
/// surrounding whitespace allowed.
pub fn parse_install_time(content: &str) -> (r: Option<u64>)
    ensures
        r == signed_uint_text(trim(content@)),
{
    let t = trim_chars(&chars_of(content));
    if t.len() > 0 && t[0] == '+' {
        parse_uint(&t, 1, t.len())
    } else {
        assert(t@.subrange(0, t@.len() as int) =~= t@);
        parse_uint(&t, 0, t.len())
    }
}

} // verus!
