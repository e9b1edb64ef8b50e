//! Formatting helpers.

use vstd::prelude::*;
use crate::text::{decimal, owned, push_decimal};

pub use crate::keys::evdev_key_to_string;

verus! {

/// Relies on `Duration::as_secs`: the whole seconds of a duration.
#[verifier::external_body]
fn whole_secs(d: &std::time::Duration) -> (r: u64) {
    d.as_secs()
}

/// Relies on `Duration::subsec_millis`: the fractional part in whole
/// milliseconds, documented to be less than one thousand.
#[verifier::external_body]
fn subsec_millis(d: &std::time::Duration) -> (r: u32)
    ensures
        r < 1000,
{
    d.subsec_millis()
}

/// A number written with at least three digits, zero-padded on the left.
pub open spec fn padded3(n: nat) -> Seq<char> {
    if n < 10 {
        "00"@ + decimal(n)
    } else if n < 100 {
        "0"@ + decimal(n)
    } else {
        decimal(n)
    }
}

/// `1.500s` when there are whole seconds, `500ms` otherwise.
pub open spec fn duration_text(secs: u64, millis: u32) -> Seq<char> {
    if secs > 0 {
        decimal(secs as nat) + "."@ + padded3(millis as nat) + "s"@
    } else {
        decimal(millis as nat) + "ms"@
    }
}

/// Writes a duration given as whole seconds and milliseconds.
pub fn format_secs_millis(secs: u64, millis: u32) -> (r: String)
    ensures
        r@ == duration_text(secs, millis),
{
    if secs > 0 {
        let mut r = String::new();
        push_decimal(&mut r, secs);
        r.append(".");
        if millis < 10 {
            r.append("00");
        } else if millis < 100 {
            r.append("0");
        }
        push_decimal(&mut r, millis as u64);
        r.append("s");
        assert(r@ =~= duration_text(secs, millis));
        r
    } else {
        let mut r = String::new();
        push_decimal(&mut r, millis as u64);
        r.append("ms");
        assert(r@ =~= duration_text(secs, millis));
        r
    }
}

/// A duration in a human-readable way: `1.500s`, or `500ms` under a second.
pub fn format_duration(duration: std::time::Duration) -> (r: String)
    ensures
        exists|secs: u64, millis: u32| millis < 1000 && r@ == duration_text(secs, millis),
{
    let secs = whole_secs(&duration);
    let millis = subsec_millis(&duration);
    format_secs_millis(secs, millis)
}

} // verus!
