//! The wall clock.

use crate::text::opt_text;
use std::fmt::Write;
use vstd::prelude::*;

verus! {

/// A point in time in UTC: whole seconds since 1970-01-01T00:00:00Z and the
/// nanoseconds into that second.
#[derive(Debug, Clone, Copy, PartialEq, Eq, Structural)]
pub struct Timestamp {
    pub secs: i64,
    pub nanos: u32,
}

/// A length of time, in nanoseconds.
#[derive(Debug, Clone, Copy, PartialEq, Eq, Structural)]
pub struct Elapsed {
    pub nanos: u128,
}

impl Elapsed {
    /// The length of `secs` whole seconds.
    pub fn from_secs(secs: u64) -> (r: Elapsed)
        ensures
            r.nanos == secs * 1_000_000_000,
    {
        let secs: u128 = secs as u128;
        Elapsed { nanos: secs * 1_000_000_000 }
    }

    /// The length of `millis` whole milliseconds.
    pub fn from_millis(millis: u64) -> (r: Elapsed)
        ensures
            r.nanos == millis * 1_000_000,
    {
        let millis: u128 = millis as u128;
        Elapsed { nanos: millis * 1_000_000 }
    }

    /// The whole milliseconds in this length of time.
    pub fn as_millis(&self) -> (r: u128)
        ensures
            r == self.nanos / 1_000_000,
    {
        self.nanos / 1_000_000
    }

    /// The whole seconds in this length of time.
    pub fn as_secs(&self) -> (r: u128)
        ensures
            r == self.nanos / 1_000_000_000,
    {
        self.nanos / 1_000_000_000
    }

    /// This length of time less `other`, and nothing where `other` is the
    /// longer.
    pub fn saturating_sub(&self, other: Elapsed) -> (r: Elapsed)
        ensures
            r.nanos == if self.nanos >= other.nanos {
                self.nanos - other.nanos
            } else {
                0
            },
    {
        if self.nanos >= other.nanos {
            Elapsed { nanos: self.nanos - other.nanos }
        } else {
            Elapsed { nanos: 0 }
        }
    }
}

/// Reads the clock through `chrono::Utc::now`, and takes the result apart with
/// `DateTime::timestamp` and `DateTime::timestamp_subsec_nanos`. Nothing is
/// claimed of the time that comes back. `Utc::now` gives up on a machine
/// whose clock stands before 1970; no argument decides that.
#[verifier::external_body]
pub(crate) fn utc_now() -> (now: Timestamp) {
    let t = chrono::Utc::now();
    Timestamp { secs: t.timestamp(), nanos: t.timestamp_subsec_nanos() }
}

/// The time `secs`, `nanos` as chrono writes it by the pattern `pattern` in
/// the time zone that chrono-tz knows by the name `zone`. There is none where
/// chrono-tz knows no zone of that name, where chrono has no date for the
/// time, and where chrono cannot write the time by the pattern.
pub uninterp spec fn zone_format(
    secs: i64,
    nanos: u32,
    zone: Seq<char>,
    pattern: Seq<char>,
) -> Option<Seq<char>>;

/// Writes the time `at` by `pattern` with `chrono::DateTime::format`, after
/// `chrono::DateTime::from_timestamp` has made the time of `at` and
/// `DateTime::with_timezone` has moved it to the zone that `zone` parses to
/// as a `chrono_tz::Tz`. The contract gives the text a name and claims that it
/// depends on nothing but the arguments: the zones are compiled into
/// chrono-tz. Each failure of the three comes back as `None`.
#[verifier::external_body]
pub(crate) fn format_in_zone(at: Timestamp, zone: &str, pattern: &str) -> (r: Option<String>)
    ensures
        opt_text(r) == zone_format(at.secs, at.nanos, zone@, pattern@),
{
    let tz = zone.parse::<chrono_tz::Tz>().ok()?;
    let utc = chrono::DateTime::from_timestamp(at.secs, at.nanos)?;
    let mut text = String::new();
    write!(text, "{}", utc.with_timezone(&tz).format(pattern)).ok()?;
    Some(text)
}

/// The first of two texts that is there.
pub open spec fn first_of(primary: Option<Seq<char>>, fallback: Option<Seq<char>>) -> Option<Seq<char>> {
    match primary {
        Some(text) => Some(text),
        None => fallback,
    }
}

/// What `zone_format` gives for `zone`, and for UTC where it gives nothing
/// for `zone`.
pub open spec fn zone_or_utc(at: Timestamp, zone: Seq<char>, pattern: Seq<char>) -> Option<Seq<char>> {
    first_of(
        zone_format(at.secs, at.nanos, zone, pattern),
        zone_format(at.secs, at.nanos, "UTC"@, pattern),
    )
}

/// `primary` where it is there, and `fallback` where it is not.
pub fn first_text(primary: Option<String>, fallback: Option<String>) -> (r: Option<String>)
    ensures
        opt_text(r) == first_of(opt_text(primary), opt_text(fallback)),
{
    match primary {
        Some(text) => Some(text),
        None => fallback,
    }
}

/// The time `at` written by `pattern` in the zone named `zone`, and in UTC
/// where that cannot be had.
pub fn format_time(at: Timestamp, zone: &str, pattern: &str) -> (r: Option<String>)
    ensures
        opt_text(r) == zone_or_utc(at, zone@, pattern@),
{
    first_text(format_in_zone(at, zone, pattern), format_in_zone(at, "UTC", pattern))
}

/// The time of day of `at` in the zone named `zone`, followed by the zone's
/// abbreviation; in UTC where no zone has that name.
pub fn clock_text(at: Timestamp, zone: &str) -> (r: Option<String>)
    ensures
        opt_text(r) == zone_or_utc(at, zone@, "%H:%M:%S %Z"@),
{
    format_time(at, zone, "%H:%M:%S %Z")
}

/// The time of day of `at` in the zone named `zone`; in UTC where no zone has
/// that name.
pub fn time_text(at: Timestamp, zone: &str) -> (r: Option<String>)
    ensures
        opt_text(r) == zone_or_utc(at, zone@, "%H:%M:%S"@),
{
    format_time(at, zone, "%H:%M:%S")
}

} // verus!
