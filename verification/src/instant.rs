//! Structured instants for the freshness check: the feed's computed `updated`
//! string is parsed into an [`Instant`], compared against an output file's
//! last-modification instant, and the file is rewritten only when the feed
//! has advanced past it.

use vstd::prelude::*;

verus! {

/// A point in time: whole seconds since the Unix epoch, plus the nanosecond
/// within that second.
#[derive(Clone, Copy, PartialEq, Eq, Structural, Debug)]
pub struct Instant {
    pub secs: i64,
    pub nanos: u32,
}

/// What time's RFC 3339 parser returns for a string: the instant as Unix
/// seconds and the nanosecond within the second, or nothing where the string
/// is not a valid RFC 3339 timestamp. The result depends on the characters
/// alone.
pub uninterp spec fn parsed_rfc3339(s: Seq<char>) -> Option<(int, int)>;

/// Relies on time's `OffsetDateTime::parse` with the RFC 3339 well-known
/// format: the result depends on the characters alone; `unix_timestamp` and
/// `nanosecond` give the parsed instant as plain values.
#[verifier::external_body]
pub(crate) fn parse_rfc3339(s: &str) -> (r: Option<Instant>)
    ensures
        r is Some <==> parsed_rfc3339(s@) is Some,
        r matches Some(i) ==> parsed_rfc3339(s@) == Some((i.secs as int, i.nanos as int)),
{
    match time::OffsetDateTime::parse(s, &time::format_description::well_known::Rfc3339) {
        Ok(t) => Some(Instant { secs: t.unix_timestamp(), nanos: t.nanosecond() }),
        Err(_) => None,
    }
}

/// Relies on time's `OffsetDateTime::now_utc` and its RFC 3339 formatting:
/// the result depends on the clock, so nothing is stated of it; the empty
/// string stands in for a formatting failure.
#[verifier::external_body]
pub(crate) fn now_rfc3339() -> (r: String) {
    match time::OffsetDateTime::now_utc().format(
        &time::format_description::well_known::Rfc3339,
    ) {
        Ok(s) => s,
        Err(_) => String::new(),
    }
}

/// Whether instant `a` is strictly later than instant `b`.
pub open spec fn instant_after(a: Instant, b: Instant) -> bool {
    a.secs > b.secs || (a.secs == b.secs && a.nanos > b.nanos)
}

impl Instant {
    /// Whether `self` is strictly later than `other`.
    pub fn is_after(&self, other: &Instant) -> (r: bool)
        ensures
            r == instant_after(*self, *other),
    {
        self.secs > other.secs || (self.secs == other.secs && self.nanos > other.nanos)
    }
}

/// The conditional-write policy: write when the target file's modification
/// instant cannot be determined, or when the feed's `updated` instant is
/// strictly later than it; otherwise leave the file untouched.
pub fn should_write(updated: &Instant, mtime: &Option<Instant>) -> (r: bool)
    ensures
        r == match *mtime { Some(m) => instant_after(*updated, m), None => true },
{
    match mtime {
        Some(m) => updated.is_after(m),
        None => true,
    }
}

} // verus!
