//! The current time, as the server reads it from the system clock, and its
//! RFC 2616 text.
use std::fmt::Write;
use vstd::prelude::*;

verus! {

/// A point in UTC time: whole seconds since the Unix epoch and the
/// nanoseconds within that second.
#[derive(Debug, Clone, Copy, PartialEq, Eq, Structural)]
pub struct UtcInstant {
    pub secs: i64,
    pub nanos: u32,
}

impl UtcInstant {
    /// `self` is no later than `other`.
    pub open spec fn spec_le(self, other: UtcInstant) -> bool {
        self.secs < other.secs || (self.secs == other.secs && self.nanos <= other.nanos)
    }

    /// Whether `self` is no later than `other`.
    pub fn le(&self, other: &UtcInstant) -> (r: bool)
        ensures
            r == self.spec_le(*other),
    {
        self.secs < other.secs || (self.secs == other.secs && self.nanos <= other.nanos)
    }
}

/// Reads the system clock through `chrono::Utc::now`. chrono builds that
/// value from the seconds and sub-second nanoseconds elapsed since the Unix
/// epoch (and panics on a clock set before it), so the seconds are not
/// negative and the nanoseconds stay below one second; nothing more is
/// promised of the value, which depends on the time of the call.
#[verifier::external_body]
pub(crate) fn utc_now() -> (r: UtcInstant)
    ensures
        r.secs >= 0,
        r.nanos < 1_000_000_000,
{
    let now = chrono::Utc::now();
    UtcInstant { secs: now.timestamp(), nanos: now.timestamp_subsec_nanos() }
}

/// The current Unix time in seconds, as `chrono::Utc::now().timestamp()`
/// gives it, reinterpreted as a `u64`: never above `i64::MAX`, as the clock
/// is not set before the epoch.
pub fn unix_timestamp() -> (r: u64)
    ensures
        r <= i64::MAX,
{
    let now = utc_now();
    now.secs as u64
}

/// What chrono writes for the instant `secs`, `nanos` (UTC) with the
/// `strftime`-like pattern `fmt`: `None` when `DateTime::from_timestamp`
/// refuses the instant or the pattern holds an item chrono cannot write.
pub uninterp spec fn chrono_formatted(secs: i64, nanos: u32, fmt: Seq<char>) -> Option<Seq<char>>;

/// The view of an optional string.
pub open spec fn opt_text(o: Option<String>) -> Option<Seq<char>> {
    match o {
        Some(s) => Some(s@),
        None => None,
    }
}

/// `chrono::DateTime::from_timestamp` of `t`, written with `format(fmt)`;
/// `None` where chrono refuses the instant or fails to write the pattern.
#[verifier::external_body]
fn chrono_format(t: UtcInstant, fmt: &str) -> (r: Option<String>)
    ensures
        opt_text(r) == chrono_formatted(t.secs, t.nanos, fmt@),
{
    let d = chrono::DateTime::from_timestamp(t.secs, t.nanos)?;
    let mut s = String::new();
    write!(s, "{}", d.format(fmt)).ok()?;
    Some(s)
}

/// The pattern of an RFC 2616 date: day name, day, month name, year, time,
/// and "GMT".
pub open spec fn rfc2616_pattern() -> Seq<char> {
    "%a, %d %b %Y %T GMT"@
}

/// The RFC 2616 text of `t`, as chrono writes it; empty should chrono
/// refuse the instant.
pub open spec fn rfc2616_text(t: UtcInstant) -> Seq<char> {
    match chrono_formatted(t.secs, t.nanos, rfc2616_pattern()) {
        Some(d) => d,
        None => Seq::<char>::empty(),
    }
}

/// Formats `date` as an RFC 2616 date, e.g. "Sun, 06 Nov 1994 08:49:37 GMT".
pub fn format_rfc2616_date(date: UtcInstant) -> (r: String)
    ensures
        r@ == rfc2616_text(date),
{
    match chrono_format(date, "%a, %d %b %Y %T GMT") {
        Some(s) => s,
        None => String::new(),
    }
}

/// The current time formatted as an RFC 2616 date.
pub fn rfc2616_date_now() -> (r: String)
    ensures
        exists|t: UtcInstant| t.secs >= 0 && t.nanos < 1_000_000_000 && r@ == #[trigger] rfc2616_text(t),
{
    let now = utc_now();
    format_rfc2616_date(now)
}

} // verus!
