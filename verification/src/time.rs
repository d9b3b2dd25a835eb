//! Instants in UTC, and spans of time as nanoseconds.

use chrono::{DateTime, Utc};
use std::time::Instant;
use vstd::prelude::*;

verus! {

/// The first second of the calendar range, counted from 1970-01-01T00:00:00Z.
pub const MIN_SECS: i64 = -8_334_601_228_800;

/// The last second of the calendar range.
pub const MAX_SECS: i64 = 8_210_266_876_799;

/// One second, as a span.
pub const NANOS_PER_SEC: u128 = 1_000_000_000;

/// One millisecond, as a span.
pub const NANOS_PER_MILLI: u128 = 1_000_000;

/// An instant in UTC with nanosecond precision.
#[derive(Clone, Copy, Debug, PartialEq, Eq, Structural)]
pub struct Timestamp {
    /// Whole seconds since the Unix epoch, rounded down.
    pub secs: i64,
    /// Nanoseconds on top of `secs`.
    pub nanos: u32,
}

/// A quotient rounded toward zero.
pub open spec fn quotient_toward_zero(a: int, b: int) -> int {
    if a < 0 {
        -((-a) / b)
    } else {
        a / b
    }
}

impl Timestamp {
    /// The instant lies in the calendar range.
    pub open spec fn wf(self) -> bool {
        MIN_SECS <= self.secs <= MAX_SECS && self.nanos < 1_000_000_000
    }

    /// Nanoseconds since the Unix epoch.
    pub open spec fn as_nanos(self) -> int {
        self.secs * 1_000_000_000 + self.nanos
    }

    /// Milliseconds since the Unix epoch, rounded down.
    pub open spec fn as_millis(self) -> int {
        self.as_nanos() / 1_000_000
    }

    /// Milliseconds since the Unix epoch, rounded down.
    pub fn millis(&self) -> (ms: i64)
        requires
            self.wf(),
        ensures
            ms == self.as_millis(),
            MIN_SECS * 1000 <= ms <= MAX_SECS * 1000 + 999,
    {
        let ms: i64 = self.secs * 1000 + (self.nanos / 1_000_000) as i64;
        assert(ms == self.as_millis()) by (nonlinear_arith)
            requires
                ms == self.secs * 1000 + self.nanos / 1_000_000,
                self.as_millis() == (self.secs * 1_000_000_000 + self.nanos) / 1_000_000,
        ;
        ms
    }

    /// Whether this instant comes before `other`.
    pub fn before(&self, other: &Timestamp) -> (b: bool)
        requires
            self.wf(),
            other.wf(),
        ensures
            b == (self.as_nanos() < other.as_nanos()),
    {
        self.secs < other.secs || (self.secs == other.secs && self.nanos < other.nanos)
    }

    /// Whole milliseconds from `earlier` to this instant, rounded toward zero.
    pub fn millis_since(&self, earlier: &Timestamp) -> (ms: i64)
        requires
            self.wf(),
            earlier.wf(),
        ensures
            ms == quotient_toward_zero(self.as_nanos() - earlier.as_nanos(), 1_000_000),
            -20_000_000_000_000_000 < ms < 20_000_000_000_000_000,
    {
        let d: i128 = (self.secs as i128 - earlier.secs as i128) * 1_000_000_000 + (self.nanos as i128
            - earlier.nanos as i128);
        assert(d == self.as_nanos() - earlier.as_nanos());
        if d < 0 {
            let q: i128 = (-d) / 1_000_000;
            -(q as i64)
        } else {
            let q: i128 = d / 1_000_000;
            q as i64
        }
    }

    /// The instant `ms` milliseconds later.
    pub fn plus_millis(&self, ms: u64) -> (t: Timestamp)
        requires
            self.wf(),
            self.as_nanos() + ms * 1_000_000 < (MAX_SECS + 1) * 1_000_000_000,
        ensures
            t.wf(),
            t.as_nanos() == self.as_nanos() + ms * 1_000_000,
    {
        let whole: u64 = ms / 1000;
        let part: u32 = (ms % 1000) as u32 * 1_000_000;
        let n: u32 = self.nanos + part;
        if n >= 1_000_000_000 {
            Timestamp { secs: self.secs + whole as i64 + 1, nanos: n - 1_000_000_000 }
        } else {
            Timestamp { secs: self.secs + whole as i64, nanos: n }
        }
    }
}

/// The instant of a number of milliseconds since the epoch.
pub open spec fn at_millis(ms: int) -> Timestamp {
    Timestamp { secs: (ms / 1000) as i64, nanos: ((ms % 1000) * 1_000_000) as u32 }
}

/// Whether a number of milliseconds since the epoch lies in the calendar range.
pub open spec fn millis_in_range(ms: int) -> bool {
    MIN_SECS * 1000 <= ms <= MAX_SECS * 1000 + 999
}

/// The instant of a whole millisecond counts back to that millisecond.
pub proof fn lemma_at_millis(ms: int)
    requires
        millis_in_range(ms),
    ensures
        at_millis(ms).wf(),
        at_millis(ms).as_nanos() == ms * 1_000_000,
        at_millis(ms).as_millis() == ms,
{
    let t = at_millis(ms);
    assert(t.secs == ms / 1000);
    assert(t.nanos == (ms % 1000) * 1_000_000);
}

/// `chrono::DateTime::from_timestamp_millis`: the instant of a number of
/// milliseconds since the epoch, for every number in chrono's calendar range
/// and for no other.
#[verifier::external_body]
pub(crate) fn utc_from_millis(ms: i64) -> (t: Option<Timestamp>)
    ensures
        t == (if millis_in_range(ms as int) {
            Some(at_millis(ms as int))
        } else {
            None::<Timestamp>
        }),
{
    DateTime::from_timestamp_millis(ms).map(
        |t| Timestamp { secs: t.timestamp(), nanos: t.timestamp_subsec_nanos() },
    )
}

/// `chrono::Utc::now`: the wall clock, which lies in the calendar range.
#[verifier::external_body]
pub(crate) fn utc_now() -> (t: Timestamp)
    ensures
        t.wf(),
{
    let t = Utc::now();
    Timestamp { secs: t.timestamp(), nanos: t.timestamp_subsec_nanos() }
}

/// The RFC 3339 text that chrono writes for an instant in UTC.
pub uninterp spec fn rfc3339_text(secs: i64, nanos: u32) -> Seq<char>;

/// `chrono::DateTime::to_rfc3339` on the given instant.
#[verifier::external_body]
pub(crate) fn to_rfc3339(t: &Timestamp) -> (s: String)
    requires
        t.wf(),
    ensures
        s@ == rfc3339_text(t.secs, t.nanos),
{
    DateTime::<Utc>::from_timestamp(t.secs, t.nanos).unwrap().to_rfc3339()
}

/// `std::time::Instant`: a reading of the monotonic clock, which nothing here
/// looks into.
#[verifier::external_type_specification]
#[verifier::external_body]
pub struct ExInstant(Instant);

/// `Instant::now`: the monotonic clock. Nothing is said of its value.
pub assume_specification[ Instant::now ]() -> Instant
;

/// `Instant::elapsed`, in nanoseconds. Nothing is said of its value.
#[verifier::external_body]
pub(crate) fn elapsed_nanos(since: &Instant) -> (nanos: u128) {
    since.elapsed().as_nanos()
}

/// The span of a number of whole seconds.
pub fn span_secs(secs: u64) -> (nanos: u128)
    ensures
        nanos == secs * NANOS_PER_SEC,
{
    secs as u128 * NANOS_PER_SEC
}

/// The span of a number of whole milliseconds.
pub fn span_millis(ms: u64) -> (nanos: u128)
    ensures
        nanos == ms * NANOS_PER_MILLI,
{
    ms as u128 * NANOS_PER_MILLI
}

} // verus!
