//! Points in time, and what `chrono` computes of them.
use vstd::prelude::*;

verus! {

/// The first second that `chrono` can represent: the start of the year -262143.
pub const MIN_SECS: i64 = -8334601228800;

/// The last second that `chrono` can represent: the end of the year 262142.
pub const MAX_SECS: i64 = 8210266876799;

/// A point in time in UTC: the seconds since 1970-01-01T00:00:00Z, and the nanoseconds since the
/// start of that second.
#[derive(Clone, Copy, Debug, PartialEq, Eq, Structural)]
pub struct Timestamp {
    pub secs: i64,
    pub nanos: u32,
}

impl Timestamp {
    /// A point in time that `chrono` can represent, outside leap seconds.
    pub open spec fn valid(self) -> bool {
        &&& MIN_SECS <= self.secs <= MAX_SECS
        &&& self.nanos < 1_000_000_000
    }

    /// The nanoseconds since 1970-01-01T00:00:00Z.
    pub open spec fn instant(self) -> int {
        self.secs * 1_000_000_000 + self.nanos
    }

    /// Whether `self` is a later point in time than `other`.
    pub open spec fn after(self, other: Timestamp) -> bool {
        self.secs > other.secs || (self.secs == other.secs && self.nanos > other.nanos)
    }

    /// The same time of day `hours` hours on.
    pub open spec fn hours_later(self, hours: int) -> Timestamp {
        Timestamp { secs: (self.secs + hours * 3600) as i64, nanos: self.nanos }
    }

    /// Whether `self` is a later point in time than `other`.
    pub fn is_after(&self, other: &Timestamp) -> (r: bool)
        ensures
            r == self.after(*other),
    {
        self.secs > other.secs || (self.secs == other.secs && self.nanos > other.nanos)
    }
}

/// On valid points in time, later means more nanoseconds since 1970.
pub proof fn later_is_greater(a: Timestamp, b: Timestamp)
    requires
        a.valid(),
        b.valid(),
    ensures
        a.after(b) <==> a.instant() > b.instant(),
{
}

/// The text of a point in time in RFC 3339, as `chrono::DateTime::to_rfc3339_opts` writes it
/// with as few fraction digits (none, 3, 6 or 9) as are needed, and `Z` for the offset.
pub uninterp spec fn rfc3339_text(secs: i64, nanos: u32) -> Seq<char>;

/// `chrono::Utc::now`: the current point in time. Nothing is claimed of which one it is, only
/// that `chrono` can represent it and that it lies in no leap second. With the machine's clock
/// set before 1970, or beyond what `chrono` can represent, the call panics.
#[verifier::external_body]
pub(crate) fn utc_now() -> (r: Timestamp)
    ensures
        r.valid(),
{
    let now = chrono::Utc::now();
    Timestamp { secs: now.timestamp(), nanos: now.timestamp_subsec_nanos() }
}

/// `chrono::DateTime<Utc> + chrono::TimeDelta::hours(..)`: the point in time that many hours of
/// 3600 seconds on.
#[verifier::external_body]
pub(crate) fn plus_hours(t: Timestamp, hours: i64) -> (r: Timestamp)
    requires
        t.valid(),
        0 <= hours <= 1_000_000,
        t.secs + hours * 3600 <= MAX_SECS,
    ensures
        r == t.hours_later(hours as int),
{
    let sum = chrono::DateTime::<chrono::Utc>::from_timestamp(t.secs, t.nanos).unwrap()
        + chrono::TimeDelta::hours(hours);
    Timestamp { secs: sum.timestamp(), nanos: sum.timestamp_subsec_nanos() }
}

/// `chrono::DateTime::timestamp_millis`: the milliseconds since 1970-01-01T00:00:00Z, rounded
/// down.
#[verifier::external_body]
pub(crate) fn timestamp_millis(t: Timestamp) -> (r: i64)
    requires
        t.valid(),
    ensures
        r == t.secs * 1000 + t.nanos / 1_000_000,
{
    chrono::DateTime::<chrono::Utc>::from_timestamp(t.secs, t.nanos).unwrap().timestamp_millis()
}

/// `chrono::DateTime::to_rfc3339_opts` with `SecondsFormat::AutoSi` and `Z`, which is also what
/// `chrono` serialises a point in time as: the text that [`rfc3339_text`] names.
#[verifier::external_body]
pub(crate) fn rfc3339(t: Timestamp) -> (r: String)
    requires
        t.valid(),
    ensures
        r@ == rfc3339_text(t.secs, t.nanos),
{
    chrono::DateTime::<chrono::Utc>::from_timestamp(t.secs, t.nanos)
        .unwrap()
        .to_rfc3339_opts(chrono::SecondsFormat::AutoSi, true)
}

} // verus!
