use vstd::prelude::*;

verus! {

/// A point in time: whole seconds since the Unix epoch and the nanoseconds past them.
#[derive(Debug, Clone, Copy, PartialEq, Eq, Structural)]
pub struct Timestamp {
    pub secs: i64,
    pub nanos: u32,
}

/// Seconds in one day.
pub const SECS_PER_DAY: i64 = 86400;

impl Timestamp {
    /// Whether `self` comes strictly before `other`.
    pub open spec fn before(self, other: Timestamp) -> bool {
        self.secs < other.secs || (self.secs == other.secs && self.nanos < other.nanos)
    }

    /// The same instant `days` days later, or `None` when the seconds overflow.
    pub fn plus_days(&self, days: u16) -> (r: Option<Timestamp>)
        ensures
            r matches Some(t) ==> t.secs == self.secs + days * SECS_PER_DAY && t.nanos
                == self.nanos,
            r is None <==> self.secs + days * SECS_PER_DAY > i64::MAX,
    {
        let delta: i64 = days as i64 * SECS_PER_DAY;
        if self.secs > i64::MAX - delta {
            None
        } else {
            Some(Timestamp { secs: self.secs + delta, nanos: self.nanos })
        }
    }

    /// Whether `self` comes strictly before `other`.
    pub fn is_before(&self, other: &Timestamp) -> (r: bool)
        ensures
            r == self.before(*other),
    {
        self.secs < other.secs || (self.secs == other.secs && self.nanos < other.nanos)
    }
}

/// The UTC date and time text of an instant, as `chrono` writes a `DateTime<Utc>`.
pub uninterp spec fn utc_display(secs: i64, nanos: u32) -> Option<Seq<char>>;

/// The date and time text of an instant without its zone, as `chrono` writes a
/// `NaiveDateTime`.
pub uninterp spec fn naive_display(secs: i64, nanos: u32) -> Option<Seq<char>>;

/// The view of an optional string.
pub open spec fn opt_view(s: Option<String>) -> Option<Seq<char>> {
    match s {
        Some(t) => Some(t@),
        None => None,
    }
}

/// Relies on `chrono::DateTime::<Utc>::from_timestamp` and its `Display`: `None` for
/// an instant out of range, else the text, which depends on the instant alone.
#[verifier::external_body]
pub fn utc_text(t: &Timestamp) -> (r: Option<String>)
    ensures
        opt_view(r) == utc_display(t.secs, t.nanos),
{
    match chrono::DateTime::<chrono::Utc>::from_timestamp(t.secs, t.nanos) {
        Some(d) => Some(d.to_string()),
        None => None,
    }
}

/// Relies on `chrono::DateTime::<Utc>::from_timestamp`, `naive_utc` and the `Display`
/// of `NaiveDateTime`: `None` for an instant out of range, else the text, which
/// depends on the instant alone.
#[verifier::external_body]
pub fn naive_utc_text(t: &Timestamp) -> (r: Option<String>)
    ensures
        opt_view(r) == naive_display(t.secs, t.nanos),
{
    match chrono::DateTime::<chrono::Utc>::from_timestamp(t.secs, t.nanos) {
        Some(d) => Some(d.naive_utc().to_string()),
        None => None,
    }
}

} // verus!
