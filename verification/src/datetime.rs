//! Points in time as the library holds them: the seconds since the Unix
//! epoch and the nanoseconds into that second, in UTC. The calendar is
//! chrono's: it says which pairs are points in time, prints them to the
//! minute and reads them back.

use core::cmp::Ordering;
use vstd::prelude::*;

verus! {

/// Whether `chrono::DateTime::from_timestamp` accepts the pair as a point in
/// time.
pub uninterp spec fn is_instant(secs: i64, nanos: u32) -> bool;

/// What `chrono::DateTime::format` prints for the point in time under the
/// format `%Y-%m-%d %H:%M`.
pub uninterp spec fn minute_text(secs: i64, nanos: u32) -> Seq<char>;

/// What `chrono::NaiveDateTime::parse_from_str` reads from a text under the
/// format `%Y-%m-%d %H:%M`, taken as UTC: the seconds and nanoseconds of the
/// point in time, or `None` where the text does not fit the format.
pub uninterp spec fn minute_instant(text: Seq<char>) -> Option<(i64, u32)>;

/// A point in time, UTC.
#[derive(Clone, Copy, Debug, PartialEq, Eq, Structural)]
pub struct DateTime {
    secs: i64,
    nanos: u32,
}

/// A `DateTime` as a plain value.
pub struct Instant {
    pub secs: i64,
    pub nanos: u32,
}

impl View for DateTime {
    type V = Instant;

    closed spec fn view(&self) -> Instant {
        Instant { secs: self.secs, nanos: self.nanos }
    }
}

/// The order of two points in time: by the second, then within it.
pub open spec fn instant_order(a: Instant, b: Instant) -> Option<Ordering> {
    if a.secs < b.secs || (a.secs == b.secs && a.nanos < b.nanos) {
        Some(Ordering::Less)
    } else if a.secs == b.secs && a.nanos == b.nanos {
        Some(Ordering::Equal)
    } else {
        Some(Ordering::Greater)
    }
}

/// Asks `chrono::DateTime::from_timestamp` whether the pair is a point in
/// time. chrono documents that such a point gives the same pair back through
/// `timestamp` and `timestamp_subsec_nanos`, which is what comes out here.
#[verifier::external_body]
fn checked_instant(secs: i64, nanos: u32) -> (r: Option<(i64, u32)>)
    ensures
        r == (if is_instant(secs, nanos) {
            Some((secs, nanos))
        } else {
            None
        }),
{
    chrono::DateTime::from_timestamp(secs, nanos).map(
        |d| (d.timestamp(), d.timestamp_subsec_nanos()),
    )
}

/// Prints a point in time with `chrono::DateTime::format` under
/// `%Y-%m-%d %H:%M`; the contract names the text.
#[verifier::external_body]
fn print_minute(secs: i64, nanos: u32) -> (s: String)
    requires
        is_instant(secs, nanos),
    ensures
        s@ == minute_text(secs, nanos),
{
    chrono::DateTime::from_timestamp(secs, nanos).unwrap().format("%Y-%m-%d %H:%M").to_string()
}

/// Reads a text with `chrono::NaiveDateTime::parse_from_str` under
/// `%Y-%m-%d %H:%M` and takes the result as UTC. The contract names the
/// outcome; what is read is a point in time, since chrono made it.
#[verifier::external_body]
fn read_minute(text: &str) -> (r: Option<(i64, u32)>)
    ensures
        r == minute_instant(text@),
        r matches Some((secs, nanos)) ==> is_instant(secs, nanos),
{
    chrono::NaiveDateTime::parse_from_str(text, "%Y-%m-%d %H:%M").ok().map(
        |d| (d.and_utc().timestamp(), d.and_utc().timestamp_subsec_nanos()),
    )
}

impl DateTime {
    #[verifier::type_invariant]
    spec fn is_valid(self) -> bool {
        is_instant(self.secs, self.nanos)
    }

    /// The point in time `secs` seconds after the Unix epoch and `nanos`
    /// nanoseconds on; `None` where the calendar has no such point.
    pub fn from_timestamp(secs: i64, nanos: u32) -> (r: Option<DateTime>)
        ensures
            r is Some <==> is_instant(secs, nanos),
            r matches Some(d) ==> d@ == (Instant { secs, nanos }),
    {
        match checked_instant(secs, nanos) {
            Some((s, n)) => Some(DateTime { secs: s, nanos: n }),
            None => None,
        }
    }

    /// Reads a text of the form `2020-12-12 20:20`.
    pub fn parse(text: &str) -> (r: Option<DateTime>)
        ensures
            match r {
                Some(d) => minute_instant(text@) == Some((d@.secs, d@.nanos)),
                None => minute_instant(text@) is None,
            },
    {
        match read_minute(text) {
            Some((secs, nanos)) => Some(DateTime { secs, nanos }),
            None => None,
        }
    }

    /// The seconds since the Unix epoch.
    pub fn timestamp(&self) -> (secs: i64)
        ensures
            secs == self@.secs,
    {
        self.secs
    }

    /// The nanoseconds into the second.
    pub fn subsec_nanos(&self) -> (nanos: u32)
        ensures
            nanos == self@.nanos,
    {
        self.nanos
    }

    /// The point in time to the minute, as `2020-12-12 20:20`.
    pub fn format(&self) -> (s: String)
        ensures
            s@ == minute_text(self@.secs, self@.nanos),
    {
        proof {
            use_type_invariant(self);
        }
        print_minute(self.secs, self.nanos)
    }

    /// How this point in time stands to `other`.
    pub fn compare(&self, other: &DateTime) -> (r: Option<Ordering>)
        ensures
            r == instant_order(self@, other@),
    {
        if self.secs < other.secs || (self.secs == other.secs && self.nanos < other.nanos) {
            Some(Ordering::Less)
        } else if self.secs == other.secs && self.nanos == other.nanos {
            Some(Ordering::Equal)
        } else {
            Some(Ordering::Greater)
        }
    }
}

} // verus!
