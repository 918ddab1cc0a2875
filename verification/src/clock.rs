//! Points in time, and identifiers that are new each time.

use vstd::prelude::*;

use crate::text;

verus! {

/// A point in time: seconds since the start of 1970 in UTC, and nanoseconds
/// within the second. During a leap second the nanoseconds run past one
/// billion.
#[derive(Debug, Clone, Copy, PartialEq, Eq, Structural)]
pub struct Timestamp {
    pub seconds: i64,
    pub nanos: u32,
}

/// The first second of the year before the year 0, in UTC.
pub const FIRST_SECOND: i64 = -62_198_755_200;

/// The last second of the year 9999, in UTC.
pub const LAST_SECOND: i64 = 253_402_300_799;

impl Timestamp {
    /// After `other`.
    pub open spec fn after(self, other: Timestamp) -> bool {
        self.seconds > other.seconds || (self.seconds == other.seconds && self.nanos > other.nanos)
    }

    /// In a year whose notation sorts by time, in UTC: one of four digits, or the
    /// one before them, which is written with a minus sign. Later ones have a plus
    /// sign.
    pub open spec fn has_sorted_year(self) -> bool {
        FIRST_SECOND <= self.seconds <= LAST_SECOND
    }

    /// Whether this point in time comes after `other`.
    pub fn is_after(&self, other: &Timestamp) -> (r: bool)
        ensures
            r == self.after(*other),
    {
        self.seconds > other.seconds || (self.seconds == other.seconds && self.nanos > other.nanos)
    }
}

/// The point in time that an RFC 3339 date and time stands for.
pub uninterp spec fn rfc3339_instant(text: Seq<char>) -> Option<Timestamp>;

/// The RFC 3339 notation of a point in time in UTC, with as many digits of the
/// second as it takes.
pub uninterp spec fn rfc3339_text(seconds: i64, nanos: u32) -> Option<Seq<char>>;

/// The RFC 3339 notation of a point in time in UTC, in whole seconds and with
/// `Z` for the offset.
pub uninterp spec fn rfc3339_seconds_text(seconds: i64, nanos: u32) -> Option<Seq<char>>;

/// The text of every point in time that comes after `at` is behind `written` in
/// the order of texts, as far as the years sort by time.
pub open spec fn later_texts_follow(at: Timestamp, written: Seq<char>) -> bool {
    forall|later: Timestamp|
        at.has_sorted_year() && later.has_sorted_year() && later.after(at) ==> (
        #[trigger] rfc3339_text(later.seconds, later.nanos) matches Some(other) ==> text::text_less(
            written,
            other,
        ))
}

/// Calls `chrono::DateTime::parse_from_rfc3339` and moves the result to UTC.
/// The result is fixed by the text. What was read can be written again.
#[verifier::external_body]
pub(crate) fn parse_rfc3339(text: &str) -> (r: Option<Timestamp>)
    ensures
        r == rfc3339_instant(text@),
        r matches Some(t) ==> rfc3339_text(t.seconds, t.nanos) is Some,
{
    let read = chrono::DateTime::parse_from_rfc3339(text).ok()?;
    Some(Timestamp { seconds: read.timestamp(), nanos: read.timestamp_subsec_nanos() })
}

/// Calls `chrono::DateTime::to_rfc3339` on the UTC date and time that
/// `chrono::DateTime::from_timestamp` makes of the two numbers, where it makes
/// one. The result is fixed by the numbers. Up to the year 9999 the texts are in
/// the order of time: a later point in time has a text behind this one.
#[verifier::external_body]
pub(crate) fn to_rfc3339(at: &Timestamp) -> (r: Option<String>)
    ensures
        text::opt_text(r) == rfc3339_text(at.seconds, at.nanos),
        r matches Some(written) ==> later_texts_follow(*at, written@),
{
    let at = chrono::DateTime::from_timestamp(at.seconds, at.nanos)?;
    Some(at.to_rfc3339())
}

/// Calls `chrono::DateTime::to_rfc3339_opts` with `SecondsFormat::Secs` and
/// `use_z`, as [`to_rfc3339`] calls its function.
#[verifier::external_body]
pub(crate) fn to_rfc3339_seconds(at: &Timestamp) -> (r: Option<String>)
    ensures
        text::opt_text(r) == rfc3339_seconds_text(at.seconds, at.nanos),
{
    let at = chrono::DateTime::from_timestamp(at.seconds, at.nanos)?;
    Some(at.to_rfc3339_opts(chrono::SecondsFormat::Secs, true))
}

/// What a clock may show: a point in time that can be written, with less than two
/// billion nanoseconds.
pub open spec fn is_reading(at: Timestamp) -> bool {
    &&& at.nanos < 2_000_000_000
    &&& rfc3339_text(at.seconds, at.nanos) is Some
    &&& rfc3339_seconds_text(at.seconds, at.nanos) is Some
}

/// Calls `chrono::Utc::now`. The nanoseconds stay below two billion, and the
/// point in time is one that can be written. Which one it is, is left open.
#[verifier::external_body]
pub(crate) fn utc_now() -> (r: Timestamp)
    ensures
        is_reading(r),
{
    let now = chrono::Utc::now();
    Timestamp { seconds: now.timestamp(), nanos: now.timestamp_subsec_nanos() }
}

pub open spec fn is_lower_hex(c: char) -> bool {
    '0' <= c <= '9' || 'a' <= c <= 'f'
}

/// The notation of a random UUID: 32 hexadecimal digits in five groups, with
/// the version 4 and the variant of RFC 9562.
pub open spec fn is_uuid_v4(s: Seq<char>) -> bool {
    &&& s.len() == 36
    &&& forall|i: int|
        0 <= i < 36 ==> if i == 8 || i == 13 || i == 18 || i == 23 {
            #[trigger] s[i] == '-'
        } else {
            is_lower_hex(s[i])
        }
    &&& s[14] == '4'
    &&& (s[19] == '8' || s[19] == '9' || s[19] == 'a' || s[19] == 'b')
}

/// Calls `uuid::Uuid::new_v4`. The identifier is random; of every outcome it
/// holds that it is the hyphenated notation of a version 4 UUID in lower case.
#[verifier::external_body]
pub(crate) fn new_id() -> (r: String)
    ensures
        is_uuid_v4(r@),
{
    uuid::Uuid::new_v4().to_string()
}

/// Points in time are in one order: of two that differ exactly one comes after the other,
/// and what comes after a later one comes after an earlier one. A later second counts
/// before any nanosecond.
pub proof fn law_time_is_ordered(a: Timestamp, b: Timestamp, c: Timestamp)
    ensures
        a != b ==> (a.after(b) <==> !b.after(a)),
        !a.after(a),
        a.after(b) && b.after(c) ==> a.after(c),
        a.seconds > b.seconds ==> a.after(b),
        a.seconds == b.seconds ==> (a.after(b) <==> a.nanos > b.nanos),
{
}

} // verus!
