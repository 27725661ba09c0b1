//! Instants in UTC.
//!
//! `UtcTime` holds what a `chrono::DateTime<Utc>` is made of: whole seconds since the Unix epoch
//! and the nanoseconds past them. Reading the clock, parsing and formatting stay with `chrono`.
use vstd::prelude::*;

verus! {

pub const NANOS_PER_SECOND: i128 = 1_000_000_000;

#[derive(Debug, Clone, Copy, PartialEq, Eq, Structural)]
pub struct UtcTime {
    pub seconds: i64,
    pub nanos: u32,
}

/// Whether `DateTime::<Utc>::from_timestamp(seconds, nanos)` gives a date-time.
pub uninterp spec fn chrono_accepts(seconds: i64, nanos: u32) -> bool;

/// What `DateTime::parse_from_rfc3339` gives for the text, converted to UTC; `None` for an error.
pub uninterp spec fn rfc3339_parse(text: Seq<char>) -> Option<UtcTime>;

/// What `DateTime::<Utc>::to_rfc3339` writes.
pub uninterp spec fn rfc3339_text(t: UtcTime) -> Seq<char>;

/// What `DateTime::<Utc>::to_rfc3339_opts(SecondsFormat::Millis, true)` writes.
pub uninterp spec fn rfc3339_millis_text(t: UtcTime) -> Seq<char>;

impl UtcTime {
    /// The parts describe a date-time that `chrono` can hold.
    pub open spec fn valid(self) -> bool {
        chrono_accepts(self.seconds, self.nanos)
    }

    /// Nanoseconds since the Unix epoch.
    pub open spec fn instant(self) -> int {
        self.seconds as int * NANOS_PER_SECOND as int + self.nanos as int
    }

    /// The signed duration `self - earlier` in nanoseconds (`signed_duration_since`).
    pub fn nanos_since(&self, earlier: &UtcTime) -> (r: i128)
        ensures
            r == self.instant() - earlier.instant(),
    {
        let a: i128 = self.seconds as i128 * NANOS_PER_SECOND + self.nanos as i128;
        let b: i128 = earlier.seconds as i128 * NANOS_PER_SECOND + earlier.nanos as i128;
        a - b
    }

    /// `DateTime::<Utc>::from_timestamp(seconds, 0)`.
    pub fn from_timestamp(seconds: i64) -> (r: Option<UtcTime>)
        ensures
            r is Some <==> chrono_accepts(seconds, 0),
            r matches Some(t) ==> t == (UtcTime { seconds, nanos: 0 }) && t.valid(),
    {
        utc_from_timestamp(seconds)
    }

    /// `DateTime::<Utc>::to_rfc3339_opts(SecondsFormat::Millis, true)`: milliseconds and `Z`.
    pub fn to_rfc3339_millis(&self) -> (r: String)
        requires
            self.valid(),
        ensures
            r@ == rfc3339_millis_text(*self),
    {
        format_rfc3339_millis(*self)
    }

    /// `DateTime::<Utc>::to_rfc3339`.
    pub fn to_rfc3339(&self) -> (r: String)
        requires
            self.valid(),
        ensures
            r@ == rfc3339_text(*self),
    {
        match format_rfc3339(*self) {
            Some(s) => s,
            None => String::new(),
        }
    }

    /// `to_rfc3339` of a date-time `chrono` can hold; `None` for parts it cannot.
    pub fn rfc3339_if_valid(&self) -> (r: Option<String>)
        ensures
            r is Some <==> self.valid(),
            r matches Some(s) ==> s@ == rfc3339_text(*self),
    {
        format_rfc3339(*self)
    }
}

/// `Utc::now()`. The clock decides the value; only that it is a date-time is stated.
#[verifier::external_body]
pub(crate) fn now_utc() -> (r: UtcTime)
    ensures
        r.valid(),
{
    let now = chrono::Utc::now();
    UtcTime { seconds: now.timestamp(), nanos: now.timestamp_subsec_nanos() }
}

/// `DateTime::<Utc>::from_timestamp(seconds, 0)`: the parts unchanged when `chrono` accepts them.
#[verifier::external_body]
fn utc_from_timestamp(seconds: i64) -> (r: Option<UtcTime>)
    ensures
        r is Some <==> chrono_accepts(seconds, 0),
        r matches Some(t) ==> t == (UtcTime { seconds, nanos: 0 }),
{
    chrono::DateTime::<chrono::Utc>::from_timestamp(seconds, 0).map(
        |t| UtcTime { seconds: t.timestamp(), nanos: t.timestamp_subsec_nanos() },
    )
}

/// `DateTime::parse_from_rfc3339` followed by `with_timezone(&Utc)`.
#[verifier::external_body]
pub(crate) fn parse_rfc3339(text: &str) -> (r: Option<UtcTime>)
    ensures
        r == rfc3339_parse(text@),
        r matches Some(t) ==> t.valid(),
{
    chrono::DateTime::parse_from_rfc3339(text).ok().map(|t| {
        let t = t.with_timezone(&chrono::Utc);
        UtcTime { seconds: t.timestamp(), nanos: t.timestamp_subsec_nanos() }
    })
}

/// `DateTime::<Utc>::to_rfc3339` of the instant with these parts; `None` when `chrono` holds no
/// date-time with them (`DateTime::from_timestamp` gives `None`).
#[verifier::external_body]
fn format_rfc3339(t: UtcTime) -> (r: Option<String>)
    ensures
        r is Some <==> t.valid(),
        r matches Some(s) ==> s@ == rfc3339_text(t),
{
    chrono::DateTime::<chrono::Utc>::from_timestamp(t.seconds, t.nanos).map(|d| d.to_rfc3339())
}

/// `DateTime::<Utc>::to_rfc3339_opts(SecondsFormat::Millis, true)` of the instant with these
/// parts.
#[verifier::external_body]
fn format_rfc3339_millis(t: UtcTime) -> (r: String)
    requires
        t.valid(),
    ensures
        r@ == rfc3339_millis_text(t),
{
    chrono::DateTime::<chrono::Utc>::from_timestamp(t.seconds, t.nanos).unwrap().to_rfc3339_opts(
        chrono::SecondsFormat::Millis,
        true,
    )
}

} // verus!
