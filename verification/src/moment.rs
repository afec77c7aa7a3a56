//! Instants of time, to the nanosecond, and their RFC 3339 text.

use vstd::prelude::*;

verus! {

/// The first second of the calendar, from the Unix epoch.
pub const FIRST_SECOND: i64 = -8_334_601_228_800;

/// The last second of the calendar, from the Unix epoch.
pub const LAST_SECOND: i64 = 8_210_266_876_799;

/// An instant in UTC: seconds from the Unix epoch and nanoseconds within the second. Only the
/// last second of a minute may be a leap second, with more than 999 999 999 nanoseconds.
#[derive(Clone, Copy, PartialEq, Eq, Structural, Debug)]
pub struct Moment {
    pub(crate) secs: i64,
    pub(crate) nanos: u32,
}

/// Whether the calendar has the instant.
pub open spec fn in_calendar(secs: i64, nanos: u32) -> bool {
    FIRST_SECOND <= secs <= LAST_SECOND && (nanos < 1_000_000_000 || (nanos < 2_000_000_000 && secs
        % 60 == 59))
}

impl Moment {
    pub closed spec fn seconds(self) -> i64 {
        self.secs
    }

    pub closed spec fn nanoseconds(self) -> u32 {
        self.nanos
    }

    #[verifier::type_invariant]
    pub closed spec fn wf(self) -> bool {
        in_calendar(self.secs, self.nanos)
    }

    /// The instant of these seconds and nanoseconds.
    pub closed spec fn at(instant: (i64, u32)) -> Moment {
        Moment { secs: instant.0, nanos: instant.1 }
    }

    /// An instant is known by its seconds and nanoseconds.
    pub proof fn at_own(self)
        ensures
            Moment::at((self.seconds(), self.nanoseconds())) == self,
    {
    }

    /// The instant, if the calendar has it.
    pub fn new(secs: i64, nanos: u32) -> (r: Option<Moment>)
        ensures
            r is Some == in_calendar(secs, nanos),
            r is Some ==> r->0.seconds() == secs && r->0.nanoseconds() == nanos,
    {
        if secs < FIRST_SECOND || secs > LAST_SECOND || nanos >= 2_000_000_000 {
            return None;
        }
        if nanos >= 1_000_000_000 {
            let from_first: u64 = (secs - FIRST_SECOND) as u64;
            assert((secs - FIRST_SECOND) % 60 == secs % 60);
            if from_first % 60 != 59 {
                return None;
            }
        }
        Some(Moment { secs, nanos })
    }

    pub fn secs(&self) -> (r: i64)
        ensures
            r == self.seconds(),
    {
        self.secs
    }

    pub fn nanos(&self) -> (r: u32)
        ensures
            r == self.nanoseconds(),
    {
        self.nanos
    }

    /// The current time.
    pub fn now() -> (r: Moment)
        ensures
            r.wf(),
    {
        let (secs, nanos) = clock();
        Moment { secs, nanos }
    }

    /// Whether this instant is later than the other.
    pub fn later_than(&self, other: &Moment) -> (r: bool)
        ensures
            r == other.before(*self),
    {
        self.secs > other.secs || (self.secs == other.secs && self.nanos > other.nanos)
    }

    /// Whether this instant comes before the other.
    pub open spec fn before(self, other: Moment) -> bool {
        self.seconds() < other.seconds() || (self.seconds() == other.seconds()
            && self.nanoseconds() < other.nanoseconds())
    }

    /// Whether the instant is a whole second of the years 0 to 9999, the ones that RFC 3339
    /// writes with four digits.
    pub open spec fn four_digit_second(self) -> bool {
        -62_167_219_200 <= self.seconds() <= 253_402_300_799 && self.nanoseconds() == 0
    }

    /// The RFC 3339 text of the instant, to the second.
    pub fn to_rfc3339(&self) -> (r: String)
        ensures
            r@ == rfc3339_text(self.seconds(), self.nanoseconds()),
            self.four_digit_second() ==> rfc3339_plain(r@),
            self.four_digit_second() ==> rfc3339_instant(r@) == Some(
                (self.seconds(), self.nanoseconds()),
            ),
    {
        proof {
            use_type_invariant(self);
        }
        write_rfc3339(self.secs, self.nanos)
    }

    /// Reads an RFC 3339 text.
    pub fn from_rfc3339(s: &str) -> (r: Option<Moment>)
        ensures
            r == (match rfc3339_instant(s@) {
                Some(t) => Some(Moment::at(t)),
                None => None,
            }),
    {
        match read_rfc3339(s) {
            None => None,
            Some((secs, nanos)) => Some(Moment { secs, nanos }),
        }
    }
}

/// `chrono::Utc::now`: the time of the system's clock. Nothing is known of it but that the
/// calendar has it.
#[verifier::external_body]
fn clock() -> (r: (i64, u32))
    ensures
        in_calendar(r.0, r.1),
{
    let t = chrono::Utc::now();
    (t.timestamp(), t.timestamp_subsec_nanos())
}

/// The text that `DateTime::<Utc>::to_rfc3339_opts` writes to the second with `Z`, of an instant
/// given as seconds and nanoseconds.
pub uninterp spec fn rfc3339_text(secs: i64, nanos: u32) -> Seq<char>;

/// The instant in UTC, as seconds and nanoseconds, that `DateTime::parse_from_rfc3339` reads
/// from a text.
pub uninterp spec fn rfc3339_instant(s: Seq<char>) -> Option<(i64, u32)>;

/// The shape of a four-digit RFC 3339 text: twenty digits, hyphens, colons, `T` and `Z`.
pub open spec fn rfc3339_plain(s: Seq<char>) -> bool {
    s.len() == 20 && forall|i: int|
        0 <= i < s.len() ==> ('0' <= #[trigger] s[i] <= '9') || s[i] == '-' || s[i] == ':' || s[i]
            == 'T' || s[i] == 'Z'
}

/// Calls `DateTime::to_rfc3339_opts(SecondsFormat::Secs, true)`; the result is named
/// `rfc3339_text`. Of a whole second of the years 0 to 9999 it writes twenty plain characters,
/// and `DateTime::parse_from_rfc3339` reads the same instant from them.
#[verifier::external_body]
fn write_rfc3339(secs: i64, nanos: u32) -> (r: String)
    requires
        in_calendar(secs, nanos),
    ensures
        r@ == rfc3339_text(secs, nanos),
        -62_167_219_200 <= secs <= 253_402_300_799 && nanos == 0 ==> rfc3339_plain(r@),
        -62_167_219_200 <= secs <= 253_402_300_799 && nanos == 0 ==> rfc3339_instant(r@) == Some(
            (secs, nanos),
        ),
{
    let t = chrono::DateTime::<chrono::Utc>::from_timestamp(secs, nanos).unwrap();
    t.to_rfc3339_opts(chrono::SecondsFormat::Secs, true)
}

/// Calls `DateTime::parse_from_rfc3339`; the result is named `rfc3339_instant`. What it reads is
/// an instant of the calendar.
#[verifier::external_body]
fn read_rfc3339(s: &str) -> (r: Option<(i64, u32)>)
    ensures
        r == rfc3339_instant(s@),
        match r {
            Some((secs, nanos)) => in_calendar(secs, nanos),
            None => true,
        },
{
    let t = chrono::DateTime::parse_from_rfc3339(s).ok()?;
    Some((t.timestamp(), t.timestamp_subsec_nanos()))
}

} // verus!
