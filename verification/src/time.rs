//! Instants of the UTC calendar, as seconds and nanoseconds.

use vstd::prelude::*;

verus! {

/// Seconds of a day.
pub const DAY_SECONDS: i64 = 86_400;

/// Nanoseconds of a second.
pub const SECOND_NANOS: u32 = 1_000_000_000;

/// First second of the calendar: the start of the year -262143.
pub const FIRST_SECOND: i64 = -8_334_601_228_800;

/// Last second of the calendar: the end of the year 262142.
pub const LAST_SECOND: i64 = 8_210_266_876_799;

/// The calendar holds the instant. A nanosecond count of a second or more
/// stands for a leap second, which only the last second of a minute can have.
pub open spec fn in_calendar(secs: int, nanos: int) -> bool {
    &&& FIRST_SECOND <= secs <= LAST_SECOND
    &&& 0 <= nanos < 2 * SECOND_NANOS
    &&& nanos >= SECOND_NANOS ==> secs % 60 == 59
}

/// An instant in UTC.
#[derive(Clone, Copy, Debug, PartialEq, Eq, Structural)]
pub struct Timestamp {
    secs: i64,
    nanos: u32,
}

impl Timestamp {
    /// Seconds since the start of 1970, leap seconds left out.
    pub closed spec fn secs(self) -> i64 {
        self.secs
    }

    /// Nanoseconds past the second.
    pub closed spec fn nanos(self) -> u32 {
        self.nanos
    }

    #[verifier::type_invariant]
    spec fn valid(self) -> bool {
        in_calendar(self.secs as int, self.nanos as int)
    }

    /// The instant with these counts, where the calendar holds it.
    pub fn from_parts(secs: i64, nanos: u32) -> (r: Option<Timestamp>)
        ensures
            match r {
                Some(t) => in_calendar(secs as int, nanos as int) && t.secs() == secs && t.nanos()
                    == nanos,
                None => !in_calendar(secs as int, nanos as int),
            },
    {
        if secs < FIRST_SECOND || secs > LAST_SECOND || nanos >= 2 * SECOND_NANOS {
            return None;
        }
        if nanos >= SECOND_NANOS {
            // Shifted to be positive by whole minutes, so that the remainder
            // is the one past the minute.
            let shifted: i64 = secs + 8_334_601_228_800;
            if shifted % 60 != 59 {
                return None;
            }
        }
        Some(Timestamp { secs, nanos })
    }

    /// Seconds since the start of 1970.
    pub fn seconds(&self) -> (r: i64)
        ensures
            r == self.secs(),
            FIRST_SECOND <= r <= LAST_SECOND,
    {
        proof {
            use_type_invariant(self);
        }
        self.secs
    }

    /// Nanoseconds past the second.
    pub fn nanoseconds(&self) -> (r: u32)
        ensures
            r == self.nanos(),
            in_calendar(self.secs() as int, r as int),
    {
        proof {
            use_type_invariant(self);
        }
        self.nanos
    }

    /// The RFC 3339 text of the instant.
    pub fn to_rfc3339(&self) -> (r: String)
        ensures
            r@ == rfc3339_text(self.secs(), self.nanos()),
    {
        proof {
            use_type_invariant(self);
        }
        rfc3339(self.secs, self.nanos)
    }

    /// The RFC 3339 text of the instant, with `Z` for UTC.
    pub fn to_json_text(&self) -> (r: String)
        ensures
            r@ == json_text(self.secs(), self.nanos()),
    {
        proof {
            use_type_invariant(self);
        }
        rfc3339_with_z(self.secs, self.nanos)
    }

    /// Whether this instant lies after `other`.
    pub fn is_after(&self, other: Timestamp) -> (r: bool)
        ensures
            r == after(*self, other),
    {
        self.secs > other.secs || (self.secs == other.secs && self.nanos > other.nanos)
    }

    /// Whole seconds from `earlier` to this instant.
    pub fn seconds_since(&self, earlier: Timestamp) -> (r: i64)
        ensures
            r == whole_seconds_between(*self, earlier),
    {
        proof {
            use_type_invariant(self);
            use_type_invariant(&earlier);
        }
        seconds_between(self.secs, self.nanos, earlier.secs, earlier.nanos)
    }

    /// The instant `seconds` later, where the calendar holds it.
    pub fn later_by(&self, seconds: u64) -> (r: Option<Timestamp>)
        ensures
            match r {
                Some(t) => self.secs() + seconds <= LAST_SECOND && t.secs() == self.secs() + seconds
                    && t.nanos() == nanos_after(self.nanos() as int, seconds as int),
                None => self.secs() + seconds > LAST_SECOND,
            },
    {
        proof {
            use_type_invariant(self);
        }
        if seconds > 17_000_000_000_000 || self.secs + seconds as i64 > LAST_SECOND {
            return None;
        }
        let (secs, nanos) = add_seconds(self.secs, self.nanos, seconds as i64);
        Some(Timestamp { secs, nanos })
    }
}

/// The first instant lies after the second.
pub open spec fn after(a: Timestamp, b: Timestamp) -> bool {
    a.secs() > b.secs() || (a.secs() == b.secs() && a.nanos() > b.nanos())
}

/// What is left of the nanoseconds after `seconds` more have passed: a leap
/// second is over.
pub open spec fn nanos_after(nanos: int, seconds: int) -> int {
    if seconds > 0 && nanos >= SECOND_NANOS {
        nanos - SECOND_NANOS
    } else {
        nanos
    }
}

/// The leap second, if any, that is counted between two times of day.
pub open spec fn leap_between(a_secs: int, a_nanos: int, b_secs: int, b_nanos: int) -> int {
    if a_secs % DAY_SECONDS as int > b_secs % DAY_SECONDS as int && b_nanos >= SECOND_NANOS {
        1
    } else if (a_secs % DAY_SECONDS as int) < b_secs % DAY_SECONDS as int && a_nanos
        >= SECOND_NANOS {
        -1
    } else {
        0
    }
}

/// The quotient rounded towards zero.
pub open spec fn quotient_towards_zero(n: int, d: int) -> int {
    if n < 0 {
        -((-n) / d)
    } else {
        n / d
    }
}

/// Nanoseconds from the second instant to the first.
pub open spec fn nanos_between(a_secs: int, a_nanos: int, b_secs: int, b_nanos: int) -> int {
    (a_secs - b_secs + leap_between(a_secs, a_nanos, b_secs, b_nanos)) * SECOND_NANOS + (a_nanos
        - b_nanos)
}

/// Whole seconds from `earlier` to `later`, rounded towards zero.
pub open spec fn whole_seconds_between(later: Timestamp, earlier: Timestamp) -> int {
    quotient_towards_zero(
        nanos_between(
            later.secs() as int,
            later.nanos() as int,
            earlier.secs() as int,
            earlier.nanos() as int,
        ),
        SECOND_NANOS as int,
    )
}

/// What `chrono::DateTime::<Utc>::to_rfc3339` writes for an instant.
pub uninterp spec fn rfc3339_text(secs: i64, nanos: u32) -> Seq<char>;

/// Calls `chrono::DateTime::<Utc>::from_timestamp`, which holds every instant
/// of the calendar, and `to_rfc3339` on the result. The text depends on the two
/// counts alone.
#[verifier::external_body]
fn rfc3339(secs: i64, nanos: u32) -> (r: String)
    requires
        in_calendar(secs as int, nanos as int),
    ensures
        r@ == rfc3339_text(secs, nanos),
{
    chrono::DateTime::<chrono::Utc>::from_timestamp(secs, nanos)
        .expect("the calendar holds the instant")
        .to_rfc3339()
}

/// What `chrono::DateTime::<Utc>::to_rfc3339_opts` writes for an instant with
/// as many digits as it needs and `Z` for UTC.
pub uninterp spec fn json_text(secs: i64, nanos: u32) -> Seq<char>;

/// Calls `chrono::DateTime::<Utc>::from_timestamp`, which holds every instant
/// of the calendar, and `to_rfc3339_opts` on the result. The text depends on
/// the two counts alone.
#[verifier::external_body]
fn rfc3339_with_z(secs: i64, nanos: u32) -> (r: String)
    requires
        in_calendar(secs as int, nanos as int),
    ensures
        r@ == json_text(secs, nanos),
{
    chrono::DateTime::<chrono::Utc>::from_timestamp(secs, nanos)
        .expect("the calendar holds the instant")
        .to_rfc3339_opts(chrono::SecondsFormat::AutoSi, true)
}

/// Calls `chrono::DateTime::signed_duration_since` and
/// `chrono::TimeDelta::num_seconds`: the difference of the two instants, with
/// the leap seconds that the times of day count, rounded towards zero.
#[verifier::external_body]
fn seconds_between(a_secs: i64, a_nanos: u32, b_secs: i64, b_nanos: u32) -> (r: i64)
    requires
        in_calendar(a_secs as int, a_nanos as int),
        in_calendar(b_secs as int, b_nanos as int),
    ensures
        r == quotient_towards_zero(
            nanos_between(a_secs as int, a_nanos as int, b_secs as int, b_nanos as int),
            SECOND_NANOS as int,
        ),
{
    let a = chrono::DateTime::<chrono::Utc>::from_timestamp(a_secs, a_nanos)
        .expect("the calendar holds the first instant");
    let b = chrono::DateTime::<chrono::Utc>::from_timestamp(b_secs, b_nanos)
        .expect("the calendar holds the second instant");
    a.signed_duration_since(b).num_seconds()
}

/// Adds a `chrono::TimeDelta` of whole seconds to a `chrono::DateTime`: the
/// seconds grow by that many, and a leap second is left behind.
#[verifier::external_body]
fn add_seconds(secs: i64, nanos: u32, seconds: i64) -> (r: (i64, u32))
    requires
        in_calendar(secs as int, nanos as int),
        0 <= seconds,
        secs + seconds <= LAST_SECOND,
    ensures
        r.0 == secs + seconds,
        r.1 == nanos_after(nanos as int, seconds as int),
{
    let start = chrono::DateTime::<chrono::Utc>::from_timestamp(secs, nanos)
        .expect("the calendar holds the instant");
    let end = start + chrono::TimeDelta::seconds(seconds);
    (end.timestamp(), end.timestamp_subsec_nanos())
}

/// Reads the clock with `chrono::Utc::now`. Which instant it is depends on the
/// machine: it is one that the calendar holds, and never one inside a leap
/// second, since the clock counts less than a second past each second.
#[verifier::external_body]
fn clock() -> (r: (i64, u32))
    ensures
        in_calendar(r.0 as int, r.1 as int),
        r.1 < SECOND_NANOS,
{
    let now = chrono::Utc::now();
    (now.timestamp(), now.timestamp_subsec_nanos())
}

/// The current instant as the clock tells it, which knows no leap seconds.
pub fn now() -> (r: Timestamp)
    ensures
        in_calendar(r.secs() as int, r.nanos() as int),
        r.nanos() < SECOND_NANOS,
{
    let (secs, nanos) = clock();
    Timestamp { secs, nanos }
}

} // verus!
