use vstd::prelude::*;

verus! {

/// An instant, held as the number of microseconds since 1970-01-01 00:00 UTC
/// that `chrono`'s `timestamp_micros` gives for it.
#[derive(Debug, Clone, Copy, PartialEq)]
pub struct Timestamp {
    micros: i64,
}

impl View for Timestamp {
    type V = int;

    closed spec fn view(&self) -> int {
        self.micros as int
    }
}

/// The first second that `chrono` can hold, -262143-01-01 00:00:00, as
/// seconds since the UNIX epoch.
pub open spec fn first_second() -> int {
    -8_334_601_228_800
}

/// The last second that `chrono` can hold, +262142-12-31 23:59:59, as
/// seconds since the UNIX epoch.
pub open spec fn last_second() -> int {
    8_210_266_876_799
}

/// Whether `chrono` has an instant `secs` seconds and `nanos` nanoseconds
/// after the UNIX epoch: the second lies within its dates, and `nanos` is
/// under a second, or under two seconds on the last second of a minute (a
/// leap second).
pub open spec fn is_chrono_instant(secs: int, nanos: int) -> bool {
    &&& first_second() <= secs <= last_second()
    &&& nanos < 2_000_000_000
    &&& (nanos < 1_000_000_000 || secs % 60 == 59)
}

/// `chrono`'s microsecond timestamp of the instant `secs` seconds and
/// `nanos` nanoseconds after the UNIX epoch, or `None` where `chrono` has no
/// such instant.
///
/// Trusted: the body calls `chrono::DateTime::from_timestamp`, then
/// `timestamp_micros` on the instant it gives. As the source shows,
/// `from_timestamp` splits `secs` into a day (`secs.div_euclid(86_400)`) and
/// a second of that day; it refuses a day outside the years `MIN_YEAR`
/// (-262143) to `MAX_YEAR` (262142), `nanos` from 2_000_000_000 on, and from
/// 1_000_000_000 on (a leap second) unless the second of the day is the last
/// of its minute. The first and last seconds so admitted are the
/// timestamps of `DateTime::<Utc>::MIN_UTC` and `MAX_UTC`. The timestamp is
/// then `secs * 1_000_000 + nanos / 1000`,
/// which stays within `i64` over that range.
#[verifier::external_body]
fn chrono_timestamp_micros(secs: i64, nanos: u32) -> (r: Option<i64>)
    ensures
        r is Some <==> is_chrono_instant(secs as int, nanos as int),
        r matches Some(m) ==> m == secs * 1_000_000 + nanos / 1000,
{
    match chrono::DateTime::from_timestamp(secs, nanos) {
        Some(instant) => Some(instant.timestamp_micros()),
        None => None,
    }
}

impl Timestamp {
    /// The instant `secs` seconds and `nanos` nanoseconds after the UNIX
    /// epoch, as `chrono` builds it; `None` where `chrono` has no such instant.
    pub fn from_unix(secs: i64, nanos: u32) -> (r: Option<Timestamp>)
        ensures
            r is Some <==> is_chrono_instant(secs as int, nanos as int),
            r matches Some(t) ==> t@ == secs * 1_000_000 + nanos / 1000,
    {
        match chrono_timestamp_micros(secs, nanos) {
            Some(m) => Some(Timestamp { micros: m }),
            None => None,
        }
    }

    /// The instant `micros` microseconds after the UNIX epoch.
    pub fn from_micros(micros: i64) -> (t: Timestamp)
        ensures
            t@ == micros,
    {
        Timestamp { micros }
    }

    /// Microseconds since the UNIX epoch.
    pub fn micros(&self) -> (m: i64)
        ensures
            m as int == self@,
    {
        self.micros
    }
}

} // verus!
