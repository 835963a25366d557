//! Points in time, and the texts they are written as.

use vstd::prelude::*;

use crate::numbers::is_digit;

verus! {

/// A point in time: seconds since the start of 1970 in UTC, and nanoseconds. In the last second of
/// a minute the nanoseconds may run on into a leap second.
#[derive(Clone, Copy, Debug, PartialEq, Eq, Structural)]
pub struct UtcTime {
    pub seconds: i64,
    pub nanos: u32,
}

/// The first second of the calendar: the year -262143.
pub const FIRST_SECOND: i64 = -8_334_601_228_800;

/// The last second of the calendar: the year 262142.
pub const LAST_SECOND: i64 = 8_210_266_876_799;

impl UtcTime {
    /// The calendar has this point in time.
    pub open spec fn is_valid(&self) -> bool {
        &&& FIRST_SECOND <= self.seconds <= LAST_SECOND
        &&& self.nanos < 1_000_000_000 || (self.nanos < 2_000_000_000 && self.seconds as int % 60 == 59)
    }

    /// The year has four digits: it is one of the years 0 to 9999.
    pub open spec fn has_plain_year(&self) -> bool {
        -62_167_219_200 <= self.seconds <= 253_402_300_799
    }

    /// This point in time without what lies below its milliseconds.
    pub open spec fn to_the_millisecond(&self) -> UtcTime {
        UtcTime { seconds: self.seconds, nanos: (self.nanos - self.nanos as int % 1_000_000) as u32 }
    }

    /// Whether the calendar has this point in time.
    pub fn valid(&self) -> (yes: bool)
        ensures
            yes == self.is_valid(),
    {
        if self.seconds < FIRST_SECOND || self.seconds > LAST_SECOND {
            return false;
        }
        if self.nanos < 1_000_000_000 {
            return true;
        }
        let from_start: u64 = (self.seconds + 8_334_601_228_800) as u64;
        self.nanos < 2_000_000_000 && from_start % 60 == 59
    }
}

/// The time in RFC 3339 with milliseconds, as `DateTime::to_rfc3339_opts` writes it.
pub uninterp spec fn rfc3339_millis(seconds: i64, nanos: u32) -> Seq<char>;

/// The time that a text in RFC 3339 stands for, as `DateTime::parse_from_rfc3339` reads it.
pub uninterp spec fn read_rfc3339(text: Seq<char>) -> Option<(i64, u32)>;

/// The time as `DateTime::format` writes it with `%Y%m%d-%H%M%S-%3f`.
pub uninterp spec fn compact_stamp(seconds: i64, nanos: u32) -> Seq<char>;

/// The time by a clock that is `offset` seconds ahead of UTC, as `DateTime::format` writes it with
/// `%m-%d %H:%M`.
pub uninterp spec fn clock_stamp(seconds: i64, offset: i32) -> Seq<char>;

/// The time that `text` stands for.
pub open spec fn read_time(text: Seq<char>) -> Option<UtcTime> {
    match read_rfc3339(text) {
        Some((seconds, nanos)) => Some(UtcTime { seconds, nanos }),
        None => None,
    }
}

/// Eight digits, six digits and three digits, with hyphens between.
pub open spec fn is_compact_stamp(s: Seq<char>) -> bool {
    &&& s.len() == 19
    &&& s[8] == '-' && s[15] == '-'
    &&& forall|i: int| 0 <= i < 19 && i != 8 && i != 15 ==> is_digit(#[trigger] s[i])
}

/// A month, a day, an hour and a minute, in two digits each: `08-05 16:30`.
pub open spec fn is_clock_stamp(s: Seq<char>) -> bool {
    &&& s.len() == 11
    &&& s[2] == '-' && s[5] == ' ' && s[8] == ':'
    &&& forall|i: int| 0 <= i < 11 && i != 2 && i != 5 && i != 8 ==> is_digit(#[trigger] s[i])
}

/// A clock can be `offset` seconds ahead of UTC, or behind it: less than a day.
pub open spec fn is_offset(offset: i32) -> bool {
    -86_400 < offset < 86_400
}

/// Calls chrono's `DateTime::to_rfc3339_opts` with milliseconds and `Z`. The result is named
/// `rfc3339_millis`; where the year has four digits, `DateTime::parse_from_rfc3339` reads it back
/// as the same time to the millisecond.
#[verifier::external_body]
pub(crate) fn rfc3339_text(time: UtcTime) -> (text: String)
    requires
        time.is_valid(),
    ensures
        text@ == rfc3339_millis(time.seconds, time.nanos),
        time.has_plain_year() ==> read_time(text@) == Some(time.to_the_millisecond()),
{
    chrono::DateTime::from_timestamp(time.seconds, time.nanos)
        .unwrap()
        .to_rfc3339_opts(chrono::SecondsFormat::Millis, true)
}

/// Calls chrono's `DateTime::parse_from_rfc3339`. What it reads is named `read_rfc3339`; the
/// calendar has every time that it reads.
#[verifier::external_body]
pub(crate) fn parse_rfc3339(text: &str) -> (time: Option<UtcTime>)
    ensures
        match read_rfc3339(text@) {
            Some((seconds, nanos)) => time == Some((UtcTime { seconds, nanos })),
            None => time is None,
        },
        time is Some ==> time->0.is_valid(),
{
    match chrono::DateTime::parse_from_rfc3339(text) {
        Ok(time) => Some(UtcTime { seconds: time.timestamp(), nanos: time.timestamp_subsec_nanos() }),
        Err(_) => None,
    }
}

/// Calls chrono's `DateTime::format` with `%Y%m%d-%H%M%S-%3f`. The result is named
/// `compact_stamp`; where the year has four digits, it consists of digits with two hyphens.
#[verifier::external_body]
pub(crate) fn compact_text(time: UtcTime) -> (text: String)
    requires
        time.is_valid(),
    ensures
        text@ == compact_stamp(time.seconds, time.nanos),
        time.has_plain_year() ==> is_compact_stamp(text@),
{
    chrono::DateTime::from_timestamp(time.seconds, time.nanos).unwrap().format("%Y%m%d-%H%M%S-%3f").to_string()
}

/// Calls chrono's `DateTime::with_timezone` for the time zone of the machine, and gives the seconds
/// by which the clock there is ahead of UTC at `time`. How many they are rests on the time zone; what
/// is claimed is that they are fewer than those of a day.
#[verifier::external_body]
pub(crate) fn local_offset(time: UtcTime) -> (offset: i32)
    requires
        time.is_valid(),
    ensures
        is_offset(offset),
{
    chrono::DateTime::from_timestamp(time.seconds, time.nanos)
        .unwrap()
        .with_timezone(&chrono::Local)
        .offset()
        .local_minus_utc()
}

/// Calls chrono's `DateTime::format` with `%m-%d %H:%M`, for a clock that is `offset` seconds ahead
/// of UTC. The result is named `clock_stamp`, which the nanoseconds have no part in; it consists of
/// digits with a hyphen, a space and a colon.
#[verifier::external_body]
pub(crate) fn clock_text(time: UtcTime, offset: i32) -> (text: String)
    requires
        time.is_valid(),
        is_offset(offset),
    ensures
        text@ == clock_stamp(time.seconds, offset),
        is_clock_stamp(text@),
{
    chrono::DateTime::from_timestamp(time.seconds, time.nanos)
        .unwrap()
        .with_timezone(&chrono::FixedOffset::east_opt(offset).unwrap())
        .format("%m-%d %H:%M")
        .to_string()
}

/// The second of the day.
pub open spec fn second_of_day(time: UtcTime) -> int {
    time.seconds as int % 86_400
}

/// The leap second to be counted between two times, one of which lies in it: it is told by the
/// time of day.
pub open spec fn leap_between(start: UtcTime, end: UtcTime) -> int {
    if second_of_day(end) > second_of_day(start) && start.nanos >= 1_000_000_000 {
        1
    } else if second_of_day(end) < second_of_day(start) && end.nanos >= 1_000_000_000 {
        -1
    } else {
        0
    }
}

/// The nanoseconds from `start` to `end`.
pub open spec fn nanos_between(start: UtcTime, end: UtcTime) -> int {
    (end.seconds - start.seconds + leap_between(start, end)) * 1_000_000_000 + end.nanos - start.nanos
}

/// `n` divided by a million, rounded towards zero.
pub open spec fn millionth(n: int) -> int {
    if n >= 0 {
        n / 1_000_000
    } else {
        -((-n) / 1_000_000)
    }
}

/// Calls chrono's `DateTime::signed_duration_since` and `TimeDelta::num_milliseconds`: the whole
/// milliseconds from `start` to `end`, rounded towards zero.
#[verifier::external_body]
fn milliseconds_between(start: UtcTime, end: UtcTime) -> (ms: i64)
    requires
        start.is_valid(),
        end.is_valid(),
    ensures
        ms == millionth(nanos_between(start, end)),
{
    let start = chrono::DateTime::from_timestamp(start.seconds, start.nanos).unwrap();
    let end = chrono::DateTime::from_timestamp(end.seconds, end.nanos).unwrap();
    end.signed_duration_since(start).num_milliseconds()
}

/// The milliseconds from `start` to `end`; none where `end` comes first.
pub open spec fn elapsed_ms(start: UtcTime, end: UtcTime) -> int {
    if nanos_between(start, end) < 0 {
        0
    } else {
        nanos_between(start, end) / 1_000_000
    }
}

/// The milliseconds from `start` to `end`; none where `end` comes first.
pub fn duration_ms(start: UtcTime, end: UtcTime) -> (ms: u64)
    requires
        start.is_valid(),
        end.is_valid(),
    ensures
        ms == elapsed_ms(start, end),
{
    let ms: i64 = milliseconds_between(start, end);
    if ms < 0 {
        0
    } else {
        ms as u64
    }
}

/// A second is a thousand milliseconds: from a time to the same time so many seconds later that many
/// thousand have gone by, and to an earlier time none.
pub proof fn law_a_second_is_a_thousand_milliseconds(time: UtcTime, seconds: i64, ms: u32)
    requires
        time.nanos < 1_000_000,
        0 <= seconds,
        ms < 1_000,
        time.seconds + seconds <= i64::MAX,
    ensures
        elapsed_ms(
            time,
            UtcTime { seconds: (time.seconds + seconds) as i64, nanos: (time.nanos + ms * 1_000_000) as u32 },
        ) == seconds * 1_000 + ms,
        seconds > 0 ==> elapsed_ms(UtcTime { seconds: (time.seconds + seconds) as i64, nanos: time.nanos }, time) == 0,
        elapsed_ms(time, time) == 0,
{
}

/// A time cut to the millisecond loses less than a millisecond.
pub proof fn law_milliseconds_are_kept(time: UtcTime)
    ensures
        time.to_the_millisecond().seconds == time.seconds,
        time.to_the_millisecond().nanos <= time.nanos < time.to_the_millisecond().nanos + 1_000_000,
        time.to_the_millisecond().nanos as int % 1_000_000 == 0,
{
}

} // verus!
