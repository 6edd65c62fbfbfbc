//! Points in time: calendar time of an event, and the time that has passed since a start.

use chrono::{DateTime, Utc};
use std::time::Instant;
use vstd::prelude::*;

verus! {

/// The seconds and nanoseconds since the Unix epoch that name a point in calendar time. From a
/// thousand million on, the nanoseconds name a leap second, which only the last second of a
/// minute can have.
pub open spec fn representable(secs: i64, nanos: u32) -> bool {
    &&& -8_334_601_228_800 <= secs <= 8_210_266_876_799
    &&& nanos < 2_000_000_000
    &&& nanos >= 1_000_000_000 ==> secs as int % 60 == 59
}

/// The point lies in a year that is written with four digits.
pub open spec fn four_digit_year(secs: i64) -> bool {
    -62_167_219_200 <= secs <= 253_402_300_799
}

/// The text that `DateTime::<Utc>::to_rfc3339` gives for a point in time.
pub uninterp spec fn rfc3339_text(secs: i64, nanos: u32) -> Seq<char>;

/// The seconds and nanoseconds that `DateTime::parse_from_rfc3339` reads from a text; none where
/// it refuses the text.
pub uninterp spec fn rfc3339_value(text: Seq<char>) -> Option<(i64, u32)>;

/// The text that `DateTime::<Utc>::format` gives for a point in time under a pattern.
pub uninterp spec fn formatted(secs: i64, nanos: u32, pattern: Seq<char>) -> Seq<char>;

/// The pattern of a date and a time of day.
pub const DATE_TIME: &'static str = "%Y-%m-%d %H:%M:%S";

/// The pattern of a time of day.
pub const TIME_OF_DAY: &'static str = "%H:%M:%S";

/// The pattern of a point in time as it stands in a directory name.
pub const DIRECTORY_STAMP: &'static str = "%Y%m%d_%H%M%S%.3f";

/// The pattern is one of those above.
pub open spec fn known_pattern(pattern: Seq<char>) -> bool {
    pattern == DATE_TIME@ || pattern == TIME_OF_DAY@ || pattern == DIRECTORY_STAMP@
}

/// `Utc::now` reads the system clock. The contract claims of it only that the clock stands at
/// or after the epoch (the call panics otherwise) and shows no leap second.
#[verifier::external_body]
fn clock_reading() -> (now: (i64, u32))
    ensures
        now.0 >= 0,
        now.1 < 1_000_000_000,
        representable(now.0, now.1),
{
    let now = Utc::now();
    (now.timestamp(), now.timestamp_subsec_nanos())
}

/// `DateTime::<Utc>::to_rfc3339`, on the point that `DateTime::from_timestamp` makes of the two
/// numbers. The contract names the text.
#[verifier::external_body]
fn write_rfc3339(secs: i64, nanos: u32) -> (text: String)
    requires
        representable(secs, nanos),
    ensures
        text@ == rfc3339_text(secs, nanos),
{
    DateTime::<Utc>::from_timestamp(secs, nanos).unwrap().to_rfc3339()
}

/// `DateTime::parse_from_rfc3339`. The contract names what it reads, and claims that a point
/// that it reads can be represented, and that it reads the same two numbers back from what
/// `DateTime::<Utc>::to_rfc3339` writes where the year has four digits.
#[verifier::external_body]
fn read_rfc3339(text: &str) -> (point: Option<(i64, u32)>)
    ensures
        point == rfc3339_value(text@),
        point matches Some(p) ==> representable(p.0, p.1),
        forall|secs: i64, nanos: u32|
            text@ == #[trigger] rfc3339_text(secs, nanos) && representable(secs, nanos)
                && four_digit_year(secs) ==> point == Some((secs, nanos)),
{
    let point = DateTime::parse_from_rfc3339(text).ok()?;
    Some((point.timestamp(), point.timestamp_subsec_nanos()))
}

/// `DateTime::<Utc>::format`, on the point that `DateTime::from_timestamp` makes of the two
/// numbers. The contract names the text; patterns that the call could refuse are left out.
#[verifier::external_body]
fn write_pattern(secs: i64, nanos: u32, pattern: &str) -> (text: String)
    requires
        representable(secs, nanos),
        known_pattern(pattern@),
    ensures
        text@ == formatted(secs, nanos, pattern@),
{
    DateTime::<Utc>::from_timestamp(secs, nanos).unwrap().format(pattern).to_string()
}

/// A point in calendar time, in coordinated universal time.
#[derive(Debug, Clone, Copy, PartialEq, Eq, Structural)]
pub struct Timestamp {
    secs: i64,
    nanos: u32,
}

impl Timestamp {
    #[verifier::type_invariant]
    closed spec fn in_range(self) -> bool {
        representable(self.secs, self.nanos)
    }

    /// Whole seconds since the Unix epoch.
    pub closed spec fn secs_since_epoch(self) -> i64 {
        self.secs
    }

    /// Nanoseconds into that second.
    pub closed spec fn nanos_into_second(self) -> u32 {
        self.nanos
    }

    /// The RFC 3339 text of the point.
    pub open spec fn rfc3339(self) -> Seq<char> {
        rfc3339_text(self.secs_since_epoch(), self.nanos_into_second())
    }

    /// The text of the point under a pattern.
    pub open spec fn under(self, pattern: Seq<char>) -> Seq<char> {
        formatted(self.secs_since_epoch(), self.nanos_into_second(), pattern)
    }

    /// The point at the given seconds and nanoseconds, where there is one.
    pub fn new(secs: i64, nanos: u32) -> (point: Option<Timestamp>)
        ensures
            point is Some <==> representable(secs, nanos),
            point matches Some(p) ==> p.secs_since_epoch() == secs && p.nanos_into_second()
                == nanos,
    {
        if -8_334_601_228_800 <= secs && secs <= 8_210_266_876_799 && nanos < 2_000_000_000 && (
        nanos < 1_000_000_000 || last_of_minute(secs)) {
            Some(Timestamp { secs, nanos })
        } else {
            None
        }
    }

    /// The current time.
    pub fn now() -> (point: Timestamp)
        ensures
            point.secs_since_epoch() >= 0,
            point.nanos_into_second() < 1_000_000_000,
    {
        let (secs, nanos) = clock_reading();
        Timestamp { secs, nanos }
    }

    /// Seconds since the Unix epoch.
    pub fn secs(&self) -> (secs: i64)
        ensures
            secs == self.secs_since_epoch(),
    {
        self.secs
    }

    /// Nanoseconds into that second.
    pub fn nanos(&self) -> (nanos: u32)
        ensures
            nanos == self.nanos_into_second(),
    {
        self.nanos
    }

    /// Writes the point in RFC 3339 form.
    pub fn to_rfc3339(&self) -> (text: String)
        ensures
            text@ == self.rfc3339(),
    {
        proof {
            use_type_invariant(self);
        }
        write_rfc3339(self.secs, self.nanos)
    }

    /// The point is one that is read back from its RFC 3339 text: it can be represented, and its
    /// year has four digits.
    pub open spec fn reads_back(self) -> bool {
        representable(self.secs_since_epoch(), self.nanos_into_second()) && four_digit_year(
            self.secs_since_epoch(),
        )
    }

    /// Reads a point in RFC 3339 form. What [`Timestamp::to_rfc3339`] writes is read back, where
    /// the year has four digits.
    pub fn from_rfc3339(text: &str) -> (point: Option<Timestamp>)
        ensures
            forall|written: Timestamp|
                text@ == #[trigger] written.rfc3339() && written.reads_back() ==> point == Some(
                    written,
                ),
            match point {
                Some(p) => rfc3339_value(text@) == Some(
                    (p.secs_since_epoch(), p.nanos_into_second()),
                ),
                None => rfc3339_value(text@) is None,
            },
    {
        let point = read_rfc3339(text);
        assert forall|written: Timestamp|
            text@ == #[trigger] written.rfc3339() && written.reads_back() implies point == Some(
            (written.secs, written.nanos),
        ) by {
            assert(text@ == rfc3339_text(written.secs, written.nanos));
        }
        match point {
            Some(p) => Some(Timestamp { secs: p.0, nanos: p.1 }),
            None => None,
        }
    }

    /// Writes the point under one of the known patterns.
    pub fn format(&self, pattern: &str) -> (text: String)
        requires
            known_pattern(pattern@),
        ensures
            text@ == self.under(pattern@),
    {
        proof {
            use_type_invariant(self);
        }
        write_pattern(self.secs, self.nanos, pattern)
    }
}

/// Tells whether a second is the last of its minute.
fn last_of_minute(secs: i64) -> (last: bool)
    requires
        -8_334_601_228_800 <= secs,
    ensures
        last == (secs as int % 60 == 59),
{
    // A whole number of minutes makes every second in range count from zero up.
    let shifted: u64 = (secs as i128 + 8_334_601_228_800) as u64;
    assert(8_334_601_228_800int % 60 == 0);
    shifted % 60 == 59
}

/// A mark that `Instant::now` gives on the clock that never runs back.
#[verifier::external_type_specification]
#[verifier::external_body]
pub struct ExInstant(std::time::Instant);

/// `Instant::now`. Nothing is claimed of the mark.
#[verifier::external_body]
fn mark() -> (now: Instant) {
    Instant::now()
}

/// The nanoseconds that `Instant::saturating_duration_since` gives from one mark to another.
pub uninterp spec fn nanos_between(earlier: Instant, later: Instant) -> u128;

/// `Instant::saturating_duration_since`, in nanoseconds. The contract names the number, which
/// depends on the two marks alone.
#[verifier::external_body]
fn count_nanos(earlier: &Instant, later: &Instant) -> (nanos: u128)
    ensures
        nanos == nanos_between(*earlier, *later),
{
    later.saturating_duration_since(*earlier).as_nanos()
}

/// A clock that counts the nanoseconds since it was started.
#[derive(Debug, Clone, Copy)]
pub struct Clock {
    start: Instant,
}

impl Clock {
    /// The mark at which the clock was started.
    pub closed spec fn started(self) -> Instant {
        self.start
    }

    /// The number counts the nanoseconds from the start of this clock to some mark.
    pub open spec fn shows(self, nanos: u128) -> bool {
        exists|now: Instant| nanos == #[trigger] nanos_between(self.started(), now)
    }

    /// Starts a clock. The mark is whatever the machine's clock shows.
    pub fn start() -> (clock: Clock) {
        Clock { start: mark() }
    }

    /// The nanoseconds from the start to now. When that is, the machine's clock decides.
    pub fn nanos(&self) -> (nanos: u128)
        ensures
            self.shows(nanos),
    {
        let now = mark();
        let nanos = count_nanos(&self.start, &now);
        assert(nanos == nanos_between(self.started(), now));
        nanos
    }
}

/// The nanoseconds of a second.
pub const SECOND: u128 = 1_000_000_000;

/// The time that passed between two readings of a clock; none where the later reading is not
/// the larger.
pub open spec fn span(earlier: u128, later: u128) -> u128 {
    if later >= earlier {
        (later - earlier) as u128
    } else {
        0
    }
}

/// The time that passed between two readings of a clock.
pub fn elapsed(earlier: u128, later: u128) -> (nanos: u128)
    ensures
        nanos == span(earlier, later),
{
    if later >= earlier {
        later - earlier
    } else {
        0
    }
}

/// Every second of a year with four digits is a point in time, with every nanosecond in it, and
/// holds what it was made from. No second has two thousand million nanoseconds.
pub proof fn law_points_in_time(secs: i64, nanos: u32, point: Option<Timestamp>)
    requires
        call_ensures(Timestamp::new, (secs, nanos), point),
    ensures
        -62_167_219_200 <= secs <= 253_402_300_799 && nanos < 1_000_000_000 ==> point is Some,
        nanos >= 2_000_000_000 ==> point is None,
        point matches Some(p) ==> p.secs_since_epoch() == secs && p.nanos_into_second() == nanos,
        point matches Some(p) ==> p.rfc3339() == rfc3339_text(secs, nanos),
{
}

/// The time between two readings of a clock is what leads from the first to the second; it is
/// none where the second is not later.
pub proof fn law_time_between(earlier: u128, later: u128)
    ensures
        earlier <= later ==> earlier + span(earlier, later) == later,
        later <= earlier ==> span(earlier, later) == 0,
{
}

} // verus!
