//! Resolution of a time specification into a deadline on the local wall clock.
//!
//! A specification is read either as a time of day or as a length of time.
//! Instants are held as a day number, a second of the day and a nanosecond,
//! and compared by the nanoseconds they count from the start of day zero.

use std::str::FromStr;
use vstd::prelude::*;

verus! {

pub const NANOS_PER_SECOND: u32 = 1_000_000_000;

pub const SECONDS_PER_DAY: u32 = 86_400;

/// Nanoseconds in one calendar day.
pub open spec fn day_nanos() -> int {
    86_400_000_000_000
}

/// A time of day: the second since midnight and the nanosecond within it.
/// A nanosecond of 1,000,000,000 or more stands for a leap second.
#[derive(Clone, Copy, Debug, PartialEq, Eq, Structural)]
pub struct ClockTime {
    pub second: u32,
    pub nano: u32,
}

/// A non-negative length of time.
#[derive(Clone, Copy, Debug, PartialEq, Eq, Structural)]
pub struct Span {
    pub seconds: u64,
    pub nanos: u32,
}

/// An instant on the local wall clock: the day counted from 1 January 1970,
/// the second of that day and the nanosecond of that second.
#[derive(Clone, Copy, Debug, PartialEq, Eq, Structural)]
pub struct LocalInstant {
    pub day: i32,
    pub second: u32,
    pub nano: u32,
}

/// What a time specification was read as.
#[derive(Clone, Copy, Debug, PartialEq, Eq, Structural)]
pub enum TimeSpec {
    Clock(ClockTime),
    Length(Span),
    Unrecognized,
}

#[derive(Clone, Copy, Debug, PartialEq, Eq, Structural)]
pub enum ResolveError {
    /// The text is neither a time of day nor a length of time.
    InvalidTimeSpec,
    /// The deadline lies past the last day an instant can hold.
    OutOfRange,
}

impl ClockTime {
    pub open spec fn wf(self) -> bool {
        self.second < 86_400 && self.nano < 2_000_000_000
    }

    /// Nanoseconds since midnight.
    pub open spec fn nanos_of_day(self) -> int {
        self.second * 1_000_000_000 + self.nano
    }
}

impl Span {
    pub open spec fn wf(self) -> bool {
        self.nanos < 1_000_000_000
    }

    pub open spec fn total(self) -> int {
        self.seconds * 1_000_000_000 + self.nanos
    }
}

impl TimeSpec {
    pub open spec fn wf(self) -> bool {
        match self {
            TimeSpec::Clock(c) => c.wf(),
            TimeSpec::Length(d) => d.wf(),
            TimeSpec::Unrecognized => true,
        }
    }
}

impl LocalInstant {
    pub open spec fn wf(self) -> bool {
        self.second < 86_400 && self.nano < 1_000_000_000
    }

    /// Nanoseconds since midnight.
    pub open spec fn nanos_of_day(self) -> int {
        self.second * 1_000_000_000 + self.nano
    }

    /// Nanoseconds since the start of day zero.
    pub open spec fn total(self) -> int {
        self.day * day_nanos() + self.nanos_of_day()
    }

    /// The instant with these parts, if the second lies within a day and the
    /// nanosecond within a second.
    pub fn new(day: i32, second: u32, nano: u32) -> (instant: Option<LocalInstant>)
        ensures
            instant == (if second < 86_400 && nano < 1_000_000_000 {
                Some(LocalInstant { day, second, nano })
            } else {
                None
            }),
            instant is Some ==> instant->0.wf(),
    {
        if second < SECONDS_PER_DAY && nano < NANOS_PER_SECOND {
            Some(LocalInstant { day, second, nano })
        } else {
            None
        }
    }
}

/// Where a time of day points, in nanoseconds since the start of day zero:
/// today if it is still ahead of `now`, else the same time tomorrow.
pub open spec fn clock_target(c: ClockTime, now: LocalInstant) -> int {
    if c.nanos_of_day() <= now.nanos_of_day() {
        (now.day + 1) * day_nanos() + c.nanos_of_day()
    } else {
        now.day * day_nanos() + c.nanos_of_day()
    }
}

/// Where a length of time from `now` ends.
pub open spec fn span_target(d: Span, now: LocalInstant) -> int {
    now.total() + d.total()
}

/// The deadline that a reading asks for, if it asks for one.
pub open spec fn target_of(reading: TimeSpec, now: LocalInstant) -> Option<int> {
    match reading {
        TimeSpec::Clock(c) => Some(clock_target(c, now)),
        TimeSpec::Length(d) => Some(span_target(d, now)),
        TimeSpec::Unrecognized => None,
    }
}

/// An instant can hold this count of nanoseconds.
pub open spec fn representable(total: int) -> bool {
    i32::MIN * day_nanos() <= total < (i32::MAX + 1) * day_nanos()
}

/// `r` is the outcome owed for `reading` at `now`.
pub open spec fn resolves_to(
    reading: TimeSpec,
    now: LocalInstant,
    r: Result<LocalInstant, ResolveError>,
) -> bool {
    match target_of(reading, now) {
        None => r == Err::<LocalInstant, ResolveError>(ResolveError::InvalidTimeSpec),
        Some(t) => if representable(t) {
            r is Ok && r->Ok_0.wf() && r->Ok_0.total() == t
        } else {
            r == Err::<LocalInstant, ResolveError>(ResolveError::OutOfRange)
        },
    }
}

/// Whole seconds in a count of nanoseconds, rounded toward zero.
pub open spec fn whole_seconds(nanos: int) -> int {
    if nanos >= 0 {
        nanos / 1_000_000_000
    } else {
        -((-nanos) / 1_000_000_000)
    }
}

/// What `chrono::NaiveTime::from_str` makes of a text: the second of the day
/// and the nanosecond of the time it reads, or `None` where it reports an error.
pub uninterp spec fn clock_reading(text: Seq<char>) -> Option<(u32, u32)>;

/// What `duration_string::DurationString::try_from` makes of a text: the whole
/// seconds and the remaining nanoseconds of the duration it reads, or `None`
/// where it reports an error.
pub uninterp spec fn span_reading(text: Seq<char>) -> Option<(u64, u32)>;

/// `chrono::ParseError`, the error of `chrono::NaiveTime::from_str`; carried, never looked into.
#[verifier::external_type_specification]
#[verifier::external_body]
pub struct ExClockError(chrono::ParseError);

/// `duration_string::Error`, the error of `duration_string::DurationString::try_from`;
/// carried, never looked into.
#[verifier::external_type_specification]
#[verifier::external_body]
pub struct ExSpanError(duration_string::Error);

/// Calls `chrono::NaiveTime::from_str`. Trusted: the outcome depends on the
/// text alone; a time that is read has a second below 86,400 and a nanosecond
/// below 2,000,000,000, as `num_seconds_from_midnight` and `nanosecond` document.
#[verifier::external_body]
fn read_clock(text: &str) -> (r: Result<ClockTime, chrono::ParseError>)
    ensures
        match r {
            Ok(c) => c.wf() && clock_reading(text@) == Some((c.second, c.nano)),
            Err(_) => clock_reading(text@) is None,
        },
{
    match chrono::NaiveTime::from_str(text) {
        Ok(time) => Ok(
            ClockTime {
                second: chrono::Timelike::num_seconds_from_midnight(&time),
                nano: chrono::Timelike::nanosecond(&time),
            },
        ),
        Err(e) => Err(e),
    }
}

/// Calls `duration_string::DurationString::try_from` and takes the result as
/// a `std::time::Duration`. Trusted: the outcome depends on the text alone; the
/// nanoseconds of a duration are below 1,000,000,000, as `subsec_nanos` documents.
#[verifier::external_body]
fn read_span(text: &str) -> (r: Result<Span, duration_string::Error>)
    ensures
        match r {
            Ok(d) => d.wf() && span_reading(text@) == Some((d.seconds, d.nanos)),
            Err(_) => span_reading(text@) is None,
        },
{
    match duration_string::DurationString::try_from(String::from(text)) {
        Ok(parsed) => {
            let length: std::time::Duration = parsed.into();
            Ok(Span { seconds: length.as_secs(), nanos: length.subsec_nanos() })
        },
        Err(e) => Err(e),
    }
}

/// How a text reads: as a time of day where that grammar accepts it, else as
/// a length of time where that one does.
pub open spec fn reading_of(text: Seq<char>) -> TimeSpec {
    match clock_reading(text) {
        Some(c) => TimeSpec::Clock(ClockTime { second: c.0, nano: c.1 }),
        None => match span_reading(text) {
            Some(d) => TimeSpec::Length(Span { seconds: d.0, nanos: d.1 }),
            None => TimeSpec::Unrecognized,
        },
    }
}

/// Reads a time specification, trying the time-of-day grammar first and the
/// duration grammar second.
pub fn read_time_spec(text: &str) -> (reading: TimeSpec)
    ensures
        reading == reading_of(text@),
        reading.wf(),
{
    match read_clock(text) {
        Ok(c) => TimeSpec::Clock(c),
        Err(_) => match read_span(text) {
            Ok(d) => TimeSpec::Length(d),
            Err(_) => TimeSpec::Unrecognized,
        },
    }
}

/// The deadline for a time of day: that time today if it is later than the
/// time of day of `now`, else that time on the next day.
pub fn clock_deadline(c: ClockTime, now: LocalInstant) -> (r: Result<LocalInstant, ResolveError>)
    requires
        c.wf(),
        now.wf(),
    ensures
        resolves_to(TimeSpec::Clock(c), now, r),
        r is Ok ==> r->Ok_0.total() > now.total(),
{
    let wanted: u64 = c.second as u64 * 1_000_000_000 + c.nano as u64;
    let current: u64 = now.second as u64 * 1_000_000_000 + now.nano as u64;
    let mut day: i64 = now.day as i64;
    if wanted <= current {
        day = day + 1;
    }
    let mut second: u32 = c.second;
    let mut nano: u32 = c.nano;
    if nano >= NANOS_PER_SECOND {
        nano = nano - NANOS_PER_SECOND;
        second = second + 1;
        if second == SECONDS_PER_DAY {
            second = 0;
            day = day + 1;
        }
    }
    if day > i32::MAX as i64 {
        Err(ResolveError::OutOfRange)
    } else {
        Ok(LocalInstant { day: day as i32, second, nano })
    }
}

/// The deadline a length of time after `now`.
pub fn span_deadline(d: Span, now: LocalInstant) -> (r: Result<LocalInstant, ResolveError>)
    requires
        d.wf(),
        now.wf(),
    ensures
        resolves_to(TimeSpec::Length(d), now, r),
        r is Ok ==> r->Ok_0.total() >= now.total(),
        r is Ok && d.total() > 0 ==> r->Ok_0.total() > now.total(),
{
    let nano_sum: u32 = now.nano + d.nanos;
    let carry: u64 = if nano_sum >= NANOS_PER_SECOND { 1 } else { 0 };
    let nano: u32 = if nano_sum >= NANOS_PER_SECOND { nano_sum - NANOS_PER_SECOND } else { nano_sum };
    let whole_days: u64 = d.seconds / 86_400;
    let rest: u64 = d.seconds % 86_400;
    let second_sum: u64 = now.second as u64 + rest + carry;
    let day_carry: i64 = if second_sum >= 86_400 { 1 } else { 0 };
    let second: u32 = if second_sum >= 86_400 {
        (second_sum - 86_400) as u32
    } else {
        second_sum as u32
    };
    let day: i64 = now.day as i64 + whole_days as i64 + day_carry;
    if day > i32::MAX as i64 {
        Err(ResolveError::OutOfRange)
    } else {
        Ok(LocalInstant { day: day as i32, second, nano })
    }
}

/// The deadline that a reading asks for at `now`.
pub fn resolve_reading(reading: TimeSpec, now: LocalInstant) -> (r: Result<LocalInstant, ResolveError>)
    requires
        reading.wf(),
        now.wf(),
    ensures
        resolves_to(reading, now, r),
        r is Ok ==> r->Ok_0.total() >= now.total(),
        r is Ok && reading is Clock ==> r->Ok_0.total() > now.total(),
{
    match reading {
        TimeSpec::Clock(c) => clock_deadline(c, now),
        TimeSpec::Length(d) => span_deadline(d, now),
        TimeSpec::Unrecognized => Err(ResolveError::InvalidTimeSpec),
    }
}

/// Resolves a time specification into a deadline: a time of day is taken
/// today if still ahead and tomorrow otherwise, a length of time is added to
/// `now`, and anything else is refused.
pub fn resolve(text: &str, now: LocalInstant) -> (r: Result<LocalInstant, ResolveError>)
    requires
        now.wf(),
    ensures
        resolves_to(reading_of(text@), now, r),
        r is Ok ==> r->Ok_0.total() >= now.total(),
{
    resolve_reading(read_time_spec(text), now)
}

/// Whole seconds from `now` until `target`, rounded toward zero.
pub fn seconds_until(now: LocalInstant, target: LocalInstant) -> (s: i64)
    requires
        now.wf(),
        target.wf(),
    ensures
        s == whole_seconds(target.total() - now.total()),
{
    let days: i64 = target.day as i64 - now.day as i64;
    let seconds: i64 = days * 86_400 + (target.second as i64 - now.second as i64);
    let nanos: i64 = target.nano as i64 - now.nano as i64;
    if seconds > 0 && nanos < 0 {
        seconds - 1
    } else if seconds < 0 && nanos > 0 {
        seconds + 1
    } else {
        seconds
    }
}

/// The whole seconds from `now` to the deadline that a reading asks for.
pub open spec fn duration_of(reading: TimeSpec, now: LocalInstant) -> Result<i64, ResolveError> {
    match target_of(reading, now) {
        None => Err(ResolveError::InvalidTimeSpec),
        Some(t) => if representable(t) {
            Ok(whole_seconds(t - now.total()) as i64)
        } else {
            Err(ResolveError::OutOfRange)
        },
    }
}

/// How many whole seconds a session must last to end at the deadline that
/// `text` asks for.
pub fn get_duration(text: &str, now: LocalInstant) -> (r: Result<i64, ResolveError>)
    requires
        now.wf(),
    ensures
        r == duration_of(reading_of(text@), now),
        r is Ok ==> r->Ok_0 >= 0,
{
    match resolve(text, now) {
        Ok(target) => Ok(seconds_until(now, target)),
        Err(e) => Err(e),
    }
}

/// A deadline is never before the instant it was resolved at, and one given
/// as a time of day, or as a length of time that is not zero, is strictly
/// after it.
pub proof fn lemma_target_not_before_now(reading: TimeSpec, now: LocalInstant)
    requires
        reading.wf(),
        now.wf(),
    ensures
        target_of(reading, now) matches Some(t) ==> t >= now.total(),
        reading is Clock ==> target_of(reading, now)->0 > now.total(),
        reading matches TimeSpec::Length(d) && d.total() > 0 ==> target_of(reading, now)->0
            > now.total(),
{
}

} // verus!
