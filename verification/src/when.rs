//! Points in time: reading them, when a booking window opens, how long to wait.
//!
//! The calendar itself is that of the `chrono` crate; here its values are plain numbers.

use vstd::prelude::*;

use crate::text::{trim, trimmed};

verus! {

// ---------------------------------------------------------------------------
// Points in time
// ---------------------------------------------------------------------------

/// The earliest second of the calendar (1 January of the year -262143), counted from the
/// beginning of 1970.
pub const MIN_SECONDS: i64 = -8_334_601_228_800;

/// The last second of the calendar (31 December of the year 262142).
pub const MAX_SECONDS: i64 = 8_210_266_876_799;

/// The earliest day of the calendar, where 1 January of the year 1 is day 1.
pub const MIN_DAY: i32 = -95_746_129;

/// The last day of the calendar.
pub const MAX_DAY: i32 = 95_745_399;

/// The day that began the year 1970.
pub const EPOCH_DAY: i32 = 719_163;

/// Whether a count of nanoseconds can follow a second; a leap second counts on behind the last
/// second of a minute.
pub open spec fn is_fraction(seconds: int, nanos: u32) -> bool {
    nanos < 1_000_000_000 || (nanos < 2_000_000_000 && seconds % 60 == 59)
}

/// An instant: the seconds since the beginning of 1970 in UTC, and the nanoseconds on top.
#[derive(Debug, Clone, Copy, PartialEq, Eq, Structural)]
pub struct Timestamp {
    pub seconds: i64,
    pub nanos: u32,
}

impl Timestamp {
    /// Whether the calendar holds this instant.
    pub open spec fn valid(self) -> bool {
        MIN_SECONDS <= self.seconds <= MAX_SECONDS && is_fraction(self.seconds as int, self.nanos)
    }

    /// Whether this instant comes before another.
    pub open spec fn before(self, other: Timestamp) -> bool {
        self.seconds < other.seconds || (self.seconds == other.seconds && self.nanos < other.nanos)
    }

    /// Whether this instant comes before another.
    pub fn is_before(&self, other: &Timestamp) -> (r: bool)
        ensures
            r == self.before(*other),
    {
        self.seconds < other.seconds || (self.seconds == other.seconds && self.nanos < other.nanos)
    }
}

/// A time of day: the seconds since midnight, and the nanoseconds on top.
#[derive(Debug, Clone, Copy, PartialEq, Eq, Structural)]
pub struct Clock {
    pub second: u32,
    pub nanos: u32,
}

impl Clock {
    /// Whether a day has this time.
    pub open spec fn valid(self) -> bool {
        self.second < 86_400 && is_fraction(self.second as int, self.nanos)
    }

    /// Whether this time has no seconds.
    pub open spec fn is_full_minute(self) -> bool {
        self.second % 60 == 0 && self.nanos == 0
    }
}

/// A date and a time of day as a calendar and a clock on the wall show them.
#[derive(Debug, Clone, Copy, PartialEq, Eq, Structural)]
pub struct Civil {
    pub day: i32,
    pub clock: Clock,
}

impl Civil {
    /// Whether the calendar holds this date and time.
    pub open spec fn valid(self) -> bool {
        MIN_DAY <= self.day <= MAX_DAY && self.clock.valid()
    }

    /// The seconds since the beginning of 1970 by the same calendar.
    pub open spec fn seconds(self) -> int {
        (self.day - EPOCH_DAY) * 86_400 + self.clock.second
    }
}

/// An instant together with what the local calendar and clock show at it.
#[derive(Debug, Clone, Copy, PartialEq, Eq, Structural)]
pub struct Moment {
    pub at: Timestamp,
    pub civil: Civil,
}

impl Moment {
    /// Whether instant, date and time go together: local time is less than a day off UTC.
    pub open spec fn valid(self) -> bool {
        &&& self.at.valid()
        &&& self.civil.valid()
        &&& self.at.nanos == self.civil.clock.nanos
        &&& -86_400 < self.civil.seconds() - self.at.seconds < 86_400
    }
}

/// A time to wait.
#[derive(Debug, Clone, Copy, PartialEq, Eq, Structural)]
pub struct Wait {
    pub seconds: u64,
    pub nanos: u32,
}

impl Wait {
    /// The waiting time in nanoseconds.
    pub open spec fn total(self) -> int {
        self.seconds * 1_000_000_000 + self.nanos
    }
}

// ---------------------------------------------------------------------------
// The calendar
// ---------------------------------------------------------------------------

/// The date and time that a text writes in the given format: day, second of the day,
/// nanoseconds.
pub uninterp spec fn written_date_time(s: Seq<char>, format: Seq<char>) -> Option<(i32, u32, u32)>;

/// Calls `chrono::NaiveDateTime::parse_from_str`. The result depends on the text and the format
/// alone; which texts are read, and as which date, is left unsaid. Every date and time that is
/// read lies in the calendar, at a full minute, since the format has no seconds.
#[verifier::external_body]
fn parse_date_time(s: &str, format: &str) -> (r: Option<Civil>)
    requires
        format@ == "%Y-%m-%d %H:%M"@,
    ensures
        match (r, written_date_time(s@, format@)) {
            (Some(c), Some(w)) => c.day == w.0 && c.clock.second == w.1 && c.clock.nanos == w.2,
            (None, None) => true,
            _ => false,
        },
        r matches Some(c) ==> c.valid() && c.clock.is_full_minute(),
{
    match chrono::NaiveDateTime::parse_from_str(s, format) {
        Ok(d) => Some(
            Civil {
                day: chrono::Datelike::num_days_from_ce(&d),
                clock: Clock {
                    second: chrono::Timelike::num_seconds_from_midnight(&d),
                    nanos: chrono::Timelike::nanosecond(&d),
                },
            },
        ),
        Err(_) => None,
    }
}

/// The time of day that a text writes in the given format: second of the day, nanoseconds.
pub uninterp spec fn written_clock(s: Seq<char>, format: Seq<char>) -> Option<(u32, u32)>;

/// Calls `chrono::NaiveTime::parse_from_str`. The result depends on the text and the format
/// alone; which texts are read, and as which time, is left unsaid. Every time that is read is
/// one that a day has, at a full minute, since the format has no seconds.
#[verifier::external_body]
fn parse_clock(s: &str, format: &str) -> (r: Option<Clock>)
    requires
        format@ == "%H:%M"@,
    ensures
        match (r, written_clock(s@, format@)) {
            (Some(c), Some(w)) => c.second == w.0 && c.nanos == w.1,
            (None, None) => true,
            _ => false,
        },
        r matches Some(c) ==> c.valid() && c.is_full_minute(),
{
    match chrono::NaiveTime::parse_from_str(s, format) {
        Ok(t) => Some(
            Clock {
                second: chrono::Timelike::num_seconds_from_midnight(&t),
                nanos: chrono::Timelike::nanosecond(&t),
            },
        ),
        Err(_) => None,
    }
}

/// The instant that a text writes as an RFC 3339 timestamp: seconds, nanoseconds.
pub uninterp spec fn written_instant(s: Seq<char>) -> Option<(i64, u32)>;

/// Calls `chrono::DateTime::parse_from_rfc3339` and keeps the instant. The result depends on the
/// text alone; which texts are read, and as which instant, is left unsaid. Every instant that is
/// read lies in the calendar.
#[verifier::external_body]
fn parse_instant(s: &str) -> (r: Option<Timestamp>)
    ensures
        match (r, written_instant(s@)) {
            (Some(t), Some(w)) => t.seconds == w.0 && t.nanos == w.1,
            (None, None) => true,
            _ => false,
        },
        r matches Some(t) ==> t.valid(),
{
    match chrono::DateTime::parse_from_rfc3339(s) {
        Ok(d) => Some(Timestamp { seconds: d.timestamp(), nanos: d.timestamp_subsec_nanos() }),
        Err(_) => None,
    }
}

/// Calls `chrono::Local::now`. The result depends on the machine's clock and time zone; of every
/// outcome, instant, date and time go together, and the clock does not show a leap second. The
/// call panics on a machine whose clock stands before 1970 or whose time zone is a day or more
/// off UTC.
#[verifier::external_body]
pub(crate) fn local_now() -> (r: Moment)
    ensures
        r.valid(),
        r.at.nanos < 1_000_000_000,
{
    let now = chrono::Local::now();
    let civil = now.naive_local();
    Moment {
        at: Timestamp { seconds: now.timestamp(), nanos: now.timestamp_subsec_nanos() },
        civil: Civil {
            day: chrono::Datelike::num_days_from_ce(&civil),
            clock: Clock {
                second: chrono::Timelike::num_seconds_from_midnight(&civil),
                nanos: chrono::Timelike::nanosecond(&civil),
            },
        },
    }
}

/// Calls `chrono::NaiveDateTime::and_local_timezone` for the local time zone and keeps a single
/// result. Whether there is one depends on the machine's time zone: a change of the clocks skips
/// some local times and repeats others. Of every outcome, an instant that is found shows the
/// given date and time.
#[verifier::external_body]
pub(crate) fn resolve_local(civil: Civil) -> (r: Option<Moment>)
    requires
        civil.valid(),
        civil.clock.nanos < 1_000_000_000,
    ensures
        r matches Some(m) ==> m.valid() && m.civil == civil,
{
    let date = chrono::NaiveDate::from_num_days_from_ce_opt(civil.day).expect("a valid day");
    let clock = civil.clock;
    let time = chrono::NaiveTime::from_num_seconds_from_midnight_opt(clock.second, clock.nanos);
    let shown = date.and_time(time.expect("a valid time"));
    match shown.and_local_timezone(chrono::Local).single() {
        Some(d) => {
            let at = Timestamp { seconds: d.timestamp(), nanos: d.timestamp_subsec_nanos() };
            Some(Moment { at, civil })
        },
        None => None,
    }
}

/// How an instant is written in the given format, at so many seconds east of UTC.
pub uninterp spec fn instant_rendering(
    seconds: i64,
    nanos: u32,
    offset: i32,
    format: Seq<char>,
) -> Seq<char>;

/// Renders an instant, at so many seconds east of UTC, with `chrono::DateTime::format`. The
/// result depends on the instant, the offset and the format alone; the rendering itself is left
/// unsaid.
#[verifier::external_body]
fn show_instant(at: Timestamp, offset: i32, format: &str) -> (r: String)
    requires
        at.valid(),
        -86_400 < offset < 86_400,
        format@ == "%Y-%m-%d %H:%M:%S"@ || format@ == "%Y-%m-%d %H:%M"@,
    ensures
        r@ == instant_rendering(at.seconds, at.nanos, offset, format@),
{
    let instant = chrono::DateTime::from_timestamp(at.seconds, at.nanos).expect("a valid instant");
    let zone = chrono::FixedOffset::east_opt(offset).expect("a valid offset");
    instant.with_timezone(&zone).format(format).to_string()
}

/// Asks `chrono::Local` how many seconds east of UTC local time is at an instant, with
/// `chrono::TimeZone::offset_from_utc_datetime`. The result depends on the machine's time zone;
/// of every outcome, it is less than a day. The call panics on a machine whose time zone is a
/// day or more off UTC.
#[verifier::external_body]
pub(crate) fn local_offset(at: Timestamp) -> (r: i32)
    requires
        at.valid(),
    ensures
        -86_400 < r < 86_400,
{
    let instant = chrono::DateTime::from_timestamp(at.seconds, at.nanos).expect("a valid instant");
    let zone = chrono::Local;
    chrono::TimeZone::offset_from_utc_datetime(&zone, &instant.naive_utc()).local_minus_utc()
}

/// The instant so many hours before another. From within a leap second, the subtraction goes on
/// as from the second that it follows or precedes.
pub open spec fn hours_before(at: Timestamp, hours: i64) -> (int, int) {
    if at.nanos < 1_000_000_000 || hours == 0 {
        (at.seconds - hours * 3600, at.nanos as int)
    } else if hours > 0 {
        (at.seconds + 1 - hours * 3600, at.nanos - 1_000_000_000)
    } else {
        (at.seconds - hours * 3600, at.nanos - 1_000_000_000)
    }
}

/// Whether the instant so many hours before another lies in the calendar.
pub open spec fn fits_before(at: Timestamp, hours: i64) -> bool {
    MIN_SECONDS <= hours_before(at, hours).0 <= MAX_SECONDS
}

/// Subtracts `chrono::Duration::hours` from an instant with the `-` of `chrono::DateTime`.
#[verifier::external_body]
fn minus_hours(at: Timestamp, hours: i64) -> (r: Timestamp)
    requires
        at.valid(),
        fits_before(at, hours),
    ensures
        r.seconds == hours_before(at, hours).0,
        r.nanos == hours_before(at, hours).1,
{
    let instant = chrono::DateTime::from_timestamp(at.seconds, at.nanos).expect("a valid instant");
    let earlier = instant - chrono::Duration::hours(hours);
    Timestamp { seconds: earlier.timestamp(), nanos: earlier.timestamp_subsec_nanos() }
}

/// The nanoseconds from `now` to `target`, negative where `target` comes first. A leap second at
/// the earlier of the two times of day counts as a second of its own.
pub open spec fn nanos_between(target: Timestamp, now: Timestamp) -> int {
    let leap: int = if target.seconds as int % 86_400 > now.seconds as int % 86_400 && now.nanos
        >= 1_000_000_000 {
        1
    } else if (target.seconds as int % 86_400) < now.seconds as int % 86_400 && target.nanos
        >= 1_000_000_000 {
        -1
    } else {
        0
    };
    (target.seconds - now.seconds + leap) * 1_000_000_000 + (target.nanos - now.nanos)
}

/// Subtracts two instants with the `-` of `chrono::DateTime` and converts the difference with
/// `chrono::Duration::to_std`, which fails on a negative one.
#[verifier::external_body]
pub(crate) fn time_until(target: Timestamp, now: Timestamp) -> (r: Option<Wait>)
    requires
        target.valid(),
        now.valid(),
    ensures
        match r {
            Some(w) => w.nanos < 1_000_000_000 && w.total() == nanos_between(target, now),
            None => nanos_between(target, now) < 0,
        },
{
    let to = chrono::DateTime::from_timestamp(target.seconds, target.nanos).expect("an instant");
    let from = chrono::DateTime::from_timestamp(now.seconds, now.nanos).expect("an instant");
    match (to - from).to_std() {
        Ok(d) => Some(Wait { seconds: d.as_secs(), nanos: d.subsec_nanos() }),
        Err(_) => None,
    }
}

// ---------------------------------------------------------------------------
// Reading a time
// ---------------------------------------------------------------------------

/// Why a time could not be made out.
#[derive(Debug)]
pub enum WhenError {
    /// Local time skips or repeats this time.
    Ambiguous(String),
    /// The calendar ends before that day.
    DateOverflow,
    /// The text is no time.
    Unrecognised(String),
}

impl WhenError {
    /// The message of this error.
    pub open spec fn shown(&self) -> Seq<char> {
        match *self {
            WhenError::Ambiguous(s) => "Ambiguous or invalid local time: "@ + s@,
            WhenError::DateOverflow => "Date overflow"@,
            WhenError::Unrecognised(s) => "Unrecognised time format '"@ + s@
                + "'. Use HH:MM or YYYY-MM-DD HH:MM"@,
        }
    }

    /// Renders the message of this error.
    pub fn to_text(&self) -> (r: String)
        ensures
            r@ == self.shown(),
    {
        match self {
            WhenError::Ambiguous(s) => {
                let mut out = "Ambiguous or invalid local time: ".to_owned();
                out.append(s.as_str());
                out
            },
            WhenError::DateOverflow => "Date overflow".to_owned(),
            WhenError::Unrecognised(s) => {
                let mut out = "Unrecognised time format '".to_owned();
                out.append(s.as_str());
                out.append("'. Use HH:MM or YYYY-MM-DD HH:MM");
                out
            },
        }
    }
}

/// Takes in the local reading of a date and time: `None` where local time skips or repeats it.
pub fn settle(found: Option<Moment>, text: &str) -> (r: Result<Moment, WhenError>)
    ensures
        match found {
            Some(m) => r == Ok::<Moment, WhenError>(m),
            None => r matches Err(WhenError::Ambiguous(s)) && s@ == text@,
        },
{
    match found {
        Some(m) => Ok(m),
        None => Err(WhenError::Ambiguous(text.to_owned())),
    }
}

/// A time of day on the day of `now`.
pub fn today_at(now: &Moment, clock: Clock) -> (r: Civil)
    ensures
        r.day == now.civil.day,
        r.clock == clock,
{
    Civil { day: now.civil.day, clock }
}

/// A time of day on the day behind that of `now`, where the calendar goes on so far.
pub fn tomorrow_at(now: &Moment, clock: Clock) -> (r: Result<Civil, WhenError>)
    requires
        now.civil.valid(),
    ensures
        if now.civil.day == MAX_DAY {
            r matches Err(WhenError::DateOverflow)
        } else {
            r matches Ok(c) && c.day == now.civil.day + 1 && c.clock == clock
        },
{
    if now.civil.day == MAX_DAY {
        return Err(WhenError::DateOverflow);
    }
    Ok(Civil { day: now.civil.day + 1, clock })
}

/// Decides what a time of day means, given what the clock's time stands for today and tomorrow:
/// today while it lies ahead, tomorrow once it has passed.
pub fn settle_clock(
    now: &Moment,
    today: Option<Moment>,
    tomorrow: Option<Moment>,
    text: &str,
) -> (r: Result<Moment, WhenError>)
    ensures
        match today {
            None => r matches Err(WhenError::Ambiguous(s)) && s@ == text@,
            Some(t) => if now.at.before(t.at) {
                r == Ok::<Moment, WhenError>(t)
            } else if now.civil.day == MAX_DAY {
                r matches Err(WhenError::DateOverflow)
            } else {
                match tomorrow {
                    Some(m) => r == Ok::<Moment, WhenError>(m),
                    None => r matches Err(WhenError::Ambiguous(s)) && s@ == text@,
                }
            },
        },
{
    match settle(today, text) {
        Err(e) => Err(e),
        Ok(t) => if now.at.is_before(&t.at) {
            Ok(t)
        } else if now.civil.day == MAX_DAY {
            Err(WhenError::DateOverflow)
        } else {
            settle(tomorrow, text)
        },
    }
}

/// Whether the machine's clock showed a moment when it was asked.
pub closed spec fn clock_shows(now: Moment) -> bool {
    call_ensures(local_now, (), now)
}

/// Whether this is what the machine's time zone answered when it was asked what a local date and
/// time stands for.
pub closed spec fn resolves_to(civil: Civil, found: Option<Moment>) -> bool {
    call_ensures(resolve_local, (civil,), found)
}

/// Whether this is what the machine's time zone answered when it was asked how many seconds east
/// of UTC local time is at an instant.
pub closed spec fn offset_applies(at: Timestamp, offset: i32) -> bool {
    call_ensures(local_offset, (at,), offset)
}

/// Whether a date and time has been reached at `now`, going by the instant that it stands for.
pub open spec fn is_past(now: Moment, civil: Civil, shown: Moment) -> bool {
    &&& resolves_to(civil, Some(shown))
    &&& shown.valid()
    &&& shown.civil == civil
    &&& !now.at.before(shown.at)
}

/// Whether a time of day has been reached at `now`.
pub open spec fn has_passed(now: Moment, clock: Clock) -> bool {
    exists|today: Moment| #[trigger] is_past(now, Civil { day: now.civil.day, clock }, today)
}

/// Whether `m` is the next time after `now` at which the clock shows `clock`: on the same day if
/// that lies ahead, on the next day if it has passed.
pub open spec fn comes_next(now: Moment, clock: Clock, m: Moment) -> bool {
    &&& m.valid()
    &&& resolves_to(m.civil, Some(m))
    &&& m.civil.clock == clock
    &&& {
        ||| m.civil.day == now.civil.day && now.at.before(m.at)
        ||| m.civil.day == now.civil.day + 1 && has_passed(now, clock)
    }
}

/// Whether local time skips or repeats the next time after `now` at which the clock shows
/// `clock`.
pub open spec fn next_is_unclear(now: Moment, clock: Clock) -> bool {
    ||| resolves_to(Civil { day: now.civil.day, clock }, None)
    ||| {
        &&& now.civil.day < MAX_DAY
        &&& has_passed(now, clock)
        &&& resolves_to(Civil { day: (now.civil.day + 1) as i32, clock }, None)
    }
}

/// Whether `r` is a reading of a text as a time, at `now`. What a local time stands for, and
/// whether it stands for a single instant, is up to the machine's time zone; so is that an
/// instant of the next day lies behind `now`.
pub open spec fn reads_at(s: Seq<char>, now: Moment, r: Result<Moment, WhenError>) -> bool {
    match written_date_time(trimmed(s), "%Y-%m-%d %H:%M"@) {
        Some((day, second, nanos)) => match r {
            Ok(m) => m.valid() && m.civil == (Civil { day, clock: Clock { second, nanos } })
                && resolves_to(m.civil, Some(m)),
            Err(e) => e matches WhenError::Ambiguous(t) && t@ == trimmed(s) && resolves_to(
                Civil { day, clock: Clock { second, nanos } },
                None,
            ),
        },
        None => match written_clock(trimmed(s), "%H:%M"@) {
            Some((second, nanos)) => match r {
                Ok(m) => comes_next(now, Clock { second, nanos }, m),
                Err(WhenError::Ambiguous(t)) => t@ == trimmed(s) && next_is_unclear(
                    now,
                    Clock { second, nanos },
                ),
                Err(WhenError::DateOverflow) => now.civil.day == MAX_DAY && has_passed(
                    now,
                    Clock { second, nanos },
                ),
                Err(WhenError::Unrecognised(_)) => false,
            },
            None => r matches Err(WhenError::Unrecognised(t)) && t@ == trimmed(s),
        },
    }
}

/// Whether `r` is a reading of a text as a time, at a moment that the clock showed.
pub open spec fn reads_as(s: Seq<char>, r: Result<Moment, WhenError>) -> bool {
    exists|now: Moment| now.valid() && clock_shows(now) && #[trigger] reads_at(s, now, r)
}

/// Reads a time, at `now`.
///
/// Accepted formats:
/// - `HH:MM`            - today at that time; tomorrow if the time has already passed today
/// - `YYYY-MM-DD HH:MM` - an explicit date and time
pub fn read_when(s: &str, now: &Moment) -> (r: Result<Moment, WhenError>)
    requires
        now.valid(),
    ensures
        reads_at(s@, *now, r),
        r matches Ok(m) ==> m.valid(),
{
    let text = trim(s);
    let resolve = resolve_local;
    if let Some(civil) = parse_date_time(text, "%Y-%m-%d %H:%M") {
        let found = resolve(civil);
        assert(resolves_to(civil, found));
        return settle(found, text);
    }
    if let Some(clock) = parse_clock(text, "%H:%M") {
        let today = resolve(today_at(now, clock));
        let tomorrow = match tomorrow_at(now, clock) {
            Ok(civil) => resolve(civil),
            Err(_) => None,
        };
        proof {
            let civil = Civil { day: now.civil.day, clock };
            assert(resolves_to(civil, today));
            if let Some(t) = today {
                assert(now.at.before(t.at) || is_past(*now, civil, t));
            }
            if now.civil.day < MAX_DAY {
                let next = Civil { day: (now.civil.day + 1) as i32, clock };
                assert(resolves_to(next, tomorrow));
            }
        }
        return settle_clock(now, today, tomorrow, text);
    }
    Err(WhenError::Unrecognised(text.to_owned()))
}

/// Reads a time, as of now; see [`read_when`].
pub fn parse_when(s: &str) -> (r: Result<Moment, WhenError>)
    ensures
        reads_as(s@, r),
        r matches Ok(m) ==> m.valid(),
{
    let now = current_moment();
    let r = read_when(s, &now);
    assert(now.valid() && clock_shows(now) && reads_at(s@, now, r));
    r
}

/// The rendering of a moment to the second, in local time.
pub open spec fn shown_moment(m: Moment) -> Seq<char> {
    instant_rendering(
        m.at.seconds,
        m.at.nanos,
        (m.civil.seconds() - m.at.seconds) as i32,
        "%Y-%m-%d %H:%M:%S"@,
    )
}

impl Moment {
    /// Renders the moment to the second, in local time.
    pub fn to_text(&self) -> (r: String)
        requires
            self.valid(),
        ensures
            r@ == shown_moment(*self),
    {
        let days = self.civil.day as i64 - EPOCH_DAY as i64;
        let offset = days * 86_400 + self.civil.clock.second as i64 - self.at.seconds;
        show_instant(self.at, offset as i32, "%Y-%m-%d %H:%M:%S")
    }
}

/// The rendering of an instant to the minute, at so many seconds east of UTC.
pub open spec fn shown_minute(at: Timestamp, offset: i32) -> Seq<char> {
    instant_rendering(at.seconds, at.nanos, offset, "%Y-%m-%d %H:%M"@)
}

/// Renders an instant to the minute, at so many seconds east of UTC.
pub fn show_at(at: Timestamp, offset: i32) -> (r: String)
    requires
        at.valid(),
        -86_400 < offset < 86_400,
    ensures
        r@ == shown_minute(at, offset),
{
    show_instant(at, offset, "%Y-%m-%d %H:%M")
}

// ---------------------------------------------------------------------------
// Waiting
// ---------------------------------------------------------------------------

/// The current moment.
pub fn current_moment() -> (r: Moment)
    ensures
        r.valid(),
        r.at.nanos < 1_000_000_000,
        clock_shows(r),
{
    let clock = local_now;
    clock()
}

/// How many seconds east of UTC local time is at an instant.
pub fn current_offset(at: Timestamp) -> (r: i32)
    requires
        at.valid(),
    ensures
        -86_400 < r < 86_400,
        offset_applies(at, r),
{
    let zone = local_offset;
    zone(at)
}

/// How long to wait for a target time; `None` unless it lies ahead.
pub fn wait_for(target: &Moment, now: &Moment) -> (r: Option<Wait>)
    requires
        target.valid(),
        now.valid(),
        now.at.nanos < 1_000_000_000,
    ensures
        match r {
            Some(w) => now.at.before(target.at) && w.nanos < 1_000_000_000 && w.total()
                == nanos_between(target.at, now.at),
            None => !now.at.before(target.at),
        },
{
    if !now.at.is_before(&target.at) {
        return None;
    }
    time_until(target.at, now.at)
}

/// Reads the start of a session.
///
/// The platform gives the start as an RFC 3339 timestamp in UTC (`2026-03-22T08:00:00.000Z`), so
/// the start is that instant rather than what the separate `time` text says.
pub fn parse_session_start(date: &str) -> (r: Option<Timestamp>)
    ensures
        match (r, written_instant(date@)) {
            (Some(t), Some(w)) => t.seconds == w.0 && t.nanos == w.1,
            (None, None) => true,
            _ => false,
        },
        r matches Some(t) ==> t.valid(),
{
    parse_instant(date)
}

/// Whether the calendar holds the instant so many hours before the start.
pub fn window_fits(start: Timestamp, hours: i64) -> (r: bool)
    requires
        start.valid(),
    ensures
        r == fits_before(start, hours),
{
    if hours < -5_000_000_000 || hours > 5_000_000_000 {
        return false;
    }
    let earlier = start.seconds - hours * 3600;
    if start.nanos < 1_000_000_000 || hours <= 0 {
        MIN_SECONDS <= earlier && earlier <= MAX_SECONDS
    } else {
        MIN_SECONDS <= earlier + 1 && earlier + 1 <= MAX_SECONDS
    }
}

/// When the booking window of a session opens: `hours` before its start.
pub fn window_opening(start: Timestamp, hours: i64) -> (r: Timestamp)
    requires
        start.valid(),
        fits_before(start, hours),
    ensures
        r.valid(),
        r.seconds == hours_before(start, hours).0,
        r.nanos == hours_before(start, hours).1,
{
    minus_hours(start, hours)
}

/// A target that lies ahead is waited for, for at least a nanosecond, and apart from a target
/// within a leap second no other is.
pub proof fn waiting_takes_time(target: Timestamp, now: Timestamp)
    requires
        target.valid(),
        now.valid(),
        now.nanos < 1_000_000_000,
    ensures
        now.before(target) ==> nanos_between(target, now) > 0,
        target.nanos < 1_000_000_000 && nanos_between(target, now) > 0 ==> now.before(target),
{
}

/// Apart from leap seconds, the window opens exactly so many hours before the start.
pub proof fn window_opens_hours_before_the_start(start: Timestamp, hours: i64, opens: Timestamp)
    requires
        start.nanos < 1_000_000_000,
        opens.seconds == hours_before(start, hours).0,
        opens.nanos == hours_before(start, hours).1,
    ensures
        nanos_between(start, opens) == hours * 3600 * 1_000_000_000,
{
}

// ---------------------------------------------------------------------------
// Laws
// ---------------------------------------------------------------------------

/// The moment at which a time is read is one that the machine's clock gave when it was asked,
/// an instant that a date and time is read as is one that the machine's time zone gave for it,
/// and so is the offset of local time; none is made up.
pub(crate) proof fn time_comes_from_the_machine(
    now: Moment,
    civil: Civil,
    found: Option<Moment>,
    at: Timestamp,
    offset: i32,
)
    ensures
        clock_shows(now) ==> call_ensures(local_now, (), now) && now.valid(),
        resolves_to(civil, found) ==> call_ensures(resolve_local, (civil,), found),
        resolves_to(civil, found) ==> (found matches Some(m) ==> m.valid() && m.civil == civil),
        offset_applies(at, offset) ==> call_ensures(local_offset, (at,), offset),
{
}

/// An explicit date and time is read as just that date and time, whatever the clock shows: as
/// the instant that the time zone gives for it, or as unclear where it gives none.
pub proof fn an_explicit_time_is_read_as_it_is_written(
    s: &str,
    now: Moment,
    r: Result<Moment, WhenError>,
    day: i32,
    second: u32,
    nanos: u32,
)
    requires
        call_ensures(read_when, (s, &now), r),
        written_date_time(trimmed(s@), "%Y-%m-%d %H:%M"@) == Some((day, second, nanos)),
    ensures
        r matches Ok(m) ==> m.civil.day == day && m.civil.clock.second == second
            && m.civil.clock.nanos == nanos && resolves_to(m.civil, Some(m)),
        r matches Err(e) ==> e is Ambiguous && resolves_to(
            Civil { day, clock: Clock { second, nanos } },
            None,
        ),
{
}

/// A time of day is read as that time on the day of `now` wherever it lies ahead there, and is
/// put off by a day, never more, only where it does not.
pub proof fn a_time_of_day_is_read_as_the_next_one(
    s: &str,
    now: Moment,
    r: Result<Moment, WhenError>,
    second: u32,
    nanos: u32,
)
    requires
        call_ensures(read_when, (s, &now), r),
        written_date_time(trimmed(s@), "%Y-%m-%d %H:%M"@) is None,
        written_clock(trimmed(s@), "%H:%M"@) == Some((second, nanos)),
    ensures
        !(r matches Err(WhenError::Unrecognised(_))),
        r matches Ok(m) ==> {
            &&& m.civil.clock.second == second
            &&& m.civil.clock.nanos == nanos
            &&& resolves_to(m.civil, Some(m))
            &&& m.civil.day == now.civil.day || m.civil.day == now.civil.day + 1
            &&& m.civil.day == now.civil.day ==> now.at.before(m.at)
        },
        ({
            let today = Civil { day: now.civil.day, clock: Clock { second, nanos } };
            (forall|t: Option<Moment>| #[trigger]
                resolves_to(today, t) ==> t is Some && now.at.before(t->0.at)) ==> r is Ok
                && r->Ok_0.civil.day == now.civil.day
        }),
        ({
            let today = Civil { day: now.civil.day, clock: Clock { second, nanos } };
            (forall|t: Option<Moment>| #[trigger]
                resolves_to(today, t) ==> t is Some && !now.at.before(t->0.at)) ==> (
            r matches Ok(m) ==> m.civil.day == now.civil.day + 1)
        }),
{
}

/// A text is refused as no time exactly where the calendar reads it neither as a date and time
/// nor as a time of day; the refusal quotes it without the white space around it.
pub proof fn only_what_is_no_time_is_unrecognised(
    s: &str,
    now: Moment,
    r: Result<Moment, WhenError>,
)
    requires
        call_ensures(read_when, (s, &now), r),
    ensures
        (r matches Err(WhenError::Unrecognised(_))) <==> written_date_time(
            trimmed(s@),
            "%Y-%m-%d %H:%M"@,
        ) is None && written_clock(trimmed(s@), "%H:%M"@) is None,
        r matches Err(WhenError::Unrecognised(t)) ==> t@ == trimmed(s@),
        r matches Err(WhenError::Ambiguous(t)) ==> t@ == trimmed(s@),
        r matches Err(WhenError::DateOverflow) ==> now.civil.day == MAX_DAY,
{
}

/// A time is read as of what the clock shows during the call: read at that very moment, the text
/// gives the same.
pub proof fn a_time_is_read_as_of_the_clock(s: &str, r: Result<Moment, WhenError>)
    requires
        call_ensures(parse_when, (s,), r),
    ensures
        exists|now: Moment|
            now.valid() && #[trigger] clock_shows(now) && reads_at(s@, now, r),
{
    let now = choose|now: Moment|
        now.valid() && clock_shows(now) && #[trigger] reads_at(s@, now, r);
    assert(clock_shows(now));
}

/// The current moment is what the clock gave when it was asked.
pub(crate) proof fn the_current_moment_is_the_clocks(r: Moment)
    requires
        call_ensures(current_moment, (), r),
    ensures
        call_ensures(local_now, (), r),
{
}

/// The window opens so many hours, of an hour's seconds each, before the start.
pub proof fn opening_precedes_the_start(start: Timestamp, hours: i64, opens: Timestamp)
    requires
        call_ensures(window_opening, (start, hours), opens),
        start.nanos < 1_000_000_000,
    ensures
        start.seconds - opens.seconds == hours * 3600,
        opens.nanos == start.nanos,
{
}

/// A target is waited for exactly where it lies ahead; and, leap seconds aside, the clock shows
/// the target when the waiting time has passed.
pub proof fn the_wait_ends_at_the_target(target: Moment, now: Moment, r: Option<Wait>)
    requires
        call_ensures(wait_for, (&target, &now), r),
        target.at.nanos < 1_000_000_000,
        now.at.nanos < 1_000_000_000,
    ensures
        r is Some <==> now.at.seconds < target.at.seconds || (now.at.seconds == target.at.seconds
            && now.at.nanos < target.at.nanos),
        r matches Some(w) ==> w.nanos < 1_000_000_000 && now.at.seconds * 1_000_000_000
            + now.at.nanos + (w.seconds * 1_000_000_000 + w.nanos) == target.at.seconds
            * 1_000_000_000 + target.at.nanos,
{
}

/// A moment is shown to the second, and an opening time to the minute, at the offset of local
/// time.
pub proof fn times_are_shown_in_local_time(
    m: Moment,
    shown: String,
    at: Timestamp,
    offset: i32,
    minute: String,
)
    requires
        m.valid(),
        call_ensures(Moment::to_text, (&m,), shown),
        call_ensures(show_at, (at, offset), minute),
    ensures
        exists|east: i32|
            m.at.seconds + east == (m.civil.day - 719_163) * 86_400 + m.civil.clock.second
                && shown@ == #[trigger] instant_rendering(
                m.at.seconds,
                m.at.nanos,
                east,
                "%Y-%m-%d %H:%M:%S"@,
            ),
        minute@ == instant_rendering(at.seconds, at.nanos, offset, "%Y-%m-%d %H:%M"@),
{
    let east = (m.civil.seconds() - m.at.seconds) as i32;
    assert(m.at.seconds + east == (m.civil.day - 719_163) * 86_400 + m.civil.clock.second);
}

/// A window fits exactly where the calendar has its opening.
pub proof fn a_window_fits_within_the_calendar(start: Timestamp, hours: i64, r: bool)
    requires
        call_ensures(window_fits, (start, hours), r),
        start.nanos < 1_000_000_000,
    ensures
        r <==> MIN_SECONDS <= start.seconds - hours * 3600 <= MAX_SECONDS,
{
}

/// A session starts at the instant that its date writes, and has no start only where it writes
/// none.
pub proof fn a_start_is_the_instant_that_is_written(date: &str, r: Option<Timestamp>)
    requires
        call_ensures(parse_session_start, (date,), r),
    ensures
        r is Some <==> written_instant(date@) is Some,
        r matches Some(t) ==> written_instant(date@) == Some((t.seconds, t.nanos)),
{
}

} // verus!
