//! Dates and times as ISO-8601 text.
//!
//! The calendar is `chrono`'s. Its values are held here as their parts, which
//! is all that is ever looked at.

use chrono::{Datelike, Timelike};
use vstd::prelude::*;

use crate::bind::TursoBindBuffer;
use crate::deserialize::FromSql;
use crate::error::{mismatch, ReadError, ReadErrorView, WriteError, WriteErrorView};
use crate::serialize::{IsNull, ToSql};
use crate::sql_types;
use crate::value::{TursoValue, Value, ValueView};

verus! {

/// A calendar date.
#[derive(Debug, Clone, Copy, PartialEq, Eq, Structural)]
pub struct NaiveDate {
    year: i32,
    month: u32,
    day: u32,
}

/// A time of day. A leap second has more than a thousand million nanoseconds.
#[derive(Debug, Clone, Copy, PartialEq, Eq, Structural)]
pub struct NaiveTime {
    hour: u32,
    minute: u32,
    second: u32,
    nanosecond: u32,
}

/// A calendar date and a time of day.
#[derive(Debug, Clone, Copy, PartialEq, Eq, Structural)]
pub struct NaiveDateTime {
    pub date: NaiveDate,
    pub time: NaiveTime,
}

/// A point in time, in UTC.
#[derive(Debug, Clone, Copy, PartialEq, Eq, Structural)]
pub struct UtcDateTime {
    pub utc: NaiveDateTime,
}

impl DeepView for NaiveDate {
    type V = (i32, u32, u32);

    open spec fn deep_view(&self) -> (i32, u32, u32) {
        self.parts()
    }
}

impl DeepView for NaiveTime {
    type V = (u32, u32, u32, u32);

    open spec fn deep_view(&self) -> (u32, u32, u32, u32) {
        self.parts()
    }
}

impl DeepView for NaiveDateTime {
    type V = ((i32, u32, u32), (u32, u32, u32, u32));

    open spec fn deep_view(&self) -> ((i32, u32, u32), (u32, u32, u32, u32)) {
        self.parts()
    }
}

impl DeepView for UtcDateTime {
    type V = ((i32, u32, u32), (u32, u32, u32, u32));

    open spec fn deep_view(&self) -> ((i32, u32, u32), (u32, u32, u32, u32)) {
        self.utc.parts()
    }
}

/// Whether a year has a 29th of February.
pub open spec fn leap(year: int) -> bool {
    year % 4 == 0 && (year % 100 != 0 || year % 400 == 0)
}

/// How many days a month has.
pub open spec fn days_in(year: int, month: int) -> int {
    if month == 2 {
        if leap(year) {
            29
        } else {
            28
        }
    } else if month == 4 || month == 6 || month == 9 || month == 11 {
        30
    } else {
        31
    }
}

/// Whether a year, a month and a day are a date of the calendar.
pub open spec fn valid_date(date: (i32, u32, u32)) -> bool {
    &&& -262143 <= date.0 <= 262142
    &&& 1 <= date.1 <= 12
    &&& 1 <= date.2 <= days_in(date.0 as int, date.1 as int)
}

/// Whether an hour, a minute, a second and nanoseconds are a time of the
/// clock, leap seconds counted in.
pub open spec fn valid_time(time: (u32, u32, u32, u32)) -> bool {
    &&& time.0 < 24
    &&& time.1 < 60
    &&& time.2 < 60
    &&& time.3 < 1_000_000_000 || (time.2 == 59 && time.3 < 2_000_000_000)
}

impl NaiveDate {
    /// Year, month and day.
    pub closed spec fn parts(self) -> (i32, u32, u32) {
        (self.year, self.month, self.day)
    }

    #[verifier::type_invariant]
    spec fn in_calendar(self) -> bool {
        valid_date(self.parts())
    }

    /// The date of these parts, where the calendar has one.
    pub fn new(year: i32, month: u32, day: u32) -> (date: Option<NaiveDate>)
        ensures
            match date {
                Some(d) => valid_date((year, month, day)) && d.parts() == (year, month, day),
                None => !valid_date((year, month, day)),
            },
    {
        if year < -262143 || year > 262142 || month < 1 || month > 12 {
            return None;
        }
        let leap_year: bool = year % 4 == 0 && (year % 100 != 0 || year % 400 == 0);
        let days: u32 = if month == 2 {
            if leap_year {
                29
            } else {
                28
            }
        } else if month == 4 || month == 6 || month == 9 || month == 11 {
            30
        } else {
            31
        };
        if day < 1 || day > days {
            return None;
        }
        Some(NaiveDate { year, month, day })
    }

    /// Year, month and day.
    pub fn to_parts(&self) -> (parts: (i32, u32, u32))
        ensures
            parts == self.parts(),
            valid_date(parts),
    {
        proof {
            use_type_invariant(self);
        }
        (self.year, self.month, self.day)
    }
}

impl NaiveTime {
    /// Hour, minute, second and nanosecond.
    pub closed spec fn parts(self) -> (u32, u32, u32, u32) {
        (self.hour, self.minute, self.second, self.nanosecond)
    }

    #[verifier::type_invariant]
    spec fn on_clock(self) -> bool {
        valid_time(self.parts())
    }

    /// The time of these parts, where the clock has one.
    pub fn new(hour: u32, minute: u32, second: u32, nanosecond: u32) -> (time: Option<NaiveTime>)
        ensures
            match time {
                Some(t) => valid_time((hour, minute, second, nanosecond)) && t.parts() == (
                    hour,
                    minute,
                    second,
                    nanosecond,
                ),
                None => !valid_time((hour, minute, second, nanosecond)),
            },
    {
        if hour >= 24 || minute >= 60 || second >= 60 {
            return None;
        }
        if nanosecond >= 1_000_000_000 && (second != 59 || nanosecond >= 2_000_000_000) {
            return None;
        }
        Some(NaiveTime { hour, minute, second, nanosecond })
    }

    /// Hour, minute, second and nanosecond.
    pub fn to_parts(&self) -> (parts: (u32, u32, u32, u32))
        ensures
            parts == self.parts(),
            valid_time(parts),
    {
        proof {
            use_type_invariant(self);
        }
        (self.hour, self.minute, self.second, self.nanosecond)
    }
}

impl NaiveDateTime {
    /// The parts of the date and those of the time.
    pub open spec fn parts(self) -> ((i32, u32, u32), (u32, u32, u32, u32)) {
        (self.date.parts(), self.time.parts())
    }
}

// ---------------------------------------------------------------------------
// Formats
// ---------------------------------------------------------------------------

/// How a date is written and read.
pub open spec fn date_format() -> Seq<char> {
    "%F"@
}

/// How a time is written.
pub open spec fn time_format() -> Seq<char> {
    "%H:%M:%S%.f"@
}

/// How a timestamp is written.
pub open spec fn timestamp_format() -> Seq<char> {
    "%F %T%.f"@
}

/// How a timestamp with an offset is written.
pub open spec fn timestamptz_format() -> Seq<char> {
    "%F %T%.f%:z"@
}

/// The formats in which a time is read, in the order in which they are tried.
pub open spec fn time_read_formats() -> Seq<Seq<char>> {
    seq![
        "%H:%M:%S%.f"@,
        "%H:%M:%S"@,
        "%H:%M"@,
        "%H:%MZ"@,
        "%H:%M%:z"@,
        "%H:%M:%SZ"@,
        "%H:%M:%S%.fZ"@,
        "%H:%M:%S%:z"@,
        "%H:%M:%S%.f%:z"@,
    ]
}

/// The formats in which a timestamp is read, in the order in which they are
/// tried.
pub open spec fn timestamp_read_formats() -> Seq<Seq<char>> {
    seq![
        "%F %T%.f"@,
        "%FT%T%.f"@,
        "%F %T"@,
        "%FT%T"@,
        "%F %R"@,
        "%FT%R"@,
        "%F %RZ"@,
        "%FT%RZ"@,
        "%F %R%:z"@,
        "%FT%R%:z"@,
        "%F %TZ"@,
        "%FT%TZ"@,
        "%F %T%.fZ"@,
        "%FT%T%.fZ"@,
        "%F %T%:z"@,
        "%FT%T%:z"@,
        "%F %T%.f%:z"@,
        "%FT%T%.f%:z"@,
    ]
}

/// The texts of a list.
pub open spec fn text_views(texts: Seq<&'static str>) -> Seq<Seq<char>> {
    Seq::new(texts.len(), |i: int| texts[i]@)
}

/// The formats in which a time is read.
fn time_formats() -> (formats: Vec<&'static str>)
    ensures
        text_views(formats@) == time_read_formats(),
{
    let mut formats: Vec<&'static str> = Vec::new();
    formats.push("%H:%M:%S%.f");
    formats.push("%H:%M:%S");
    formats.push("%H:%M");
    formats.push("%H:%MZ");
    formats.push("%H:%M%:z");
    formats.push("%H:%M:%SZ");
    formats.push("%H:%M:%S%.fZ");
    formats.push("%H:%M:%S%:z");
    formats.push("%H:%M:%S%.f%:z");
    assert(text_views(formats@) =~= time_read_formats());
    formats
}

/// The formats in which a timestamp is read.
fn timestamp_formats() -> (formats: Vec<&'static str>)
    ensures
        text_views(formats@) == timestamp_read_formats(),
{
    let mut formats: Vec<&'static str> = Vec::new();
    formats.push("%F %T%.f");
    formats.push("%FT%T%.f");
    formats.push("%F %T");
    formats.push("%FT%T");
    formats.push("%F %R");
    formats.push("%FT%R");
    formats.push("%F %RZ");
    formats.push("%FT%RZ");
    formats.push("%F %R%:z");
    formats.push("%FT%R%:z");
    formats.push("%F %TZ");
    formats.push("%FT%TZ");
    formats.push("%F %T%.fZ");
    formats.push("%FT%T%.fZ");
    formats.push("%F %T%:z");
    formats.push("%FT%T%:z");
    formats.push("%F %T%.f%:z");
    formats.push("%FT%T%.f%:z");
    assert(text_views(formats@) =~= timestamp_read_formats());
    formats
}

// ---------------------------------------------------------------------------
// What chrono does
// ---------------------------------------------------------------------------

/// The date that `chrono` reads from a text in a format.
pub uninterp spec fn parsed_date(text: Seq<char>, format: Seq<char>) -> Option<(i32, u32, u32)>;

/// The time that `chrono` reads from a text in a format.
pub uninterp spec fn parsed_time(text: Seq<char>, format: Seq<char>) -> Option<
    (u32, u32, u32, u32),
>;

/// The date and time that `chrono` reads from a text in a format.
pub uninterp spec fn parsed_timestamp(text: Seq<char>, format: Seq<char>) -> Option<
    ((i32, u32, u32), (u32, u32, u32, u32)),
>;

/// What `chrono` makes of a date in a format.
pub uninterp spec fn formatted_date(date: (i32, u32, u32), format: Seq<char>) -> Seq<char>;

/// What `chrono` makes of a time in a format.
pub uninterp spec fn formatted_time(time: (u32, u32, u32, u32), format: Seq<char>) -> Seq<char>;

/// What `chrono` makes of a date and time in a format.
pub uninterp spec fn formatted_timestamp(
    date: (i32, u32, u32),
    time: (u32, u32, u32, u32),
    format: Seq<char>,
) -> Seq<char>;

/// What `chrono` makes of a point in time in a format.
pub uninterp spec fn formatted_utc(
    date: (i32, u32, u32),
    time: (u32, u32, u32, u32),
    format: Seq<char>,
) -> Seq<char>;

/// The date and time that lie so many seconds and nanoseconds after the Unix
/// epoch, where `chrono` has one.
pub uninterp spec fn unix_timestamp(seconds: i64, nanoseconds: u32) -> Option<
    ((i32, u32, u32), (u32, u32, u32, u32)),
>;

/// Calls `chrono::NaiveDate::parse_from_str`. What it reads depends on the
/// text and the format alone.
#[verifier::external_body]
fn parse_date_as(text: &str, format: &str) -> (date: Option<NaiveDate>)
    ensures
        date matches Some(d) ==> parsed_date(text@, format@) == Some(d.parts()),
        date is None ==> parsed_date(text@, format@) is None,
{
    let read = chrono::NaiveDate::parse_from_str(text, format).ok()?;
    Some(NaiveDate { year: read.year(), month: read.month(), day: read.day() })
}

/// Calls `chrono::NaiveTime::parse_from_str`. What it reads depends on the
/// text and the format alone.
#[verifier::external_body]
fn parse_time_as(text: &str, format: &str) -> (time: Option<NaiveTime>)
    ensures
        time matches Some(t) ==> parsed_time(text@, format@) == Some(t.parts()),
        time is None ==> parsed_time(text@, format@) is None,
{
    let read = chrono::NaiveTime::parse_from_str(text, format).ok()?;
    Some(NaiveTime {
        hour: read.hour(),
        minute: read.minute(),
        second: read.second(),
        nanosecond: read.nanosecond(),
    })
}

/// Calls `chrono::NaiveDateTime::parse_from_str`. What it reads depends on
/// the text and the format alone; an offset in the text is read past.
#[verifier::external_body]
fn parse_timestamp_as(text: &str, format: &str) -> (stamp: Option<NaiveDateTime>)
    ensures
        stamp matches Some(s) ==> parsed_timestamp(text@, format@) == Some(s.parts()),
        stamp is None ==> parsed_timestamp(text@, format@) is None,
{
    let read = chrono::NaiveDateTime::parse_from_str(text, format).ok()?;
    let date = NaiveDate { year: read.year(), month: read.month(), day: read.day() };
    let time = NaiveTime {
        hour: read.hour(),
        minute: read.minute(),
        second: read.second(),
        nanosecond: read.nanosecond(),
    };
    Some(NaiveDateTime { date, time })
}

/// Calls `chrono::NaiveDate::format`. What it writes depends on the date and
/// the format alone, and `chrono` reads the same date back from it.
#[verifier::external_body]
fn format_date_as(date: NaiveDate, format: &str) -> (text: String)
    requires
        valid_date(date.parts()),
        format@ == date_format(),
    ensures
        text@ == formatted_date(date.parts(), format@),
        parsed_date(text@, format@) == Some(date.parts()),
{
    let known = chrono::NaiveDate::from_ymd_opt(date.year, date.month, date.day).unwrap();
    known.format(format).to_string()
}

/// Calls `chrono::NaiveTime::format`. What it writes depends on the time and
/// the format alone, and `chrono` reads the same time back from it.
#[verifier::external_body]
fn format_time_as(time: NaiveTime, format: &str) -> (text: String)
    requires
        valid_time(time.parts()),
        format@ == time_format(),
    ensures
        text@ == formatted_time(time.parts(), format@),
        parsed_time(text@, format@) == Some(time.parts()),
{
    chrono::NaiveTime::from_hms_nano_opt(time.hour, time.minute, time.second, time.nanosecond)
        .unwrap()
        .format(format)
        .to_string()
}

/// Calls `chrono::NaiveDateTime::format`. What it writes depends on the date,
/// the time and the format alone, and `chrono` reads the same date and time
/// back from it.
#[verifier::external_body]
fn format_timestamp_as(stamp: NaiveDateTime, format: &str) -> (text: String)
    requires
        valid_date(stamp.date.parts()),
        valid_time(stamp.time.parts()),
        format@ == timestamp_format(),
    ensures
        text@ == formatted_timestamp(stamp.date.parts(), stamp.time.parts(), format@),
        parsed_timestamp(text@, format@) == Some(stamp.parts()),
{
    let (d, t) = (stamp.date, stamp.time);
    let date = chrono::NaiveDate::from_ymd_opt(d.year, d.month, d.day).unwrap();
    date.and_hms_nano_opt(t.hour, t.minute, t.second, t.nanosecond)
        .unwrap()
        .format(format)
        .to_string()
}

/// Calls `chrono::DateTime::format` on a point in time in UTC. What it writes
/// depends on the date, the time and the format alone. In the same format
/// `chrono` reads the same date and time back from it, and in any other in
/// which a timestamp is read, it reads that or nothing.
#[verifier::external_body]
fn format_utc_as(stamp: NaiveDateTime, format: &str) -> (text: String)
    requires
        valid_date(stamp.date.parts()),
        valid_time(stamp.time.parts()),
        format@ == timestamptz_format(),
    ensures
        text@ == formatted_utc(stamp.date.parts(), stamp.time.parts(), format@),
        parsed_timestamp(text@, format@) == Some(stamp.parts()),
        forall|i: int|
            0 <= i < timestamp_read_formats().len() ==> match parsed_timestamp(
                text@,
                #[trigger] timestamp_read_formats()[i],
            ) {
                Some(read) => read == stamp.parts(),
                None => true,
            },
{
    let (d, t) = (stamp.date, stamp.time);
    let date = chrono::NaiveDate::from_ymd_opt(d.year, d.month, d.day).unwrap();
    date.and_hms_nano_opt(t.hour, t.minute, t.second, t.nanosecond)
        .unwrap()
        .and_utc()
        .format(format)
        .to_string()
}

/// Calls `chrono::DateTime::from_timestamp`. Which date and time come back
/// depends on the two numbers alone.
#[verifier::external_body]
fn timestamp_from_unix(seconds: i64, nanoseconds: u32) -> (stamp: Option<NaiveDateTime>)
    ensures
        stamp matches Some(s) ==> unix_timestamp(seconds, nanoseconds) == Some(s.parts()),
        stamp is None ==> unix_timestamp(seconds, nanoseconds) is None,
{
    let read = chrono::DateTime::from_timestamp(seconds, nanoseconds)?.naive_utc();
    let date = NaiveDate { year: read.year(), month: read.month(), day: read.day() };
    let time = NaiveTime {
        hour: read.hour(),
        minute: read.minute(),
        second: read.second(),
        nanosecond: read.nanosecond(),
    };
    Some(NaiveDateTime { date, time })
}

// ---------------------------------------------------------------------------
// Reading and writing
// ---------------------------------------------------------------------------

/// What the first of `formats`, from `i` on, in which `chrono` reads a time
/// from the text has it read.
pub open spec fn first_time(text: Seq<char>, formats: Seq<Seq<char>>, i: int) -> Option<
    (u32, u32, u32, u32),
>
    decreases formats.len() - i,
{
    if i < 0 || i >= formats.len() {
        None
    } else {
        match parsed_time(text, formats[i]) {
            Some(time) => Some(time),
            None => first_time(text, formats, i + 1),
        }
    }
}

/// What the first of `formats`, from `i` on, in which `chrono` reads a date
/// and a time from the text has it read.
pub open spec fn first_timestamp(text: Seq<char>, formats: Seq<Seq<char>>, i: int) -> Option<
    ((i32, u32, u32), (u32, u32, u32, u32)),
>
    decreases formats.len() - i,
{
    if i < 0 || i >= formats.len() {
        None
    } else {
        match parsed_timestamp(text, formats[i]) {
            Some(stamp) => Some(stamp),
            None => first_timestamp(text, formats, i + 1),
        }
    }
}

/// Reads a date.
pub fn parse_date(text: &str) -> (date: Option<NaiveDate>)
    ensures
        match date {
            Some(d) => parsed_date(text@, date_format()) == Some(d.parts()),
            None => parsed_date(text@, date_format()) is None,
        },
{
    parse_date_as(text, "%F")
}

/// Reads a time, in the first format that fits.
pub fn parse_time(text: &str) -> (time: Option<NaiveTime>)
    ensures
        match time {
            Some(t) => first_time(text@, time_read_formats(), 0) == Some(t.parts()),
            None => first_time(text@, time_read_formats(), 0) is None,
        },
{
    let formats: Vec<&'static str> = time_formats();
    let ghost all = time_read_formats();
    let mut i: usize = 0;
    while i < formats.len()
        invariant
            i <= formats@.len(),
            all == time_read_formats(),
            text_views(formats@) == all,
            first_time(text@, all, 0) == first_time(text@, all, i as int),
        decreases formats@.len() - i,
    {
        assert(all[i as int] == formats@[i as int]@);
        let read: Option<NaiveTime> = parse_time_as(text, formats[i]);
        if read.is_some() {
            return read;
        }
        i = i + 1;
    }
    None
}

/// Reads a date and a time, in the first format that fits.
pub fn parse_naive_datetime(text: &str) -> (stamp: Option<NaiveDateTime>)
    ensures
        match stamp {
            Some(s) => first_timestamp(text@, timestamp_read_formats(), 0) == Some(s.parts()),
            None => first_timestamp(text@, timestamp_read_formats(), 0) is None,
        },
{
    let formats: Vec<&'static str> = timestamp_formats();
    let ghost all = timestamp_read_formats();
    let mut i: usize = 0;
    while i < formats.len()
        invariant
            i <= formats@.len(),
            all == timestamp_read_formats(),
            text_views(formats@) == all,
            first_timestamp(text@, all, 0) == first_timestamp(text@, all, i as int),
        decreases formats@.len() - i,
    {
        assert(all[i as int] == formats@[i as int]@);
        let read: Option<NaiveDateTime> = parse_timestamp_as(text, formats[i]);
        if read.is_some() {
            return read;
        }
        i = i + 1;
    }
    None
}

/// What the value of a timestamp says of it. The engine hands out text, or
/// what `julianday` gave: a number of days, held as its bit pattern where it
/// is a float.
#[derive(Debug, Clone, Copy)]
pub enum TimestampSource {
    /// A date and a time.
    Stamp(NaiveDateTime),
    /// A Julian day, as the bit pattern of a float.
    JulianDay(u64),
    /// A Julian day, as an integer.
    JulianDayNumber(i64),
    /// Neither a timestamp nor a Julian day.
    Unreadable,
}

/// What the value of a timestamp says of it.
pub fn decode_naive_datetime(v: &Value) -> (source: TimestampSource)
    ensures
        match v@ {
            ValueView::Text(s) => match first_timestamp(s, timestamp_read_formats(), 0) {
                Some(parts) => source matches TimestampSource::Stamp(stamp) && stamp.parts()
                    == parts,
                None => source is Unreadable,
            },
            ValueView::Real(bits) => source == TimestampSource::JulianDay(bits),
            ValueView::Integer(n) => source == TimestampSource::JulianDayNumber(n),
            _ => source is Unreadable,
        },
{
    match v {
        Value::Text(s) => match parse_naive_datetime(s.as_str()) {
            Some(stamp) => TimestampSource::Stamp(stamp),
            None => TimestampSource::Unreadable,
        },
        Value::Real(bits) => TimestampSource::JulianDay(*bits),
        Value::Integer(n) => TimestampSource::JulianDayNumber(*n),
        _ => TimestampSource::Unreadable,
    }
}

/// Whole seconds and nanoseconds with every full second of the latter carried
/// over, and one borrowed where they are negative, unless the seconds
/// overflow. The nanoseconds are then those of one second.
pub open spec fn carried(seconds: i64, nanoseconds: i64) -> Option<(i64, u32)> {
    let whole = seconds + nanoseconds as int / 1_000_000_000;
    if i64::MIN <= whole <= i64::MAX {
        Some((whole as i64, (nanoseconds as int % 1_000_000_000) as u32))
    } else {
        None
    }
}

/// The date and time at so many seconds and nanoseconds after the Unix epoch.
/// The nanoseconds may be those of a full second, which rounding leaves, and
/// before the epoch they are negative.
pub fn naive_from_unix(seconds: i64, nanoseconds: i64) -> (stamp: Option<NaiveDateTime>)
    ensures
        ({
            let found = match carried(seconds, nanoseconds) {
                Some((s, n)) => unix_timestamp(s, n),
                None => None,
            };
            match stamp {
                Some(s) => found == Some(s.parts()),
                None => found is None,
            }
        }),
{
    let (more, rest): (i64, i64) = match (
        nanoseconds.checked_div_euclid(1_000_000_000),
        nanoseconds.checked_rem_euclid(1_000_000_000),
    ) {
        (Some(more), Some(rest)) => (more, rest),
        _ => {
            return None;
        },
    };
    match seconds.checked_add(more) {
        Some(whole) => timestamp_from_unix(whole, rest as u32),
        None => None,
    }
}

/// The timestamp that a value says, once a Julian day has been looked up.
/// `julian` is what was found for it.
pub fn timestamp_read(v: &Value, julian: Option<NaiveDateTime>) -> (r: Result<
    NaiveDateTime,
    ReadError,
>)
    ensures
        ({
            let found = match v@ {
                ValueView::Text(s) => first_timestamp(s, timestamp_read_formats(), 0),
                ValueView::Real(_) | ValueView::Integer(_) => match julian {
                    Some(stamp) => Some(stamp.parts()),
                    None => None,
                },
                _ => None,
            };
            match r {
                Ok(stamp) => found == Some(stamp.parts()),
                Err(e) => found is None && e@ == (ReadErrorView::Temporal {
                    expected: "datetime"@,
                    got: v@,
                }),
            }
        }),
{
    let found: Option<NaiveDateTime> = match decode_naive_datetime(v) {
        TimestampSource::Stamp(stamp) => Some(stamp),
        TimestampSource::JulianDay(_) | TimestampSource::JulianDayNumber(_) => julian,
        TimestampSource::Unreadable => None,
    };
    match found {
        Some(stamp) => Ok(stamp),
        None => Err(ReadError::Temporal { expected: "datetime", got: v.clone() }),
    }
}

impl ToSql<sql_types::Date> for NaiveDate {
    open spec fn written(&self) -> Result<ValueView, WriteErrorView> {
        Ok(ValueView::Text(formatted_date(self.parts(), date_format())))
    }

    fn to_sql(&self, out: &mut TursoBindBuffer) -> (r: Result<IsNull, WriteError>) {
        out.set_value(TursoBindBuffer::from(date_text(*self)));
        Ok(IsNull::No)
    }
}

impl ToSql<sql_types::Time> for NaiveTime {
    open spec fn written(&self) -> Result<ValueView, WriteErrorView> {
        Ok(ValueView::Text(formatted_time(self.parts(), time_format())))
    }

    fn to_sql(&self, out: &mut TursoBindBuffer) -> (r: Result<IsNull, WriteError>) {
        out.set_value(TursoBindBuffer::from(time_text(*self)));
        Ok(IsNull::No)
    }
}

impl ToSql<sql_types::Timestamp> for NaiveDateTime {
    open spec fn written(&self) -> Result<ValueView, WriteErrorView> {
        Ok(ValueView::Text(formatted_timestamp(self.date.parts(), self.time.parts(), timestamp_format())))
    }

    fn to_sql(&self, out: &mut TursoBindBuffer) -> (r: Result<IsNull, WriteError>) {
        out.set_value(TursoBindBuffer::from(timestamp_text(*self)));
        Ok(IsNull::No)
    }
}

impl ToSql<sql_types::Timestamptz> for UtcDateTime {
    open spec fn written(&self) -> Result<ValueView, WriteErrorView> {
        Ok(
            ValueView::Text(
                formatted_utc(
                    self.utc.date.parts(),
                    self.utc.time.parts(),
                    timestamptz_format(),
                ),
            ),
        )
    }

    fn to_sql(&self, out: &mut TursoBindBuffer) -> (r: Result<IsNull, WriteError>) {
        out.set_value(TursoBindBuffer::from(timestamptz_text(*self)));
        Ok(IsNull::No)
    }
}

impl FromSql<sql_types::Date> for NaiveDate {
    open spec fn read(v: ValueView) -> Result<(i32, u32, u32), ReadErrorView> {
        match v {
            ValueView::Text(s) => match parsed_date(s, date_format()) {
                Some(parts) => Ok(parts),
                None => Err(ReadErrorView::Temporal { expected: "date"@, got: v }),
            },
            _ => Err(ReadErrorView::Mismatch { expected: "TEXT"@, got: v }),
        }
    }

    open spec fn read_null() -> Result<(i32, u32, u32), ReadErrorView> {
        Err(ReadErrorView::UnexpectedNull)
    }

    fn from_sql(v: TursoValue<'_>) -> (r: Result<Self, ReadError>) {
        let cell: &Value = v.as_turso();
        match cell {
            Value::Text(s) => match parse_date(s.as_str()) {
                Some(x) => Ok(x),
                None => Err(ReadError::Temporal { expected: "date", got: cell.clone() }),
            },
            other => Err(mismatch("TEXT", other)),
        }
    }

    fn from_nullable_sql(v: Option<TursoValue<'_>>) -> (r: Result<Self, ReadError>) {
        match v {
            Some(inner) => <NaiveDate as FromSql<sql_types::Date>>::from_sql(inner),
            None => Err(ReadError::UnexpectedNull),
        }
    }
}

impl FromSql<sql_types::Time> for NaiveTime {
    open spec fn read(v: ValueView) -> Result<(u32, u32, u32, u32), ReadErrorView> {
        match v {
            ValueView::Text(s) => match first_time(s, time_read_formats(), 0) {
                Some(parts) => Ok(parts),
                None => Err(ReadErrorView::Temporal { expected: "time"@, got: v }),
            },
            _ => Err(ReadErrorView::Mismatch { expected: "TEXT"@, got: v }),
        }
    }

    open spec fn read_null() -> Result<(u32, u32, u32, u32), ReadErrorView> {
        Err(ReadErrorView::UnexpectedNull)
    }

    fn from_sql(v: TursoValue<'_>) -> (r: Result<Self, ReadError>) {
        let cell: &Value = v.as_turso();
        match cell {
            Value::Text(s) => match parse_time(s.as_str()) {
                Some(x) => Ok(x),
                None => Err(ReadError::Temporal { expected: "time", got: cell.clone() }),
            },
            other => Err(mismatch("TEXT", other)),
        }
    }

    fn from_nullable_sql(v: Option<TursoValue<'_>>) -> (r: Result<Self, ReadError>) {
        match v {
            Some(inner) => <NaiveTime as FromSql<sql_types::Time>>::from_sql(inner),
            None => Err(ReadError::UnexpectedNull),
        }
    }
}

/// A point in time is the timestamp that was read, taken to be in UTC.
pub fn utc_from_timestamp(stamp: NaiveDateTime) -> (point: UtcDateTime)
    ensures
        point.utc == stamp,
{
    UtcDateTime { utc: stamp }
}

/// The text that a date is written as, from which the same date is read.
pub fn date_text(date: NaiveDate) -> (text: String)
    ensures
        text@ == formatted_date(date.parts(), date_format()),
        <NaiveDate as FromSql<sql_types::Date>>::read(ValueView::Text(text@)) == Ok::<
            (i32, u32, u32),
            ReadErrorView,
        >(date.parts()),
{
    proof {
        use_type_invariant(&date);
    }
    format_date_as(date, "%F")
}

/// The text that a time is written as, from which the same time is read.
pub fn time_text(time: NaiveTime) -> (text: String)
    ensures
        text@ == formatted_time(time.parts(), time_format()),
        <NaiveTime as FromSql<sql_types::Time>>::read(ValueView::Text(text@)) == Ok::<
            (u32, u32, u32, u32),
            ReadErrorView,
        >(time.parts()),
{
    proof {
        use_type_invariant(&time);
    }
    let text: String = format_time_as(time, "%H:%M:%S%.f");
    assert(time_read_formats()[0] == time_format());
    text
}

/// The text that a timestamp is written as, from which the same timestamp is
/// read.
pub fn timestamp_text(stamp: NaiveDateTime) -> (text: String)
    ensures
        text@ == formatted_timestamp(
            stamp.date.parts(),
            stamp.time.parts(),
            timestamp_format(),
        ),
        first_timestamp(text@, timestamp_read_formats(), 0) == Some(stamp.parts()),
{
    let date: NaiveDate = stamp.date;
    let time: NaiveTime = stamp.time;
    proof {
        use_type_invariant(&date);
        use_type_invariant(&time);
    }
    let text: String = format_timestamp_as(stamp, "%F %T%.f");
    assert(timestamp_read_formats()[0] == timestamp_format());
    text
}

/// The text that a point in time is written as, from which its date and time
/// in UTC are read.
pub fn timestamptz_text(point: UtcDateTime) -> (text: String)
    ensures
        text@ == formatted_utc(
            point.utc.date.parts(),
            point.utc.time.parts(),
            timestamptz_format(),
        ),
        first_timestamp(text@, timestamp_read_formats(), 0) == Some(point.utc.parts()),
{
    let date: NaiveDate = point.utc.date;
    let time: NaiveTime = point.utc.time;
    proof {
        use_type_invariant(&date);
        use_type_invariant(&time);
    }
    let text: String = format_utc_as(point.utc, "%F %T%.f%:z");
    proof {
        let formats = timestamp_read_formats();
        assert(formats[16] == timestamptz_format());
        lemma_first_that_reads(text@, formats, 0, 16, point.utc.parts());
    }
    text
}

proof fn lemma_first_that_reads(
    text: Seq<char>,
    formats: Seq<Seq<char>>,
    i: int,
    k: int,
    stamp: ((i32, u32, u32), (u32, u32, u32, u32)),
)
    requires
        0 <= i <= k < formats.len(),
        parsed_timestamp(text, formats[k]) == Some(stamp),
        forall|j: int|
            0 <= j < formats.len() ==> match parsed_timestamp(text, #[trigger] formats[j]) {
                Some(read) => read == stamp,
                None => true,
            },
    ensures
        first_timestamp(text, formats, i) == Some(stamp),
    decreases k - i,
{
    if i < k {
        assert(parsed_timestamp(text, formats[i]) matches Some(read) ==> read == stamp);
        lemma_first_that_reads(text, formats, i + 1, k, stamp);
    }
}

/// How a timestamp or a time may end: with nothing, with the `Z` of UTC, or
/// with an offset from it.
pub open spec fn is_zone_format(zone: Seq<char>) -> bool {
    zone == Seq::<char>::empty() || zone == seq!['Z'] || zone == seq!['%', ':', 'z']
}

/// How the clock of a timestamp may be written: to the fraction of a second,
/// to the second, or to the minute.
pub open spec fn is_clock_format(clock: Seq<char>) -> bool {
    clock == "%T%.f"@ || clock == "%T"@ || clock == "%R"@
}

/// How a time may be written, to the same three degrees.
pub open spec fn is_time_format(clock: Seq<char>) -> bool {
    clock == "%H:%M:%S%.f"@ || clock == "%H:%M:%S"@ || clock == "%H:%M"@
}

/// What stands between a date and its clock: a space or the `T` of ISO 8601.
pub open spec fn is_separator(separator: char) -> bool {
    separator == ' ' || separator == 'T'
}

/// An ISO 8601 date, a separator, a clock and a zone.
pub open spec fn iso_format(separator: char, clock: Seq<char>, zone: Seq<char>) -> Seq<char> {
    "%F"@ + seq![separator] + clock + zone
}

/// Whether a format is of the ISO form.
pub open spec fn is_iso_format(format: Seq<char>) -> bool {
    exists|separator: char, clock: Seq<char>, zone: Seq<char>|
        is_separator(separator) && is_clock_format(clock) && is_zone_format(zone) && format
            == #[trigger] iso_format(separator, clock, zone)
}

/// Whether a format is a clock and a zone.
pub open spec fn is_clock_and_zone(format: Seq<char>) -> bool {
    exists|clock: Seq<char>, zone: Seq<char>|
        is_time_format(clock) && is_zone_format(zone) && format == #[trigger] (clock + zone)
}

/// A timestamp is read in every form that is made of an ISO date, one of the
/// two separators, one of the three clocks and one of the three zones, and in
/// no other form.
pub proof fn timestamps_are_read_in_every_iso_form()
    ensures
        forall|i: int|
            0 <= i < timestamp_read_formats().len() ==> is_iso_format(
                #[trigger] timestamp_read_formats()[i],
            ),
        forall|separator: char, clock: Seq<char>, zone: Seq<char>|
            is_separator(separator) && is_clock_format(clock) && is_zone_format(zone)
                ==> timestamp_read_formats().contains(
                #[trigger] iso_format(separator, clock, zone),
            ),
{
    let formats = timestamp_read_formats();
    assert forall|i: int| 0 <= i < formats.len() implies is_iso_format(
        #[trigger] formats[i],
    ) by {
        lemma_known_stamps(i);
    }
    assert forall|separator: char, clock: Seq<char>, zone: Seq<char>|
        is_separator(separator) && is_clock_format(clock) && is_zone_format(
            zone,
        ) implies formats.contains(#[trigger] iso_format(separator, clock, zone)) by {
        lemma_all_stamps(separator, clock, zone);
    }
}

proof fn lemma_spaced_fractions()
    ensures
        timestamp_read_formats()[0] == iso_format(' ', "%T%.f"@, Seq::<char>::empty()),
        timestamp_read_formats()[12] == iso_format(' ', "%T%.f"@, seq!['Z']),
        timestamp_read_formats()[16] == iso_format(' ', "%T%.f"@, seq!['%', ':', 'z']),
{
    reveal_strlit("%F");
    reveal_strlit("%T%.f");
    reveal_strlit("%F %T%.f");
    reveal_strlit("%F %T%.fZ");
    reveal_strlit("%F %T%.f%:z");
    assert(timestamp_read_formats()[0] =~= iso_format(' ', "%T%.f"@, Seq::<char>::empty()));
    assert(timestamp_read_formats()[12] =~= iso_format(' ', "%T%.f"@, seq!['Z']));
    assert(timestamp_read_formats()[16] =~= iso_format(' ', "%T%.f"@, seq!['%', ':', 'z']));
}

proof fn lemma_spaced_seconds()
    ensures
        timestamp_read_formats()[2] == iso_format(' ', "%T"@, Seq::<char>::empty()),
        timestamp_read_formats()[10] == iso_format(' ', "%T"@, seq!['Z']),
        timestamp_read_formats()[14] == iso_format(' ', "%T"@, seq!['%', ':', 'z']),
{
    reveal_strlit("%F");
    reveal_strlit("%T");
    reveal_strlit("%F %T");
    reveal_strlit("%F %TZ");
    reveal_strlit("%F %T%:z");
    assert(timestamp_read_formats()[2] =~= iso_format(' ', "%T"@, Seq::<char>::empty()));
    assert(timestamp_read_formats()[10] =~= iso_format(' ', "%T"@, seq!['Z']));
    assert(timestamp_read_formats()[14] =~= iso_format(' ', "%T"@, seq!['%', ':', 'z']));
}

proof fn lemma_spaced_minutes()
    ensures
        timestamp_read_formats()[4] == iso_format(' ', "%R"@, Seq::<char>::empty()),
        timestamp_read_formats()[6] == iso_format(' ', "%R"@, seq!['Z']),
        timestamp_read_formats()[8] == iso_format(' ', "%R"@, seq!['%', ':', 'z']),
{
    reveal_strlit("%F");
    reveal_strlit("%R");
    reveal_strlit("%F %R");
    reveal_strlit("%F %RZ");
    reveal_strlit("%F %R%:z");
    assert(timestamp_read_formats()[4] =~= iso_format(' ', "%R"@, Seq::<char>::empty()));
    assert(timestamp_read_formats()[6] =~= iso_format(' ', "%R"@, seq!['Z']));
    assert(timestamp_read_formats()[8] =~= iso_format(' ', "%R"@, seq!['%', ':', 'z']));
}

proof fn lemma_joined_fractions()
    ensures
        timestamp_read_formats()[1] == iso_format('T', "%T%.f"@, Seq::<char>::empty()),
        timestamp_read_formats()[13] == iso_format('T', "%T%.f"@, seq!['Z']),
        timestamp_read_formats()[17] == iso_format('T', "%T%.f"@, seq!['%', ':', 'z']),
{
    reveal_strlit("%F");
    reveal_strlit("%T%.f");
    reveal_strlit("%FT%T%.f");
    reveal_strlit("%FT%T%.fZ");
    reveal_strlit("%FT%T%.f%:z");
    assert(timestamp_read_formats()[1] =~= iso_format('T', "%T%.f"@, Seq::<char>::empty()));
    assert(timestamp_read_formats()[13] =~= iso_format('T', "%T%.f"@, seq!['Z']));
    assert(timestamp_read_formats()[17] =~= iso_format('T', "%T%.f"@, seq!['%', ':', 'z']));
}

proof fn lemma_joined_seconds()
    ensures
        timestamp_read_formats()[3] == iso_format('T', "%T"@, Seq::<char>::empty()),
        timestamp_read_formats()[11] == iso_format('T', "%T"@, seq!['Z']),
        timestamp_read_formats()[15] == iso_format('T', "%T"@, seq!['%', ':', 'z']),
{
    reveal_strlit("%F");
    reveal_strlit("%T");
    reveal_strlit("%FT%T");
    reveal_strlit("%FT%TZ");
    reveal_strlit("%FT%T%:z");
    assert(timestamp_read_formats()[3] =~= iso_format('T', "%T"@, Seq::<char>::empty()));
    assert(timestamp_read_formats()[11] =~= iso_format('T', "%T"@, seq!['Z']));
    assert(timestamp_read_formats()[15] =~= iso_format('T', "%T"@, seq!['%', ':', 'z']));
}

proof fn lemma_joined_minutes()
    ensures
        timestamp_read_formats()[5] == iso_format('T', "%R"@, Seq::<char>::empty()),
        timestamp_read_formats()[7] == iso_format('T', "%R"@, seq!['Z']),
        timestamp_read_formats()[9] == iso_format('T', "%R"@, seq!['%', ':', 'z']),
{
    reveal_strlit("%F");
    reveal_strlit("%R");
    reveal_strlit("%FT%R");
    reveal_strlit("%FT%RZ");
    reveal_strlit("%FT%R%:z");
    assert(timestamp_read_formats()[5] =~= iso_format('T', "%R"@, Seq::<char>::empty()));
    assert(timestamp_read_formats()[7] =~= iso_format('T', "%R"@, seq!['Z']));
    assert(timestamp_read_formats()[9] =~= iso_format('T', "%R"@, seq!['%', ':', 'z']));
}

proof fn lemma_known_stamps(i: int)
    requires
        0 <= i < 18,
    ensures
        is_iso_format(timestamp_read_formats()[i]),
{
    lemma_spaced_fractions();
    lemma_spaced_seconds();
    lemma_spaced_minutes();
    lemma_joined_fractions();
    lemma_joined_seconds();
    lemma_joined_minutes();
}

proof fn lemma_all_stamps(separator: char, clock: Seq<char>, zone: Seq<char>)
    requires
        is_separator(separator),
        is_clock_format(clock),
        is_zone_format(zone),
    ensures
        timestamp_read_formats().contains(iso_format(separator, clock, zone)),
{
    lemma_spaced_fractions();
    lemma_spaced_seconds();
    lemma_spaced_minutes();
    lemma_joined_fractions();
    lemma_joined_seconds();
    lemma_joined_minutes();
}

/// A time is read in every form that is made of one of the three clocks and
/// one of the three zones, and in no other form.
pub proof fn times_are_read_in_every_form()
    ensures
        forall|i: int|
            0 <= i < time_read_formats().len() ==> is_clock_and_zone(
                #[trigger] time_read_formats()[i],
            ),
        forall|clock: Seq<char>, zone: Seq<char>|
            is_time_format(clock) && is_zone_format(zone) ==> time_read_formats().contains(
                #[trigger] (clock + zone),
            ),
{
    lemma_times_to_the_fraction();
    lemma_times_to_the_second();
    lemma_times_to_the_minute();
    assert forall|i: int| 0 <= i < time_read_formats().len() implies is_clock_and_zone(
        #[trigger] time_read_formats()[i],
    ) by {
        assert(is_clock_and_zone("%H:%M:%S%.f"@ + Seq::<char>::empty()));
        assert(is_clock_and_zone("%H:%M:%S"@ + Seq::<char>::empty()));
        assert(is_clock_and_zone("%H:%M"@ + Seq::<char>::empty()));
        assert(is_clock_and_zone("%H:%M"@ + seq!['Z']));
        assert(is_clock_and_zone("%H:%M"@ + seq!['%', ':', 'z']));
        assert(is_clock_and_zone("%H:%M:%S"@ + seq!['Z']));
        assert(is_clock_and_zone("%H:%M:%S%.f"@ + seq!['Z']));
        assert(is_clock_and_zone("%H:%M:%S"@ + seq!['%', ':', 'z']));
        assert(is_clock_and_zone("%H:%M:%S%.f"@ + seq!['%', ':', 'z']));
    }
}

proof fn lemma_times_to_the_fraction()
    ensures
        time_read_formats()[0] == "%H:%M:%S%.f"@ + Seq::<char>::empty(),
        time_read_formats()[6] == "%H:%M:%S%.f"@ + seq!['Z'],
        time_read_formats()[8] == "%H:%M:%S%.f"@ + seq!['%', ':', 'z'],
{
    reveal_strlit("%H:%M:%S%.f");
    reveal_strlit("%H:%M:%S%.fZ");
    reveal_strlit("%H:%M:%S%.f%:z");
    assert(time_read_formats()[0] =~= "%H:%M:%S%.f"@ + Seq::<char>::empty());
    assert(time_read_formats()[6] =~= "%H:%M:%S%.f"@ + seq!['Z']);
    assert(time_read_formats()[8] =~= "%H:%M:%S%.f"@ + seq!['%', ':', 'z']);
}

proof fn lemma_times_to_the_second()
    ensures
        time_read_formats()[1] == "%H:%M:%S"@ + Seq::<char>::empty(),
        time_read_formats()[5] == "%H:%M:%S"@ + seq!['Z'],
        time_read_formats()[7] == "%H:%M:%S"@ + seq!['%', ':', 'z'],
{
    reveal_strlit("%H:%M:%S");
    reveal_strlit("%H:%M:%SZ");
    reveal_strlit("%H:%M:%S%:z");
    assert(time_read_formats()[1] =~= "%H:%M:%S"@ + Seq::<char>::empty());
    assert(time_read_formats()[5] =~= "%H:%M:%S"@ + seq!['Z']);
    assert(time_read_formats()[7] =~= "%H:%M:%S"@ + seq!['%', ':', 'z']);
}

proof fn lemma_times_to_the_minute()
    ensures
        time_read_formats()[2] == "%H:%M"@ + Seq::<char>::empty(),
        time_read_formats()[3] == "%H:%M"@ + seq!['Z'],
        time_read_formats()[4] == "%H:%M"@ + seq!['%', ':', 'z'],
{
    reveal_strlit("%H:%M");
    reveal_strlit("%H:%MZ");
    reveal_strlit("%H:%M%:z");
    assert(time_read_formats()[2] =~= "%H:%M"@ + Seq::<char>::empty());
    assert(time_read_formats()[3] =~= "%H:%M"@ + seq!['Z']);
    assert(time_read_formats()[4] =~= "%H:%M"@ + seq!['%', ':', 'z']);
}

/// A text is read as a timestamp where one of the ISO forms reads it, and as
/// what one of them reads.
pub proof fn timestamps_are_what_an_iso_form_reads(
    text: Seq<char>,
    separator: char,
    clock: Seq<char>,
    zone: Seq<char>,
)
    requires
        is_separator(separator),
        is_clock_format(clock),
        is_zone_format(zone),
    ensures
        parsed_timestamp(text, iso_format(separator, clock, zone)) is Some ==> first_timestamp(
            text,
            timestamp_read_formats(),
            0,
        ) is Some,
        first_timestamp(text, timestamp_read_formats(), 0) matches Some(stamp) ==> exists|
            format: Seq<char>,
        | is_iso_format(format) && #[trigger] parsed_timestamp(text, format) == Some(stamp),
{
    let formats = timestamp_read_formats();
    lemma_all_stamps(separator, clock, zone);
    let k = formats.index_of(iso_format(separator, clock, zone));
    assert(formats[k] == iso_format(separator, clock, zone));
    lemma_first_stamp(text, formats, 0, k);
    if first_timestamp(text, formats, 0) is Some {
        let i = choose|i: int|
            0 <= i < formats.len() && #[trigger] parsed_timestamp(text, formats[i])
                == first_timestamp(text, formats, 0);
        lemma_known_stamps(i);
    }
}

proof fn lemma_first_stamp(text: Seq<char>, formats: Seq<Seq<char>>, i: int, k: int)
    requires
        0 <= i <= formats.len(),
        k < formats.len(),
    ensures
        i <= k && parsed_timestamp(text, formats[k]) is Some ==> first_timestamp(
            text,
            formats,
            i,
        ) is Some,
        first_timestamp(text, formats, i) is Some ==> exists|j: int|
            i <= j < formats.len() && #[trigger] parsed_timestamp(text, formats[j])
                == first_timestamp(text, formats, i),
    decreases formats.len() - i,
{
    if i < formats.len() {
        lemma_first_stamp(text, formats, i + 1, k);
        if parsed_timestamp(text, formats[i]) is Some {
            assert(parsed_timestamp(text, formats[i]) == first_timestamp(text, formats, i));
        }
    }
}

/// A text is read as a time where one of the forms reads it, and as what one
/// of them reads.
pub proof fn times_are_what_a_form_reads(text: Seq<char>, clock: Seq<char>, zone: Seq<char>)
    requires
        is_time_format(clock),
        is_zone_format(zone),
    ensures
        parsed_time(text, clock + zone) is Some ==> first_time(text, time_read_formats(), 0) is Some,
        first_time(text, time_read_formats(), 0) matches Some(time) ==> exists|format: Seq<char>|
            is_clock_and_zone(format) && #[trigger] parsed_time(text, format) == Some(time),
{
    let formats = time_read_formats();
    times_are_read_in_every_form();
    assert(formats.contains(clock + zone));
    let k = formats.index_of(clock + zone);
    lemma_first_time(text, formats, 0, k);
    if first_time(text, formats, 0) is Some {
        let i = choose|i: int|
            0 <= i < formats.len() && #[trigger] parsed_time(text, formats[i]) == first_time(
                text,
                formats,
                0,
            );
        assert(is_clock_and_zone(formats[i]));
    }
}

proof fn lemma_first_time(text: Seq<char>, formats: Seq<Seq<char>>, i: int, k: int)
    requires
        0 <= i <= formats.len(),
        k < formats.len(),
    ensures
        i <= k && parsed_time(text, formats[k]) is Some ==> first_time(text, formats, i) is Some,
        first_time(text, formats, i) is Some ==> exists|j: int|
            i <= j < formats.len() && #[trigger] parsed_time(text, formats[j]) == first_time(
                text,
                formats,
                i,
            ),
    decreases formats.len() - i,
{
    if i < formats.len() {
        lemma_first_time(text, formats, i + 1, k);
        if parsed_time(text, formats[i]) is Some {
            assert(parsed_time(text, formats[i]) == first_time(text, formats, i));
        }
    }
}

/// What is written is written to the fraction of a second, with a space
/// between the date and the clock, and a point in time with its offset; and
/// each of these forms is the first that is tried in reading, or, with the
/// offset, one of those.
pub proof fn written_forms_are_read_forms()
    ensures
        date_format() == "%F"@,
        is_time_format(time_format()),
        time_format() == time_read_formats()[0],
        time_format().len() == 11,
        timestamp_format() == iso_format(' ', "%T%.f"@, Seq::<char>::empty()),
        timestamp_format() == timestamp_read_formats()[0],
        timestamptz_format() == timestamp_format() + "%:z"@,
        timestamp_read_formats().contains(timestamptz_format()),
{
    reveal_strlit("%H:%M:%S%.f");
    reveal_strlit("%F %T%.f");
    reveal_strlit("%F %T%.f%:z");
    reveal_strlit("%:z");
    lemma_spaced_fractions();
    assert(timestamptz_format() =~= timestamp_format() + "%:z"@);
    assert(timestamptz_format() == timestamp_read_formats()[16]);
}

/// The calendar: a month has 30 days or 31, in turn up to July and again from
/// August on, but February has 28, and 29 in a leap year. A leap year has 366
/// days and comes every fourth year, but not at the turn of three centuries in
/// four.
pub proof fn months_have_their_days(year: int, month: int)
    requires
        1 <= month <= 12,
    ensures
        month != 2 ==> days_in(year, month) == 30 + (month + month / 8) % 2,
        days_in(year, 2) == 28 || days_in(year, 2) == 29,
        days_in(year, 2) == 29 <==> leap(year),
        days_in(year, 1) + days_in(year, 2) + days_in(year, 3) + days_in(year, 4) + days_in(year, 5)
            + days_in(year, 6) + days_in(year, 7) + days_in(year, 8) + days_in(year, 9) + days_in(
            year,
            10,
        ) + days_in(year, 11) + days_in(year, 12) == (if leap(year) {
            366int
        } else {
            365int
        }),
        leap(year) ==> year % 4 == 0,
        year % 100 != 0 ==> (leap(year) <==> year % 4 == 0),
        year % 100 == 0 ==> (leap(year) <==> year % 400 == 0),
        leap(year) <==> leap(year + 400),
{
}

/// A date has a day of one of its twelve months, and a time stands before
/// midnight. Only the last second of a minute may be a leap second, of up to
/// twice the nanoseconds.
pub proof fn dates_and_times_have_their_bounds(
    date: (i32, u32, u32),
    time: (u32, u32, u32, u32),
)
    ensures
        valid_date(date) ==> 1 <= date.1 <= 12 && 1 <= date.2 <= 31 && -262143 <= date.0 <= 262142,
        -262143 <= date.0 <= 262142 && 1 <= date.1 <= 12 && 1 <= date.2 <= 28 ==> valid_date(date),
        valid_date(date) && date.1 == 2 && date.2 == 29 ==> date.0 as int % 4 == 0,
        valid_time(time) ==> 3600 * time.0 + 60 * time.1 + time.2 < 86400,
        time.0 <= 23 && time.1 <= 59 && time.2 <= 59 && time.3 <= 999_999_999 ==> valid_time(time),
        valid_time(time) ==> time.0 <= 23 && time.1 <= 59 && time.2 <= 59,
        valid_time(time) && time.3 > 999_999_999 ==> time.2 == 59,
        valid_time(time) ==> time.3 <= 1_999_999_999,
        time.0 <= 23 && time.1 <= 59 && time.2 == 59 && time.3 <= 1_999_999_999 ==> valid_time(time),
{
}

/// Carrying keeps the point in time, and leaves the nanoseconds of one
/// second. It fails only where the seconds do not fit.
pub proof fn carrying_keeps_the_point_in_time(seconds: i64, nanoseconds: i64)
    ensures
        carried(seconds, nanoseconds) matches Some((s, n)) ==> s * 1_000_000_000 + n == seconds
            * 1_000_000_000 + nanoseconds && n < 1_000_000_000,
        0 <= nanoseconds < 1_000_000_000 ==> carried(seconds, nanoseconds) == Some(
            (seconds, nanoseconds as u32),
        ),
        carried(seconds, nanoseconds) is None ==> {
            let all = seconds * 1_000_000_000 + nanoseconds;
            all < i64::MIN * 1_000_000_000 || all >= (i64::MAX + 1) * 1_000_000_000
        },
{
}

/// A date is read in the form that it is written in and in no other, and a
/// value that is no text, or that no form reads, is named in the error.
pub proof fn dates_and_times_are_read_from_text(v: ValueView)
    ensures
        <NaiveDate as FromSql<sql_types::Date>>::read(v) == (match v {
            ValueView::Text(s) => if parsed_date(s, "%F"@) is Some {
                Ok(parsed_date(s, "%F"@)->0)
            } else {
                Err(ReadErrorView::Temporal { expected: "date"@, got: v })
            },
            _ => Err(ReadErrorView::Mismatch { expected: "TEXT"@, got: v }),
        }),
        <NaiveTime as FromSql<sql_types::Time>>::read(v) == (match v {
            ValueView::Text(s) => if first_time(s, time_read_formats(), 0) is Some {
                Ok(first_time(s, time_read_formats(), 0)->0)
            } else {
                Err(ReadErrorView::Temporal { expected: "time"@, got: v })
            },
            _ => Err(ReadErrorView::Mismatch { expected: "TEXT"@, got: v }),
        }),
{
}

/// What is written of a date, a time, a timestamp and a point in time is their
/// own text in the written form.
pub proof fn dates_and_times_are_written_in_one_form(
    date: NaiveDate,
    time: NaiveTime,
    stamp: NaiveDateTime,
    point: UtcDateTime,
)
    ensures
        <NaiveDate as ToSql<sql_types::Date>>::written(&date) == Ok::<_, WriteErrorView>(
            ValueView::Text(formatted_date(date.parts(), "%F"@)),
        ),
        <NaiveTime as ToSql<sql_types::Time>>::written(&time) == Ok::<_, WriteErrorView>(
            ValueView::Text(formatted_time(time.parts(), "%H:%M:%S%.f"@)),
        ),
        <NaiveDateTime as ToSql<sql_types::Timestamp>>::written(&stamp) == Ok::<_, WriteErrorView>(
            ValueView::Text(
                formatted_timestamp(stamp.date.parts(), stamp.time.parts(), "%F %T%.f"@),
            ),
        ),
        <UtcDateTime as ToSql<sql_types::Timestamptz>>::written(&point) == Ok::<_, WriteErrorView>(
            ValueView::Text(
                formatted_utc(point.utc.date.parts(), point.utc.time.parts(), "%F %T%.f%:z"@),
            ),
        ),
{
}

/// Of several forms that read a text, the first counts: what is read is what
/// it reads, and no form before it reads anything.
pub proof fn the_first_form_that_reads_counts(text: Seq<char>, formats: Seq<Seq<char>>, i: int)
    requires
        0 <= i <= formats.len(),
    ensures
        match first_timestamp(text, formats, i) {
            Some(stamp) => exists|k: int|
                i <= k < formats.len() && parsed_timestamp(text, #[trigger] formats[k]) == Some(stamp)
                    && forall|j: int|
                    i <= j < k ==> parsed_timestamp(text, #[trigger] formats[j]) is None,
            None => forall|j: int|
                i <= j < formats.len() ==> parsed_timestamp(text, #[trigger] formats[j]) is None,
        },
        match first_time(text, formats, i) {
            Some(time) => exists|k: int|
                i <= k < formats.len() && parsed_time(text, #[trigger] formats[k]) == Some(time)
                    && forall|j: int|
                    i <= j < k ==> parsed_time(text, #[trigger] formats[j]) is None,
            None => forall|j: int|
                i <= j < formats.len() ==> parsed_time(text, #[trigger] formats[j]) is None,
        },
    decreases formats.len() - i,
{
    if i < formats.len() {
        the_first_form_that_reads_counts(text, formats, i + 1);
        if parsed_timestamp(text, formats[i]) is Some {
            assert(parsed_timestamp(text, formats[i]) == first_timestamp(text, formats, i));
        } else if let Some(stamp) = first_timestamp(text, formats, i + 1) {
            let k = choose|k: int|
                i + 1 <= k < formats.len() && parsed_timestamp(text, #[trigger] formats[k]) == Some(
                    stamp,
                ) && forall|j: int|
                    i + 1 <= j < k ==> parsed_timestamp(text, #[trigger] formats[j]) is None;
            assert(parsed_timestamp(text, formats[k]) == Some(stamp));
        }
        if parsed_time(text, formats[i]) is Some {
            assert(parsed_time(text, formats[i]) == first_time(text, formats, i));
        } else if let Some(time) = first_time(text, formats, i + 1) {
            let k = choose|k: int|
                i + 1 <= k < formats.len() && parsed_time(text, #[trigger] formats[k]) == Some(time)
                    && forall|j: int|
                    i + 1 <= j < k ==> parsed_time(text, #[trigger] formats[j]) is None;
            assert(parsed_time(text, formats[k]) == Some(time));
        }
    }
}

} // verus!
