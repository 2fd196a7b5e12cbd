use diesel_turso::date_and_time::{
    date_text, decode_naive_datetime, naive_from_unix, parse_date, parse_naive_datetime,
    parse_time, time_text, timestamp_read, timestamp_text, timestamptz_text,
    utc_from_timestamp, NaiveDate,
    NaiveDateTime, NaiveTime, TimestampSource,
};
use diesel_turso::deserialize::FromSql;
use diesel_turso::error::ReadError;
use diesel_turso::serialize::write_value;
use diesel_turso::sql_types::{Date, Time, Timestamp, Timestamptz};
use diesel_turso::value::{TursoValue, Value};

fn date(year: i32, month: u32, day: u32) -> NaiveDate {
    NaiveDate::new(year, month, day).unwrap()
}

fn time(hour: u32, minute: u32, second: u32, nanosecond: u32) -> NaiveTime {
    NaiveTime::new(hour, minute, second, nanosecond).unwrap()
}

fn stamp(d: NaiveDate, t: NaiveTime) -> NaiveDateTime {
    NaiveDateTime { date: d, time: t }
}

fn parts(s: NaiveDateTime) -> ((i32, u32, u32), (u32, u32, u32, u32)) {
    (s.date.to_parts(), s.time.to_parts())
}

#[test]
fn what_is_no_date_or_time_is_not_made() {
    assert!(NaiveDate::new(2023, 2, 29).is_none());
    assert!(NaiveDate::new(2024, 2, 29).is_some());
    assert!(NaiveDate::new(2024, 13, 1).is_none());
    assert!(NaiveTime::new(24, 0, 0, 0).is_none());
    assert!(NaiveTime::new(23, 59, 59, 999_999_999).is_some());
}

#[test]
fn dates_are_iso() {
    let d = date(2024, 2, 9);
    assert_eq!(date_text(d), "2024-02-09");
    assert_eq!(
        write_value::<Date, NaiveDate>(&d).unwrap(),
        Value::Text("2024-02-09".into())
    );
    assert_eq!(parse_date("2024-02-09").unwrap().to_parts(), (2024, 2, 9));
    assert!(parse_date("09.02.2024").is_none());
}

#[test]
fn times_keep_their_fraction() {
    let t = time(3, 4, 5, 120_000_000);
    assert_eq!(time_text(t), "03:04:05.120");
    assert_eq!(time_text(time(3, 4, 5, 0)), "03:04:05");
    for text in [
        "03:04:05.120",
        "03:04:05.120Z",
        "03:04:05.120+02:00",
    ] {
        assert_eq!(
            parse_time(text).unwrap().to_parts(),
            (3, 4, 5, 120_000_000),
            "{text}"
        );
    }
    for text in ["03:04", "03:04Z", "03:04+01:00"] {
        assert_eq!(parse_time(text).unwrap().to_parts(), (3, 4, 0, 0), "{text}");
    }
    assert!(parse_time("3 o'clock").is_none());
}

#[test]
fn timestamps_are_read_in_many_spellings() {
    let expected = ((2024, 2, 9), (3, 4, 5, 0));
    for text in [
        "2024-02-09 03:04:05",
        "2024-02-09T03:04:05",
        "2024-02-09 03:04:05Z",
        "2024-02-09T03:04:05Z",
        "2024-02-09 03:04:05+00:00",
        "2024-02-09T03:04:05+00:00",
    ] {
        assert_eq!(
            parts(parse_naive_datetime(text).unwrap()),
            expected,
            "{text}"
        );
    }
    assert_eq!(
        parts(parse_naive_datetime("2024-02-09 03:04").unwrap()),
        ((2024, 2, 9), (3, 4, 0, 0))
    );
    assert!(parse_naive_datetime("yesterday").is_none());
}

#[test]
fn timestamps_read_back() {
    let s = stamp(date(1999, 12, 31), time(23, 59, 59, 1));
    let text = timestamp_text(s);
    assert_eq!(text, "1999-12-31 23:59:59.000000001");
    assert_eq!(parts(parse_naive_datetime(&text).unwrap()), parts(s));
    assert_eq!(
        write_value::<Timestamp, NaiveDateTime>(&s).unwrap(),
        Value::Text(text)
    );
    assert_eq!(
        write_value::<Timestamptz, _>(&utc_from_timestamp(s)).unwrap(),
        Value::Text("1999-12-31 23:59:59.000000001+00:00".into())
    );
    for nanosecond in [0, 1, 500_000_000, 1_500_000_000] {
        for year in [-262143, -1, 0, 1970, 9999, 10000, 262142] {
            let s = stamp(date(year, 1, 31), time(23, 59, 59, nanosecond));
            let text = timestamptz_text(utc_from_timestamp(s));
            assert_eq!(parts(parse_naive_datetime(&text).unwrap()), parts(s), "{text}");
            let text = timestamp_text(s);
            assert_eq!(parts(parse_naive_datetime(&text).unwrap()), parts(s), "{text}");
            assert_eq!(
                parse_date(&date_text(s.date)).unwrap().to_parts(),
                s.date.to_parts()
            );
            assert_eq!(
                parse_time(&time_text(s.time)).unwrap().to_parts(),
                s.time.to_parts()
            );
        }
    }
}

#[test]
fn dates_and_times_are_read_from_text_alone() {
    let read = <NaiveDate as FromSql<Date>>::from_sql(TursoValue::new(&Value::Integer(1)));
    assert!(matches!(read, Err(ReadError::Mismatch { .. })));
    let read = <NaiveTime as FromSql<Time>>::from_sql(TursoValue::new(&Value::Text("x".into())));
    assert!(matches!(read, Err(ReadError::Temporal { .. })));
    let read =
        <NaiveDate as FromSql<Date>>::from_sql(TursoValue::new(&Value::Text("2024-02-09".into())));
    assert_eq!(read.unwrap().to_parts(), (2024, 2, 9));
}

#[test]
fn a_number_is_a_julian_day() {
    let bits: u64 = 2440587.5f64.to_bits();
    assert!(matches!(
        decode_naive_datetime(&Value::Real(bits)),
        TimestampSource::JulianDay(b) if b == bits
    ));
    assert!(matches!(
        decode_naive_datetime(&Value::Integer(2440588)),
        TimestampSource::JulianDayNumber(2440588)
    ));
    assert!(matches!(
        decode_naive_datetime(&Value::Null),
        TimestampSource::Unreadable
    ));
    let epoch = naive_from_unix(0, 0);
    assert_eq!(
        parts(timestamp_read(&Value::Real(bits), epoch).unwrap()),
        ((1970, 1, 1), (0, 0, 0, 0))
    );
    assert!(matches!(
        timestamp_read(&Value::Real(bits), None),
        Err(ReadError::Temporal { expected: "datetime", .. })
    ));
    assert!(timestamp_read(&Value::Text("nope".into()), epoch).is_err());
}

#[test]
fn a_full_second_is_carried() {
    assert_eq!(
        parts(naive_from_unix(59, 1_000_000_000).unwrap()),
        ((1970, 1, 1), (0, 1, 0, 0))
    );
    assert_eq!(
        parts(naive_from_unix(-1, 999_999_999).unwrap()),
        ((1969, 12, 31), (23, 59, 59, 999_999_999))
    );
    assert_eq!(
        parts(naive_from_unix(-337, -500_000_000).unwrap()),
        ((1969, 12, 31), (23, 54, 22, 500_000_000))
    );
    assert_eq!(
        parts(naive_from_unix(0, -1_000_000_000).unwrap()),
        ((1969, 12, 31), (23, 59, 59, 0))
    );
    assert!(naive_from_unix(i64::MIN, -1).is_none());
    assert!(naive_from_unix(i64::MAX, 1_000_000_000).is_none());
    assert!(naive_from_unix(i64::MAX, 0).is_none());
}
