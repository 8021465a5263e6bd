use nem_mms::calendar::{CivilDate, ClockTime, DateStamp};
use nem_mms::value::{Cell, DataType, DataValue, FloatSource};

fn date(year: i32, month: u32, day: u32) -> CivilDate {
    CivilDate { year, month, day }
}

fn time(hour: u32, minute: u32, second: u32) -> ClockTime {
    ClockTime { hour, minute, second, nanosecond: 0 }
}

#[test]
fn empty_field_is_null() {
    assert_eq!(DataValue::from_str(""), None);
}

#[test]
fn decoding_follows_the_cascade() {
    assert_eq!(DataValue::from_str("42"), Some(DataValue::Integer(42)));
    assert_eq!(DataValue::from_str("-7"), Some(DataValue::Integer(-7)));
    assert_eq!(DataValue::from_str("+7"), Some(DataValue::Integer(7)));
    assert_eq!(DataValue::from_str("007"), Some(DataValue::Integer(7)));
    assert_eq!(DataValue::from_str("9223372036854775807"), Some(DataValue::Integer(i64::MAX)));
    assert_eq!(DataValue::from_str("-9223372036854775808"), Some(DataValue::Integer(i64::MIN)));
    assert_eq!(DataValue::from_str("9223372036854775808"), Some(DataValue::Float("9223372036854775808".to_string())));
    assert_eq!(DataValue::from_str("1.5"), Some(DataValue::Float("1.5".to_string())));
    assert_eq!(DataValue::from_str("-.5e-3"), Some(DataValue::Float("-.5e-3".to_string())));
    assert_eq!(DataValue::from_str("1."), Some(DataValue::Float("1.".to_string())));
    assert_eq!(DataValue::from_str("NaN"), Some(DataValue::Float("NaN".to_string())));
    assert_eq!(DataValue::from_str("-Infinity"), Some(DataValue::Float("-Infinity".to_string())));
    assert_eq!(DataValue::from_str("e5"), Some(DataValue::String("e5".to_string())));
    assert_eq!(DataValue::from_str("1e"), Some(DataValue::String("1e".to_string())));
    assert_eq!(DataValue::from_str("."), Some(DataValue::String(".".to_string())));
    assert_eq!(DataValue::from_str("2021/03/31"), Some(DataValue::Date(date(2021, 3, 31))));
    assert_eq!(DataValue::from_str("04:43:39"), Some(DataValue::Time(time(4, 43, 39))));
    assert_eq!(DataValue::from_str("2021/03/30 12:19:05"),
               Some(DataValue::DateTime(DateStamp { date: date(2021, 3, 30), time: time(12, 19, 5) })));
    assert_eq!(DataValue::from_str("2021/03/30 12:19"),
               Some(DataValue::DateTime(DateStamp { date: date(2021, 3, 30), time: time(12, 19, 0) })));
    assert_eq!(DataValue::from_str("2021/02/30"), Some(DataValue::String("2021/02/30".to_string())));
    assert_eq!(DataValue::from_str("DUID1"), Some(DataValue::String("DUID1".to_string())));
}

#[test]
fn written_forms_decode_back() {
    let values = vec![
        DataValue::Integer(0),
        DataValue::Integer(-1234),
        DataValue::Float("2.75".to_string()),
        DataValue::Date(date(2009, 7, 1)),
        DataValue::Time(time(23, 5, 0)),
        DataValue::DateTime(DateStamp { date: date(2021, 12, 31), time: time(0, 0, 9) }),
    ];
    let written = ["0", "-1234", "2.75", "2009/07/01", "23:05:00", "2021/12/31 00:00:09"];
    for (v, w) in values.into_iter().zip(written.iter()) {
        assert_eq!(DataValue::from_str(w), Some(v));
    }
}

#[test]
fn coercions() {
    assert_eq!(DataValue::Integer(1).as_bool(), Some(true));
    assert_eq!(DataValue::Integer(0).as_bool(), Some(false));
    assert_eq!(DataValue::Integer(-1).as_bool(), Some(false));
    assert_eq!(DataValue::Integer(2).as_bool(), Some(false));
    assert_eq!(DataValue::Float("1.0".to_string()).as_bool(), None);
    assert_eq!(DataValue::Integer(32767).as_i16(), Some(32767));
    assert_eq!(DataValue::Integer(-32768).as_i16(), Some(-32768));
    assert_eq!(DataValue::Integer(32768).as_i16(), None);
    assert_eq!(DataValue::String("x".to_string()).as_i16(), None);
    assert_eq!(DataValue::Integer(3).as_f64(), Some(FloatSource::Integer(3)));
    assert_eq!(DataValue::Float("3.5".to_string()).as_f64(), Some(FloatSource::Literal("3.5".to_string())));
    assert_eq!(DataValue::Date(date(2021, 1, 1)).as_f64(), None);
    assert_eq!(DataValue::Integer(-12).as_string(), Some("-12".to_string()));
    assert_eq!(DataValue::Date(date(2021, 3, 31)).as_string(), Some("2021-03-31".to_string()));
    assert_eq!(DataValue::Time(time(4, 3, 9)).as_string(), Some("04:03:09".to_string()));
    assert_eq!(DataValue::Time(ClockTime { hour: 4, minute: 3, second: 9, nanosecond: 500_000_000 }).as_string(),
               Some("04:03:09.500".to_string()));
    assert_eq!(DataValue::DateTime(DateStamp { date: date(2021, 3, 31), time: time(12, 0, 1) }).as_string(),
               Some("2021-03-31 12:00:01".to_string()));
    assert_eq!(DataValue::String("abc".to_string()).as_string(), Some("abc".to_string()));
    assert_eq!(DataValue::Date(date(2021, 3, 31)).as_datetime(),
               Some(DateStamp { date: date(2021, 3, 31), time: time(0, 0, 0) }));
    assert_eq!(DataValue::Integer(5).as_datetime(), None);
}

#[test]
fn timestamps_count_seconds_from_the_epoch() {
    let midnight = DataValue::Date(date(2021, 3, 31));
    assert_eq!(midnight.coerce(DataType::TimestampSecond), Some(Cell::Timestamp(1617148800)));
    let dt = DataValue::DateTime(DateStamp { date: date(1970, 1, 2), time: time(0, 0, 1) });
    assert_eq!(dt.coerce(DataType::TimestampSecond), Some(Cell::Timestamp(86401)));
    let before = DataValue::DateTime(DateStamp { date: date(1969, 12, 31), time: time(23, 59, 59) });
    assert_eq!(before.coerce(DataType::TimestampSecond), Some(Cell::Timestamp(-1)));
    assert_eq!(DataValue::Time(time(1, 0, 0)).coerce(DataType::TimestampSecond), None);
    assert_eq!(DataValue::Integer(7).coerce(DataType::Utf8), Some(Cell::Text("7".to_string())));
    assert_eq!(DataValue::Integer(7).coerce(DataType::Boolean), Some(Cell::Boolean(false)));
    assert_eq!(DataValue::Integer(7).coerce(DataType::Int16), Some(Cell::Int16(7)));
}
