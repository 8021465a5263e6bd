//! Scalar values: decoding a field's text into one, and coercing one to a
//! column's datatype.
use crate::calendar::{
    date_format, date_parsed, datetime_minutes_format, lemma_formats, date_text, datetime_format, datetime_parsed, datetime_text,
    epoch_seconds, parse_date, parse_datetime, parse_time, time_format, time_parsed, time_text,
    CivilDate, ClockTime, DateStamp, DATETIME_FORMAT, DATETIME_MINUTES_FORMAT, DATE_FORMAT,
    TIME_FORMAT,
};
use crate::calendar::holds_char;
use crate::text::{
    int_text, int_to_text, is_float_literal, is_float_text, is_unsigned_float, i64_of_text,
    is_separator, lemma_decimal, lemma_int_text_reads_back, lemma_separator_not_float,
    lemma_separator_not_numeral, padded, parse_i64, spells,
};
use vstd::prelude::*;
use vstd::string::*;

verus! {

/// A decoded field. A floating-point value keeps the literal it was read
/// from; its number is taken from that text where a column needs it.
#[derive(Clone, Debug, PartialEq)]
pub enum DataValue {
    Integer(i64),
    Float(String),
    Date(CivilDate),
    Time(ClockTime),
    DateTime(DateStamp),
    String(String),
}

/// What a `DataValue` denotes.
pub enum Scalar {
    Integer(i64),
    Float(Seq<char>),
    Date(CivilDate),
    Time(ClockTime),
    DateTime(DateStamp),
    Text(Seq<char>),
}

impl DeepView for DataValue {
    type V = Scalar;

    open spec fn deep_view(&self) -> Scalar {
        match self {
            DataValue::Integer(i) => Scalar::Integer(*i),
            DataValue::Float(t) => Scalar::Float(t@),
            DataValue::Date(d) => Scalar::Date(*d),
            DataValue::Time(t) => Scalar::Time(*t),
            DataValue::DateTime(dt) => Scalar::DateTime(*dt),
            DataValue::String(s) => Scalar::Text(s@),
        }
    }
}

impl Scalar {
    /// Dates and times are valid, and a float's text is a float literal.
    pub open spec fn wf(self) -> bool {
        match self {
            Scalar::Float(t) => is_float_text(t),
            Scalar::Date(d) => d.wf(),
            Scalar::Time(t) => t.wf(),
            Scalar::DateTime(dt) => dt.wf(),
            _ => true,
        }
    }

    /// The canonical text of a value, as a string column holds it.
    pub open spec fn text(self) -> Seq<char> {
        match self {
            Scalar::Integer(i) => int_text(i as int),
            Scalar::Float(t) => t,
            Scalar::Date(d) => d.iso_text(),
            Scalar::Time(t) => t.iso_text(),
            Scalar::DateTime(dt) => dt.iso_text(),
            Scalar::Text(s) => s,
        }
    }

    /// The text of a value in the form that the flat files write, from
    /// which decoding reads it back.
    pub open spec fn written(self) -> Seq<char> {
        match self {
            Scalar::Integer(i) => int_text(i as int),
            Scalar::Float(t) => t,
            Scalar::Date(d) => d.slash_text(),
            Scalar::Time(t) => t.colon_text(),
            Scalar::DateTime(dt) => dt.slash_text(),
            Scalar::Text(s) => s,
        }
    }
}

/// The decoding of a field: empty text is null; otherwise the first of
/// integer, float, date, time and date-time (with seconds, then without)
/// that reads the whole text, else the text itself.
pub open spec fn decoded(s: Seq<char>) -> Option<Scalar> {
    if s.len() == 0 {
        None
    } else if i64_of_text(s).is_some() {
        Some(Scalar::Integer(i64_of_text(s).unwrap()))
    } else if is_float_text(s) {
        Some(Scalar::Float(s))
    } else if date_parsed(s, date_format()).is_some() {
        Some(Scalar::Date(date_parsed(s, date_format()).unwrap()))
    } else if time_parsed(s, time_format()).is_some() {
        Some(Scalar::Time(time_parsed(s, time_format()).unwrap()))
    } else if datetime_parsed(s, datetime_format()).is_some() {
        Some(Scalar::DateTime(datetime_parsed(s, datetime_format()).unwrap()))
    } else if datetime_parsed(s, datetime_minutes_format()).is_some() {
        Some(Scalar::DateTime(datetime_parsed(s, datetime_minutes_format()).unwrap()))
    } else {
        Some(Scalar::Text(s))
    }
}

/// The values that their written form stands for exactly: integers; float
/// literals that are not integer numerals; and dates, times and date-times
/// in whole seconds with four-digit years.
pub open spec fn round_trips(v: Scalar) -> bool {
    match v {
        Scalar::Integer(_) => true,
        Scalar::Float(t) => is_float_text(t) && i64_of_text(t) is None,
        Scalar::Date(d) => d.wf() && 0 <= d.year <= 9999,
        Scalar::Time(t) => t.wf() && t.nanosecond == 0,
        Scalar::DateTime(dt) => dt.wf() && 0 <= dt.date.year <= 9999 && dt.time.nanosecond == 0,
        Scalar::Text(_) => false,
    }
}

proof fn lemma_char_between(a: Seq<char>, c: char, b: Seq<char>)
    ensures
        (a + seq![c] + b)[a.len() as int] == c,
        holds_char(a + seq![c] + b, c),
{
    assert((a + seq![c] + b)[a.len() as int] == c);
}

/// The written form of a value with a separator at `k` is neither an
/// integer nor a float literal.
proof fn lemma_separated_text(s: Seq<char>, k: int)
    requires
        0 <= k < s.len(),
        is_separator(s[k]),
    ensures
        i64_of_text(s) is None,
        !is_float_text(s),
{
    lemma_separator_not_numeral(s, k);
    lemma_separator_not_float(s, k);
}

proof fn lemma_date_written(d: CivilDate)
    ensures
        d.slash_text().len() > 0,
        i64_of_text(d.slash_text()) is None,
        !is_float_text(d.slash_text()),
        holds_char(d.slash_text(), '/'),
{
    let a = padded(d.year as nat, 4);
    let b = padded(d.month as nat, 2) + seq!['/'] + padded(d.day as nat, 2);
    lemma_char_between(a, '/', b);
    assert(d.slash_text() =~= a + seq!['/'] + b);
    lemma_separated_text(d.slash_text(), a.len() as int);
}

proof fn lemma_time_written(t: ClockTime)
    ensures
        t.colon_text().len() > 0,
        i64_of_text(t.colon_text()) is None,
        !is_float_text(t.colon_text()),
        holds_char(t.colon_text(), ':'),
{
    let a = padded(t.hour as nat, 2);
    let b = padded(t.minute as nat, 2) + seq![':'] + padded(t.second as nat, 2);
    lemma_char_between(a, ':', b);
    assert(t.colon_text() =~= a + seq![':'] + b);
    lemma_separated_text(t.colon_text(), a.len() as int);
}

proof fn lemma_datetime_written(dt: DateStamp)
    ensures
        dt.slash_text().len() > 0,
        i64_of_text(dt.slash_text()) is None,
        !is_float_text(dt.slash_text()),
        holds_char(dt.slash_text(), ':'),
        holds_char(dt.slash_text(), '/'),
{
    let s = dt.slash_text();
    let d = dt.date.slash_text();
    let t = dt.time.colon_text();
    lemma_char_between(d, ' ', t);
    assert(s =~= d + seq![' '] + t);
    lemma_separated_text(s, d.len() as int);
    lemma_date_written(dt.date);
    lemma_time_written(dt.time);
    let i = choose|i: int| 0 <= i < d.len() && d[i] == '/';
    assert(s[i] == '/');
    let j = choose|j: int| 0 <= j < t.len() && t[j] == ':';
    assert(s[d.len() + 1 + j] == ':');
}

/// What decoding needs to know of the written form of a value.
proof fn lemma_written_facts(v: Scalar)
    requires
        round_trips(v),
    ensures
        v.written().len() > 0,
        v is Integer ==> i64_of_text(v.written()) == Some(v->Integer_0),
        v is Float ==> i64_of_text(v.written()) is None && is_float_text(v.written()),
        v is Date || v is Time || v is DateTime ==> i64_of_text(v.written()) is None
            && !is_float_text(v.written()),
        v is Time || v is DateTime ==> holds_char(v.written(), ':'),
        v is DateTime ==> holds_char(v.written(), '/'),
{
    match v {
        Scalar::Integer(i) => {
            lemma_int_text_reads_back(i);
            lemma_decimal(if i < 0 { (-i) as nat } else { i as nat });
        },
        Scalar::Float(t) => {
            if t.len() == 0 {
                assert(!is_unsigned_float(t)) by {
                    assert(!spells(t, seq!['i', 'n', 'f']));
                    assert(!spells(t, seq!['n', 'a', 'n']));
                    assert(!spells(t, seq!['i', 'n', 'f', 'i', 'n', 'i', 't', 'y']));
                }
            }
        },
        Scalar::Date(d) => lemma_date_written(d),
        Scalar::Time(t) => lemma_time_written(t),
        Scalar::DateTime(dt) => lemma_datetime_written(dt),
        Scalar::Text(_) => {},
    }
}

pub open spec fn opt_wf(v: Option<Scalar>) -> bool {
    match v {
        Some(x) => x.wf(),
        None => true,
    }
}

/// The datatypes that a report's columns are declared with.
#[derive(Clone, Copy, Debug, PartialEq, Eq, Structural)]
pub enum DataType {
    Utf8,
    Float64,
    Int16,
    Int8,
    Boolean,
    TimestampSecond,
}

/// A number for a 64-bit float column: an integer to widen, or a float
/// literal to read.
#[derive(Clone, Debug, PartialEq)]
pub enum FloatSource {
    Integer(i64),
    Literal(String),
}

pub enum FloatSourceView {
    Integer(i64),
    Literal(Seq<char>),
}

impl DeepView for FloatSource {
    type V = FloatSourceView;

    open spec fn deep_view(&self) -> FloatSourceView {
        match self {
            FloatSource::Integer(i) => FloatSourceView::Integer(*i),
            FloatSource::Literal(t) => FloatSourceView::Literal(t@),
        }
    }
}

/// One non-null cell of a column.
#[derive(Clone, Debug, PartialEq)]
pub enum Cell {
    Text(String),
    Float(FloatSource),
    Int16(i16),
    Boolean(bool),
    Timestamp(i64),
}

pub enum CellView {
    Text(Seq<char>),
    Float(FloatSourceView),
    Int16(i16),
    Boolean(bool),
    Timestamp(int),
}

impl DeepView for Cell {
    type V = CellView;

    open spec fn deep_view(&self) -> CellView {
        match self {
            Cell::Text(s) => CellView::Text(s@),
            Cell::Float(f) => CellView::Float(f.deep_view()),
            Cell::Int16(i) => CellView::Int16(*i),
            Cell::Boolean(b) => CellView::Boolean(*b),
            Cell::Timestamp(t) => CellView::Timestamp(*t as int),
        }
    }
}

/// The datatypes that columns can be built for.
pub open spec fn supported(dt: DataType) -> bool {
    !(dt is Int8)
}

/// A value coerced to a column's datatype, or `None` where it does not fit.
pub open spec fn coerced(v: Scalar, dt: DataType) -> Option<CellView> {
    match dt {
        DataType::Utf8 => Some(CellView::Text(v.text())),
        DataType::Float64 => match v {
            Scalar::Integer(i) => Some(CellView::Float(FloatSourceView::Integer(i))),
            Scalar::Float(t) => Some(CellView::Float(FloatSourceView::Literal(t))),
            _ => None,
        },
        DataType::Int16 => match v {
            Scalar::Integer(i) => if i16::MIN <= i <= i16::MAX {
                Some(CellView::Int16(i as i16))
            } else {
                None
            },
            _ => None,
        },
        DataType::Boolean => match v {
            Scalar::Integer(i) => Some(CellView::Boolean(i == 1)),
            _ => None,
        },
        DataType::TimestampSecond => match v {
            Scalar::DateTime(dt) => Some(CellView::Timestamp(dt.epoch_seconds())),
            Scalar::Date(d) => Some(CellView::Timestamp(DateStamp::midnight(d).epoch_seconds())),
            _ => None,
        },
        DataType::Int8 => None,
    }
}

impl DataValue {
    pub open spec fn wf(&self) -> bool {
        self.deep_view().wf()
    }

    /// Decodes one field of a data row. Decoding the written form of a
    /// value gives the value back.
    pub fn from_str(s: &str) -> (r: Option<DataValue>)
        ensures
            r.deep_view() == decoded(s@),
            opt_wf(r.deep_view()),
            forall|v: Scalar| #[trigger] round_trips(v) && v.written() == s@ ==> decoded(s@) == Some(v),
    {
        proof {
            lemma_formats();
        }
        if s.unicode_len() == 0 {
            proof {
                assert forall|v: Scalar| #[trigger] round_trips(v) && v.written() == s@ implies decoded(s@)
                    == Some(v) by {
                    lemma_written_facts(v);
                }
            }
            return None;
        }
        let integer = parse_i64(s);
        if let Some(i) = integer {
            proof {
                assert forall|v: Scalar| #[trigger] round_trips(v) && v.written() == s@ implies decoded(s@)
                    == Some(v) by {
                    lemma_written_facts(v);
                }
            }
            return Some(DataValue::Integer(i));
        }
        let float = is_float_literal(s);
        if float {
            proof {
                assert forall|v: Scalar| #[trigger] round_trips(v) && v.written() == s@ implies decoded(s@)
                    == Some(v) by {
                    lemma_written_facts(v);
                }
            }
            return Some(DataValue::Float(String::from_str(s)));
        }
        let date = parse_date(s, DATE_FORMAT);
        if let Some(d) = date {
            proof {
                assert forall|v: Scalar| #[trigger] round_trips(v) && v.written() == s@ implies decoded(s@)
                    == Some(v) by {
                    lemma_written_facts(v);
                }
            }
            return Some(DataValue::Date(d));
        }
        let time = parse_time(s, TIME_FORMAT);
        if let Some(t) = time {
            proof {
                assert forall|v: Scalar| #[trigger] round_trips(v) && v.written() == s@ implies decoded(s@)
                    == Some(v) by {
                    lemma_written_facts(v);
                }
            }
            return Some(DataValue::Time(t));
        }
        let stamp = parse_datetime(s, DATETIME_FORMAT);
        if let Some(dt) = stamp {
            proof {
                assert forall|v: Scalar| #[trigger] round_trips(v) && v.written() == s@ implies decoded(s@)
                    == Some(v) by {
                    lemma_written_facts(v);
                }
            }
            return Some(DataValue::DateTime(dt));
        }
        let minutes = parse_datetime(s, DATETIME_MINUTES_FORMAT);
        proof {
            assert forall|v: Scalar| #[trigger] round_trips(v) && v.written() == s@ implies decoded(s@)
                == Some(v) by {
                lemma_written_facts(v);
            }
        }
        if let Some(dt) = minutes {
            return Some(DataValue::DateTime(dt));
        }
        Some(DataValue::String(String::from_str(s)))
    }

    /// A boolean: the integer 1 is true, any other integer false.
    pub fn as_bool(&self) -> (r: Option<bool>)
        ensures
            r == match self.deep_view() {
                Scalar::Integer(i) => Some(i == 1),
                _ => None::<bool>,
            },
    {
        match self {
            DataValue::Integer(i) => Some(*i == 1),
            _ => None,
        }
    }

    /// A 16-bit integer: an integer that fits.
    pub fn as_i16(&self) -> (r: Option<i16>)
        ensures
            r == match self.deep_view() {
                Scalar::Integer(i) => if i16::MIN <= i <= i16::MAX {
                    Some(i as i16)
                } else {
                    None
                },
                _ => None::<i16>,
            },
    {
        match self {
            DataValue::Integer(i) => if i16::MIN as i64 <= *i && *i <= i16::MAX as i64 {
                Some(*i as i16)
            } else {
                None
            },
            _ => None,
        }
    }

    /// A 64-bit float: an integer widens, a float passes through.
    pub fn as_f64(&self) -> (r: Option<FloatSource>)
        ensures
            r.deep_view() == match self.deep_view() {
                Scalar::Integer(i) => Some(FloatSourceView::Integer(i)),
                Scalar::Float(t) => Some(FloatSourceView::Literal(t)),
                _ => None::<FloatSourceView>,
            },
    {
        match self {
            DataValue::Integer(i) => Some(FloatSource::Integer(*i)),
            DataValue::Float(t) => Some(FloatSource::Literal(t.clone())),
            _ => None,
        }
    }

    /// The canonical text of any value.
    pub fn as_string(&self) -> (r: Option<String>)
        requires
            self.wf(),
        ensures
            r matches Some(s) && s@ == self.deep_view().text(),
    {
        match self {
            DataValue::Integer(i) => Some(int_to_text(*i)),
            DataValue::Float(t) => Some(t.clone()),
            DataValue::Date(d) => Some(date_text(d)),
            DataValue::Time(t) => Some(time_text(t)),
            DataValue::DateTime(dt) => Some(datetime_text(dt)),
            DataValue::String(s) => Some(s.clone()),
        }
    }

    /// A date-time: a date-time passes through, a date is its midnight.
    pub fn as_datetime(&self) -> (r: Option<DateStamp>)
        ensures
            r == match self.deep_view() {
                Scalar::DateTime(dt) => Some(dt),
                Scalar::Date(d) => Some(DateStamp::midnight(d)),
                _ => None::<DateStamp>,
            },
    {
        match self {
            DataValue::DateTime(dt) => Some(*dt),
            DataValue::Date(d) => Some(
                DateStamp {
                    date: *d,
                    time: ClockTime { hour: 0, minute: 0, second: 0, nanosecond: 0 },
                },
            ),
            _ => None,
        }
    }

    /// The value coerced to a column's datatype; `None` where it does not
    /// fit.
    pub fn coerce(&self, dt: DataType) -> (r: Option<Cell>)
        requires
            self.wf(),
            supported(dt),
        ensures
            r.deep_view() == coerced(self.deep_view(), dt),
    {
        match dt {
            DataType::Utf8 => match self.as_string() {
                Some(s) => Some(Cell::Text(s)),
                None => None,
            },
            DataType::Float64 => match self.as_f64() {
                Some(f) => Some(Cell::Float(f)),
                None => None,
            },
            DataType::Int16 => match self.as_i16() {
                Some(i) => Some(Cell::Int16(i)),
                None => None,
            },
            DataType::Boolean => match self.as_bool() {
                Some(b) => Some(Cell::Boolean(b)),
                None => None,
            },
            _ => match self.as_datetime() {
                Some(dt) => Some(Cell::Timestamp(epoch_seconds(&dt))),
                None => None,
            },
        }
    }
}

} // verus!
