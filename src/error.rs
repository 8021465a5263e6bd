//! The errors of reading flat files and projecting them onto schemas.
use crate::package::Package;
use crate::value::{DataType, DataValue, Scalar};
use vstd::prelude::*;

verus! {

/// A row that could not be read, the index of the offending field, and the
/// values that were expected there, if known.
#[derive(Clone, Debug, PartialEq)]
pub struct BadPayloadDetails {
    pub record: Vec<String>,
    pub idx: usize,
    pub expected: Option<Vec<String>>,
}

/// A row whose field at `idx` did not hold a value of the needed kind.
#[derive(Clone, Debug, PartialEq)]
pub struct ParseErrorDetails {
    pub record: Vec<String>,
    pub idx: usize,
}

#[derive(Clone, Debug, PartialEq)]
pub enum Error {
    UnrecognizedPayload(BadPayloadDetails),
    PayloadMissingEntry(BadPayloadDetails),
    ParseDateError(ParseErrorDetails),
    ParseTimeError(ParseErrorDetails),
    ParseIntError(ParseErrorDetails),
    UnrecognizedPackage { report_type: String, report_subtype: String },
    MissingInformationRecord,
    MissingColumnHeader(String),
    DatatypeMismatch { datatype: DataType, value: Option<DataValue> },
    IndexError(usize),
    UnsupportedDataType(DataType),
    NullError,
    UnsupportedFetchReport(Package),
    ScraperError,
    ZipUrlNoFilename(String),
    InvalidYear(String),
    InvalidMonth(String),
}

/// What an `Error` says, with rows as sequences of field texts.
pub enum ErrorView {
    UnrecognizedPayload { row: Seq<Seq<char>>, idx: int, expected: Option<Seq<Seq<char>>> },
    PayloadMissingEntry { row: Seq<Seq<char>>, idx: int, expected: Option<Seq<Seq<char>>> },
    ParseDateError { row: Seq<Seq<char>>, idx: int },
    ParseTimeError { row: Seq<Seq<char>>, idx: int },
    ParseIntError { row: Seq<Seq<char>>, idx: int },
    UnrecognizedPackage { report_type: Seq<char>, report_subtype: Seq<char> },
    MissingInformationRecord,
    MissingColumnHeader(Seq<char>),
    DatatypeMismatch { datatype: DataType, value: Option<Scalar> },
    IndexError(int),
    UnsupportedDataType(DataType),
    NullError,
    UnsupportedFetchReport(Package),
    ScraperError,
    ZipUrlNoFilename(Seq<char>),
    InvalidYear(Seq<char>),
    InvalidMonth(Seq<char>),
}

impl DeepView for Error {
    type V = ErrorView;

    open spec fn deep_view(&self) -> ErrorView {
        match self {
            Error::UnrecognizedPayload(d) => ErrorView::UnrecognizedPayload {
                row: d.record.deep_view(),
                idx: d.idx as int,
                expected: d.expected.deep_view(),
            },
            Error::PayloadMissingEntry(d) => ErrorView::PayloadMissingEntry {
                row: d.record.deep_view(),
                idx: d.idx as int,
                expected: d.expected.deep_view(),
            },
            Error::ParseDateError(d) => ErrorView::ParseDateError {
                row: d.record.deep_view(),
                idx: d.idx as int,
            },
            Error::ParseTimeError(d) => ErrorView::ParseTimeError {
                row: d.record.deep_view(),
                idx: d.idx as int,
            },
            Error::ParseIntError(d) => ErrorView::ParseIntError {
                row: d.record.deep_view(),
                idx: d.idx as int,
            },
            Error::UnrecognizedPackage { report_type, report_subtype } =>
                ErrorView::UnrecognizedPackage {
                report_type: report_type@,
                report_subtype: report_subtype@,
            },
            Error::MissingInformationRecord => ErrorView::MissingInformationRecord,
            Error::MissingColumnHeader(c) => ErrorView::MissingColumnHeader(c@),
            Error::DatatypeMismatch { datatype, value } => ErrorView::DatatypeMismatch {
                datatype: *datatype,
                value: value.deep_view(),
            },
            Error::IndexError(i) => ErrorView::IndexError(*i as int),
            Error::UnsupportedDataType(dt) => ErrorView::UnsupportedDataType(*dt),
            Error::NullError => ErrorView::NullError,
            Error::UnsupportedFetchReport(p) => ErrorView::UnsupportedFetchReport(*p),
            Error::ScraperError => ErrorView::ScraperError,
            Error::ZipUrlNoFilename(s) => ErrorView::ZipUrlNoFilename(s@),
            Error::InvalidYear(s) => ErrorView::InvalidYear(s@),
            Error::InvalidMonth(s) => ErrorView::InvalidMonth(s@),
        }
    }
}

/// A copy of a row, field by field.
pub fn copy_row(row: &Vec<String>) -> (r: Vec<String>)
    ensures
        r.deep_view() == row.deep_view(),
{
    let mut out: Vec<String> = Vec::new();
    let mut i: usize = 0;
    while i < row.len()
        invariant
            i <= row.len(),
            out.deep_view() =~= row.deep_view().take(i as int),
        decreases row.len() - i,
    {
        let f = row[i].clone();
        let ghost before = out.deep_view();
        out.push(f);
        assert(out.deep_view() =~= before.push(row.deep_view()[i as int]));
        assert(row.deep_view().take(i + 1) =~= row.deep_view().take(i as int).push(
            row.deep_view()[i as int],
        ));
        i = i + 1;
    }
    assert(row.deep_view().take(row.len() as int) =~= row.deep_view());
    out
}

/// The width in characters of a row written with commas between fields.
pub open spec fn joined_len(row: Seq<Seq<char>>) -> int
    decreases row.len(),
{
    if row.len() == 0 {
        0
    } else if row.len() == 1 {
        row[0].len() as int
    } else {
        joined_len(row.drop_last()) + 1 + row.last().len()
    }
}

/// Where the marks under a field start, and how many there are: under the
/// field at `idx` when the row has one there, else three marks just past
/// the row's end.
pub open spec fn underline_of(row: Seq<Seq<char>>, idx: int) -> (int, int) {
    if 0 <= idx < row.len() {
        let sep: int = if idx > 0 {
            1
        } else {
            0
        };
        (joined_len(row.take(idx)) + sep, row[idx].len() as int)
    } else {
        (joined_len(row), 3)
    }
}

impl BadPayloadDetails {
    pub fn new(record: Vec<String>) -> (r: Self)
        ensures
            r.record == record,
            r.idx == 0,
            r.expected.is_none(),
    {
        BadPayloadDetails { record, idx: 0, expected: None }
    }

    pub fn at_index(self, idx: usize) -> (r: Self)
        ensures
            r.record == self.record,
            r.idx == idx,
            r.expected == self.expected,
    {
        BadPayloadDetails { idx, ..self }
    }

    pub fn expected_one_of(self, expected: Vec<String>) -> (r: Self)
        ensures
            r.record == self.record,
            r.idx == self.idx,
            r.expected == Some(expected),
    {
        BadPayloadDetails { expected: Some(expected), ..self }
    }

    /// Where the marks under the offending field start in the row written
    /// with commas, and how many there are.
    pub fn underline(&self) -> (r: (usize, usize))
        requires
            joined_len(self.record.deep_view()) + 3 <= usize::MAX,
        ensures
            r.0 as int == underline_of(self.record.deep_view(), self.idx as int).0,
            r.1 as int == underline_of(self.record.deep_view(), self.idx as int).1,
    {
        underline_at(&self.record, self.idx)
    }
}

impl ParseErrorDetails {
    pub fn new(record: Vec<String>, idx: usize) -> (r: Self)
        ensures
            r.record == record,
            r.idx == idx,
    {
        ParseErrorDetails { record, idx }
    }

    pub fn underline(&self) -> (r: (usize, usize))
        requires
            joined_len(self.record.deep_view()) + 3 <= usize::MAX,
        ensures
            r.0 as int == underline_of(self.record.deep_view(), self.idx as int).0,
            r.1 as int == underline_of(self.record.deep_view(), self.idx as int).1,
    {
        underline_at(&self.record, self.idx)
    }
}

proof fn lemma_joined_len_grows(row: Seq<Seq<char>>, i: int)
    requires
        0 <= i <= row.len(),
    ensures
        joined_len(row.take(i)) <= joined_len(row),
        joined_len(row.take(i)) >= 0,
    decreases row.len() - i,
{
    if i < row.len() {
        lemma_joined_len_grows(row, i + 1);
        assert(row.take(i + 1).drop_last() =~= row.take(i));
    } else {
        assert(row.take(i) =~= row);
    }
    lemma_joined_len_nonneg(row.take(i));
}

proof fn lemma_joined_len_nonneg(row: Seq<Seq<char>>)
    ensures
        joined_len(row) >= 0,
    decreases row.len(),
{
    if row.len() > 1 {
        lemma_joined_len_nonneg(row.drop_last());
    }
}

/// The underline of the field at `idx` of `row`.
fn underline_at(row: &Vec<String>, idx: usize) -> (r: (usize, usize))
    requires
        joined_len(row.deep_view()) + 3 <= usize::MAX,
    ensures
        r.0 as int == underline_of(row.deep_view(), idx as int).0,
        r.1 as int == underline_of(row.deep_view(), idx as int).1,
{
    let ghost v = row.deep_view();
    let n = row.len();
    let mut width: usize = 0;
    let mut i: usize = 0;
    let stop: usize = if idx < n {
        idx
    } else {
        n
    };
    while i < stop
        invariant
            stop <= n == v.len(),
            v == row.deep_view(),
            i <= stop,
            width as int == joined_len(v.take(i as int)),
            joined_len(v) + 3 <= usize::MAX,
        decreases stop - i,
    {
        proof {
            lemma_joined_len_grows(v, i + 1);
            assert(v.take(i + 1).drop_last() =~= v.take(i as int));
            assert(v.take(i + 1).last() == v[i as int]);
        }
        let len = row[i].as_str().unicode_len();
        if i == 0 {
            width = len;
        } else {
            width = width + 1 + len;
        }
        i = i + 1;
    }
    if idx < n {
        proof {
            lemma_joined_len_grows(v, idx as int);
        }
        let start = if idx > 0 {
            width + 1
        } else {
            width
        };
        (start, row[idx].as_str().unicode_len())
    } else {
        assert(v.take(n as int) =~= v);
        (width, 3)
    }
}

} // verus!
