//! Rows of a flat file, read into comment, information and data records.
use crate::calendar::{
    date_format, date_parsed, lemma_formats, parse_date, parse_time, time_format, time_parsed,
    CivilDate, ClockTime, DATE_FORMAT, TIME_FORMAT,
};
use crate::error::{copy_row, BadPayloadDetails, Error, ErrorView, ParseErrorDetails};
use crate::text::{parse_u32, same_text, u32_of_text};
use crate::value::{decoded, opt_wf, DataValue, Scalar};
use vstd::prelude::*;
use vstd::string::*;

verus! {

/// The error of a field that is not there.
pub open spec fn missing_at(row: Seq<Seq<char>>, idx: int) -> ErrorView {
    ErrorView::PayloadMissingEntry { row, idx, expected: None }
}

/// The index of the first field absent from a row that needs fields from
/// `lo` on.
pub open spec fn first_absent(row: Seq<Seq<char>>, lo: int) -> int {
    if row.len() < lo {
        lo
    } else {
        row.len() as int
    }
}

pub open spec fn tags() -> Seq<Seq<char>> {
    seq!["C"@, "I"@, "D"@]
}

/// The kind of a blind update transaction.
#[derive(Clone, Copy, Debug, PartialEq, Eq, Structural)]
pub enum BlindUpdateReportId {
    BlindUpdateSubmission,
    BlindUpdateResponse,
}

impl BlindUpdateReportId {
    pub open spec fn named(s: Seq<char>) -> Option<BlindUpdateReportId> {
        if s == "BLIND_UPDATE_SUBMISSION"@ {
            Some(BlindUpdateReportId::BlindUpdateSubmission)
        } else if s == "BLIND_UPDATE_RESPONSE"@ {
            Some(BlindUpdateReportId::BlindUpdateResponse)
        } else {
            None
        }
    }

    pub fn from_str(s: &str) -> (r: Option<Self>)
        ensures
            r == BlindUpdateReportId::named(s@),
    {
        if same_text(s, "BLIND_UPDATE_SUBMISSION") {
            Some(BlindUpdateReportId::BlindUpdateSubmission)
        } else if same_text(s, "BLIND_UPDATE_RESPONSE") {
            Some(BlindUpdateReportId::BlindUpdateResponse)
        } else {
            None
        }
    }
}

/// The identifier of a report, kept as written.
#[derive(Clone, Debug, PartialEq)]
pub struct FileId(pub String);

impl FileId {
    pub fn from_str(s: &str) -> (r: Self)
        ensures
            r.0@ == s@,
    {
        FileId(String::from_str(s))
    }
}

/// The comment that identifies a file.
#[derive(Clone, Debug, PartialEq)]
pub struct CommentRecordEMMS {
    pub system: String,
    pub report_id: FileId,
    pub from: String,
    pub to: String,
    pub publish_date: CivilDate,
    pub publish_time: ClockTime,
    pub specific_payload_information: [String; 3],
}

/// The first failure in reading a file-identification comment, if any.
pub open spec fn emms_failure(row: Seq<Seq<char>>) -> Option<ErrorView> {
    if row.len() <= 5 {
        Some(missing_at(row, first_absent(row, 1)))
    } else if date_parsed(row[5], date_format()).is_none() {
        Some(ErrorView::ParseDateError { row, idx: 5 })
    } else if row.len() <= 6 {
        Some(missing_at(row, 6))
    } else if time_parsed(row[6], time_format()).is_none() {
        Some(ErrorView::ParseTimeError { row, idx: 6 })
    } else if row.len() <= 9 {
        Some(missing_at(row, row.len() as int))
    } else {
        None
    }
}

impl CommentRecordEMMS {
    /// The record holds the fields of `row`.
    pub open spec fn reads(&self, row: Seq<Seq<char>>) -> bool {
        &&& row.len() >= 10
        &&& self.system@ == row[1]
        &&& self.report_id.0@ == row[2]
        &&& self.from@ == row[3]
        &&& self.to@ == row[4]
        &&& Some(self.publish_date) == date_parsed(row[5], date_format())
        &&& Some(self.publish_time) == time_parsed(row[6], time_format())
        &&& self.specific_payload_information@.len() == 3
        &&& self.specific_payload_information@[0]@ == row[7]
        &&& self.specific_payload_information@[1]@ == row[8]
        &&& self.specific_payload_information@[2]@ == row[9]
    }

    pub fn from_csv_record(record: &Vec<String>) -> (r: Result<Self, Error>)
        ensures
            r.is_err() <==> emms_failure(record.deep_view()).is_some(),
            r matches Err(e) ==> Some(e.deep_view()) == emms_failure(record.deep_view()),
            r matches Ok(c) ==> c.reads(record.deep_view()),
    {
        proof {
            lemma_formats();
        }
        let ghost row = record.deep_view();
        let n = record.len();
        if n <= 5 {
            let idx: usize = if n < 1 {
                1
            } else {
                n
            };
            return Err(missing(record, idx));
        }
        let publish_date = match parse_date(record[5].as_str(), DATE_FORMAT) {
            Some(d) => d,
            None => {
                return Err(Error::ParseDateError(ParseErrorDetails::new(copy_row(record), 5)));
            },
        };
        if n <= 6 {
            return Err(missing(record, 6));
        }
        let publish_time = match parse_time(record[6].as_str(), TIME_FORMAT) {
            Some(t) => t,
            None => {
                return Err(Error::ParseTimeError(ParseErrorDetails::new(copy_row(record), 6)));
            },
        };
        if n <= 9 {
            return Err(missing(record, n));
        }
        Ok(CommentRecordEMMS {
            system: record[1].clone(),
            report_id: FileId::from_str(record[2].as_str()),
            from: record[3].clone(),
            to: record[4].clone(),
            publish_date,
            publish_time,
            specific_payload_information: [record[7].clone(), record[8].clone(), record[9].clone()],
        })
    }
}

/// The comment that opens a blind update transaction.
#[derive(Clone, Debug, PartialEq)]
pub struct CommentRecordBUT {
    pub system: String,
    pub report_id: BlindUpdateReportId,
    pub from: String,
    pub to: String,
    pub publish_date: CivilDate,
    pub publish_time: ClockTime,
    pub market: String,
    pub payload_id: String,
    pub payload_response_id: String,
}

/// The first failure in reading a blind-update comment, if any.
pub open spec fn but_failure(row: Seq<Seq<char>>) -> Option<ErrorView> {
    if row.len() <= 1 {
        Some(missing_at(row, 1))
    } else if row.len() <= 2 || BlindUpdateReportId::named(row[2]).is_none() {
        Some(missing_at(row, 2))
    } else if row.len() <= 5 {
        Some(missing_at(row, row.len() as int))
    } else if date_parsed(row[5], date_format()).is_none() {
        Some(ErrorView::ParseDateError { row, idx: 5 })
    } else if row.len() <= 6 {
        Some(missing_at(row, 6))
    } else if time_parsed(row[6], time_format()).is_none() {
        Some(ErrorView::ParseTimeError { row, idx: 6 })
    } else if row.len() <= 12 {
        Some(missing_at(row, first_absent(row, 10)))
    } else {
        None
    }
}

impl CommentRecordBUT {
    pub open spec fn reads(&self, row: Seq<Seq<char>>) -> bool {
        &&& row.len() >= 13
        &&& self.system@ == row[1]
        &&& BlindUpdateReportId::named(row[2]) == Some(self.report_id)
        &&& self.from@ == row[3]
        &&& self.to@ == row[4]
        &&& Some(self.publish_date) == date_parsed(row[5], date_format())
        &&& Some(self.publish_time) == time_parsed(row[6], time_format())
        &&& self.market@ == row[10]
        &&& self.payload_id@ == row[11]
        &&& self.payload_response_id@ == row[12]
    }

    pub fn from_csv_record(record: &Vec<String>) -> (r: Result<Self, Error>)
        ensures
            r.is_err() <==> but_failure(record.deep_view()).is_some(),
            r matches Err(e) ==> Some(e.deep_view()) == but_failure(record.deep_view()),
            r matches Ok(c) ==> c.reads(record.deep_view()),
    {
        proof {
            lemma_formats();
        }
        let n = record.len();
        if n <= 1 {
            return Err(missing(record, 1));
        }
        if n <= 2 {
            return Err(missing(record, 2));
        }
        let report_id = match BlindUpdateReportId::from_str(record[2].as_str()) {
            Some(id) => id,
            None => {
                return Err(missing(record, 2));
            },
        };
        if n <= 5 {
            return Err(missing(record, n));
        }
        let publish_date = match parse_date(record[5].as_str(), DATE_FORMAT) {
            Some(d) => d,
            None => {
                return Err(Error::ParseDateError(ParseErrorDetails::new(copy_row(record), 5)));
            },
        };
        if n <= 6 {
            return Err(missing(record, 6));
        }
        let publish_time = match parse_time(record[6].as_str(), TIME_FORMAT) {
            Some(t) => t,
            None => {
                return Err(Error::ParseTimeError(ParseErrorDetails::new(copy_row(record), 6)));
            },
        };
        if n <= 12 {
            let idx: usize = if n < 10 {
                10
            } else {
                n
            };
            return Err(missing(record, idx));
        }
        Ok(CommentRecordBUT {
            system: record[1].clone(),
            report_id,
            from: record[3].clone(),
            to: record[4].clone(),
            publish_date,
            publish_time,
            market: record[10].clone(),
            payload_id: record[11].clone(),
            payload_response_id: record[12].clone(),
        })
    }
}

/// The comment that closes a report, with its count of records.
#[derive(Clone, Copy, Debug, PartialEq, Eq, Structural)]
pub struct CommentRecordEndOfReport {
    pub count_of_records: u32,
}

pub open spec fn eor_failure(row: Seq<Seq<char>>) -> Option<ErrorView> {
    if row.len() <= 2 {
        Some(missing_at(row, 2))
    } else if u32_of_text(row[2]).is_none() {
        Some(ErrorView::ParseIntError { row, idx: 2 })
    } else {
        None
    }
}

impl CommentRecordEndOfReport {
    pub open spec fn reads(&self, row: Seq<Seq<char>>) -> bool {
        row.len() >= 3 && u32_of_text(row[2]) == Some(self.count_of_records)
    }

    pub fn from_csv_record(record: &Vec<String>) -> (r: Result<Self, Error>)
        ensures
            r.is_err() <==> eor_failure(record.deep_view()).is_some(),
            r matches Err(e) ==> Some(e.deep_view()) == eor_failure(record.deep_view()),
            r matches Ok(c) ==> c.reads(record.deep_view()),
    {
        if record.len() <= 2 {
            return Err(missing(record, 2));
        }
        match parse_u32(record[2].as_str()) {
            Some(count_of_records) => Ok(CommentRecordEndOfReport { count_of_records }),
            None => Err(Error::ParseIntError(ParseErrorDetails::new(copy_row(record), 2))),
        }
    }
}

#[derive(Clone, Debug, PartialEq)]
pub enum CommentRecord {
    EMMS(CommentRecordEMMS),
    BUT(CommentRecordBUT),
    EOR(CommentRecordEndOfReport),
}

/// Whether a comment row closes a report.
pub open spec fn is_end_of_report(row: Seq<Seq<char>>) -> bool {
    row.len() > 1 && row[1] == "END OF REPORT"@
}

/// Whether a comment row opens a blind update transaction.
pub open spec fn is_blind_update(row: Seq<Seq<char>>) -> bool {
    row.len() > 2 && BlindUpdateReportId::named(row[2]).is_some()
}

pub open spec fn comment_failure(row: Seq<Seq<char>>) -> Option<ErrorView> {
    if row.len() <= 1 {
        Some(missing_at(row, 1))
    } else if is_end_of_report(row) {
        eor_failure(row)
    } else if row.len() <= 2 {
        Some(missing_at(row, 2))
    } else if is_blind_update(row) {
        but_failure(row)
    } else {
        emms_failure(row)
    }
}

impl CommentRecord {
    /// The comment is of the kind that `row` selects, and holds its fields.
    pub open spec fn reads(&self, row: Seq<Seq<char>>) -> bool {
        match self {
            CommentRecord::EOR(c) => is_end_of_report(row) && c.reads(row),
            CommentRecord::BUT(c) => !is_end_of_report(row) && is_blind_update(row) && c.reads(
                row,
            ),
            CommentRecord::EMMS(c) => !is_end_of_report(row) && !is_blind_update(row) && c.reads(
                row,
            ),
        }
    }

    pub fn from_csv_record(record: &Vec<String>) -> (r: Result<Self, Error>)
        ensures
            r.is_err() <==> comment_failure(record.deep_view()).is_some(),
            r matches Err(e) ==> Some(e.deep_view()) == comment_failure(record.deep_view()),
            r matches Ok(c) ==> c.reads(record.deep_view()),
    {
        if record.len() <= 1 {
            return Err(missing(record, 1));
        }
        if same_text(record[1].as_str(), "END OF REPORT") {
            return match CommentRecordEndOfReport::from_csv_record(record) {
                Ok(c) => Ok(CommentRecord::EOR(c)),
                Err(e) => Err(e),
            };
        }
        if record.len() <= 2 {
            return Err(missing(record, 2));
        }
        match BlindUpdateReportId::from_str(record[2].as_str()) {
            Some(_) => match CommentRecordBUT::from_csv_record(record) {
                Ok(c) => Ok(CommentRecord::BUT(c)),
                Err(e) => Err(e),
            },
            None => match CommentRecordEMMS::from_csv_record(record) {
                Ok(c) => Ok(CommentRecord::EMMS(c)),
                Err(e) => Err(e),
            },
        }
    }
}

/// The header of a group of data rows: the report it belongs to, and the
/// names of its columns.
#[derive(Clone, Debug, PartialEq)]
pub struct InformationRecord {
    pub report_type: String,
    pub report_subtype: String,
    pub report_version: u32,
    pub column_headers: Vec<String>,
}

/// The first failure in reading the report type, subtype and version that
/// information and data rows start with, if any.
pub open spec fn report_failure(row: Seq<Seq<char>>) -> Option<ErrorView> {
    if row.len() <= 3 {
        Some(missing_at(row, first_absent(row, 1)))
    } else if u32_of_text(row[3]).is_none() {
        Some(ErrorView::ParseIntError { row, idx: 3 })
    } else {
        None
    }
}

impl InformationRecord {
    pub open spec fn reads(&self, row: Seq<Seq<char>>) -> bool {
        &&& row.len() >= 4
        &&& self.report_type@ == row[1]
        &&& self.report_subtype@ == row[2]
        &&& u32_of_text(row[3]) == Some(self.report_version)
        &&& self.column_headers.deep_view() == row.skip(4)
    }

    pub fn from_csv_record(record: &Vec<String>) -> (r: Result<Self, Error>)
        ensures
            r.is_err() <==> report_failure(record.deep_view()).is_some(),
            r matches Err(e) ==> Some(e.deep_view()) == report_failure(record.deep_view()),
            r matches Ok(c) ==> c.reads(record.deep_view()),
    {
        let report_version = match read_report_version(record) {
            Ok(v) => v,
            Err(e) => {
                return Err(e);
            },
        };
        let ghost row = record.deep_view();
        let mut column_headers: Vec<String> = Vec::new();
        let mut i: usize = 4;
        while i < record.len()
            invariant
                4 <= i <= record.len(),
                row == record.deep_view(),
                column_headers.deep_view() =~= row.subrange(4, i as int),
            decreases record.len() - i,
        {
            let f = record[i].clone();
            let ghost before = column_headers.deep_view();
            column_headers.push(f);
            assert(column_headers.deep_view() =~= before.push(row[i as int]));
            assert(row.subrange(4, i + 1) =~= row.subrange(4, i as int).push(row[i as int]));
            i = i + 1;
        }
        assert(row.subrange(4, row.len() as int) =~= row.skip(4));
        Ok(InformationRecord {
            report_type: record[1].clone(),
            report_subtype: record[2].clone(),
            report_version,
            column_headers,
        })
    }
}

/// One row of data, with a value or null for each column of its group.
#[derive(Clone, Debug, PartialEq)]
pub struct DataRecord {
    pub report_type: String,
    pub report_subtype: String,
    pub report_version: u32,
    pub data: Vec<Option<DataValue>>,
}

impl DataRecord {
    pub open spec fn reads(&self, row: Seq<Seq<char>>) -> bool {
        &&& row.len() >= 4
        &&& self.report_type@ == row[1]
        &&& self.report_subtype@ == row[2]
        &&& u32_of_text(row[3]) == Some(self.report_version)
        &&& self.data.deep_view() == row.skip(4).map_values(|f: Seq<char>| decoded(f))
    }

    /// Every value is well formed.
    pub open spec fn wf(&self) -> bool {
        forall|i: int| 0 <= i < self.data.len() ==> #[trigger] opt_wf(self.data@[i].deep_view())
    }

    pub fn from_csv_record(record: &Vec<String>) -> (r: Result<Self, Error>)
        ensures
            r.is_err() <==> report_failure(record.deep_view()).is_some(),
            r matches Err(e) ==> Some(e.deep_view()) == report_failure(record.deep_view()),
            r matches Ok(c) ==> c.reads(record.deep_view()) && c.wf(),
    {
        let report_version = match read_report_version(record) {
            Ok(v) => v,
            Err(e) => {
                return Err(e);
            },
        };
        let ghost row = record.deep_view();
        let mut data: Vec<Option<DataValue>> = Vec::new();
        let mut i: usize = 4;
        while i < record.len()
            invariant
                4 <= i <= record.len(),
                row == record.deep_view(),
                data.deep_view() =~= row.subrange(4, i as int).map_values(
                    |f: Seq<char>| decoded(f),
                ),
                forall|j: int| 0 <= j < data.len() ==> #[trigger] opt_wf(data@[j].deep_view()),
            decreases record.len() - i,
        {
            let v = DataValue::from_str(record[i].as_str());
            let ghost before = data.deep_view();
            data.push(v);
            assert(data.deep_view() =~= before.push(decoded(row[i as int])));
            assert(row.subrange(4, i + 1) =~= row.subrange(4, i as int).push(row[i as int]));
            assert(data@[data.len() - 1] == v);
            i = i + 1;
        }
        assert(row.subrange(4, row.len() as int) =~= row.skip(4));
        Ok(DataRecord {
            report_type: record[1].clone(),
            report_subtype: record[2].clone(),
            report_version,
            data,
        })
    }
}

#[derive(Clone, Debug, PartialEq)]
pub enum Record {
    Comment(CommentRecord),
    Information(InformationRecord),
    Data(DataRecord),
}

/// The first failure in reading a row, if any.
pub open spec fn record_failure(row: Seq<Seq<char>>) -> Option<ErrorView> {
    if row.len() == 0 {
        Some(ErrorView::PayloadMissingEntry { row, idx: 0, expected: Some(tags()) })
    } else if row[0] == "C"@ {
        comment_failure(row)
    } else if row[0] == "I"@ {
        report_failure(row)
    } else if row[0] == "D"@ {
        report_failure(row)
    } else {
        Some(ErrorView::UnrecognizedPayload { row, idx: 0, expected: Some(tags()) })
    }
}

impl Record {
    /// The record is of the kind that the row's tag selects, and holds its
    /// fields.
    pub open spec fn reads(&self, row: Seq<Seq<char>>) -> bool {
        row.len() > 0 && match self {
            Record::Comment(c) => row[0] == "C"@ && c.reads(row),
            Record::Information(i) => row[0] == "I"@ && i.reads(row),
            Record::Data(d) => row[0] == "D"@ && d.reads(row),
        }
    }

    /// Data values are well formed.
    pub open spec fn wf(&self) -> bool {
        match self {
            Record::Data(d) => d.wf(),
            _ => true,
        }
    }

    /// Reads one row of a flat file.
    pub fn from_csv_record(record: &Vec<String>) -> (r: Result<Self, Error>)
        ensures
            r.is_err() <==> record_failure(record.deep_view()).is_some(),
            r matches Err(e) ==> Some(e.deep_view()) == record_failure(record.deep_view()),
            r matches Ok(c) ==> c.reads(record.deep_view()) && c.wf(),
    {
        if record.len() == 0 {
            return Err(
                Error::PayloadMissingEntry(
                    BadPayloadDetails::new(copy_row(record)).at_index(0).expected_one_of(
                        tag_list(),
                    ),
                ),
            );
        }
        let tag = record[0].as_str();
        if same_text(tag, "C") {
            match CommentRecord::from_csv_record(record) {
                Ok(c) => Ok(Record::Comment(c)),
                Err(e) => Err(e),
            }
        } else if same_text(tag, "I") {
            match InformationRecord::from_csv_record(record) {
                Ok(c) => Ok(Record::Information(c)),
                Err(e) => Err(e),
            }
        } else if same_text(tag, "D") {
            match DataRecord::from_csv_record(record) {
                Ok(c) => Ok(Record::Data(c)),
                Err(e) => Err(e),
            }
        } else {
            Err(
                Error::UnrecognizedPayload(
                    BadPayloadDetails::new(copy_row(record)).at_index(0).expected_one_of(
                        tag_list(),
                    ),
                ),
            )
        }
    }
}

/// The tags that a row can start with.
fn tag_list() -> (r: Vec<String>)
    ensures
        r.deep_view() == tags(),
{
    let r = vec![String::from_str("C"), String::from_str("I"), String::from_str("D")];
    assert(r.deep_view() =~= tags());
    r
}

/// The error of the field at `idx` being absent.
fn missing(record: &Vec<String>, idx: usize) -> (e: Error)
    ensures
        e.deep_view() == missing_at(record.deep_view(), idx as int),
{
    Error::PayloadMissingEntry(BadPayloadDetails::new(copy_row(record)).at_index(idx))
}

/// Reads the report version that information and data rows carry, after
/// checking that the type and subtype before it are there.
fn read_report_version(record: &Vec<String>) -> (r: Result<u32, Error>)
    ensures
        r.is_err() <==> report_failure(record.deep_view()).is_some(),
        r matches Err(e) ==> Some(e.deep_view()) == report_failure(record.deep_view()),
        r matches Ok(v) ==> record.len() >= 4 && u32_of_text(record.deep_view()[3]) == Some(v),
{
    let n = record.len();
    if n <= 3 {
        let idx: usize = if n < 1 {
            1
        } else {
            n
        };
        return Err(missing(record, idx));
    }
    match parse_u32(record[3].as_str()) {
        Some(v) => Ok(v),
        None => Err(Error::ParseIntError(ParseErrorDetails::new(copy_row(record), 3))),
    }
}

} // verus!
