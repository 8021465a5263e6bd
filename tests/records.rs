use nem_mms::calendar::{CivilDate, ClockTime, DateStamp};
use nem_mms::error::Error;
use nem_mms::record::{
    BlindUpdateReportId, CommentRecord, CommentRecordBUT, CommentRecordEMMS,
    CommentRecordEndOfReport, DataRecord, FileId, InformationRecord, Record,
};
use nem_mms::value::DataValue;

fn row(fields: &[&str]) -> Vec<String> {
    fields.iter().map(|f| f.to_string()).collect()
}

fn strings(fields: &[&str]) -> Vec<String> {
    row(fields)
}

#[test]
fn emms_comment_record() {
    let record = row(&["C", "NEMP.WORLD", "BIDMOVE_SUMMARY", "AEMO", "PUBLIC", "2021/04/01", "04:43:39",
                       "339145123", "BIDMOVE_SUMMARY", "339145118"]);
    let parsed = Record::from_csv_record(&record).unwrap();
    let expected = Record::Comment(
        CommentRecord::EMMS(
            CommentRecordEMMS {
                system: "NEMP.WORLD".to_string(),
                report_id: FileId("BIDMOVE_SUMMARY".to_string()),
                from: "AEMO".to_string(),
                to: "PUBLIC".to_string(),
                publish_date: CivilDate { year: 2021, month: 4, day: 1 },
                publish_time: ClockTime { hour: 4, minute: 43, second: 39, nanosecond: 0 },
                specific_payload_information: ["339145123".to_string(), "BIDMOVE_SUMMARY".to_string(), "339145118".to_string()],
            }
        )
    );
    assert_eq!(parsed, expected);
}

#[test]
fn but_comment_record() {
    let record = row(&["C", "PRODUCTION", "BLIND_UPDATE_SUBMISSION", "PARTICIPANTID", "NEMMCO", "2021/09/03",
                       "22:04:05", "", "", "", "NEM", "123ABC-002", "324-BB321"]);
    let parsed = Record::from_csv_record(&record).unwrap();
    let expected = Record::Comment(
        CommentRecord::BUT(
            CommentRecordBUT {
                system: "PRODUCTION".to_string(),
                report_id: BlindUpdateReportId::BlindUpdateSubmission,
                from: "PARTICIPANTID".to_string(),
                to: "NEMMCO".to_string(),
                publish_date: CivilDate { year: 2021, month: 9, day: 3 },
                publish_time: ClockTime { hour: 22, minute: 4, second: 5, nanosecond: 0 },
                market: "NEM".to_string(),
                payload_id: "123ABC-002".to_string(),
                payload_response_id: "324-BB321".to_string(),
            }
        )
    );
    assert_eq!(parsed, expected);
}

#[test]
fn eor_comment_record() {
    let record = row(&["C", "END OF REPORT", "45917"]);
    let parsed = Record::from_csv_record(&record).unwrap();
    let expected = Record::Comment(
        CommentRecord::EOR(
            CommentRecordEndOfReport {
                count_of_records: 45917
            }
        )
    );
    assert_eq!(parsed, expected);
}

#[test]
fn emms_info_record() {
    let record = row(&["I", "BID", "BIDDAYOFFER_D", "2", "SETTLEMENTDATE", "DUID", "BIDTYPE", "BIDSETTLEMENTDATE", "OFFERDATE",
                       "VERSIONNO", "PARTICIPANTID", "DAILYENERGYCONSTRAINT", "REBIDEXPLANATION", "PRICEBAND1", "PRICEBAND2"]);
    let parsed = Record::from_csv_record(&record).unwrap();
    let expected = Record::Information(
        InformationRecord {
            report_type: "BID".to_string(),
            report_subtype: "BIDDAYOFFER_D".to_string(),
            report_version: 2,
            column_headers: strings(&["SETTLEMENTDATE", "DUID", "BIDTYPE", "BIDSETTLEMENTDATE", "OFFERDATE",
                                      "VERSIONNO", "PARTICIPANTID", "DAILYENERGYCONSTRAINT", "REBIDEXPLANATION",
                                      "PRICEBAND1", "PRICEBAND2"]),
        }
    );
    assert_eq!(parsed, expected);
}

#[test]
fn but_info_record() {
    let record = row(&["I", "BUS", "METER_REGISTER", "1", "NMI", "METER_SERIAL", "FIELDID", "VALUE"]);
    let parsed = Record::from_csv_record(&record).unwrap();
    let expected = Record::Information(
        InformationRecord {
            report_type: "BUS".to_string(),
            report_subtype: "METER_REGISTER".to_string(),
            report_version: 1,
            column_headers: strings(&["NMI", "METER_SERIAL", "FIELDID", "VALUE"]),
        }
    );
    assert_eq!(parsed, expected);
}

fn stamp(year: i32, month: u32, day: u32, hour: u32, minute: u32, second: u32) -> DateStamp {
    DateStamp {
        date: CivilDate { year, month, day },
        time: ClockTime { hour, minute, second, nanosecond: 0 },
    }
}

#[test]
fn data_record() {
    let record = row(&["D", "BID", "BIDDAYOFFER_D", "2", "2021/03/31 00:00", "DUID1", "ENERGY", "2021/03/31 00:00",
                       "2021/03/30 12:19", "1", "PARTICIPANTID1", "241", "1054 F PB1 & PB10 LOSS FACTOR"]);
    let parsed = Record::from_csv_record(&record).unwrap();
    let expected = Record::Data(
        DataRecord {
            report_type: "BID".to_string(),
            report_subtype: "BIDDAYOFFER_D".to_string(),
            report_version: 2,
            data: vec![Some(DataValue::DateTime(stamp(2021, 3, 31, 0, 0, 0))),
                       Some(DataValue::String("DUID1".to_string())),
                       Some(DataValue::String("ENERGY".to_string())),
                       Some(DataValue::DateTime(stamp(2021, 3, 31, 0, 0, 0))),
                       Some(DataValue::DateTime(stamp(2021, 3, 30, 12, 19, 0))),
                       Some(DataValue::Integer(1)),
                       Some(DataValue::String("PARTICIPANTID1".to_string())),
                       Some(DataValue::Integer(241)),
                       Some(DataValue::String("1054 F PB1 & PB10 LOSS FACTOR".to_string()))],
        }
    );
    assert_eq!(parsed, expected);
}

#[test]
fn every_tag_selects_its_record_kind() {
    let c = Record::from_csv_record(&row(&["C", "END OF REPORT", "3"])).unwrap();
    assert!(matches!(c, Record::Comment(_)));
    let i = Record::from_csv_record(&row(&["I", "A", "B", "1", "X"])).unwrap();
    assert!(matches!(i, Record::Information(_)));
    let d = Record::from_csv_record(&row(&["D", "A", "B", "1", "7"])).unwrap();
    assert!(matches!(d, Record::Data(_)));
}

#[test]
fn unknown_tag_is_refused_with_the_tags_expected() {
    let e = Record::from_csv_record(&row(&["X", "A"])).unwrap_err();
    match e {
        Error::UnrecognizedPayload(d) => {
            assert_eq!(d.idx, 0);
            assert_eq!(d.expected, Some(strings(&["C", "I", "D"])));
            assert_eq!(d.record, row(&["X", "A"]));
        }
        other => panic!("unexpected {:?}", other),
    }
}

#[test]
fn empty_row_misses_its_tag() {
    let e = Record::from_csv_record(&Vec::new()).unwrap_err();
    match e {
        Error::PayloadMissingEntry(d) => {
            assert_eq!(d.idx, 0);
            assert_eq!(d.expected, Some(strings(&["C", "I", "D"])));
        }
        other => panic!("unexpected {:?}", other),
    }
}

#[test]
fn short_rows_name_the_missing_field() {
    for (fields, idx) in [(vec!["I", "A"], 2usize), (vec!["D"], 1), (vec!["C"], 1), (vec!["C", "X"], 2),
                          (vec!["C", "END OF REPORT"], 2), (vec!["C", "S", "ID", "F", "T", "2021/04/01", "04:43:39"], 7),
                          (vec!["C", "S", "BLIND_UPDATE_RESPONSE", "F", "T", "2021/04/01", "04:43:39", "", "", "", "M"], 11)] {
        let e = Record::from_csv_record(&row(&fields)).unwrap_err();
        match e {
            Error::PayloadMissingEntry(d) => assert_eq!(d.idx, idx, "{:?}", fields),
            other => panic!("unexpected {:?}", other),
        }
    }
}

#[test]
fn bad_numbers_dates_and_times_are_reported_at_their_field() {
    match Record::from_csv_record(&row(&["I", "A", "B", "x"])).unwrap_err() {
        Error::ParseIntError(d) => assert_eq!(d.idx, 3),
        other => panic!("unexpected {:?}", other),
    }
    match Record::from_csv_record(&row(&["C", "END OF REPORT", "-1"])).unwrap_err() {
        Error::ParseIntError(d) => assert_eq!(d.idx, 2),
        other => panic!("unexpected {:?}", other),
    }
    match Record::from_csv_record(&row(&["C", "S", "ID", "F", "T", "2021/13/01", "04:43:39", "a", "b", "c"])).unwrap_err() {
        Error::ParseDateError(d) => assert_eq!(d.idx, 5),
        other => panic!("unexpected {:?}", other),
    }
    match Record::from_csv_record(&row(&["C", "S", "ID", "F", "T", "2021/12/01", "25:43:39", "a", "b", "c"])).unwrap_err() {
        Error::ParseTimeError(d) => assert_eq!(d.idx, 6),
        other => panic!("unexpected {:?}", other),
    }
}

#[test]
fn blind_update_kind_must_be_known() {
    match Record::from_csv_record(&row(&["C", "S", "BLIND_UPDATE_RESPONSE", "F", "T", "2021/09/03", "22:04:05",
                                         "", "", "", "NEM", "A", "B"])).unwrap() {
        Record::Comment(CommentRecord::BUT(b)) => assert_eq!(b.report_id, BlindUpdateReportId::BlindUpdateResponse),
        other => panic!("unexpected {:?}", other),
    }
    assert_eq!(BlindUpdateReportId::from_str("BLIND_UPDATE_SUBMISSION"), Some(BlindUpdateReportId::BlindUpdateSubmission));
    assert_eq!(BlindUpdateReportId::from_str("BIDMOVE_SUMMARY"), None);
    match CommentRecordBUT::from_csv_record(&row(&["C", "S", "OTHER"])).unwrap_err() {
        Error::PayloadMissingEntry(d) => assert_eq!(d.idx, 2),
        other => panic!("unexpected {:?}", other),
    }
}

#[test]
fn underline_marks_the_offending_field() {
    let d = nem_mms::error::BadPayloadDetails::new(row(&["one", "two", "three"])).at_index(1);
    assert_eq!(d.underline(), (4, 3));
    let d = nem_mms::error::BadPayloadDetails::new(row(&["one", "two", "three"])).at_index(2);
    assert_eq!(d.underline(), (8, 5));
    let d = nem_mms::error::BadPayloadDetails::new(row(&["one", "two", "three"])).at_index(8)
        .expected_one_of(strings(&["four", "five"]));
    assert_eq!(d.underline(), (13, 3));
    assert_eq!(d.expected, Some(strings(&["four", "five"])));
    let p = nem_mms::error::ParseErrorDetails::new(row(&["one", "two"]), 0);
    assert_eq!(p.underline(), (0, 3));
}
