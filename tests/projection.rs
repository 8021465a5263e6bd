use nem_mms::calendar::{CivilDate, ClockTime, DateStamp};
use nem_mms::error::Error;
use nem_mms::flatfile::{position_of, FlatFile};
use nem_mms::package::{group_by_package, package_file_stem, FieldSpec, Package, PackageInfo};
use nem_mms::record::Record;
use nem_mms::value::{Cell, DataType, DataValue, FloatSource};

fn row(fields: &[&str]) -> Vec<String> {
    fields.iter().map(|f| f.to_string()).collect()
}

fn file(rows: &[&[&str]]) -> FlatFile {
    let rows: Vec<Vec<String>> = rows.iter().map(|r| row(r)).collect();
    FlatFile::read_csv(&rows).unwrap()
}

fn field(name: &str, datatype: DataType, nullable: bool) -> FieldSpec {
    FieldSpec { name: name.to_string(), datatype, nullable }
}

#[test]
fn scenario_bid_row_projects_settlement_date_and_version() {
    let f = file(&[
        &["I", "BID", "BIDDAYOFFER_D", "2", "SETTLEMENTDATE", "DUID", "BIDTYPE", "VERSIONNO"],
        &["D", "BID", "BIDDAYOFFER_D", "2", "2021/03/31 00:00", "DUID1", "ENERGY", "1"],
    ]);
    let info = f.information_record().unwrap();
    let settlement = position_of(&info.column_headers, "SETTLEMENTDATE").unwrap();
    let version = position_of(&info.column_headers, "VERSIONNO").unwrap();
    match &f.records()[1] {
        Record::Data(d) => {
            assert_eq!(d.data[settlement], Some(DataValue::DateTime(DateStamp {
                date: CivilDate { year: 2021, month: 3, day: 31 },
                time: ClockTime { hour: 0, minute: 0, second: 0, nanosecond: 0 },
            })));
            assert_eq!(d.data[version], Some(DataValue::Integer(1)));
        }
        other => panic!("unexpected {:?}", other),
    }
    let batch = f.to_arrow(&vec![field("VERSIONNO", DataType::Int16, false),
                                 field("SETTLEMENTDATE", DataType::TimestampSecond, false)]).unwrap();
    assert_eq!(batch.columns[0].cells, vec![Some(Cell::Int16(1))]);
    assert_eq!(batch.columns[1].cells, vec![Some(Cell::Timestamp(1617148800))]);
}

#[test]
fn fields_resolve_by_name_whatever_the_schema_order() {
    let f = file(&[
        &["I", "R", "S", "1", "A", "B", "C"],
        &["D", "R", "S", "1", "a1", "b1", "c1"],
        &["D", "R", "S", "1", "a2", "b2", "c2"],
    ]);
    assert_eq!(position_of(&row(&["A", "B", "C"]), "B"), Some(1));
    assert_eq!(position_of(&row(&["A", "B", "B"]), "B"), Some(2));
    assert_eq!(position_of(&row(&["A", "B", "C"]), "D"), None);
    let one = f.to_arrow(&vec![field("B", DataType::Utf8, false)]).unwrap();
    let two = f.to_arrow(&vec![field("C", DataType::Utf8, false), field("B", DataType::Utf8, false)]).unwrap();
    let b = vec![Some(Cell::Text("b1".to_string())), Some(Cell::Text("b2".to_string()))];
    assert_eq!(one.columns[0].cells, b);
    assert_eq!(two.columns[1].cells, b);
    assert_eq!(two.columns[0].cells, vec![Some(Cell::Text("c1".to_string())), Some(Cell::Text("c2".to_string()))]);
}

#[test]
fn null_in_a_non_nullable_field_fails() {
    let f = file(&[
        &["I", "R", "S", "1", "A", "B"],
        &["D", "R", "S", "1", "1", "2"],
        &["D", "R", "S", "1", "", "3"],
    ]);
    assert_eq!(f.to_arrow(&vec![field("A", DataType::Float64, false)]).unwrap_err(), Error::NullError);
    let nullable = f.to_arrow(&vec![field("A", DataType::Float64, true)]).unwrap();
    assert_eq!(nullable.columns[0].cells, vec![Some(Cell::Float(FloatSource::Integer(1))), None]);
}

#[test]
fn projection_errors() {
    let no_info = file(&[&["D", "R", "S", "1", "1"]]);
    assert_eq!(no_info.to_arrow(&vec![field("A", DataType::Utf8, true)]).unwrap_err(), Error::MissingInformationRecord);
    let f = file(&[
        &["C", "END OF REPORT", "2"],
        &["I", "R", "S", "1", "A", "B", "C"],
        &["D", "R", "S", "1", "x", "2"],
    ]);
    assert_eq!(f.to_arrow(&vec![field("Z", DataType::Utf8, true)]).unwrap_err(),
               Error::MissingColumnHeader("Z".to_string()));
    assert_eq!(f.to_arrow(&vec![field("C", DataType::Utf8, true)]).unwrap_err(), Error::IndexError(2));
    assert_eq!(f.to_arrow(&vec![field("A", DataType::Int8, true)]).unwrap_err(),
               Error::UnsupportedDataType(DataType::Int8));
    assert_eq!(f.to_arrow(&vec![field("A", DataType::Float64, true)]).unwrap_err(),
               Error::DatatypeMismatch { datatype: DataType::Float64, value: Some(DataValue::String("x".to_string())) });
    let ok = f.to_arrow(&vec![field("B", DataType::Boolean, true), field("A", DataType::Utf8, false)]).unwrap();
    assert_eq!(ok.columns[0].datatype, DataType::Boolean);
    assert_eq!(ok.columns[0].cells, vec![Some(Cell::Boolean(false))]);
    assert_eq!(f.get_int16_array(1, false).unwrap().cells, vec![Some(Cell::Int16(2))]);
    assert_eq!(f.get_string_array(0, false).unwrap().cells, vec![Some(Cell::Text("x".to_string()))]);
}

#[test]
fn reading_stops_at_the_first_bad_row() {
    let rows = vec![row(&["I", "R", "S", "1", "A"]), row(&["Q"]), row(&["I", "R"])];
    match FlatFile::read_csv(&rows).unwrap_err() {
        Error::UnrecognizedPayload(d) => assert_eq!(d.record, row(&["Q"])),
        other => panic!("unexpected {:?}", other),
    }
    let f = file(&[&["C", "END OF REPORT", "0"]]);
    assert_eq!(f.len(), 1);
    assert!(f.information_record().is_none());
}

#[test]
fn packages_and_their_schemas() {
    assert_eq!(Package::available_packages(),
               ["DISPATCH_UNIT_SCADA", "DISPATCH_NEGATIVE_RESIDUE", "DISPATCH_LOCAL_PRICE", "ROOFTOP_PV_ACTUAL"]);
    assert_eq!(Package::from_str("ROOFTOP_PV_ACTUAL"), Some(Package::RooftopPvActual));
    assert_eq!(Package::from_str("rooftop_pv_actual"), None);
    assert_eq!(Package::DispatchLocalPrice.as_str(), "DISPATCH_LOCAL_PRICE");
    assert_eq!(Package::DispatchUnitScada.schema().len(), 3);
    assert_eq!(Package::DispatchNegativeResidue.schema().len(), 15);
    assert_eq!(Package::DispatchLocalPrice.schema()[3], field("LOCALLY_CONSTRAINED", DataType::Int8, true));
    assert_eq!(Package::RooftopPvActual.schema()[0], field("INTERVAL_DATETIME", DataType::TimestampSecond, false));
    assert_eq!(Package::from_report("DISPATCH", "LOCAL_PRICE"), Some(Package::DispatchLocalPrice));
    assert_eq!(Package::from_report("BID", "BIDDAYOFFER_D"), None);
    assert_eq!(package_file_stem("out", Package::DispatchUnitScada), "out_DISPATCH_UNIT_SCADA");
    let info = PackageInfo::new(Package::DispatchLocalPrice);
    assert_eq!(info.name, "DISPATCH_LOCAL_PRICE");
    assert!(!info.supports_fetch_current && !info.supports_fetch_archive && !info.supports_fetch_historic);
    let info = PackageInfo::new(Package::RooftopPvActual);
    assert!(info.supports_fetch_current && info.supports_fetch_archive && info.supports_fetch_historic);
}

#[test]
fn scada_file_projects_onto_its_package() {
    let f = file(&[
        &["I", "DISPATCH", "UNIT_SCADA", "1", "SETTLEMENTDATE", "DUID", "SCADAVALUE"],
        &["D", "DISPATCH", "UNIT_SCADA", "1", "2021/12/25 10:45:00", "ADPBA1", "1.25"],
        &["D", "DISPATCH", "UNIT_SCADA", "1", "2021/12/25 10:45:00", "ADPBA2", ""],
    ]);
    let batch = Package::DispatchUnitScada.to_arrow(&f).unwrap();
    assert_eq!(batch.columns.len(), 3);
    assert_eq!(batch.columns[0].cells, vec![Some(Cell::Text("ADPBA1".to_string())), Some(Cell::Text("ADPBA2".to_string()))]);
    assert_eq!(batch.columns[1].cells, vec![Some(Cell::Timestamp(1640429100)), Some(Cell::Timestamp(1640429100))]);
    assert_eq!(batch.columns[2].cells, vec![Some(Cell::Float(FloatSource::Literal("1.25".to_string()))), None]);
}

#[test]
fn files_of_two_packages_form_two_groups() {
    let scada = file(&[&["I", "DISPATCH", "UNIT_SCADA", "1", "DUID"]]);
    let rooftop = file(&[&["I", "ROOFTOP", "ACTUAL", "1", "TYPE"]]);
    let unknown = file(&[&["I", "BID", "BIDDAYOFFER_D", "1", "DUID"]]);
    let empty = file(&[&["C", "END OF REPORT", "0"]]);
    let files = vec![scada.clone(), unknown, rooftop, empty, scada];
    let (groups, skipped) = group_by_package(&files);
    assert_eq!(groups.len(), 2);
    assert_eq!(groups[0].package, Package::DispatchUnitScada);
    assert_eq!(groups[0].members, vec![0, 4]);
    assert_eq!(groups[1].package, Package::RooftopPvActual);
    assert_eq!(groups[1].members, vec![2]);
    assert_eq!(skipped, vec![1]);
}
