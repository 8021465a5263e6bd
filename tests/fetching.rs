use nem_mms::error::Error;
use nem_mms::fetch::{file_name_of, link_url, site_url, Archive, HistoricDataDownloader, Month, NemwebScraper, Year};
use nem_mms::package::Package;
use nem_mms::calendar::CivilDate;
use nem_mms::state::{Config, Filename, HistoricFilename, NonHistoricFilename};
use std::path::{Path, PathBuf};

fn parts(path: &Path) -> (String, String) {
    let dir = path.parent().and_then(|p| p.file_name()).and_then(|s| s.to_str()).unwrap().to_string();
    let stem = path.file_stem().and_then(|s| s.to_str()).unwrap().to_string();
    (dir, stem)
}

#[test]
fn test_find_all_urls() {
    let html = r#"
<html>
    <head>
        <title>nemweb.com.au - /Reports/Current/Dispatch_SCADA/</title>
    </head>
    <body>
        <H1>nemweb.com.au - /Reports/Current/Dispatch_SCADA/</H1>
        <hr>

        <pre>
            <A HREF="/Reports/Current/">[To Parent Directory]</A><br><br>
            Friday, May 12, 2017 10:56 AM        &lt;dir&gt; <A HREF="/Reports/Current/Dispatch_SCADA/DUPLICATE/">DUPLICATE</A><br>
            Saturday, December 25, 2021 10:40 AM         3157 <A HREF="/Reports/Current/Dispatch_SCADA/PUBLIC_DISPATCHSCADA_202112251045_0000000354978413.zip">PUBLIC_DISPATCHSCADA_202112251045_0000000354978413.zip</A><br>  
            Saturday, December 25, 2021 10:46 AM         3128 <A HREF="/Reports/Current/Dispatch_SCADA/PUBLIC_DISPATCHSCADA_202112251050_0000000354978611.zip">PUBLIC_DISPATCHSCADA_202112251050_0000000354978611.zip</A><br>  
            Saturday, December 25, 2021 10:50 AM         3145 <A HREF="/Reports/Current/Dispatch_SCADA/PUBLIC_DISPATCHSCADA_202112251055_0000000354978803.zip">PUBLIC_DISPATCHSCADA_202112251055_0000000354978803.zip</A><br>  
            Saturday, December 25, 2021 10:55 AM         3144 <A HREF="/Reports/Current/Dispatch_SCADA/PUBLIC_DISPATCHSCADA_202112251100_0000000354979009.zip">PUBLIC_DISPATCHSCADA_202112251100_0000000354979009.zip</A><br>
        </pre>
        <hr>
    </body>
</html>
        "#;
    let nemweb_scraper = NemwebScraper { package: Package::DispatchUnitScada, archive: Archive::Current };
    let zip_urls = nemweb_scraper.find_all_urls(html).unwrap();
    let expected = vec![
        "/Reports/Current/Dispatch_SCADA/PUBLIC_DISPATCHSCADA_202112251045_0000000354978413.zip",
        "/Reports/Current/Dispatch_SCADA/PUBLIC_DISPATCHSCADA_202112251050_0000000354978611.zip",
        "/Reports/Current/Dispatch_SCADA/PUBLIC_DISPATCHSCADA_202112251055_0000000354978803.zip",
        "/Reports/Current/Dispatch_SCADA/PUBLIC_DISPATCHSCADA_202112251100_0000000354979009.zip"
    ];
    assert_eq!(zip_urls, expected)
}

#[test]
fn historic_filename() {
    let f = HistoricFilename {
        package: Package::DispatchUnitScada,
        month: Month::Jan,
        year: Year::from_str("2022").unwrap(),
    };
    let exp = "DISPATCH_UNIT_SCADA/historic_2022-01.parquet";
    assert_eq!(
        PathBuf::from(f.as_path_buf()),
        PathBuf::from(exp)
    );
    let (dir, stem) = parts(&PathBuf::from(f.as_path_buf()));
    assert_eq!(
        Filename::Historic(f.clone()),
        Filename::from_path_buf(&dir, &stem).unwrap()
    );
}

#[test]
fn non_historic_filename() {
    let f = NonHistoricFilename {
        package: Package::DispatchUnitScada,
        file_id: "0003".to_string(),
        report_date: CivilDate { year: 2020, month: 1, day: 1 },
    };
    let exp = "DISPATCH_UNIT_SCADA/nonhistoric_2020-01-01_0003.parquet";
    assert_eq!(
        PathBuf::from(f.as_path_buf()),
        PathBuf::from(exp)
    );
    let (dir, stem) = parts(&PathBuf::from(f.as_path_buf()));
    assert_eq!(
        Filename::NonHistoric(f.clone()),
        Filename::from_path_buf(&dir, &stem).unwrap()
    );
}

#[test]
fn unknown_table_names_are_refused() {
    assert!(Filename::from_path_buf("NOT_A_PACKAGE", "historic_2022-01").is_err());
    assert!(Filename::from_path_buf("DISPATCH_UNIT_SCADA", "historic_2022-13").is_err());
    assert!(Filename::from_path_buf("DISPATCH_UNIT_SCADA", "historic_2022").is_err());
    assert!(Filename::from_path_buf("DISPATCH_UNIT_SCADA", "nonhistoric_2020-02-30_1").is_err());
    assert!(Filename::from_path_buf("DISPATCH_UNIT_SCADA", "other_2020").is_err());
    assert!(Filename::from_path_buf("DISPATCH_UNIT_SCADA", "historic_22-07").is_ok());
    assert_eq!(Config::init().packages.len(), 0);
}

#[test]
fn months_and_years() {
    assert_eq!(Month::from_str("07"), Some(Month::Jul));
    assert_eq!(Month::from_str("7"), None);
    assert_eq!(Month::Dec.as_str(), "12");
    assert_eq!(Year::from_str("21").unwrap().as_str(), "2021");
    assert_eq!(Year::from_str("1999").unwrap().as_str(), "1999");
    assert!(Year::from_str("199").is_none());
    assert!(Year::from_str("20a1").is_none());
}

#[test]
fn historic_urls() {
    let d = HistoricDataDownloader::new(Package::DispatchUnitScada);
    assert_eq!(d.url().unwrap(),
               "Data_Archive/Wholesale_Electricity/MMSDM/2009/MMSDM_2009_07/MMSDM_Historical_Data_SQLLoader/DATA/PUBLIC_DVD_DISPATCH_UNIT_SCADA_200907010000.zip");
    let d = HistoricDataDownloader::new(Package::RooftopPvActual).with_year("21").unwrap().with_month("03").unwrap();
    assert_eq!(d.url().unwrap(),
               "Data_Archive/Wholesale_Electricity/MMSDM/2021/MMSDM_2021_03/MMSDM_Historical_Data_SQLLoader/DATA/PUBLIC_DVD_ROOFTOP_PV_ACTUAL_202103010000.zip");
    assert!(HistoricDataDownloader::new(Package::DispatchLocalPrice).url().is_none());
    match HistoricDataDownloader::new(Package::DispatchUnitScada).with_year("x") {
        Err(Error::InvalidYear(y)) => assert_eq!(y, "x"),
        _ => panic!("year accepted"),
    }
    match HistoricDataDownloader::new(Package::DispatchUnitScada).with_month("13") {
        Err(Error::InvalidMonth(m)) => assert_eq!(m, "13"),
        _ => panic!("month accepted"),
    }
}

#[test]
fn listing_urls() {
    let s = NemwebScraper::new(Package::RooftopPvActual, Archive::Archive);
    assert_eq!(s.url().unwrap(), "Reports/Archive/ROOFTOP_PV/ACTUAL");
    assert!(NemwebScraper::new(Package::DispatchLocalPrice, Archive::Current).url().is_none());
    assert_eq!(Archive::from_str("current"), Some(Archive::Current));
    assert_eq!(Archive::from_str("historic"), None);
    assert_eq!(site_url("Reports/Current/Dispatch_SCADA"), "https://www.nemweb.com.au/Reports/Current/Dispatch_SCADA");
    assert_eq!(link_url("/Reports/a.zip"), "https://www.nemweb.com.au/Reports/a.zip");
    assert_eq!(file_name_of("https://www.nemweb.com.au/Reports/a.zip"), "a.zip");
    assert_eq!(file_name_of("plain"), "plain");
    assert_eq!(file_name_of("ends/"), "");
}
