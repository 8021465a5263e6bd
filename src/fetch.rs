//! Where the files of each package are published: the addresses of the
//! historic archive and of the current and archive listings.
use crate::error::Error;
use crate::package::Package;
use crate::text::{is_digit, push_char, same_text};
use vstd::prelude::*;
use vstd::string::*;

verus! {

/// The site that publishes the files.
pub const BASE_URL: &'static str = "https://www.nemweb.com.au";

/// The directory of a package's listings, where it has one.
pub open spec fn package_url_part_of(p: Package) -> Option<Seq<char>> {
    match p {
        Package::DispatchUnitScada => Some("Dispatch_SCADA"@),
        Package::DispatchNegativeResidue => Some("DISPATCH_NEGATIVE_RESIDUE"@),
        Package::DispatchLocalPrice => None,
        Package::RooftopPvActual => Some("ROOFTOP_PV/ACTUAL"@),
    }
}

pub fn package_url_part(package: &Package) -> (r: Option<&'static str>)
    ensures
        r.is_some() == package_url_part_of(*package).is_some(),
        r matches Some(s) ==> package_url_part_of(*package) == Some(s@),
{
    match package {
        Package::DispatchUnitScada => Some("Dispatch_SCADA"),
        Package::DispatchNegativeResidue => Some("DISPATCH_NEGATIVE_RESIDUE"),
        Package::DispatchLocalPrice => None,
        Package::RooftopPvActual => Some("ROOFTOP_PV/ACTUAL"),
    }
}

#[derive(Clone, Copy, Debug, PartialEq, Eq, Structural)]
pub enum Month {
    Jan,
    Feb,
    Mar,
    Apr,
    May,
    Jun,
    Jul,
    Aug,
    Sep,
    Oct,
    Nov,
    Dec,
}

impl Month {
    /// The month's two-digit number.
    pub open spec fn text(self) -> Seq<char> {
        match self {
            Month::Jan => "01"@,
            Month::Feb => "02"@,
            Month::Mar => "03"@,
            Month::Apr => "04"@,
            Month::May => "05"@,
            Month::Jun => "06"@,
            Month::Jul => "07"@,
            Month::Aug => "08"@,
            Month::Sep => "09"@,
            Month::Oct => "10"@,
            Month::Nov => "11"@,
            Month::Dec => "12"@,
        }
    }

    pub open spec fn named(s: Seq<char>) -> Option<Month> {
        if s == "01"@ {
            Some(Month::Jan)
        } else if s == "02"@ {
            Some(Month::Feb)
        } else if s == "03"@ {
            Some(Month::Mar)
        } else if s == "04"@ {
            Some(Month::Apr)
        } else if s == "05"@ {
            Some(Month::May)
        } else if s == "06"@ {
            Some(Month::Jun)
        } else if s == "07"@ {
            Some(Month::Jul)
        } else if s == "08"@ {
            Some(Month::Aug)
        } else if s == "09"@ {
            Some(Month::Sep)
        } else if s == "10"@ {
            Some(Month::Oct)
        } else if s == "11"@ {
            Some(Month::Nov)
        } else if s == "12"@ {
            Some(Month::Dec)
        } else {
            None
        }
    }

    /// Reads a month from its two-digit number.
    pub fn from_str(s: &str) -> (r: Option<Month>)
        ensures
            r == Month::named(s@),
    {
        if same_text(s, "01") {
            Some(Month::Jan)
        } else if same_text(s, "02") {
            Some(Month::Feb)
        } else if same_text(s, "03") {
            Some(Month::Mar)
        } else if same_text(s, "04") {
            Some(Month::Apr)
        } else if same_text(s, "05") {
            Some(Month::May)
        } else if same_text(s, "06") {
            Some(Month::Jun)
        } else if same_text(s, "07") {
            Some(Month::Jul)
        } else if same_text(s, "08") {
            Some(Month::Aug)
        } else if same_text(s, "09") {
            Some(Month::Sep)
        } else if same_text(s, "10") {
            Some(Month::Oct)
        } else if same_text(s, "11") {
            Some(Month::Nov)
        } else if same_text(s, "12") {
            Some(Month::Dec)
        } else {
            None
        }
    }

    pub fn as_str(&self) -> (r: &'static str)
        ensures
            r@ == self.text(),
    {
        match self {
            Month::Jan => "01",
            Month::Feb => "02",
            Month::Mar => "03",
            Month::Apr => "04",
            Month::May => "05",
            Month::Jun => "06",
            Month::Jul => "07",
            Month::Aug => "08",
            Month::Sep => "09",
            Month::Oct => "10",
            Month::Nov => "11",
            Month::Dec => "12",
        }
    }

    /// The first month of the historic archive.
    pub fn default() -> (r: Self)
        ensures
            r == Month::Jul,
    {
        Month::Jul
    }
}

/// A year, as four digits.
#[derive(Clone, Debug, PartialEq)]
pub struct Year(pub String);

impl Year {
    /// A year written with four digits, or with two digits of this century.
    pub open spec fn read(s: Seq<char>) -> Option<Seq<char>> {
        if s.len() == 4 && is_digit(s[0]) && is_digit(s[1]) && is_digit(s[2]) && is_digit(s[3]) {
            Some(s)
        } else if s.len() == 2 && is_digit(s[0]) && is_digit(s[1]) {
            Some("20"@ + s)
        } else {
            None
        }
    }

    pub fn from_str(s: &str) -> (r: Option<Year>)
        ensures
            r.is_some() == Year::read(s@).is_some(),
            r matches Some(y) ==> Year::read(s@) == Some(y.0@),
    {
        let n = s.unicode_len();
        if n == 4 {
            let a = s.get_char(0);
            let b = s.get_char(1);
            let c = s.get_char(2);
            let d = s.get_char(3);
            if '0' <= a && a <= '9' && '0' <= b && b <= '9' && '0' <= c && c <= '9' && '0' <= d
                && d <= '9' {
                return Some(Year(String::from_str(s)));
            }
            None
        } else if n == 2 {
            let a = s.get_char(0);
            let b = s.get_char(1);
            if '0' <= a && a <= '9' && '0' <= b && b <= '9' {
                let mut y = String::from_str("20");
                y.append(s);
                return Some(Year(y));
            }
            None
        } else {
            None
        }
    }

    pub fn as_str(&self) -> (r: &str)
        ensures
            r@ == self.0@,
    {
        self.0.as_str()
    }

    /// The first year of the historic archive.
    pub fn default() -> (r: Self)
        ensures
            r.0@ == "2009"@,
    {
        Year(String::from_str("2009"))
    }
}

/// Fetches a month of a package from the historic archive.
#[derive(Debug)]
pub struct HistoricDataDownloader {
    pub package: Package,
    pub year: Year,
    pub month: Month,
}

/// The archive file of a package for a month, where the archive has one.
pub open spec fn historic_file_of(p: Package, year: Seq<char>, month: Seq<char>) -> Option<Seq<char>> {
    match p {
        Package::DispatchUnitScada => Some(
            "PUBLIC_DVD_DISPATCH_UNIT_SCADA_"@ + year + month + "010000.zip"@,
        ),
        Package::RooftopPvActual => Some(
            "PUBLIC_DVD_ROOFTOP_PV_ACTUAL_"@ + year + month + "010000.zip"@,
        ),
        _ => None,
    }
}

/// The archive address of a month's file, below the site.
pub open spec fn historic_url_of(p: Package, year: Seq<char>, month: Seq<char>) -> Option<Seq<char>> {
    match historic_file_of(p, year, month) {
        Some(f) => Some(
            "Data_Archive/Wholesale_Electricity/MMSDM/"@ + year + "/MMSDM_"@ + year + "_"@ + month
                + "/MMSDM_Historical_Data_SQLLoader/DATA/"@ + f,
        ),
        None => None,
    }
}

impl HistoricDataDownloader {
    pub fn new(package: Package) -> (r: Self)
        ensures
            r.package == package,
            r.year.0@ == "2009"@,
            r.month == Month::Jul,
    {
        HistoricDataDownloader { package, year: Year::default(), month: Month::default() }
    }

    pub fn with_year(self, year: &str) -> (r: Result<Self, Error>)
        ensures
            r.is_err() == Year::read(year@).is_none(),
            r matches Err(e) ==> (e matches Error::InvalidYear(y) && y@ == year@),
            r matches Ok(d) ==> d.package == self.package && d.month == self.month && Year::read(
                year@,
            ) == Some(d.year.0@),
    {
        match Year::from_str(year) {
            Some(y) => Ok(HistoricDataDownloader { year: y, ..self }),
            None => Err(Error::InvalidYear(String::from_str(year))),
        }
    }

    pub fn with_month(self, month: &str) -> (r: Result<Self, Error>)
        ensures
            r.is_err() == Month::named(month@).is_none(),
            r matches Err(e) ==> (e matches Error::InvalidMonth(m) && m@ == month@),
            r matches Ok(d) ==> d.package == self.package && d.year == self.year && Month::named(
                month@,
            ) == Some(d.month),
    {
        match Month::from_str(month) {
            Some(m) => Ok(HistoricDataDownloader { month: m, ..self }),
            None => Err(Error::InvalidMonth(String::from_str(month))),
        }
    }

    /// The address of the month's archive file below the site, where the
    /// archive holds the package.
    pub fn url(&self) -> (r: Option<String>)
        ensures
            r.is_some() == historic_url_of(self.package, self.year.0@, self.month.text()).is_some(),
            r matches Some(u) ==> historic_url_of(self.package, self.year.0@, self.month.text())
                == Some(u@),
    {
        let year = self.year.as_str();
        let month = self.month.as_str();
        let mut filename = match self.package {
            Package::DispatchUnitScada => String::from_str("PUBLIC_DVD_DISPATCH_UNIT_SCADA_"),
            Package::RooftopPvActual => String::from_str("PUBLIC_DVD_ROOFTOP_PV_ACTUAL_"),
            _ => {
                return None;
            },
        };
        filename.append(year);
        filename.append(month);
        filename.append("010000.zip");
        let mut url = String::from_str("Data_Archive/Wholesale_Electricity/MMSDM/");
        url.append(year);
        url.append("/MMSDM_");
        url.append(year);
        url.append("_");
        url.append(month);
        url.append("/MMSDM_Historical_Data_SQLLoader/DATA/");
        url.append(filename.as_str());
        Some(url)
    }
}

/// Which listing of the site to read.
#[derive(Clone, Copy, Debug, PartialEq, Eq, Structural)]
pub enum Archive {
    Current,
    Archive,
}

impl Archive {
    pub open spec fn named(s: Seq<char>) -> Option<Archive> {
        if s == "current"@ {
            Some(Archive::Current)
        } else if s == "archive"@ {
            Some(Archive::Archive)
        } else {
            None
        }
    }

    pub open spec fn part(self) -> Seq<char> {
        match self {
            Archive::Current => "Current"@,
            Archive::Archive => "Archive"@,
        }
    }

    pub fn from_str(s: &str) -> (r: Option<Self>)
        ensures
            r == Archive::named(s@),
    {
        if same_text(s, "current") {
            Some(Archive::Current)
        } else if same_text(s, "archive") {
            Some(Archive::Archive)
        } else {
            None
        }
    }

    pub fn url_part(&self) -> (r: &'static str)
        ensures
            r@ == self.part(),
    {
        match self {
            Archive::Current => "Current",
            Archive::Archive => "Archive",
        }
    }
}

/// Reads a package's listing on the site and fetches the files it links.
#[derive(Debug)]
pub struct NemwebScraper {
    pub package: Package,
    pub archive: Archive,
}

/// Whether a link ends in `.zip`.
pub open spec fn is_zip_link(h: Seq<char>) -> bool {
    h.len() >= 4 && h.skip(h.len() - 4) == ".zip"@
}

/// The links that end in `.zip`, in order.
pub open spec fn zip_links(hrefs: Seq<Seq<char>>) -> Seq<Seq<char>>
    decreases hrefs.len(),
{
    if hrefs.len() == 0 {
        Seq::empty()
    } else if is_zip_link(hrefs.last()) {
        zip_links(hrefs.drop_last()).push(hrefs.last())
    } else {
        zip_links(hrefs.drop_last())
    }
}

/// The `href` of each `a` element of an HTML document, in document order.
pub uninterp spec fn anchor_hrefs(html: Seq<char>) -> Seq<Seq<char>>;

/// Relies on scraper: `Html::parse_document`, then `select` with the
/// selector `a` (`None` where `Selector::parse` refuses it), keeping the
/// `href` attribute of each element that has one.
#[verifier::external_body]
fn hrefs_of(html: &str) -> (r: Option<Vec<String>>)
    ensures
        r matches Some(v) ==> v.deep_view() == anchor_hrefs(html@),
{
    let selector = scraper::Selector::parse("a").ok()?;
    let document = scraper::Html::parse_document(html);
    Some(document.select(&selector).filter_map(|e| e.value().attr("href")).map(|h| h.to_string()).collect())
}

/// Whether `s` ends in `.zip`.
fn ends_with_zip(s: &str) -> (r: bool)
    ensures
        r == is_zip_link(s@),
{
    let n = s.unicode_len();
    if n < 4 {
        return false;
    }
    proof {
        reveal_strlit(".zip");
    }
    let ok = s.get_char(n - 4) == '.' && s.get_char(n - 3) == 'z' && s.get_char(n - 2) == 'i'
        && s.get_char(n - 1) == 'p';
    if ok {
        assert(s@.skip(n - 4) =~= ".zip"@);
    } else {
        assert(s@.skip(n - 4) != ".zip"@) by {
            if s@.skip(n - 4) == ".zip"@ {
                assert(s@.skip(n - 4)[0] == s@[n - 4]);
                assert(s@.skip(n - 4)[1] == s@[n - 3]);
                assert(s@.skip(n - 4)[2] == s@[n - 2]);
                assert(s@.skip(n - 4)[3] == s@[n - 1]);
            }
        }
    }
    ok
}

/// The links of `hrefs` that end in `.zip`, in order.
pub fn select_zip_links(hrefs: &Vec<String>) -> (r: Vec<String>)
    ensures
        r.deep_view() == zip_links(hrefs.deep_view()),
{
    let ghost h = hrefs.deep_view();
    let mut out: Vec<String> = Vec::new();
    let mut i: usize = 0;
    assert(h.take(0) =~= Seq::<Seq<char>>::empty());
    assert(out.deep_view() =~= Seq::<Seq<char>>::empty());
    while i < hrefs.len()
        invariant
            i <= hrefs.len(),
            h == hrefs.deep_view(),
            out.deep_view() == zip_links(h.take(i as int)),
        decreases hrefs.len() - i,
    {
        assert(h.take(i + 1).drop_last() =~= h.take(i as int));
        assert(h.take(i + 1).last() == h[i as int]);
        if ends_with_zip(hrefs[i].as_str()) {
            let ghost before = out.deep_view();
            out.push(hrefs[i].clone());
            assert(out.deep_view() =~= before.push(h[i as int]));
        }
        i = i + 1;
    }
    assert(h.take(hrefs.len() as int) =~= h);
    out
}

/// The text after the last `/` of an address.
pub open spec fn last_segment(url: Seq<char>) -> Seq<char>
    decreases url.len(),
{
    if url.len() == 0 {
        url
    } else if url.last() == '/' {
        Seq::empty()
    } else {
        last_segment(url.drop_last()).push(url.last())
    }
}

/// The file name that an address ends in: its text after the last `/`.
pub fn file_name_of(url: &str) -> (r: String)
    ensures
        r@ == last_segment(url@),
{
    let n = url.unicode_len();
    let mut start: usize = n;
    assert(url@.take(n as int) =~= url@);
    assert(url@.skip(n as int) =~= Seq::<char>::empty());
    assert(last_segment(url@) + url@.skip(n as int) =~= last_segment(url@));
    while start > 0
        invariant
            start <= n == url@.len(),
            last_segment(url@) == last_segment(url@.take(start as int)) + url@.skip(start as int),
        ensures
            start <= n,
            last_segment(url@) == last_segment(url@.take(start as int)) + url@.skip(start as int),
            start == 0 || url@[start - 1] == '/',
        decreases start,
    {
        if url.get_char(start - 1) == '/' {
            break;
        }
        proof {
            let t = url@.take(start as int);
            assert(t.drop_last() =~= url@.take(start - 1));
            assert(t.last() == url@[start - 1]);
            assert(seq![url@[start - 1]] + url@.skip(start as int) =~= url@.skip(start - 1));
            assert(last_segment(url@.take(start - 1)).push(url@[start - 1]) + url@.skip(start as int)
                =~= last_segment(url@.take(start - 1)) + url@.skip(start - 1));
        }
        start = start - 1;
    }
    proof {
        if start == 0 {
            assert(url@.take(0).len() == 0);
            assert(last_segment(url@.take(0)) =~= Seq::<char>::empty());
        } else {
            assert(url@.take(start as int).last() == '/');
        }
    }
    let mut out = String::new();
    let mut i: usize = start;
    while i < n
        invariant
            start <= i <= n == url@.len(),
            out@ =~= url@.subrange(start as int, i as int),
        decreases n - i,
    {
        push_char(&mut out, url.get_char(i));
        i = i + 1;
    }
    assert(url@.subrange(start as int, n as int) =~= url@.skip(start as int));
    assert(last_segment(url@.take(start as int)) + url@.skip(start as int) =~= url@.skip(start as int));
    out
}

/// The full address of a path below the site.
pub fn site_url(path: &str) -> (r: String)
    ensures
        r@ == BASE_URL@ + "/"@ + path@,
{
    let mut u = String::from_str(BASE_URL);
    u.append("/");
    u.append(path);
    u
}

/// The full address of a link that the site's listings give from its root.
pub fn link_url(link: &str) -> (r: String)
    ensures
        r@ == BASE_URL@ + link@,
{
    let mut u = String::from_str(BASE_URL);
    u.append(link);
    u
}

impl NemwebScraper {
    pub fn new(package: Package, archive: Archive) -> (r: Self)
        ensures
            r.package == package,
            r.archive == archive,
    {
        NemwebScraper { package, archive }
    }

    /// The address of the package's listing below the site, where it has
    /// one.
    pub fn url(&self) -> (r: Option<String>)
        ensures
            r.is_some() == package_url_part_of(self.package).is_some(),
            r matches Some(u) ==> u@ == "Reports/"@ + self.archive.part() + "/"@
                + package_url_part_of(self.package).unwrap(),
    {
        match package_url_part(&self.package) {
            Some(p) => {
                let mut u = String::from_str("Reports/");
                u.append(self.archive.url_part());
                u.append("/");
                u.append(p);
                Some(u)
            },
            None => None,
        }
    }

    /// The links of a listing page that end in `.zip`, in document order.
    pub fn find_all_urls(&self, html: &str) -> (r: Result<Vec<String>, Error>)
        ensures
            r matches Ok(v) ==> v.deep_view() == zip_links(anchor_hrefs(html@)),
            r matches Err(e) ==> e == Error::ScraperError,
    {
        match hrefs_of(html) {
            Some(hrefs) => Ok(select_zip_links(&hrefs)),
            None => Err(Error::ScraperError),
        }
    }
}

} // verus!
