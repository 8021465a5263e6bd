//! The names of the tables kept in a depository, and its configuration.
use crate::calendar::{date_parsed, date_text, parse_date, CivilDate};
use crate::fetch::{Month, Year};
use crate::package::Package;
use crate::text::{push_char, same_text};
use vstd::prelude::*;
use vstd::string::*;

verus! {

#[derive(Clone, Debug, PartialEq)]
pub enum Error {
    /// A table's directory and file stem that name no table.
    UnrecognizedFilename { dir: String, stem: String },
}

/// The pieces of `s` between occurrences of `c`, as `str::split` gives
/// them.
pub open spec fn pieces(s: Seq<char>, c: char) -> Seq<Seq<char>>
    decreases s.len(),
{
    if s.len() == 0 {
        seq![Seq::empty()]
    } else {
        let p = pieces(s.drop_last(), c);
        if s.last() == c {
            p.push(Seq::empty())
        } else {
            p.update(p.len() - 1, p.last().push(s.last()))
        }
    }
}

proof fn lemma_pieces_nonempty(s: Seq<char>, c: char)
    ensures
        pieces(s, c).len() >= 1,
    decreases s.len(),
{
    if s.len() > 0 {
        lemma_pieces_nonempty(s.drop_last(), c);
    }
}

/// Splits `s` at each `c`.
pub fn split_on(s: &str, c: char) -> (r: Vec<String>)
    ensures
        r.deep_view() == pieces(s@, c),
{
    let n = s.unicode_len();
    let mut out: Vec<String> = Vec::new();
    let mut cur = String::new();
    let mut i: usize = 0;
    assert(s@.take(0) =~= Seq::<char>::empty());
    assert(out.deep_view().push(cur@) =~= pieces(s@.take(0), c));
    while i < n
        invariant
            i <= n == s@.len(),
            out.deep_view().push(cur@) == pieces(s@.take(i as int), c),
        decreases n - i,
    {
        let x = s.get_char(i);
        let ghost t = s@.take(i + 1);
        assert(t.drop_last() =~= s@.take(i as int));
        assert(t.last() == x);
        let ghost p = pieces(s@.take(i as int), c);
        proof {
            lemma_pieces_nonempty(s@.take(i as int), c);
        }
        if x == c {
            let ghost before = out.deep_view();
            out.push(cur);
            cur = String::new();
            assert(out.deep_view() =~= before.push(p.last()));
            assert(out.deep_view().push(cur@) =~= p.push(Seq::empty()));
        } else {
            let ghost old_cur = cur@;
            push_char(&mut cur, x);
            assert(out.deep_view().push(cur@) =~= p.update(p.len() - 1, p.last().push(x)));
        }
        i = i + 1;
    }
    assert(s@.take(n as int) =~= s@);
    let ghost before = out.deep_view();
    out.push(cur);
    assert(out.deep_view() =~= before.push(cur@));
    out
}

/// A table of a month taken from the historic archive.
#[derive(Clone, Debug, PartialEq)]
pub struct HistoricFilename {
    pub package: Package,
    pub month: Month,
    pub year: Year,
}

/// A table of one file taken from the current listings.
#[derive(Clone, Debug, PartialEq)]
pub struct NonHistoricFilename {
    pub package: Package,
    pub file_id: String,
    pub report_date: CivilDate,
}

#[derive(Clone, Debug, PartialEq)]
pub enum Filename {
    Historic(HistoricFilename),
    NonHistoric(NonHistoricFilename),
}

/// The pattern of a report date in a table's name.
pub const NAME_DATE_FORMAT: &'static str = "%Y-%m-%d";

pub open spec fn name_date_format() -> Seq<char> {
    seq!['%', 'Y', '-', '%', 'm', '-', '%', 'd']
}

/// Whether a stem names a historic table of `year` and `month`:
/// `historic_<year>-<month>`.
pub open spec fn historic_stem(stem: Seq<char>, year: Seq<char>, month: Month) -> bool {
    let parts = pieces(stem, '_');
    &&& parts.len() == 2
    &&& parts[0] == "historic"@
    &&& pieces(parts[1], '-').len() == 2
    &&& Year::read(pieces(parts[1], '-')[0]) == Some(year)
    &&& Month::named(pieces(parts[1], '-')[1]) == Some(month)
}

/// Whether a stem names a table of one file:
/// `nonhistoric_<date>_<file id>`.
pub open spec fn nonhistoric_stem(stem: Seq<char>, date: CivilDate, file_id: Seq<char>) -> bool {
    let parts = pieces(stem, '_');
    &&& parts.len() == 3
    &&& parts[0] == "nonhistoric"@
    &&& date_parsed(parts[1], name_date_format()) == Some(date)
    &&& parts[2] == file_id
}

/// Whether a stem names a table at all.
pub open spec fn known_stem(stem: Seq<char>) -> bool {
    let parts = pieces(stem, '_');
    ||| (parts.len() == 2 && parts[0] == "historic"@ && pieces(parts[1], '-').len() == 2
        && Year::read(pieces(parts[1], '-')[0]).is_some() && Month::named(
        pieces(parts[1], '-')[1],
    ).is_some())
    ||| (parts.len() == 3 && parts[0] == "nonhistoric"@ && date_parsed(
        parts[1],
        name_date_format(),
    ).is_some())
}

impl Filename {
    /// The name stands for the table whose directory is `dir` and whose file
    /// stem is `stem`.
    pub open spec fn reads(&self, dir: Seq<char>, stem: Seq<char>) -> bool {
        match self {
            Filename::Historic(h) => Package::named(dir) == Some(h.package) && historic_stem(
                stem,
                h.year.0@,
                h.month,
            ),
            Filename::NonHistoric(h) => Package::named(dir) == Some(h.package) && nonhistoric_stem(
                stem,
                h.report_date,
                h.file_id@,
            ),
        }
    }

    /// Reads a table's name from the name of its directory, which is its
    /// package, and its file stem.
    pub fn from_path_buf(dir: &str, stem: &str) -> (r: Result<Self, Error>)
        ensures
            r.is_ok() == (Package::named(dir@).is_some() && known_stem(stem@)),
            r matches Ok(f) ==> f.reads(dir@, stem@),
            r matches Err(e) ==> e->dir@ == dir@ && e->stem@ == stem@,
    {
        let package = match Package::from_str(dir) {
            Some(p) => p,
            None => {
                return Err(unrecognized(dir, stem));
            },
        };
        let parts = split_on(stem, '_');
        assert(parts.deep_view() == pieces(stem@, '_'));
        if parts.len() == 2 && same_text(parts[0].as_str(), "historic") {
            let date = split_on(parts[1].as_str(), '-');
            if date.len() == 2 {
                let year = Year::from_str(date[0].as_str());
                let month = Month::from_str(date[1].as_str());
                if let (Some(year), Some(month)) = (year, month) {
                    return Ok(Filename::Historic(HistoricFilename { package, year, month }));
                }
            }
            return Err(unrecognized(dir, stem));
        }
        if parts.len() == 3 && same_text(parts[0].as_str(), "nonhistoric") {
            proof {
                reveal_strlit("%Y-%m-%d");
                assert(NAME_DATE_FORMAT@ =~= name_date_format());
            }
            if let Some(report_date) = parse_date(parts[1].as_str(), NAME_DATE_FORMAT) {
                return Ok(
                    Filename::NonHistoric(
                        NonHistoricFilename { package, file_id: parts[2].clone(), report_date },
                    ),
                );
            }
        }
        Err(unrecognized(dir, stem))
    }
}

fn unrecognized(dir: &str, stem: &str) -> (e: Error)
    ensures
        e->dir@ == dir@,
        e->stem@ == stem@,
{
    Error::UnrecognizedFilename { dir: String::from_str(dir), stem: String::from_str(stem) }
}

impl HistoricFilename {
    pub open spec fn path(&self) -> Seq<char> {
        self.package.name() + "/historic_"@ + self.year.0@ + "-"@ + self.month.text()
            + ".parquet"@
    }

    /// The table's path below the depository's data directory.
    pub fn as_path_buf(&self) -> (r: String)
        ensures
            r@ == self.path(),
    {
        let mut p = String::from_str(self.package.as_str());
        p.append("/historic_");
        p.append(self.year.as_str());
        p.append("-");
        p.append(self.month.as_str());
        p.append(".parquet");
        p
    }
}

impl NonHistoricFilename {
    pub open spec fn path(&self) -> Seq<char> {
        self.package.name() + "/nonhistoric_"@ + self.report_date.iso_text() + "_"@
            + self.file_id@ + ".parquet"@
    }

    /// The table's path below the depository's data directory.
    pub fn as_path_buf(&self) -> (r: String)
        requires
            self.report_date.wf(),
        ensures
            r@ == self.path(),
    {
        let mut p = String::from_str(self.package.as_str());
        p.append("/nonhistoric_");
        let d = date_text(&self.report_date);
        p.append(d.as_str());
        p.append("_");
        p.append(self.file_id.as_str());
        p.append(".parquet");
        p
    }
}

/// The packages that a depository follows.
#[derive(Clone, Debug, PartialEq)]
pub struct Config {
    pub packages: Vec<Package>,
}

impl Config {
    pub fn init() -> (r: Self)
        ensures
            r.packages@.len() == 0,
    {
        Config { packages: Vec::new() }
    }
}

} // verus!
