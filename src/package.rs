//! The reports that have a known output schema, and the registry that maps
//! a report's type and subtype to one.
use crate::error::{Error, ErrorView};
use crate::fetch::{historic_url_of, package_url_part_of, Archive, HistoricDataDownloader, NemwebScraper};
use crate::flatfile::{first_information, projection, ColumnBatch, FlatFile};
use crate::record::InformationRecord;
use crate::text::same_text;
use crate::value::{CellView, DataType};
use vstd::string::*;
use vstd::prelude::*;

verus! {

/// One column of a report's schema.
#[derive(Clone, Debug, PartialEq)]
pub struct FieldSpec {
    pub name: String,
    pub datatype: DataType,
    pub nullable: bool,
}

pub struct FieldView {
    pub name: Seq<char>,
    pub datatype: DataType,
    pub nullable: bool,
}

impl DeepView for FieldSpec {
    type V = FieldView;

    open spec fn deep_view(&self) -> FieldView {
        FieldView { name: self.name@, datatype: self.datatype, nullable: self.nullable }
    }
}

/// A supported report, with its own schema.
#[derive(Clone, Copy, Debug, PartialEq, Eq, Hash, Structural)]
pub enum Package {
    DispatchUnitScada,
    DispatchNegativeResidue,
    DispatchLocalPrice,
    RooftopPvActual,
}

impl Package {
    /// The package's name.
    pub open spec fn name(self) -> Seq<char> {
        match self {
            Package::DispatchUnitScada => "DISPATCH_UNIT_SCADA"@,
            Package::DispatchNegativeResidue => "DISPATCH_NEGATIVE_RESIDUE"@,
            Package::DispatchLocalPrice => "DISPATCH_LOCAL_PRICE"@,
            Package::RooftopPvActual => "ROOFTOP_PV_ACTUAL"@,
        }
    }

    /// The package with the name `s`, if any.
    pub open spec fn named(s: Seq<char>) -> Option<Package> {
        if s == "DISPATCH_UNIT_SCADA"@ {
            Some(Package::DispatchUnitScada)
        } else if s == "DISPATCH_NEGATIVE_RESIDUE"@ {
            Some(Package::DispatchNegativeResidue)
        } else if s == "DISPATCH_LOCAL_PRICE"@ {
            Some(Package::DispatchLocalPrice)
        } else if s == "ROOFTOP_PV_ACTUAL"@ {
            Some(Package::RooftopPvActual)
        } else {
            None
        }
    }

    /// The package that a report type and subtype map to, if any.
    pub open spec fn of_report(report_type: Seq<char>, report_subtype: Seq<char>) -> Option<
        Package,
    > {
        if report_type == "DISPATCH"@ && report_subtype == "UNIT_SCADA"@ {
            Some(Package::DispatchUnitScada)
        } else if report_type == "DISPATCH"@ && report_subtype == "NEGATIVE_RESIDUE"@ {
            Some(Package::DispatchNegativeResidue)
        } else if report_type == "DISPATCH"@ && report_subtype == "LOCAL_PRICE"@ {
            Some(Package::DispatchLocalPrice)
        } else if report_type == "ROOFTOP"@ && report_subtype == "ACTUAL"@ {
            Some(Package::RooftopPvActual)
        } else {
            None
        }
    }

    pub fn as_str(&self) -> (r: &'static str)
        ensures
            r@ == self.name(),
    {
        match self {
            Package::DispatchUnitScada => "DISPATCH_UNIT_SCADA",
            Package::DispatchNegativeResidue => "DISPATCH_NEGATIVE_RESIDUE",
            Package::DispatchLocalPrice => "DISPATCH_LOCAL_PRICE",
            Package::RooftopPvActual => "ROOFTOP_PV_ACTUAL",
        }
    }

    /// The names of all packages.
    pub fn available_packages() -> (r: [&'static str; 4])
        ensures
            r@.len() == 4,
            r@[0]@ == Package::DispatchUnitScada.name(),
            r@[1]@ == Package::DispatchNegativeResidue.name(),
            r@[2]@ == Package::DispatchLocalPrice.name(),
            r@[3]@ == Package::RooftopPvActual.name(),
    {
        [
            Package::DispatchUnitScada.as_str(),
            Package::DispatchNegativeResidue.as_str(),
            Package::DispatchLocalPrice.as_str(),
            Package::RooftopPvActual.as_str(),
        ]
    }

    pub fn from_str(s: &str) -> (r: Option<Package>)
        ensures
            r == Package::named(s@),
    {
        if same_text(s, "DISPATCH_UNIT_SCADA") {
            Some(Package::DispatchUnitScada)
        } else if same_text(s, "DISPATCH_NEGATIVE_RESIDUE") {
            Some(Package::DispatchNegativeResidue)
        } else if same_text(s, "DISPATCH_LOCAL_PRICE") {
            Some(Package::DispatchLocalPrice)
        } else if same_text(s, "ROOFTOP_PV_ACTUAL") {
            Some(Package::RooftopPvActual)
        } else {
            None
        }
    }

    /// The package of a report type and subtype.
    pub fn from_report(report_type: &str, report_subtype: &str) -> (r: Option<Package>)
        ensures
            r == Package::of_report(report_type@, report_subtype@),
    {
        if same_text(report_type, "DISPATCH") && same_text(report_subtype, "UNIT_SCADA") {
            Some(Package::DispatchUnitScada)
        } else if same_text(report_type, "DISPATCH") && same_text(
            report_subtype,
            "NEGATIVE_RESIDUE",
        ) {
            Some(Package::DispatchNegativeResidue)
        } else if same_text(report_type, "DISPATCH") && same_text(report_subtype, "LOCAL_PRICE") {
            Some(Package::DispatchLocalPrice)
        } else if same_text(report_type, "ROOFTOP") && same_text(report_subtype, "ACTUAL") {
            Some(Package::RooftopPvActual)
        } else {
            None
        }
    }
}

pub open spec fn fv(name: Seq<char>, datatype: DataType, nullable: bool) -> FieldView {
    FieldView { name, datatype, nullable }
}

/// A schema field.
fn field(name: &str, datatype: DataType, nullable: bool) -> (r: FieldSpec)
    ensures
        r.deep_view() == fv(name@, datatype, nullable),
{
    FieldSpec { name: String::from_str(name), datatype, nullable }
}

impl Package {
    /// The package's output schema: the name, datatype and nullability of
    /// each column, in order.
    pub open spec fn schema_view(self) -> Seq<FieldView> {
        match self {
            Package::DispatchUnitScada => seq![
                fv("DUID"@, DataType::Utf8, false),
                fv("SETTLEMENTDATE"@, DataType::TimestampSecond, false),
                fv("SCADAVALUE"@, DataType::Float64, true),
            ],
            Package::DispatchNegativeResidue => seq![
                fv("SETTLEMENTDATE"@, DataType::TimestampSecond, false),
                fv("NRM_DATETIME"@, DataType::TimestampSecond, false),
                fv("DIRECTIONAL_INTERCONNECTORID"@, DataType::Utf8, false),
                fv("NRM_ACTIVATED_FLAG"@, DataType::Boolean, true),
                fv("CUMUL_NEGRESIDUE_AMOUNT"@, DataType::Float64, true),
                fv("CUMUL_NEGRESIDUE_PREV_TI"@, DataType::Float64, true),
                fv("NEGRESIDUE_CURRENT_TI"@, DataType::Float64, true),
                fv("NEGRESIDUE_PD_NEXT_TI"@, DataType::Float64, true),
                fv("PRICE_REVISION"@, DataType::Utf8, true),
                fv("PREDISPATCHSEQNO"@, DataType::Utf8, true),
                fv("EVENT_ACTIVATED_DI"@, DataType::TimestampSecond, true),
                fv("EVENT_DEACTIVATED_DI"@, DataType::TimestampSecond, true),
                fv("DI_NOTBINDING_COUNT"@, DataType::Int16, true),
                fv("DI_VIOLATED_COUNT"@, DataType::Int16, true),
                fv("NRM_CONSTRAINT_BLOCKED_FLAG"@, DataType::Boolean, true),
            ],
            Package::DispatchLocalPrice => seq![
                fv("SETTLEMENTDATE"@, DataType::TimestampSecond, false),
                fv("DUID"@, DataType::Utf8, false),
                fv("LOCAL_PRICE_ADJUSTMENT"@, DataType::Float64, true),
                fv("LOCALLY_CONSTRAINED"@, DataType::Int8, true),
            ],
            Package::RooftopPvActual => seq![
                fv("INTERVAL_DATETIME"@, DataType::TimestampSecond, false),
                fv("TYPE"@, DataType::Utf8, false),
                fv("REGIONID"@, DataType::Utf8, false),
                fv("POWER"@, DataType::Float64, true),
                fv("QI"@, DataType::Float64, true),
                fv("LASTCHANGED"@, DataType::TimestampSecond, true),
            ],
        }
    }

    /// The package's output schema.
    pub fn schema(&self) -> (r: Vec<FieldSpec>)
        ensures
            r.deep_view() == self.schema_view(),
    {
        let r = match self {
            Package::DispatchUnitScada => vec![
                field("DUID", DataType::Utf8, false),
                field("SETTLEMENTDATE", DataType::TimestampSecond, false),
                field("SCADAVALUE", DataType::Float64, true),
            ],
            Package::DispatchNegativeResidue => vec![
                field("SETTLEMENTDATE", DataType::TimestampSecond, false),
                field("NRM_DATETIME", DataType::TimestampSecond, false),
                field("DIRECTIONAL_INTERCONNECTORID", DataType::Utf8, false),
                field("NRM_ACTIVATED_FLAG", DataType::Boolean, true),
                field("CUMUL_NEGRESIDUE_AMOUNT", DataType::Float64, true),
                field("CUMUL_NEGRESIDUE_PREV_TI", DataType::Float64, true),
                field("NEGRESIDUE_CURRENT_TI", DataType::Float64, true),
                field("NEGRESIDUE_PD_NEXT_TI", DataType::Float64, true),
                field("PRICE_REVISION", DataType::Utf8, true),
                field("PREDISPATCHSEQNO", DataType::Utf8, true),
                field("EVENT_ACTIVATED_DI", DataType::TimestampSecond, true),
                field("EVENT_DEACTIVATED_DI", DataType::TimestampSecond, true),
                field("DI_NOTBINDING_COUNT", DataType::Int16, true),
                field("DI_VIOLATED_COUNT", DataType::Int16, true),
                field("NRM_CONSTRAINT_BLOCKED_FLAG", DataType::Boolean, true),
            ],
            Package::DispatchLocalPrice => vec![
                field("SETTLEMENTDATE", DataType::TimestampSecond, false),
                field("DUID", DataType::Utf8, false),
                field("LOCAL_PRICE_ADJUSTMENT", DataType::Float64, true),
                field("LOCALLY_CONSTRAINED", DataType::Int8, true),
            ],
            Package::RooftopPvActual => vec![
                field("INTERVAL_DATETIME", DataType::TimestampSecond, false),
                field("TYPE", DataType::Utf8, false),
                field("REGIONID", DataType::Utf8, false),
                field("POWER", DataType::Float64, true),
                field("QI", DataType::Float64, true),
                field("LASTCHANGED", DataType::TimestampSecond, true),
            ],
        };
        assert(r.deep_view() =~= self.schema_view());
        r
    }

    /// The package of an information record's report type and subtype.
    pub fn from_information_record(record: &InformationRecord) -> (r: Option<Package>)
        ensures
            r == Package::of_report(record.report_type@, record.report_subtype@),
    {
        Package::from_report(record.report_type.as_str(), record.report_subtype.as_str())
    }

    /// Projects a flat file onto the package's schema.
    pub fn to_arrow(&self, flatfile: &FlatFile) -> (r: Result<ColumnBatch, Error>)
        requires
            flatfile.wf(),
        ensures
            r.is_err() == projection(flatfile.0@, self.schema_view()).is_err(),
            r matches Err(e) ==> projection(flatfile.0@, self.schema_view()) == Err::<
                Seq<Seq<Option<CellView>>>,
                ErrorView,
            >(e.deep_view()),
            r matches Ok(b) ==> projection(flatfile.0@, self.schema_view()) == Ok::<
                Seq<Seq<Option<CellView>>>,
                ErrorView,
            >(b.view_columns()),
    {
        flatfile.to_arrow(&self.schema())
    }
}

/// The package that a file's first information record resolves to, if any.
pub open spec fn package_of_records(recs: Seq<crate::record::Record>) -> Option<Package> {
    match first_information(recs) {
        Some(i) => Package::of_report(i.report_type@, i.report_subtype@),
        None => None,
    }
}

/// The package that a flat file resolves to, if any.
pub fn package_of(flatfile: &FlatFile) -> (r: Option<Package>)
    ensures
        r == package_of_records(flatfile.0@),
{
    match flatfile.information_record() {
        Some(i) => Package::from_information_record(i),
        None => None,
    }
}

/// The files that resolve to one package, by their positions in a batch.
#[derive(Clone, Debug, PartialEq)]
pub struct PackageGroup {
    pub package: Package,
    pub members: Vec<usize>,
}

/// The position of the group for `p`, if there is one.
pub open spec fn group_index(groups: Seq<(Package, Seq<int>)>, p: Package) -> Option<int>
    decreases groups.len(),
{
    if groups.len() == 0 {
        None
    } else if groups.last().0 == p {
        Some(groups.len() - 1)
    } else {
        group_index(groups.drop_last(), p)
    }
}

/// The grouping of a batch by resolved package: one group per package, in
/// the order of first appearance, each with the positions of its files in
/// order; files that resolve to none are left out.
pub open spec fn groups_of(pkgs: Seq<Option<Package>>) -> Seq<(Package, Seq<int>)>
    decreases pkgs.len(),
{
    if pkgs.len() == 0 {
        Seq::empty()
    } else {
        let g = groups_of(pkgs.drop_last());
        let i = pkgs.len() - 1;
        match pkgs[i] {
            None => g,
            Some(p) => match group_index(g, p) {
                Some(j) => g.update(j, (p, g[j].1.push(i))),
                None => g.push((p, seq![i])),
            },
        }
    }
}

pub open spec fn groups_view(groups: Seq<PackageGroup>) -> Seq<(Package, Seq<int>)> {
    groups.map_values(|g: PackageGroup| (g.package, g.members@.map_values(|m: usize| m as int)))
}

/// The positions of the files of a batch that have an information record
/// whose report no package supports, in order.
pub open spec fn unresolved(files: Seq<FlatFile>) -> Seq<int>
    decreases files.len(),
{
    if files.len() == 0 {
        Seq::empty()
    } else {
        let f = files.last();
        if first_information(f.0@).is_some() && package_of_records(f.0@) is None {
            unresolved(files.drop_last()).push(files.len() - 1)
        } else {
            unresolved(files.drop_last())
        }
    }
}

/// The packages that the files of a batch resolve to.
pub open spec fn batch_packages(files: Seq<FlatFile>) -> Seq<Option<Package>> {
    files.map_values(|f: FlatFile| package_of_records(f.0@))
}

proof fn lemma_group_index_some(groups: Seq<(Package, Seq<int>)>, p: Package, j: int)
    requires
        0 <= j < groups.len(),
        groups[j].0 == p,
        forall|k: int| j < k < groups.len() ==> groups[k].0 != p,
    ensures
        group_index(groups, p) == Some(j),
    decreases groups.len(),
{
    if j < groups.len() - 1 {
        lemma_group_index_some(groups.drop_last(), p, j);
    }
}

proof fn lemma_group_index_none(groups: Seq<(Package, Seq<int>)>, p: Package)
    requires
        forall|k: int| 0 <= k < groups.len() ==> groups[k].0 != p,
    ensures
        group_index(groups, p) is None,
    decreases groups.len(),
{
    if groups.len() > 0 {
        lemma_group_index_none(groups.drop_last(), p);
    }
}

fn copy_positions(v: &Vec<usize>) -> (r: Vec<usize>)
    ensures
        r@ == v@,
{
    let mut out: Vec<usize> = Vec::new();
    let mut i: usize = 0;
    while i < v.len()
        invariant
            i <= v.len(),
            out@ =~= v@.take(i as int),
        decreases v.len() - i,
    {
        out.push(v[i]);
        i = i + 1;
    }
    assert(v@.take(v.len() as int) =~= v@);
    out
}

/// Groups the files of a batch by the package they resolve to. Returns the
/// groups, and the positions of files whose report no package supports.
pub fn group_by_package(flatfiles: &Vec<FlatFile>) -> (r: (Vec<PackageGroup>, Vec<usize>))
    ensures
        groups_view(r.0@) == groups_of(batch_packages(flatfiles@)),
        r.1@.map_values(|k: usize| k as int) == unresolved(flatfiles@),
{
    let ghost pkgs = batch_packages(flatfiles@);
    let mut groups: Vec<PackageGroup> = Vec::new();
    let mut skipped: Vec<usize> = Vec::new();
    let mut i: usize = 0;
    assert(pkgs.take(0) =~= Seq::<Option<Package>>::empty());
    assert(flatfiles@.take(0) =~= Seq::<FlatFile>::empty());
    assert(skipped@.map_values(|k: usize| k as int) =~= Seq::<int>::empty());
    assert(groups_view(groups@) =~= Seq::<(Package, Seq<int>)>::empty());
    while i < flatfiles.len()
        invariant
            i <= flatfiles.len(),
            pkgs == batch_packages(flatfiles@),
            groups_view(groups@) == groups_of(pkgs.take(i as int)),
            skipped@.map_values(|k: usize| k as int) == unresolved(flatfiles@.take(i as int)),
        decreases flatfiles.len() - i,
    {
        assert(flatfiles@.take(i + 1).drop_last() =~= flatfiles@.take(i as int));
        assert(flatfiles@.take(i + 1).last() == flatfiles@[i as int]);
        let ghost g = groups_of(pkgs.take(i as int));
        assert(pkgs.take(i + 1).drop_last() =~= pkgs.take(i as int));
        assert(pkgs.take(i + 1)[i as int] == pkgs[i as int]);
        let has_info = flatfiles[i].information_record().is_some();
        match package_of(&flatfiles[i]) {
            None => {
                if has_info {
                    let ghost before = skipped@;
                    skipped.push(i);
                    assert(skipped@.map_values(|k: usize| k as int) =~= before.map_values(
                        |k: usize| k as int,
                    ).push(i as int));
                }
            },
            Some(p) => {
                let mut j: usize = groups.len();
                while j > 0
                    invariant
                        j <= groups.len(),
                        groups_view(groups@) == g,
                        forall|k: int| j <= k < groups.len() ==> #[trigger] groups@[k].package != p,
                    ensures
                        j <= groups.len(),
                        j == 0 || groups@[j - 1].package == p,
                        forall|k: int| j <= k < groups.len() ==> #[trigger] groups@[k].package != p,
                    decreases j,
                {
                    if groups[j - 1].package == p {
                        break;
                    }
                    j = j - 1;
                }
                if j > 0 && groups[j - 1].package == p {
                    proof {
                        lemma_group_index_some(g, p, j - 1);
                    }
                    let ghost before = groups@;
                    let mut members = copy_positions(&groups[j - 1].members);
                    members.push(i);
                    groups.set(j - 1, PackageGroup { package: p, members });
                    assert(members@.map_values(|m: usize| m as int) =~= g[j - 1].1.push(i as int));
                    assert(groups_view(groups@) =~= g.update(j - 1, (p, g[j - 1].1.push(i as int))));
                } else {
                    proof {
                        assert forall|k: int| 0 <= k < g.len() implies g[k].0 != p by {
                            assert(g[k].0 == groups@[k].package);
                        }
                        lemma_group_index_none(g, p);
                    }
                    let ghost before = groups@;
                    let first = vec![i];
                    assert(first@.map_values(|m: usize| m as int) =~= seq![i as int]);
                    groups.push(PackageGroup { package: p, members: first });
                    assert(groups_view(groups@) =~= groups_view(before).push((p, seq![i as int])));
                }
            },
        }
        i = i + 1;
    }
    assert(pkgs.take(flatfiles.len() as int) =~= pkgs);
    assert(flatfiles@.take(flatfiles.len() as int) =~= flatfiles@);
    (groups, skipped)
}

/// The file stem that a package's output gets when a batch holds several
/// packages: the given stem, an underscore, the package's name.
pub fn package_file_stem(stem: &str, package: Package) -> (r: String)
    ensures
        r@ == stem@ + seq!['_'] + package.name(),
{
    let mut out = String::from_str(stem);
    crate::text::push_char(&mut out, '_');
    out.append(package.as_str());
    out
}

/// What is known of a package: its name, its schema, and where its files
/// can be fetched from.
#[derive(Clone, Debug, PartialEq)]
pub struct PackageInfo {
    pub name: String,
    pub schema: Vec<FieldSpec>,
    pub supports_fetch_current: bool,
    pub supports_fetch_archive: bool,
    pub supports_fetch_historic: bool,
}

impl PackageInfo {
    pub fn new(package: Package) -> (r: Self)
        ensures
            r.name@ == package.name(),
            r.schema.deep_view() == package.schema_view(),
            r.supports_fetch_current == package_url_part_of(package).is_some(),
            r.supports_fetch_archive == package_url_part_of(package).is_some(),
            r.supports_fetch_historic == historic_url_of(package, "2009"@, "07"@).is_some(),
    {
        let name = String::from_str(package.as_str());
        let schema = package.schema();
        let supports_fetch_historic = HistoricDataDownloader::new(package).url().is_some();
        let supports_fetch_current = NemwebScraper::new(package, Archive::Current).url().is_some();
        let supports_fetch_archive = NemwebScraper::new(package, Archive::Archive).url().is_some();
        PackageInfo {
            name,
            schema,
            supports_fetch_current,
            supports_fetch_archive,
            supports_fetch_historic,
        }
    }
}

} // verus!
