//! Properties that hold across the reading and projection functions.
use crate::calendar::{date_format, date_parsed, time_format, time_parsed};
use crate::flatfile::{array_cells, column_cells, header_position, projection, schema_columns};
use crate::package::{group_index, groups_of, FieldView, Package};
use crate::record::{
    but_failure, comment_failure, emms_failure, eor_failure, is_blind_update, is_end_of_report,
    record_failure, Record,
};
use crate::text::u32_of_text;
use crate::value::{decoded, CellView, DataType};
use vstd::prelude::*;

verus! {

/// A comment row with every field that its kind needs, and a date and time
/// that read.
pub open spec fn well_formed_comment(row: Seq<Seq<char>>) -> bool {
    &&& row.len() >= 2
    &&& if is_end_of_report(row) {
        row.len() >= 3 && u32_of_text(row[2]).is_some()
    } else {
        &&& row.len() >= if is_blind_update(row) {
            13int
        } else {
            10int
        }
        &&& date_parsed(row[5], date_format()).is_some()
        &&& time_parsed(row[6], time_format()).is_some()
    }
}

/// A row with a known tag and every field that its kind needs, well formed.
pub open spec fn well_formed_row(row: Seq<Seq<char>>) -> bool {
    &&& row.len() > 0
    &&& (row[0] == "C"@ && well_formed_comment(row)) || ((row[0] == "I"@ || row[0] == "D"@)
        && row.len() >= 4 && u32_of_text(row[3]).is_some())
}

/// A well-formed row tagged `C`, `I` or `D` reads without failure, and any
/// record read from a row is of the kind that its tag selects.
pub proof fn law_well_formed_rows_read(row: Seq<Seq<char>>, rec: Record)
    requires
        well_formed_row(row),
    ensures
        record_failure(row) is None,
        rec.reads(row) ==> (row[0] == "C"@ <==> rec is Comment),
        rec.reads(row) ==> (row[0] == "I"@ <==> rec is Information),
        rec.reads(row) ==> (row[0] == "D"@ <==> rec is Data),
{
    reveal_strlit("C");
    reveal_strlit("I");
    reveal_strlit("D");
    assert("C"@ =~= seq!['C']);
    assert("I"@ =~= seq!['I']);
    assert("D"@ =~= seq!['D']);
    assert("C"@ != "I"@ && "C"@ != "D"@ && "I"@ != "D"@) by {
        assert("C"@[0] != "I"@[0] && "C"@[0] != "D"@[0] && "I"@[0] != "D"@[0]);
    }
    if row[0] == "C"@ {
        if is_end_of_report(row) {
            assert(eor_failure(row) is None);
        } else if is_blind_update(row) {
            assert(but_failure(row) is None);
        } else {
            assert(emms_failure(row) is None);
        }
        assert(comment_failure(row) is None);
    }
}

/// An empty field decodes to null, never to an empty string.
pub proof fn law_empty_field_is_null()
    ensures
        decoded(Seq::empty()) is None,
{
}

/// Among headers that name a field once, the field is found at that
/// header's position.
pub proof fn law_unique_header_position(headers: Seq<Seq<char>>, name: Seq<char>, i: int)
    requires
        0 <= i < headers.len(),
        headers[i] == name,
        forall|j: int| 0 <= j < headers.len() && j != i ==> headers[j] != name,
    ensures
        header_position(headers, name) == Some(i),
    decreases headers.len(),
{
    if i < headers.len() - 1 {
        let h = headers.drop_last();
        assert forall|j: int| 0 <= j < h.len() && j != i implies h[j] != name by {
            assert(h[j] == headers[j]);
        }
        law_unique_header_position(h, name, i);
    }
}

/// Each column of a projection is the column at the position of its
/// field's name among the headers, whatever the order of the schema's
/// fields.
pub proof fn law_columns_follow_names(
    recs: Seq<Record>,
    headers: Seq<Seq<char>>,
    schema: Seq<FieldView>,
    k: int,
)
    requires
        0 <= k < schema.len(),
        schema_columns(recs, headers, schema) is Ok,
    ensures
        header_position(headers, schema[k].name) is Some,
        schema_columns(recs, headers, schema)->Ok_0.len() == schema.len(),
        array_cells(
            recs,
            header_position(headers, schema[k].name)->Some_0,
            schema[k].datatype,
            schema[k].nullable,
        ) == Ok::<Seq<Option<CellView>>, crate::error::ErrorView>(
            schema_columns(recs, headers, schema)->Ok_0[k],
        ),
    decreases schema.len(),
{
    let s = schema.drop_last();
    let f = schema.last();
    assert(schema_columns(recs, headers, s) is Ok);
    let cols = schema_columns(recs, headers, s)->Ok_0;
    if s.len() > 0 {
        law_columns_follow_names(recs, headers, s, 0);
    }
    assert(header_position(headers, f.name) is Some);
    let p = header_position(headers, f.name)->Some_0;
    assert(array_cells(recs, p, f.datatype, f.nullable) is Ok);
    let c = array_cells(recs, p, f.datatype, f.nullable)->Ok_0;
    assert(schema_columns(recs, headers, schema)->Ok_0 == cols.push(c));
    if k < s.len() {
        law_columns_follow_names(recs, headers, s, k);
        assert(s[k] == schema[k]);
        assert(cols.push(c)[k] == cols[k]);
    } else {
        assert(cols.push(c)[k] == c);
    }
}

/// A column that allows no null cannot be built over records of which one
/// holds a null at its position: the projection fails rather than drop the
/// row.
pub proof fn law_null_refused(recs: Seq<Record>, idx: int, dt: DataType, j: int)
    requires
        0 <= j < recs.len(),
        recs[j] is Data,
        0 <= idx < recs[j]->Data_0.data.len(),
        recs[j]->Data_0.data@[idx] is None,
    ensures
        column_cells(recs, idx, dt, false) is Err,
        array_cells(recs, idx, dt, false) is Err,
    decreases recs.len(),
{
    if j < recs.len() - 1 {
        let r = recs.drop_last();
        assert(r[j] == recs[j]);
        law_null_refused(r, idx, dt, j);
    } else {
        assert(recs.last() == recs[j]);
    }
}

/// A schema field that allows no null, found among the headers at a
/// position where some data record holds a null, fails the projection.
pub proof fn law_null_fails_projection(
    recs: Seq<Record>,
    headers: Seq<Seq<char>>,
    schema: Seq<FieldView>,
    k: int,
    j: int,
)
    requires
        0 <= k < schema.len(),
        !schema[k].nullable,
        header_position(headers, schema[k].name) is Some,
        0 <= j < recs.len(),
        recs[j] is Data,
        0 <= header_position(headers, schema[k].name)->Some_0 < recs[j]->Data_0.data.len(),
        recs[j]->Data_0.data@[header_position(headers, schema[k].name)->Some_0] is None,
    ensures
        schema_columns(recs, headers, schema) is Err,
{
    let p = header_position(headers, schema[k].name)->Some_0;
    law_null_refused(recs, p, schema[k].datatype, j);
    if schema_columns(recs, headers, schema) is Ok {
        law_columns_follow_names(recs, headers, schema, k);
    }
}

proof fn lemma_group_index(groups: Seq<(Package, Seq<int>)>, p: Package)
    ensures
        group_index(groups, p) matches Some(j) ==> 0 <= j < groups.len() && groups[j].0 == p,
        group_index(groups, p) is None ==> forall|j: int|
            0 <= j < groups.len() ==> #[trigger] groups[j].0 != p,
    decreases groups.len(),
{
    if groups.len() > 0 {
        lemma_group_index(groups.drop_last(), p);
        if groups.last().0 != p {
            assert forall|j: int| 0 <= j < groups.len() - 1 implies #[trigger] groups[j].0
                == groups.drop_last()[j].0 by {}
        }
    }
}

/// Every file that resolves to a package is a member of that package's
/// group.
proof fn lemma_member_of_group(pkgs: Seq<Option<Package>>, i: int)
    requires
        0 <= i < pkgs.len(),
        pkgs[i] is Some,
    ensures
        exists|a: int|
            0 <= a < groups_of(pkgs).len() && #[trigger] groups_of(pkgs)[a].0 == pkgs[i]->Some_0
                && groups_of(pkgs)[a].1.contains(i),
    decreases pkgs.len(),
{
    let g = groups_of(pkgs.drop_last());
    let last = pkgs.len() - 1;
    if i < last {
        assert(pkgs.drop_last()[i] == pkgs[i]);
        lemma_member_of_group(pkgs.drop_last(), i);
        let a = choose|a: int|
            0 <= a < g.len() && #[trigger] g[a].0 == pkgs[i]->Some_0 && g[a].1.contains(i);
        match pkgs[last] {
            None => {
                assert(groups_of(pkgs) == g);
                assert(groups_of(pkgs)[a].0 == pkgs[i]->Some_0);
            },
            Some(q) => {
                lemma_group_index(g, q);
                match group_index(g, q) {
                    Some(b) => {
                        let ng = groups_of(pkgs);
                        if a == b {
                            assert(ng[a].1 == g[a].1.push(last));
                            assert(ng[a].1[g[a].1.index_of(i)] == i);
                        } else {
                            assert(ng[a] == g[a]);
                        }
                        assert(ng[a].0 == pkgs[i]->Some_0 && ng[a].1.contains(i));
                    },
                    None => {
                        let ng = groups_of(pkgs);
                        assert(ng[a] == g[a]);
                    },
                }
            },
        }
    } else {
        let q = pkgs[last]->Some_0;
        lemma_group_index(g, q);
        let ng = groups_of(pkgs);
        match group_index(g, q) {
            Some(b) => {
                assert(ng[b].1 == g[b].1.push(last));
                assert(ng[b].1[g[b].1.len() as int] == last);
                assert(ng[b].0 == q && ng[b].1.contains(i));
            },
            None => {
                assert(ng[g.len() as int].1 == seq![last]);
                assert(ng[g.len() as int].1[0] == last);
                assert(ng[g.len() as int].0 == q && ng[g.len() as int].1.contains(i));
            },
        }
    }
}

/// Two files of a batch that resolve to different packages land in two
/// distinct groups, one for each package, and so give two column batches.
pub proof fn law_distinct_packages_distinct_groups(pkgs: Seq<Option<Package>>, i: int, j: int)
    requires
        0 <= i < pkgs.len(),
        0 <= j < pkgs.len(),
        pkgs[i] is Some,
        pkgs[j] is Some,
        pkgs[i] != pkgs[j],
    ensures
        groups_of(pkgs).len() >= 2,
        exists|a: int, b: int|
            0 <= a < groups_of(pkgs).len() && 0 <= b < groups_of(pkgs).len() && a != b
                && #[trigger] groups_of(pkgs)[a].0 == pkgs[i]->Some_0 && #[trigger] groups_of(
                pkgs,
            )[b].0 == pkgs[j]->Some_0 && groups_of(pkgs)[a].1.contains(i) && groups_of(
                pkgs,
            )[b].1.contains(j),
{
    lemma_member_of_group(pkgs, i);
    lemma_member_of_group(pkgs, j);
    let g = groups_of(pkgs);
    let a = choose|a: int|
        0 <= a < g.len() && #[trigger] g[a].0 == pkgs[i]->Some_0 && g[a].1.contains(i);
    let b = choose|b: int|
        0 <= b < g.len() && #[trigger] g[b].0 == pkgs[j]->Some_0 && g[b].1.contains(j);
    assert(a != b);
}

/// The number of data records.
pub open spec fn data_count(recs: Seq<Record>) -> int
    decreases recs.len(),
{
    if recs.len() == 0 {
        0
    } else if recs.last() is Data {
        data_count(recs.drop_last()) + 1
    } else {
        data_count(recs.drop_last())
    }
}

/// A column holds one cell or null for each data record.
pub proof fn law_column_length(recs: Seq<Record>, idx: int, dt: DataType, nullable: bool)
    requires
        column_cells(recs, idx, dt, nullable) is Ok,
    ensures
        column_cells(recs, idx, dt, nullable)->Ok_0.len() == data_count(recs),
    decreases recs.len(),
{
    if recs.len() > 0 {
        law_column_length(recs.drop_last(), idx, dt, nullable);
    }
}

/// Every column of a projection has one entry for each data record of the
/// file, so all columns have the same length.
pub proof fn law_projection_columns_aligned(recs: Seq<Record>, schema: Seq<FieldView>, k: int)
    requires
        projection(recs, schema) is Ok,
        0 <= k < schema.len(),
    ensures
        projection(recs, schema)->Ok_0.len() == schema.len(),
        projection(recs, schema)->Ok_0[k].len() == data_count(recs),
{
    let headers = crate::flatfile::first_information(recs)->Some_0.column_headers.deep_view();
    law_columns_follow_names(recs, headers, schema, k);
    let p = header_position(headers, schema[k].name)->Some_0;
    law_column_length(recs, p, schema[k].datatype, schema[k].nullable);
}

} // verus!
