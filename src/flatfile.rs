//! A flat file as a sequence of records, and its projection onto a schema
//! as typed, null-aware columns.
use crate::error::{Error, ErrorView};
use crate::package::{FieldSpec, FieldView};
use crate::record::{record_failure, InformationRecord, Record};
use crate::text::same_text;
use crate::value::{coerced, supported, Cell, CellView, DataType, DataValue, Scalar};
use vstd::prelude::*;

verus! {

/// The records of one flat file, in the order of its rows.
#[derive(Clone, Debug, PartialEq)]
pub struct FlatFile(pub Vec<Record>);

/// One typed column: a cell or a null for each data record.
#[derive(Clone, Debug, PartialEq)]
pub struct Column {
    pub datatype: DataType,
    pub cells: Vec<Option<Cell>>,
}

/// The columns of a schema, in the schema's order.
#[derive(Clone, Debug, PartialEq)]
pub struct ColumnBatch {
    pub columns: Vec<Column>,
}

/// The first failure in reading rows, if any.
pub open spec fn rows_failure(rows: Seq<Seq<Seq<char>>>) -> Option<ErrorView>
    decreases rows.len(),
{
    if rows.len() == 0 {
        None
    } else if record_failure(rows[0]).is_some() {
        record_failure(rows[0])
    } else {
        rows_failure(rows.drop_first())
    }
}

/// The first information record, if any.
pub open spec fn first_information(recs: Seq<Record>) -> Option<InformationRecord>
    decreases recs.len(),
{
    if recs.len() == 0 {
        None
    } else {
        match recs[0] {
            Record::Information(i) => Some(i),
            _ => first_information(recs.drop_first()),
        }
    }
}

/// The position of the last header named `name`.
pub open spec fn header_position(headers: Seq<Seq<char>>, name: Seq<char>) -> Option<int>
    decreases headers.len(),
{
    if headers.len() == 0 {
        None
    } else if headers.last() == name {
        Some(headers.len() - 1)
    } else {
        header_position(headers.drop_last(), name)
    }
}

/// The cells of the column at position `idx` over the data records of
/// `recs`, or the first error met: a row too short, a null where none is
/// allowed, or a value of the wrong kind.
pub open spec fn column_cells(recs: Seq<Record>, idx: int, dt: DataType, nullable: bool) -> Result<
    Seq<Option<CellView>>,
    ErrorView,
>
    decreases recs.len(),
{
    if recs.len() == 0 {
        Ok(Seq::empty())
    } else {
        match column_cells(recs.drop_last(), idx, dt, nullable) {
            Err(e) => Err(e),
            Ok(cells) => match recs.last() {
                Record::Data(d) => if idx >= d.data.len() {
                    Err(ErrorView::IndexError(idx))
                } else {
                    match d.data@[idx].deep_view() {
                        Some(v) => match coerced(v, dt) {
                            Some(c) => Ok(cells.push(Some(c))),
                            None => Err(ErrorView::DatatypeMismatch { datatype: dt, value: Some(v) }),
                        },
                        None => if nullable {
                            Ok(cells.push(None))
                        } else {
                            Err(ErrorView::NullError)
                        },
                    }
                },
                _ => Ok(cells),
            },
        }
    }
}

/// The column at position `idx`, or why it cannot be built.
pub open spec fn array_cells(recs: Seq<Record>, idx: int, dt: DataType, nullable: bool) -> Result<
    Seq<Option<CellView>>,
    ErrorView,
> {
    if !supported(dt) {
        Err(ErrorView::UnsupportedDataType(dt))
    } else {
        column_cells(recs, idx, dt, nullable)
    }
}

/// The columns of `schema`, each resolved by name against `headers`, or the
/// first error met.
pub open spec fn schema_columns(
    recs: Seq<Record>,
    headers: Seq<Seq<char>>,
    schema: Seq<FieldView>,
) -> Result<Seq<Seq<Option<CellView>>>, ErrorView>
    decreases schema.len(),
{
    if schema.len() == 0 {
        Ok(Seq::empty())
    } else {
        match schema_columns(recs, headers, schema.drop_last()) {
            Err(e) => Err(e),
            Ok(cols) => {
                let f = schema.last();
                match header_position(headers, f.name) {
                    None => Err(ErrorView::MissingColumnHeader(f.name)),
                    Some(p) => match array_cells(recs, p, f.datatype, f.nullable) {
                        Err(e) => Err(e),
                        Ok(c) => Ok(cols.push(c)),
                    },
                }
            },
        }
    }
}

/// The projection of a file's records onto a schema, through the headers of
/// its first information record.
pub open spec fn projection(recs: Seq<Record>, schema: Seq<FieldView>) -> Result<
    Seq<Seq<Option<CellView>>>,
    ErrorView,
> {
    match first_information(recs) {
        None => Err(ErrorView::MissingInformationRecord),
        Some(info) => schema_columns(recs, info.column_headers.deep_view(), schema),
    }
}

pub open spec fn cells_view(cells: Seq<Option<Cell>>) -> Seq<Option<CellView>> {
    cells.map_values(|c: Option<Cell>| c.deep_view())
}

impl ColumnBatch {
    pub open spec fn view_columns(&self) -> Seq<Seq<Option<CellView>>> {
        self.columns@.map_values(|c: Column| cells_view(c.cells@))
    }
}

proof fn lemma_column_error_stays(recs: Seq<Record>, i: int, j: int, dt: DataType, nullable: bool, idx: int)
    requires
        0 <= i <= j <= recs.len(),
        column_cells(recs.take(i), idx, dt, nullable).is_err(),
    ensures
        column_cells(recs.take(j), idx, dt, nullable) == column_cells(recs.take(i), idx, dt, nullable),
    decreases j - i,
{
    if j > i {
        lemma_column_error_stays(recs, i, j - 1, dt, nullable, idx);
        assert(recs.take(j).drop_last() =~= recs.take(j - 1));
    }
}

proof fn lemma_schema_error_stays(
    recs: Seq<Record>,
    headers: Seq<Seq<char>>,
    schema: Seq<FieldView>,
    i: int,
    j: int,
)
    requires
        0 <= i <= j <= schema.len(),
        schema_columns(recs, headers, schema.take(i)).is_err(),
    ensures
        schema_columns(recs, headers, schema.take(j)) == schema_columns(recs, headers, schema.take(i)),
    decreases j - i,
{
    if j > i {
        lemma_schema_error_stays(recs, headers, schema, i, j - 1);
        assert(schema.take(j).drop_last() =~= schema.take(j - 1));
    }
}

proof fn lemma_rows_failure_prefix(rows: Seq<Seq<Seq<char>>>, i: int)
    requires
        0 <= i <= rows.len(),
        forall|k: int| 0 <= k < i ==> record_failure(#[trigger] rows[k]).is_none(),
    ensures
        rows_failure(rows) == rows_failure(rows.skip(i)),
    decreases i,
{
    if i > 0 {
        lemma_rows_failure_prefix(rows, i - 1);
        assert(rows.skip(i - 1).drop_first() =~= rows.skip(i));
        assert(rows.skip(i - 1)[0] == rows[i - 1]);
    } else {
        assert(rows.skip(0) =~= rows);
    }
}

impl DataValue {
    /// A copy of the value.
    pub fn copy(&self) -> (r: DataValue)
        ensures
            r.deep_view() == self.deep_view(),
    {
        match self {
            DataValue::Integer(i) => DataValue::Integer(*i),
            DataValue::Float(t) => DataValue::Float(t.clone()),
            DataValue::Date(d) => DataValue::Date(*d),
            DataValue::Time(t) => DataValue::Time(*t),
            DataValue::DateTime(dt) => DataValue::DateTime(*dt),
            DataValue::String(s) => DataValue::String(s.clone()),
        }
    }
}

impl FlatFile {
    /// Every data value is well formed.
    pub open spec fn wf(&self) -> bool {
        forall|i: int| 0 <= i < self.0.len() ==> #[trigger] self.0@[i].wf()
    }

    /// Reads the rows of one file; the first row that cannot be read fails
    /// the whole file.
    pub fn read_csv(rows: &Vec<Vec<String>>) -> (r: Result<FlatFile, Error>)
        ensures
            r.is_err() <==> rows_failure(rows.deep_view()).is_some(),
            r matches Err(e) ==> Some(e.deep_view()) == rows_failure(rows.deep_view()),
            r matches Ok(f) ==> {
                &&& f.wf()
                &&& f.0.len() == rows.len()
                &&& forall|i: int| 0 <= i < rows.len() ==> #[trigger] f.0@[i].reads(rows.deep_view()[i])
            },
    {
        let ghost v = rows.deep_view();
        let mut records: Vec<Record> = Vec::new();
        let mut i: usize = 0;
        while i < rows.len()
            invariant
                i <= rows.len(),
                v == rows.deep_view(),
                records.len() == i,
                forall|k: int| 0 <= k < i ==> record_failure(#[trigger] v[k]).is_none(),
                forall|k: int| 0 <= k < i ==> #[trigger] records@[k].reads(v[k]),
                forall|k: int| 0 <= k < i ==> #[trigger] records@[k].wf(),
            decreases rows.len() - i,
        {
            assert(rows[i as int].deep_view() == v[i as int]);
            match Record::from_csv_record(&rows[i]) {
                Ok(rec) => {
                    records.push(rec);
                    assert(records@[i as int] == rec);
                },
                Err(e) => {
                    proof {
                        lemma_rows_failure_prefix(v, i as int);
                        assert(v.skip(i as int)[0] == v[i as int]);
                    }
                    return Err(e);
                },
            }
            i = i + 1;
        }
        proof {
            lemma_rows_failure_prefix(v, i as int);
            assert(v.skip(i as int).len() == 0);
        }
        Ok(FlatFile(records))
    }

    pub fn len(&self) -> (r: usize)
        ensures
            r == self.0.len(),
    {
        self.0.len()
    }

    pub fn records(&self) -> (r: &Vec<Record>)
        ensures
            r == &self.0,
    {
        &self.0
    }

    /// The first information record of the file.
    pub fn information_record(&self) -> (r: Option<&InformationRecord>)
        ensures
            r.is_some() == first_information(self.0@).is_some(),
            r matches Some(i) ==> *i == first_information(self.0@).unwrap(),
    {
        let mut i: usize = 0;
        assert(self.0@.skip(0) =~= self.0@);
        while i < self.0.len()
            invariant
                i <= self.0.len(),
                first_information(self.0@) == first_information(self.0@.skip(i as int)),
            decreases self.0.len() - i,
        {
            assert(self.0@.skip(i as int)[0] == self.0@[i as int]);
            assert(self.0@.skip(i as int).drop_first() =~= self.0@.skip(i + 1));
            if let Record::Information(info) = &self.0[i] {
                return Some(info);
            }
            i = i + 1;
        }
        None
    }

    /// The column at position `idx` of the data records, coerced to `dt`.
    fn column(&self, idx: usize, dt: DataType, allow_nulls: bool) -> (r: Result<Column, Error>)
        requires
            self.wf(),
            supported(dt),
        ensures
            r.is_err() == column_cells(self.0@, idx as int, dt, allow_nulls).is_err(),
            r matches Err(e) ==> column_cells(self.0@, idx as int, dt, allow_nulls) == Err::<
                Seq<Option<CellView>>,
                ErrorView,
            >(e.deep_view()),
            r matches Ok(c) ==> column_cells(self.0@, idx as int, dt, allow_nulls) == Ok::<
                Seq<Option<CellView>>,
                ErrorView,
            >(cells_view(c.cells@)) && c.datatype == dt,
    {
        let ghost recs = self.0@;
        let mut cells: Vec<Option<Cell>> = Vec::new();
        let mut i: usize = 0;
        assert(recs.take(0) =~= Seq::<Record>::empty());
        assert(cells_view(cells@) =~= Seq::<Option<CellView>>::empty());
        while i < self.0.len()
            invariant
                i <= self.0.len(),
                recs == self.0@,
                self.wf(),
                supported(dt),
                column_cells(recs.take(i as int), idx as int, dt, allow_nulls) == Ok::<
                    Seq<Option<CellView>>,
                    ErrorView,
                >(cells_view(cells@)),
            decreases self.0.len() - i,
        {
            assert(recs.take(i + 1).drop_last() =~= recs.take(i as int));
            assert(recs.take(i + 1).last() == recs[i as int]);
            let ghost before = cells@;
            assert(self.0@[i as int].wf());
            match &self.0[i] {
                Record::Data(d) => {
                    if idx >= d.data.len() {
                        proof {
                            lemma_column_error_stays(recs, i + 1, recs.len() as int, dt, allow_nulls, idx as int);
                            assert(recs.take(recs.len() as int) =~= recs);
                        }
                        return Err(Error::IndexError(idx));
                    }
                    assert(crate::value::opt_wf(d.data@[idx as int].deep_view()));
                    match &d.data[idx] {
                        Some(v) => match v.coerce(dt) {
                            Some(c) => {
                                cells.push(Some(c));
                                assert(cells_view(cells@) =~= cells_view(before).push(Some(c.deep_view())));
                            },
                            None => {
                                proof {
                                    lemma_column_error_stays(recs, i + 1, recs.len() as int, dt, allow_nulls, idx as int);
                                    assert(recs.take(recs.len() as int) =~= recs);
                                }
                                return Err(Error::DatatypeMismatch { datatype: dt, value: Some(v.copy()) });
                            },
                        },
                        None => {
                            if allow_nulls {
                                cells.push(None);
                                assert(cells_view(cells@) =~= cells_view(before).push(None));
                            } else {
                                proof {
                                    lemma_column_error_stays(recs, i + 1, recs.len() as int, dt, allow_nulls, idx as int);
                                    assert(recs.take(recs.len() as int) =~= recs);
                                }
                                return Err(Error::NullError);
                            }
                        },
                    }
                },
                _ => {},
            }
            i = i + 1;
        }
        assert(recs.take(recs.len() as int) =~= recs);
        Ok(Column { datatype: dt, cells })
    }

    /// The column at position `idx`, built for a datatype that columns
    /// support.
    pub fn get_array_ref(&self, idx: usize, datatype: DataType, allow_nulls: bool) -> (r: Result<
        Column,
        Error,
    >)
        requires
            self.wf(),
        ensures
            r.is_err() == array_cells(self.0@, idx as int, datatype, allow_nulls).is_err(),
            r matches Err(e) ==> array_cells(self.0@, idx as int, datatype, allow_nulls) == Err::<
                Seq<Option<CellView>>,
                ErrorView,
            >(e.deep_view()),
            r matches Ok(c) ==> array_cells(self.0@, idx as int, datatype, allow_nulls) == Ok::<
                Seq<Option<CellView>>,
                ErrorView,
            >(cells_view(c.cells@)) && c.datatype == datatype,
    {
        match datatype {
            DataType::Float64 => self.get_float64_array(idx, allow_nulls),
            DataType::TimestampSecond => self.get_timestampsecond_array(idx, allow_nulls),
            DataType::Utf8 => self.get_string_array(idx, allow_nulls),
            DataType::Boolean => self.get_boolean_array(idx, allow_nulls),
            DataType::Int16 => self.get_int16_array(idx, allow_nulls),
            _ => Err(Error::UnsupportedDataType(datatype)),
        }
    }

    /// The column at `idx` as text.
    pub fn get_string_array(&self, idx: usize, allow_nulls: bool) -> (r: Result<Column, Error>)
        requires
            self.wf(),
        ensures
            r.is_err() == column_cells(self.0@, idx as int, DataType::Utf8, allow_nulls).is_err(),
            r matches Err(e) ==> column_cells(self.0@, idx as int, DataType::Utf8, allow_nulls)
                == Err::<Seq<Option<CellView>>, ErrorView>(e.deep_view()),
            r matches Ok(c) ==> column_cells(self.0@, idx as int, DataType::Utf8, allow_nulls)
                == Ok::<Seq<Option<CellView>>, ErrorView>(cells_view(c.cells@)) && c.datatype
                == DataType::Utf8,
    {
        self.column(idx, DataType::Utf8, allow_nulls)
    }

    /// The column at `idx` as 64-bit floats.
    pub fn get_float64_array(&self, idx: usize, allow_nulls: bool) -> (r: Result<Column, Error>)
        requires
            self.wf(),
        ensures
            r.is_err() == column_cells(self.0@, idx as int, DataType::Float64, allow_nulls).is_err(),
            r matches Err(e) ==> column_cells(self.0@, idx as int, DataType::Float64, allow_nulls)
                == Err::<Seq<Option<CellView>>, ErrorView>(e.deep_view()),
            r matches Ok(c) ==> column_cells(self.0@, idx as int, DataType::Float64, allow_nulls)
                == Ok::<Seq<Option<CellView>>, ErrorView>(cells_view(c.cells@)) && c.datatype
                == DataType::Float64,
    {
        self.column(idx, DataType::Float64, allow_nulls)
    }

    /// The column at `idx` as 16-bit integers.
    pub fn get_int16_array(&self, idx: usize, allow_nulls: bool) -> (r: Result<Column, Error>)
        requires
            self.wf(),
        ensures
            r.is_err() == column_cells(self.0@, idx as int, DataType::Int16, allow_nulls).is_err(),
            r matches Err(e) ==> column_cells(self.0@, idx as int, DataType::Int16, allow_nulls)
                == Err::<Seq<Option<CellView>>, ErrorView>(e.deep_view()),
            r matches Ok(c) ==> column_cells(self.0@, idx as int, DataType::Int16, allow_nulls)
                == Ok::<Seq<Option<CellView>>, ErrorView>(cells_view(c.cells@)) && c.datatype
                == DataType::Int16,
    {
        self.column(idx, DataType::Int16, allow_nulls)
    }

    /// The column at `idx` as booleans.
    pub fn get_boolean_array(&self, idx: usize, allow_nulls: bool) -> (r: Result<Column, Error>)
        requires
            self.wf(),
        ensures
            r.is_err() == column_cells(self.0@, idx as int, DataType::Boolean, allow_nulls).is_err(),
            r matches Err(e) ==> column_cells(self.0@, idx as int, DataType::Boolean, allow_nulls)
                == Err::<Seq<Option<CellView>>, ErrorView>(e.deep_view()),
            r matches Ok(c) ==> column_cells(self.0@, idx as int, DataType::Boolean, allow_nulls)
                == Ok::<Seq<Option<CellView>>, ErrorView>(cells_view(c.cells@)) && c.datatype
                == DataType::Boolean,
    {
        self.column(idx, DataType::Boolean, allow_nulls)
    }

    /// The column at `idx` as seconds since the Unix epoch.
    pub fn get_timestampsecond_array(&self, idx: usize, allow_nulls: bool) -> (r: Result<
        Column,
        Error,
    >)
        requires
            self.wf(),
        ensures
            r.is_err() == column_cells(
                self.0@,
                idx as int,
                DataType::TimestampSecond,
                allow_nulls,
            ).is_err(),
            r matches Err(e) ==> column_cells(
                self.0@,
                idx as int,
                DataType::TimestampSecond,
                allow_nulls,
            ) == Err::<Seq<Option<CellView>>, ErrorView>(e.deep_view()),
            r matches Ok(c) ==> column_cells(
                self.0@,
                idx as int,
                DataType::TimestampSecond,
                allow_nulls,
            ) == Ok::<Seq<Option<CellView>>, ErrorView>(cells_view(c.cells@)) && c.datatype
                == DataType::TimestampSecond,
    {
        self.column(idx, DataType::TimestampSecond, allow_nulls)
    }

    /// Projects the file onto `schema`: each field is found by name among
    /// the headers of the first information record, and its column built
    /// with the field's datatype and nullability.
    pub fn to_arrow(&self, schema: &Vec<FieldSpec>) -> (r: Result<ColumnBatch, Error>)
        requires
            self.wf(),
        ensures
            r.is_err() == projection(self.0@, schema.deep_view()).is_err(),
            r matches Err(e) ==> projection(self.0@, schema.deep_view()) == Err::<
                Seq<Seq<Option<CellView>>>,
                ErrorView,
            >(e.deep_view()),
            r matches Ok(b) ==> projection(self.0@, schema.deep_view()) == Ok::<
                Seq<Seq<Option<CellView>>>,
                ErrorView,
            >(b.view_columns()),
    {
        let info = match self.information_record() {
            Some(i) => i,
            None => {
                return Err(Error::MissingInformationRecord);
            },
        };
        let ghost headers = info.column_headers.deep_view();
        assert(first_information(self.0@) == Some(*info));
        assert(projection(self.0@, schema.deep_view()) == schema_columns(
            self.0@,
            headers,
            schema.deep_view(),
        ));
        let ghost fields = schema.deep_view();
        let ghost recs = self.0@;
        let mut columns: Vec<Column> = Vec::new();
        let mut k: usize = 0;
        assert(fields.take(0) =~= Seq::<FieldView>::empty());
        assert(columns@.map_values(|c: Column| cells_view(c.cells@)) =~= Seq::<
            Seq<Option<CellView>>,
        >::empty());
        while k < schema.len()
            invariant
                k <= schema.len(),
                fields == schema.deep_view(),
                headers == info.column_headers.deep_view(),
                recs == self.0@,
                self.wf(),
                projection(recs, fields) == schema_columns(recs, headers, fields),
                schema_columns(recs, headers, fields.take(k as int)) == Ok::<
                    Seq<Seq<Option<CellView>>>,
                    ErrorView,
                >(columns@.map_values(|c: Column| cells_view(c.cells@))),
            decreases schema.len() - k,
        {
            assert(fields.take(k + 1).drop_last() =~= fields.take(k as int));
            assert(fields.take(k + 1).last() == fields[k as int]);
            let field = &schema[k];
            assert(field.deep_view() == fields[k as int]);
            let pos = match position_of(&info.column_headers, field.name.as_str()) {
                Some(p) => p,
                None => {
                    proof {
                        assert(header_position(headers, fields[k as int].name) is None);
                        assert(schema_columns(recs, headers, fields.take(k + 1)).is_err());
                        lemma_schema_error_stays(recs, headers, fields, k + 1, fields.len() as int);
                        assert(fields.take(fields.len() as int) =~= fields);
                    }
                    let name = field.name.clone();
                    assert(name@ == fields[k as int].name);
                    return Err(Error::MissingColumnHeader(name));
                },
            };
            match self.get_array_ref(pos, field.datatype, field.nullable) {
                Ok(c) => {
                    let ghost before = columns@;
                    columns.push(c);
                    assert(columns@.map_values(|c: Column| cells_view(c.cells@)) =~= before.map_values(
                        |c: Column| cells_view(c.cells@),
                    ).push(cells_view(c.cells@)));
                },
                Err(e) => {
                    proof {
                        lemma_schema_error_stays(recs, headers, fields, k + 1, fields.len() as int);
                        assert(fields.take(fields.len() as int) =~= fields);
                    }
                    return Err(e);
                },
            }
            k = k + 1;
        }
        assert(fields.take(fields.len() as int) =~= fields);
        Ok(ColumnBatch { columns })
    }
}

/// The position of the last header named `name`, as a map from names to
/// positions built in header order holds it.
pub fn position_of(headers: &Vec<String>, name: &str) -> (r: Option<usize>)
    ensures
        r matches Some(p) ==> header_position(headers.deep_view(), name@) == Some(p as int),
        r is None ==> header_position(headers.deep_view(), name@) is None,
{
    let ghost h = headers.deep_view();
    let mut i: usize = headers.len();
    assert(h.take(i as int) =~= h);
    while i > 0
        invariant
            i <= headers.len(),
            h == headers.deep_view(),
            header_position(h, name@) == header_position(h.take(i as int), name@),
        decreases i,
    {
        assert(h.take(i as int).last() == h[i - 1]);
        assert(h.take(i as int).drop_last() =~= h.take(i - 1));
        if same_text(headers[i - 1].as_str(), name) {
            return Some(i - 1);
        }
        i = i - 1;
    }
    None
}

} // verus!
