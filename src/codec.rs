//! The encoder (rows into columns) and the decoder (columns into rows).
use vstd::prelude::*;

use crate::dtype::{DType, DataType, same_dtype};
use crate::template::{ColumnModel, Template, lemma_column_models};
use crate::text::same_text;
use crate::value::{
    Val, Value, entry_fits, entry_ok, lemma_values_view_index, lemma_values_view_len, values_view,
};

verus! {

/// A named column of entries of one logical type; `Value::Null` marks an
/// absent entry.
#[derive(Debug, PartialEq, Eq)]
pub struct Series {
    pub name: String,
    pub dtype: DataType,
    pub values: Vec<Value>,
}

pub ghost struct SeriesModel {
    pub name: Seq<char>,
    pub dtype: DType,
    pub values: Seq<Val>,
}

impl View for Series {
    type V = SeriesModel;

    open spec fn view(&self) -> SeriesModel {
        SeriesModel { name: self.name@, dtype: self.dtype@, values: values_view(self.values@) }
    }
}

/// A fault in the data met while encoding or decoding.
#[derive(Debug, PartialEq, Eq)]
pub enum ConversionError {
    /// A non-nullable field has an absent entry.
    MissingData { field: String },
    /// A value or entry does not belong to its column's logical type.
    Mismatch { field: String },
    /// No column carries the field's name.
    MissingColumn { field: String },
    /// A row has another number of values than the record has fields.
    RowLength { row: usize },
    /// A conversion function failed on a value of the field.
    Custom { field: String, message: String },
}

pub open spec fn rows_view(rows: Seq<Vec<Value>>) -> Seq<Seq<Val>> {
    rows.map_values(|r: Vec<Value>| values_view(r@))
}

pub open spec fn series_view(cols: Seq<Series>) -> Seq<SeriesModel> {
    cols.map_values(|s: Series| s@)
}

/// Whether an entry belongs to the column that a descriptor describes.
pub open spec fn cell_ok(c: ColumnModel, v: Val) -> bool {
    entry_fits(v, c.dtype, c.optional)
}

/// Whether the row has one value per field.
pub open spec fn row_shaped(fields: Seq<ColumnModel>, row: Seq<Val>) -> bool {
    row.len() == fields.len()
}

/// Whether the row has one value per field, each of the field's type.
pub open spec fn row_ok(fields: Seq<ColumnModel>, row: Seq<Val>) -> bool {
    &&& row_shaped(fields, row)
    &&& forall|j: int| 0 <= j < fields.len() ==> #[trigger] cell_ok(fields[j], row[j])
}

/// Whether every row can be stored in the columns that `fields` describe.
pub open spec fn encodable(fields: Seq<ColumnModel>, rows: Seq<Seq<Val>>) -> bool {
    forall|i: int| 0 <= i < rows.len() ==> #[trigger] row_ok(fields, rows[i])
}

/// The `j`-th value of every row, in row order.
pub open spec fn column_of(rows: Seq<Seq<Val>>, j: int) -> Seq<Val> {
    Seq::new(rows.len(), |i: int| rows[i][j])
}

/// The columns that hold `rows`: one per field, in field order.
pub open spec fn encoded(fields: Seq<ColumnModel>, rows: Seq<Seq<Val>>) -> Seq<SeriesModel> {
    Seq::new(
        fields.len(),
        |j: int| SeriesModel { name: fields[j].name, dtype: fields[j].dtype, values: column_of(rows, j) },
    )
}

/// What an encoding of `rows` may return: the columns exactly when every row
/// fits, else an error that names a row of the wrong length or a field with a
/// value of the wrong type.
pub open spec fn encode_outcome(
    fields: Seq<ColumnModel>,
    rows: Seq<Seq<Val>>,
    r: Result<Seq<SeriesModel>, ConversionError>,
) -> bool {
    match r {
        Ok(cols) => encodable(fields, rows) && cols == encoded(fields, rows),
        Err(ConversionError::RowLength { row }) => !encodable(fields, rows) && row < rows.len()
            && !row_shaped(fields, rows[row as int]),
        Err(ConversionError::Mismatch { field }) => !encodable(fields, rows) && exists|i: int, j: int|
            0 <= i < rows.len() && 0 <= j < fields.len() && row_shaped(fields, rows[i])
                && !cell_ok(fields[j], #[trigger] rows[i][j]) && field@ == fields[j].name,
        Err(_) => false,
    }
}

pub open spec fn series_result_view(r: Result<Vec<Series>, ConversionError>) -> Result<Seq<SeriesModel>, ConversionError> {
    match r {
        Ok(cols) => Ok(series_view(cols@)),
        Err(e) => Err(e),
    }
}

proof fn lemma_rows_view_len(rows: Seq<Vec<Value>>)
    ensures
        rows_view(rows).len() == rows.len(),
        forall|i: int| 0 <= i < rows.len() ==> #[trigger] rows_view(rows)[i] == values_view(rows[i]@),
        forall|i: int| 0 <= i < rows.len() ==> #[trigger] rows_view(rows)[i].len() == rows[i]@.len(),
{
    assert forall|i: int| 0 <= i < rows.len() implies #[trigger] rows_view(rows)[i].len() == rows[i]@.len() by {
        lemma_values_view_len(rows[i]@);
    }
}

proof fn lemma_rows_view(rows: Seq<Vec<Value>>, i: int, j: int)
    requires
        0 <= i < rows.len(),
        0 <= j < rows[i]@.len(),
    ensures
        rows_view(rows)[i] == values_view(rows[i]@),
        rows_view(rows)[i].len() == rows[i]@.len(),
        rows_view(rows)[i][j] == rows[i]@[j]@,
{
    lemma_values_view_index(rows[i]@, j);
}

/// Checks that every row fits the template and stores the rows column by
/// column, in field order.
pub fn encode_values(t: &Template, rows: &Vec<Vec<Value>>) -> (r: Result<Vec<Series>, ConversionError>)
    ensures
        encode_outcome(t@.fields, rows_view(rows@), series_result_view(r)),
{
    let ghost fields = t@.fields;
    let ghost rv = rows_view(rows@);
    let n = t.fields.len();
    proof {
        lemma_column_models(t.fields@);
        lemma_rows_view_len(rows@);
    }
    let mut i: usize = 0;
    while i < rows.len()
        invariant
            fields == t@.fields,
            rv == rows_view(rows@),
            n == fields.len(),
            i <= rows@.len(),
            forall|k: int| 0 <= k < i ==> #[trigger] row_ok(fields, rv[k]),
        decreases rows@.len() - i,
    {
        let row = &rows[i];
        proof {
            lemma_column_models(t.fields@);
            lemma_rows_view_len(rows@);
            lemma_values_view_len(row@);
        }
        if row.len() != n {
            assert(!row_ok(fields, rv[i as int]));
            return Err(ConversionError::RowLength { row: i });
        }
        let mut j: usize = 0;
        while j < n
            invariant
                fields == t@.fields,
                rv == rows_view(rows@),
                n == fields.len(),
                i < rows@.len(),
                *row == rows@[i as int],
                row@.len() == n,
                rv[i as int].len() == n,
                j <= n,
                forall|m: int| 0 <= m < j ==> #[trigger] cell_ok(fields[m], rv[i as int][m]),
            decreases n - j,
        {
            let c = &t.fields[j];
            proof {
                lemma_column_models(t.fields@);
                lemma_rows_view_len(rows@);
                lemma_rows_view(rows@, i as int, j as int);
                assert(fields[j as int] == c@);
            }
            if !entry_ok(&row[j], &c.dtype, c.optional) {
                let name = c.name.clone();
                proof {
                    assert(!cell_ok(fields[j as int], rv[i as int][j as int]));
                    assert(!row_ok(fields, rv[i as int]));
                }
                return Err(ConversionError::Mismatch { field: name });
            }
            j = j + 1;
        }
        proof {
            lemma_values_view_len(row@);
        }
        i = i + 1;
    }
    assert(encodable(fields, rv));
    let mut cols: Vec<Series> = Vec::new();
    let mut j: usize = 0;
    while j < n
        invariant
            fields == t@.fields,
            rv == rows_view(rows@),
            n == fields.len(),
            encodable(fields, rv),
            j <= n,
            cols@.len() == j,
            forall|m: int| 0 <= m < j ==> #[trigger] series_view(cols@)[m] == encoded(fields, rv)[m],
        decreases n - j,
    {
        let c = &t.fields[j];
        proof {
            lemma_column_models(t.fields@);
            lemma_rows_view_len(rows@);
        }
        let mut values: Vec<Value> = Vec::new();
        let mut k: usize = 0;
        while k < rows.len()
            invariant
                fields == t@.fields,
                rv == rows_view(rows@),
                n == fields.len(),
                encodable(fields, rv),
                j < n,
                k <= rows@.len(),
                values_view(values@) == column_of(rv, j as int).take(k as int),
            decreases rows@.len() - k,
        {
            proof {
                lemma_column_models(t.fields@);
                lemma_rows_view_len(rows@);
                assert(row_ok(fields, rv[k as int]));
                lemma_values_view_len(rows@[k as int]@);
                lemma_rows_view(rows@, k as int, j as int);
            }
            let v = rows[k][j].copy();
            let ghost before = values@;
            values.push(v);
            assert(values@.drop_last() =~= before);
            assert(column_of(rv, j as int).take(k + 1) =~= column_of(rv, j as int).take(k as int).push(v@));
            k = k + 1;
        }
        assert(column_of(rv, j as int).take(k as int) =~= column_of(rv, j as int));
        let s = Series { name: c.name.clone(), dtype: c.dtype.copy(), values };
        proof {
            assert(fields[j as int] == c@);
        }
        let ghost before = cols@;
        cols.push(s);
        proof {
            assert forall|m: int| 0 <= m < j + 1 implies #[trigger] series_view(cols@)[m] == encoded(fields, rv)[m] by {
                if m < j {
                    assert(cols@[m] == before[m]);
                    assert(series_view(before)[m] == before[m]@);
                }
            }
        }
        j = j + 1;
    }
    assert(series_view(cols@) =~= encoded(fields, rv));
    Ok(cols)
}

/// The position of the first column named `name`.
pub open spec fn find_series(cols: Seq<SeriesModel>, name: Seq<char>) -> Option<int>
    decreases cols.len(),
{
    if cols.len() == 0 {
        None
    } else {
        match find_series(cols.drop_last(), name) {
            Some(k) => Some(k),
            None => if cols.last().name == name {
                Some(cols.len() - 1)
            } else {
                None
            },
        }
    }
}

/// Whether every field has a column of its name.
pub open spec fn columns_found(fields: Seq<ColumnModel>, cols: Seq<SeriesModel>) -> bool {
    forall|j: int| 0 <= j < fields.len() ==> #[trigger] find_series(cols, fields[j].name) is Some
}

/// The column that field `j` is read from: the first of its name.
pub open spec fn source(fields: Seq<ColumnModel>, cols: Seq<SeriesModel>, j: int) -> SeriesModel {
    cols[find_series(cols, fields[j].name)->Some_0]
}

/// Whether `m` is the length of the shortest column read; 0 with no fields.
pub open spec fn is_row_count(fields: Seq<ColumnModel>, cols: Seq<SeriesModel>, m: nat) -> bool {
    &&& forall|j: int| 0 <= j < fields.len() ==> m <= #[trigger] source(fields, cols, j).values.len()
    &&& fields.len() == 0 ==> m == 0
    &&& fields.len() > 0 ==> exists|j: int| 0 <= j < fields.len() && m == #[trigger] source(fields, cols, j).values.len()
}

/// How many rows a decoding gives: reading stops at the end of the shortest
/// column.
pub open spec fn row_count(fields: Seq<ColumnModel>, cols: Seq<SeriesModel>) -> nat {
    choose|m: nat| is_row_count(fields, cols, m)
}

/// The rows read from the columns, before any check: row `i` holds entry `i`
/// of each field's column, in field order.
pub open spec fn decoded(fields: Seq<ColumnModel>, cols: Seq<SeriesModel>) -> Seq<Seq<Val>> {
    Seq::new(
        row_count(fields, cols),
        |i: int| Seq::new(fields.len(), |j: int| source(fields, cols, j).values[i]),
    )
}

/// Whether each field's column has the field's logical type.
pub open spec fn types_match(fields: Seq<ColumnModel>, cols: Seq<SeriesModel>) -> bool {
    forall|j: int| 0 <= j < fields.len() ==> #[trigger] source(fields, cols, j).dtype == fields[j].dtype
}

/// Whether the columns decode: every field has a column of its type, and
/// every entry read belongs to its field.
pub open spec fn decodable(fields: Seq<ColumnModel>, cols: Seq<SeriesModel>) -> bool {
    columns_found(fields, cols) && types_match(fields, cols) && encodable(fields, decoded(fields, cols))
}

/// What a decoding of `cols` may return: the rows exactly when the columns
/// decode, else an error that names a field without a column (whenever one
/// has none), with a column of another type (whenever one has, and every
/// field has a column), with an absent entry though it is not nullable, or
/// with an entry of the wrong type.
pub open spec fn decode_outcome(
    fields: Seq<ColumnModel>,
    cols: Seq<SeriesModel>,
    r: Result<Seq<Seq<Val>>, ConversionError>,
) -> bool {
    &&& r is Ok <==> decodable(fields, cols)
    &&& !columns_found(fields, cols) ==> (r matches Err(ConversionError::MissingColumn { .. }))
    &&& columns_found(fields, cols) && !types_match(fields, cols) ==> (r matches Err(
        ConversionError::Mismatch { .. },
    ))
    &&& match r {
        Ok(rows) => rows == decoded(fields, cols),
        Err(ConversionError::MissingColumn { field }) => exists|j: int|
            0 <= j < fields.len() && #[trigger] find_series(cols, fields[j].name) is None
                && field@ == fields[j].name,
        Err(ConversionError::MissingData { field }) => columns_found(fields, cols) && types_match(fields, cols) && exists|i: int, j: int|
            0 <= i < row_count(fields, cols) && 0 <= j < fields.len()
                && #[trigger] decoded(fields, cols)[i][j] is Null && !fields[j].optional
                && field@ == fields[j].name,
        Err(ConversionError::Mismatch { field }) => columns_found(fields, cols) && ((exists|j: int|
            0 <= j < fields.len() && #[trigger] source(fields, cols, j).dtype != fields[j].dtype
                && field@ == fields[j].name) || (types_match(fields, cols) && exists|i: int, j: int|
            0 <= i < row_count(fields, cols) && 0 <= j < fields.len()
                && !(#[trigger] decoded(fields, cols)[i][j] is Null)
                && !cell_ok(fields[j], decoded(fields, cols)[i][j]) && field@ == fields[j].name)),
        Err(_) => false,
    }
}

pub open spec fn rows_result_view(r: Result<Vec<Vec<Value>>, ConversionError>) -> Result<Seq<Seq<Val>>, ConversionError> {
    match r {
        Ok(rows) => Ok(rows_view(rows@)),
        Err(e) => Err(e),
    }
}

proof fn lemma_find_series_extends(cols: Seq<SeriesModel>, name: Seq<char>, m: int, m2: int)
    requires
        0 <= m <= m2 <= cols.len(),
        find_series(cols.take(m), name) is Some,
    ensures
        find_series(cols.take(m2), name) == find_series(cols.take(m), name),
    decreases m2 - m,
{
    if m2 > m {
        lemma_find_series_extends(cols, name, m, m2 - 1);
        assert(cols.take(m2).drop_last() =~= cols.take(m2 - 1));
    }
}

proof fn lemma_find_series_bound(cols: Seq<SeriesModel>, name: Seq<char>)
    ensures
        match find_series(cols, name) {
            Some(k) => 0 <= k < cols.len() && cols[k].name == name,
            None => true,
        },
    decreases cols.len(),
{
    if cols.len() > 0 {
        lemma_find_series_bound(cols.drop_last(), name);
    }
}

proof fn lemma_series_view(cols: Seq<Series>)
    ensures
        series_view(cols).len() == cols.len(),
        forall|k: int| 0 <= k < cols.len() ==> #[trigger] series_view(cols)[k] == cols[k]@,
{
}

/// The position of the first column named `name`.
fn position_of(cols: &Vec<Series>, name: &String) -> (r: Option<usize>)
    ensures
        match r {
            Some(k) => find_series(series_view(cols@), name@) == Some(k as int),
            None => find_series(series_view(cols@), name@) is None,
        },
{
    let ghost sv = series_view(cols@);
    let mut k: usize = 0;
    while k < cols.len()
        invariant
            sv == series_view(cols@),
            k <= cols@.len(),
            find_series(sv.take(k as int), name@) is None,
        decreases cols@.len() - k,
    {
        proof {
            lemma_series_view(cols@);
            assert(sv.take(k + 1).drop_last() =~= sv.take(k as int));
        }
        if same_text(cols[k].name.as_str(), name.as_str()) {
            proof {
                lemma_find_series_extends(sv, name@, k + 1, sv.len() as int);
                assert(sv.take(sv.len() as int) =~= sv);
            }
            return Some(k);
        }
        k = k + 1;
    }
    proof {
        lemma_series_view(cols@);
        assert(sv.take(k as int) =~= sv);
    }
    None
}

pub open spec fn sources_at(fields: Seq<ColumnModel>, cols: Seq<SeriesModel>, src: Seq<usize>, j: int) -> bool {
    0 <= j < fields.len() ==> find_series(cols, fields[j].name) == Some(src[j] as int)
}

proof fn lemma_row_count(fields: Seq<ColumnModel>, cols: Seq<SeriesModel>, m: nat)
    requires
        is_row_count(fields, cols, m),
    ensures
        row_count(fields, cols) == m,
{
    let m2 = row_count(fields, cols);
    assert(is_row_count(fields, cols, m2));
    if fields.len() > 0 {
        let j = choose|j: int| 0 <= j < fields.len() && m == #[trigger] source(fields, cols, j).values.len();
        let j2 = choose|j: int| 0 <= j < fields.len() && m2 == #[trigger] source(fields, cols, j).values.len();
        assert(m2 <= source(fields, cols, j).values.len());
        assert(m <= source(fields, cols, j2).values.len());
    }
}

/// Reads the rows out of the columns: each field from the first column of its
/// name, row by row until the shortest of those columns ends, checking every
/// entry against its field.
pub fn decode_values(t: &Template, cols: &Vec<Series>) -> (r: Result<Vec<Vec<Value>>, ConversionError>)
    ensures
        decode_outcome(t@.fields, series_view(cols@), rows_result_view(r)),
{
    let ghost fields = t@.fields;
    let ghost sv = series_view(cols@);
    let n = t.fields.len();
    proof {
        lemma_column_models(t.fields@);
    }
    let mut src: Vec<usize> = Vec::new();
    let mut j: usize = 0;
    while j < n
        invariant
            fields == t@.fields,
            sv == series_view(cols@),
            n == fields.len(),
            j <= n,
            src@.len() == j,
            forall|q: int| 0 <= q < j ==> #[trigger] sources_at(fields, sv, src@, q),
        decreases n - j,
    {
        proof {
            lemma_column_models(t.fields@);
        }
        let name = &t.fields[j].name;
        match position_of(cols, name) {
            Some(k) => {
                let ghost before = src@;
                src.push(k);
                proof {
                    assert(fields[j as int].name == name@);
                    lemma_find_series_bound(sv, name@);
                    lemma_series_view(cols@);
                    assert forall|q: int| 0 <= q < j + 1 implies #[trigger] sources_at(fields, sv, src@, q) by {
                        if q < j {
                            assert(sources_at(fields, sv, before, q));
                            assert(src@[q] == before[q]);
                        } else {
                            assert(src@[q] == k);
                            assert(find_series(sv, name@) == Some(k as int));
                        }
                    }
                }
            },
            None => {
                assert(find_series(sv, fields[j as int].name) is None);
                assert(!columns_found(fields, sv));
                return Err(ConversionError::MissingColumn { field: name.clone() });
            },
        }
        j = j + 1;
    }
    proof {
        lemma_series_view(cols@);
        assert forall|q: int| 0 <= q < n implies #[trigger] find_series(sv, fields[q].name) is Some by {
            assert(sources_at(fields, sv, src@, q));
        }
        assert forall|q: int| 0 <= q < n implies 0 <= #[trigger] src@[q] < cols@.len()
            && source(fields, sv, q) == cols@[src@[q] as int]@ by {
            assert(sources_at(fields, sv, src@, q));
            lemma_find_series_bound(sv, fields[q].name);
        }
    }
    let mut j: usize = 0;
    while j < n
        invariant
            fields == t@.fields,
            sv == series_view(cols@),
            n == fields.len(),
            src@.len() == n,
            j <= n,
            forall|p: int| 0 <= p < n ==> 0 <= #[trigger] src@[p] < cols@.len()
                && source(fields, sv, p) == cols@[src@[p] as int]@,
            forall|q: int| 0 <= q < n ==> #[trigger] find_series(sv, fields[q].name) is Some,
            forall|q: int| 0 <= q < j ==> #[trigger] source(fields, sv, q).dtype == fields[q].dtype,
        decreases n - j,
    {
        proof {
            lemma_column_models(t.fields@);
        }
        let c = &t.fields[j];
        if !same_dtype(&cols[src[j]].dtype, &c.dtype) {
            assert(source(fields, sv, j as int).dtype != fields[j as int].dtype);
            return Err(ConversionError::Mismatch { field: c.name.clone() });
        }
        j = j + 1;
    }
    assert(types_match(fields, sv));
    let mut m: usize = 0;
    if n > 0 {
        m = cols[src[0]].values.len();
        proof {
            lemma_values_view_len(cols@[src@[0] as int].values@);
            assert(m == source(fields, sv, 0).values.len());
        }
        let mut q: usize = 1;
        while q < n
            invariant
                fields == t@.fields,
                sv == series_view(cols@),
                n == fields.len(),
                0 < q <= n,
                src@.len() == n,
                forall|p: int| 0 <= p < n ==> 0 <= #[trigger] src@[p] < cols@.len()
                    && source(fields, sv, p) == cols@[src@[p] as int]@,
                forall|p: int| 0 <= p < q ==> m <= #[trigger] source(fields, sv, p).values.len(),
                exists|p: int| 0 <= p < q && m == #[trigger] source(fields, sv, p).values.len(),
            decreases n - q,
        {
            let l = cols[src[q]].values.len();
            proof {
                lemma_values_view_len(cols@[src@[q as int] as int].values@);
                assert(l == source(fields, sv, q as int).values.len());
            }
            if l < m {
                m = l;
            }
            q = q + 1;
        }
    }
    proof {
        assert(is_row_count(fields, sv, m as nat));
        lemma_row_count(fields, sv, m as nat);
    }
    let ghost dec = decoded(fields, sv);
    let mut out: Vec<Vec<Value>> = Vec::new();
    let mut i: usize = 0;
    while i < m
        invariant
            fields == t@.fields,
            sv == series_view(cols@),
            n == fields.len(),
            src@.len() == n,
            forall|p: int| 0 <= p < n ==> 0 <= #[trigger] src@[p] < cols@.len()
                && source(fields, sv, p) == cols@[src@[p] as int]@,
            forall|p: int| 0 <= p < n ==> m <= #[trigger] source(fields, sv, p).values.len(),
            forall|q: int| 0 <= q < n ==> #[trigger] find_series(sv, fields[q].name) is Some,
            types_match(fields, sv),
            m == row_count(fields, sv),
            dec == decoded(fields, sv),
            i <= m,
            out@.len() == i,
            forall|k: int| 0 <= k < i ==> #[trigger] values_view(out@[k]@) == dec[k],
            forall|k: int| 0 <= k < i ==> #[trigger] row_ok(fields, dec[k]),
        decreases m - i,
    {
        let mut row: Vec<Value> = Vec::new();
        let mut j: usize = 0;
        while j < n
            invariant
                fields == t@.fields,
                sv == series_view(cols@),
                n == fields.len(),
                src@.len() == n,
                forall|p: int| 0 <= p < n ==> 0 <= #[trigger] src@[p] < cols@.len()
                    && source(fields, sv, p) == cols@[src@[p] as int]@,
                forall|p: int| 0 <= p < n ==> m <= #[trigger] source(fields, sv, p).values.len(),
                forall|q: int| 0 <= q < n ==> #[trigger] find_series(sv, fields[q].name) is Some,
                types_match(fields, sv),
                m == row_count(fields, sv),
                dec == decoded(fields, sv),
                i < m,
                j <= n,
                values_view(row@) == dec[i as int].take(j as int),
                forall|q: int| 0 <= q < j ==> #[trigger] cell_ok(fields[q], dec[i as int][q]),
            decreases n - j,
        {
            proof {
                lemma_column_models(t.fields@);
            }
            let c = &t.fields[j];
            let s = &cols[src[j]];
            proof {
                assert(source(fields, sv, j as int) == s@);
                assert(m <= source(fields, sv, j as int).values.len());
                lemma_values_view_len(s.values@);
                lemma_values_view_index(s.values@, i as int);
                assert(dec[i as int][j as int] == s.values@[i as int]@);
                assert(fields[j as int] == c@);
            }
            let v = &s.values[i];
            if !entry_ok(v, &c.dtype, c.optional) {
                assert(!cell_ok(fields[j as int], dec[i as int][j as int]));
                assert(!row_ok(fields, dec[i as int]));
                assert(!encodable(fields, dec));
                match v {
                    Value::Null => {
                        return Err(ConversionError::MissingData { field: c.name.clone() });
                    },
                    _ => {
                        return Err(ConversionError::Mismatch { field: c.name.clone() });
                    },
                }
            }
            let ghost before = row@;
            row.push(v.copy());
            assert(row@.drop_last() =~= before);
            assert(dec[i as int].take(j + 1) =~= dec[i as int].take(j as int).push(dec[i as int][j as int]));
            j = j + 1;
        }
        assert(dec[i as int].take(n as int) =~= dec[i as int]);
        let ghost before = out@;
        out.push(row);
        proof {
            assert(row_ok(fields, dec[i as int]));
            assert forall|k: int| 0 <= k < i + 1 implies #[trigger] values_view(out@[k]@) == dec[k] by {
                if k < i {
                    assert(out@[k] == before[k]);
                }
            }
        }
        i = i + 1;
    }
    proof {
        lemma_rows_view_len(out@);
        assert(rows_view(out@) =~= dec);
        assert(encodable(fields, dec));
    }
    Ok(out)
}

/// Whether field `j` is converted: on the way into a column when `decoding`
/// is false, on the way out of one when it is true.
pub open spec fn selected(fields: Seq<ColumnModel>, decoding: bool, j: int) -> bool {
    &&& 0 <= j < fields.len()
    &&& if decoding {
        fields[j].convert_from is Some
    } else {
        fields[j].convert_into is Some
    }
}

/// Whether `after` is what becomes of `before`: a successful result of `f`
/// where the field is converted, else the value itself.
pub open spec fn cell_converted<F: Fn(usize, Value) -> Result<Value, String>>(
    f: F,
    sel: bool,
    j: int,
    before: Value,
    after: Value,
) -> bool {
    if sel {
        f.ensures((j as usize, before), Ok::<Value, String>(after))
    } else {
        after == before
    }
}

/// Whether `after` holds the rows `before` with every converted field
/// converted by `f`.
pub open spec fn conversion_applied<F: Fn(usize, Value) -> Result<Value, String>>(
    f: F,
    fields: Seq<ColumnModel>,
    decoding: bool,
    before: Seq<Vec<Value>>,
    after: Seq<Vec<Value>>,
) -> bool {
    &&& after.len() == before.len()
    &&& forall|i: int| 0 <= i < before.len() ==> #[trigger] after[i]@.len() == before[i]@.len()
    &&& forall|i: int, j: int|
        0 <= i < before.len() && 0 <= j < before[i]@.len() ==> cell_converted(
            f,
            selected(fields, decoding, j),
            j,
            before[i]@[j],
            #[trigger] after[i]@[j],
        )
}

/// Whether `f` may fail with `message` on a converted value of the field named
/// `field`.
pub open spec fn conversion_failed<F: Fn(usize, Value) -> Result<Value, String>>(
    f: F,
    fields: Seq<ColumnModel>,
    decoding: bool,
    before: Seq<Vec<Value>>,
    field: Seq<char>,
    message: String,
) -> bool {
    exists|i: int, j: int|
        0 <= i < before.len() && 0 <= j < before[i]@.len() && selected(fields, decoding, j)
            && f.ensures((j as usize, #[trigger] before[i]@[j]), Err::<Value, String>(message))
            && field == fields[j].name
}

/// Passes each value of a converted field through `convert`, called with the
/// field's position; the first failure stops the work.
fn apply_conversions<F: Fn(usize, Value) -> Result<Value, String>>(
    t: &Template,
    rows: Vec<Vec<Value>>,
    decoding: bool,
    convert: &F,
) -> (r: Result<Vec<Vec<Value>>, ConversionError>)
    requires
        forall|j: usize, v: Value| convert.requires((j, v)),
    ensures
        match r {
            Ok(out) => conversion_applied(*convert, t@.fields, decoding, rows@, out@),
            Err(ConversionError::Custom { field, message }) => conversion_failed(
                *convert,
                t@.fields,
                decoding,
                rows@,
                field@,
                message,
            ),
            Err(_) => false,
        },
{
    let ghost fields = t@.fields;
    let ghost orig = rows@;
    let n = t.fields.len();
    let mut rest = rows;
    let total = rest.len();
    let mut out: Vec<Vec<Value>> = Vec::new();
    let mut i: usize = 0;
    while rest.len() > 0
        invariant
            forall|j: usize, v: Value| convert.requires((j, v)),
            fields == t@.fields,
            n == fields.len(),
            orig.len() == total,
            orig == rows@,
            i + rest@.len() == orig.len(),
            rest@ == orig.subrange(i as int, orig.len() as int),
            out@.len() == i,
            forall|k: int| 0 <= k < i ==> #[trigger] out@[k]@.len() == orig[k]@.len(),
            forall|k: int, j: int|
                0 <= k < i && 0 <= j < orig[k]@.len() ==> cell_converted(
                    *convert,
                    selected(fields, decoding, j),
                    j,
                    orig[k]@[j],
                    #[trigger] out@[k]@[j],
                ),
        decreases rest@.len(),
    {
        let ghost rest0 = rest@;
        let mut cells = rest.remove(0);
        assert(rest@ =~= orig.subrange(i + 1, orig.len() as int));
        let ghost row = cells@;
        assert(row == orig[i as int]@);
        let mut done: Vec<Value> = Vec::new();
        let mut j: usize = 0;
        let width = cells.len();
        while cells.len() > 0
            invariant
                forall|j: usize, v: Value| convert.requires((j, v)),
                fields == t@.fields,
                n == fields.len(),
                i < orig.len(),
                orig == rows@,
                row == orig[i as int]@,
                row.len() == width,
                j + cells@.len() == row.len(),
                cells@ == row.subrange(j as int, row.len() as int),
                done@.len() == j,
                forall|q: int| 0 <= q < j ==> cell_converted(
                    *convert,
                    selected(fields, decoding, q),
                    q,
                    row[q],
                    #[trigger] done@[q],
                ),
            decreases cells@.len(),
        {
            let v = cells.remove(0);
            assert(v == row[j as int]);
            assert(cells@ =~= row.subrange(j + 1, row.len() as int));
            proof {
                lemma_column_models(t.fields@);
            }
            let sel = j < n && if decoding {
                t.fields[j].convert_from.is_some()
            } else {
                t.fields[j].convert_into.is_some()
            };
            assert(sel == selected(fields, decoding, j as int));
            if sel {
                let ghost arg = v;
                match convert(j, v) {
                    Ok(w) => {
                        done.push(w);
                    },
                    Err(message) => {
                        let field = t.fields[j].name.clone();
                        proof {
                            assert(orig[i as int]@[j as int] == arg);
                            assert(j < orig[i as int]@.len());
                            assert(convert.ensures((j, arg), Err::<Value, String>(message)));
                            assert(field@ == fields[j as int].name);
                            assert(conversion_failed(*convert, fields, decoding, orig, field@, message));
                        }
                        return Err(ConversionError::Custom { field, message });
                    },
                }
            } else {
                done.push(v);
            }
            j = j + 1;
        }
        let ghost before = out@;
        out.push(done);
        proof {
            assert forall|k: int, q: int|
                0 <= k < i + 1 && 0 <= q < orig[k]@.len() implies cell_converted(
                    *convert,
                    selected(fields, decoding, q),
                    q,
                    orig[k]@[q],
                    #[trigger] out@[k]@[q],
                ) by {
                if k < i {
                    assert(out@[k] == before[k]);
                }
            }
        }
        i = i + 1;
    }
    Ok(out)
}

/// Whether no field is converted in the given direction.
pub open spec fn no_conversions(fields: Seq<ColumnModel>, decoding: bool) -> bool {
    forall|j: int| !#[trigger] selected(fields, decoding, j)
}

proof fn lemma_identity_conversion<F: Fn(usize, Value) -> Result<Value, String>>(
    f: F,
    fields: Seq<ColumnModel>,
    decoding: bool,
    before: Seq<Vec<Value>>,
    after: Seq<Vec<Value>>,
)
    requires
        no_conversions(fields, decoding),
        conversion_applied(f, fields, decoding, before, after),
    ensures
        rows_view(after) == rows_view(before),
{
    assert forall|i: int| 0 <= i < before.len() implies after[i]@ == before[i]@ by {
        assert forall|j: int| 0 <= j < before[i]@.len() implies after[i]@[j] == before[i]@[j] by {
            assert(!selected(fields, decoding, j));
            assert(cell_converted(f, selected(fields, decoding, j), j, before[i]@[j], after[i]@[j]));
        }
        assert(after[i]@ =~= before[i]@);
    }
    assert(rows_view(after) =~= rows_view(before));
}

/// What encoding `rows` with conversion function `f` may return: a failure of
/// `f` on some converted value, or else the outcome of storing the converted
/// rows.
pub open spec fn encode_result<F: Fn(usize, Value) -> Result<Value, String>>(
    f: F,
    fields: Seq<ColumnModel>,
    rows: Seq<Vec<Value>>,
    r: Result<Vec<Series>, ConversionError>,
) -> bool {
    match r {
        Err(ConversionError::Custom { field, message }) => conversion_failed(f, fields, false, rows, field@, message),
        _ => exists|conv: Seq<Vec<Value>>|
            conversion_applied(f, fields, false, rows, conv) && encode_outcome(
                fields,
                #[trigger] rows_view(conv),
                series_result_view(r),
            ),
    }
}

/// What decoding `cols` with conversion function `f` may return: a fault in
/// the columns, or else a failure of `f` on some converted entry, or else the
/// rows read with every converted field converted.
pub open spec fn decode_result<F: Fn(usize, Value) -> Result<Value, String>>(
    f: F,
    fields: Seq<ColumnModel>,
    cols: Seq<SeriesModel>,
    r: Result<Vec<Vec<Value>>, ConversionError>,
) -> bool {
    match r {
        Ok(rows) => decodable(fields, cols) && exists|raw: Seq<Vec<Value>>|
            #[trigger] rows_view(raw) == decoded(fields, cols) && conversion_applied(f, fields, true, raw, rows@),
        Err(ConversionError::Custom { field, message }) => decodable(fields, cols) && exists|raw: Seq<Vec<Value>>|
            #[trigger] rows_view(raw) == decoded(fields, cols) && conversion_failed(f, fields, true, raw, field@, message),
        Err(e) => decode_outcome(fields, cols, Err(e)),
    }
}

/// Encodes rows of field values into one column per field, in field order.
/// The values of fields with an encode conversion first pass through
/// `convert`, called with the field's position.
pub fn encode<F: Fn(usize, Value) -> Result<Value, String>>(
    t: &Template,
    rows: Vec<Vec<Value>>,
    convert: &F,
) -> (r: Result<Vec<Series>, ConversionError>)
    requires
        forall|j: usize, v: Value| convert.requires((j, v)),
    ensures
        encode_result(*convert, t@.fields, rows@, r),
        no_conversions(t@.fields, false) ==> encode_outcome(t@.fields, rows_view(rows@), series_result_view(r)),
{
    let ghost orig = rows@;
    let converted = match apply_conversions(t, rows, false, convert) {
        Ok(c) => c,
        Err(e) => {
            return Err(e);
        },
    };
    let r = encode_values(t, &converted);
    proof {
        assert(encode_outcome(t@.fields, rows_view(converted@), series_result_view(r)));
        if r is Err {
            assert(!(r->Err_0 is Custom));
        }
        if no_conversions(t@.fields, false) {
            lemma_identity_conversion(*convert, t@.fields, false, orig, converted@);
        }
    }
    r
}

/// Decodes columns into rows of field values, in field order; each field is
/// read from the first column of its name. The entries of fields with a decode
/// conversion then pass through `convert`, called with the field's position.
pub fn decode<F: Fn(usize, Value) -> Result<Value, String>>(
    t: &Template,
    cols: &Vec<Series>,
    convert: &F,
) -> (r: Result<Vec<Vec<Value>>, ConversionError>)
    requires
        forall|j: usize, v: Value| convert.requires((j, v)),
    ensures
        decode_result(*convert, t@.fields, series_view(cols@), r),
        no_conversions(t@.fields, true) ==> decode_outcome(t@.fields, series_view(cols@), rows_result_view(r)),
{
    let raw = match decode_values(t, cols) {
        Ok(rows) => rows,
        Err(e) => {
            return Err(e);
        },
    };
    let ghost rv = raw@;
    let r = apply_conversions(t, raw, true, convert);
    proof {
        if no_conversions(t@.fields, true) && r is Ok {
            lemma_identity_conversion(*convert, t@.fields, true, rv, r->Ok_0@);
        }
    }
    r
}

/// Whether no two fields share a column name.
pub open spec fn distinct_names(fields: Seq<ColumnModel>) -> bool {
    forall|a: int, b: int| 0 <= a < fields.len() && 0 <= b < fields.len() && a != b
        ==> #[trigger] fields[a].name != #[trigger] fields[b].name
}

proof fn lemma_find_own_column(fields: Seq<ColumnModel>, rows: Seq<Seq<Val>>, j: int, m: int)
    requires
        distinct_names(fields),
        0 <= j < fields.len(),
        0 <= m <= fields.len(),
    ensures
        find_series(encoded(fields, rows).take(m), fields[j].name) == if j < m {
            Some(j)
        } else {
            None::<int>
        },
    decreases m,
{
    let cols = encoded(fields, rows);
    if m > 0 {
        lemma_find_own_column(fields, rows, j, m - 1);
        assert(cols.take(m).drop_last() =~= cols.take(m - 1));
        assert(cols.take(m).last() == cols[m - 1]);
        if j != m - 1 {
            assert(fields[m - 1].name != fields[j].name);
        }
    }
}

proof fn lemma_encoded_decodes(fields: Seq<ColumnModel>, rows: Seq<Seq<Val>>)
    requires
        fields.len() > 0,
        distinct_names(fields),
        encodable(fields, rows),
    ensures
        decodable(fields, encoded(fields, rows)),
        decoded(fields, encoded(fields, rows)) == rows,
{
    let enc = encoded(fields, rows);
    assert forall|j: int| 0 <= j < fields.len() implies #[trigger] find_series(enc, fields[j].name) == Some(j) by {
        lemma_find_own_column(fields, rows, j, fields.len() as int);
        assert(enc.take(fields.len() as int) =~= enc);
    }
    assert(columns_found(fields, enc));
    assert forall|j: int| 0 <= j < fields.len() implies #[trigger] source(fields, enc, j) == enc[j] by {
        assert(find_series(enc, fields[j].name) == Some(j));
    }
    assert(source(fields, enc, 0).values.len() == rows.len());
    assert(is_row_count(fields, enc, rows.len()));
    lemma_row_count(fields, enc, rows.len());
    let dec = decoded(fields, enc);
    assert forall|i: int| 0 <= i < rows.len() implies #[trigger] dec[i] == rows[i] by {
        assert(row_ok(fields, rows[i]));
        assert forall|j: int| 0 <= j < fields.len() implies dec[i][j] == rows[i][j] by {
            assert(source(fields, enc, j) == enc[j]);
        }
        assert(dec[i] =~= rows[i]);
    }
    assert(dec =~= rows);
}

/// Encoding then decoding gives the rows back: for a record with at least one
/// field and no two fields of one name, rows that fit are stored, and the
/// columns read back are exactly those rows.
pub proof fn lemma_round_trip(
    fields: Seq<ColumnModel>,
    rows: Seq<Seq<Val>>,
    cols: Result<Seq<SeriesModel>, ConversionError>,
    back: Result<Seq<Seq<Val>>, ConversionError>,
)
    requires
        fields.len() > 0,
        distinct_names(fields),
        encodable(fields, rows),
        encode_outcome(fields, rows, cols),
        cols is Ok ==> decode_outcome(fields, cols->Ok_0, back),
    ensures
        cols == Ok::<Seq<SeriesModel>, ConversionError>(encoded(fields, rows)),
        back == Ok::<Seq<Seq<Val>>, ConversionError>(rows),
{
    lemma_encoded_decodes(fields, rows);
}

/// An absent value of a nullable field is stored as an absent entry and read
/// back as an absent value, and decoding does not fail on it.
pub proof fn lemma_absent_value_kept(fields: Seq<ColumnModel>, rows: Seq<Seq<Val>>, i: int, j: int)
    requires
        fields.len() > 0,
        distinct_names(fields),
        encodable(fields, rows),
        0 <= i < rows.len(),
        0 <= j < fields.len(),
        fields[j].optional,
        rows[i][j] is Null,
    ensures
        encoded(fields, rows)[j].values[i] is Null,
        decodable(fields, encoded(fields, rows)),
        decoded(fields, encoded(fields, rows))[i][j] is Null,
{
    lemma_encoded_decodes(fields, rows);
}

/// Columns come out in field order, each holding its field's values in row
/// order; rows read back hold their values in field order.
pub proof fn lemma_field_order(
    fields: Seq<ColumnModel>,
    rows: Seq<Seq<Val>>,
    cols: Seq<SeriesModel>,
)
    requires
        encode_outcome(fields, rows, Ok(cols)),
    ensures
        cols.len() == fields.len(),
        forall|j: int| 0 <= j < fields.len() ==> (#[trigger] cols[j]).name == fields[j].name
            && cols[j].dtype == fields[j].dtype,
        forall|i: int, j: int| 0 <= i < rows.len() && 0 <= j < fields.len()
            ==> #[trigger] cols[j].values[i] == rows[i][j],
{
}

/// A decode conversion that cannot succeed on an entry that is read makes the
/// whole decoding fail, with no rows, naming a field that has a decode
/// conversion.
pub proof fn lemma_conversion_failure_propagates<F: Fn(usize, Value) -> Result<Value, String>>(
    f: F,
    fields: Seq<ColumnModel>,
    cols: Seq<SeriesModel>,
    r: Result<Vec<Vec<Value>>, ConversionError>,
    i: int,
    j: int,
)
    requires
        decode_result(f, fields, cols, r),
        decodable(fields, cols),
        selected(fields, true, j),
        0 <= i < row_count(fields, cols),
        forall|x: Value, res: Result<Value, String>|
            x@ == decoded(fields, cols)[i][j] && #[trigger] f.ensures((j as usize, x), res) ==> res is Err,
    ensures
        r matches Err(ConversionError::Custom { field, .. }) && exists|k: int|
            #[trigger] selected(fields, true, k) && field@ == fields[k].name,
{
    match r {
        Ok(rows) => {
            let raw = choose|raw: Seq<Vec<Value>>|
                #[trigger] rows_view(raw) == decoded(fields, cols) && conversion_applied(f, fields, true, raw, rows@);
            lemma_rows_view_len(raw);
            assert(rows_view(raw)[i] == decoded(fields, cols)[i]);
            lemma_values_view_index(raw[i]@, j);
            assert(cell_converted(f, true, j, raw[i]@[j], rows@[i]@[j]));
            assert(f.ensures((j as usize, raw[i]@[j]), Ok::<Value, String>(rows@[i]@[j])));
        },
        Err(ConversionError::Custom { field, message }) => {
            let raw = choose|raw: Seq<Vec<Value>>|
                #[trigger] rows_view(raw) == decoded(fields, cols) && conversion_failed(f, fields, true, raw, field@, message);
            let (a, b) = choose|a: int, b: int|
                0 <= a < raw.len() && 0 <= b < raw[a]@.len() && selected(fields, true, b)
                    && f.ensures((b as usize, #[trigger] raw[a]@[b]), Err::<Value, String>(message))
                    && field@ == fields[b].name;
            assert(selected(fields, true, b));
        },
        Err(e) => {
            assert(decode_outcome(fields, cols, Err(e)));
        },
    }
}

proof fn min_length(fields: Seq<ColumnModel>, cols: Seq<SeriesModel>, k: int) -> (m: nat)
    requires
        0 < k <= fields.len(),
    ensures
        forall|j: int| 0 <= j < k ==> m <= #[trigger] source(fields, cols, j).values.len(),
        exists|j: int| 0 <= j < k && m == #[trigger] source(fields, cols, j).values.len(),
    decreases k,
{
    let last = source(fields, cols, k - 1).values.len();
    if k == 1 {
        last
    } else {
        let m = min_length(fields, cols, k - 1);
        if last < m {
            last
        } else {
            m
        }
    }
}

proof fn lemma_row_count_exists(fields: Seq<ColumnModel>, cols: Seq<SeriesModel>)
    ensures
        is_row_count(fields, cols, row_count(fields, cols)),
{
    if fields.len() == 0 {
        lemma_row_count(fields, cols, 0);
    } else {
        let m = min_length(fields, cols, fields.len() as int);
        lemma_row_count(fields, cols, m);
    }
}

/// Decoding depends only on the column that each field reads.
proof fn lemma_decode_depends_on_sources(
    fields: Seq<ColumnModel>,
    c1: Seq<SeriesModel>,
    c2: Seq<SeriesModel>,
)
    requires
        forall|j: int| 0 <= j < fields.len() ==> (#[trigger] find_series(c1, fields[j].name) is Some
            <==> find_series(c2, fields[j].name) is Some),
        forall|j: int| 0 <= j < fields.len() && find_series(c1, fields[j].name) is Some
            ==> #[trigger] source(fields, c1, j) == source(fields, c2, j),
    ensures
        columns_found(fields, c1) == columns_found(fields, c2),
        columns_found(fields, c1) ==> decodable(fields, c1) == decodable(fields, c2)
            && decoded(fields, c1) == decoded(fields, c2),
{
    assert(columns_found(fields, c1) == columns_found(fields, c2)) by {
        if columns_found(fields, c1) {
            assert forall|j: int| 0 <= j < fields.len() implies #[trigger] find_series(c2, fields[j].name) is Some by {
                assert(find_series(c1, fields[j].name) is Some);
            }
        }
        if columns_found(fields, c2) {
            assert forall|j: int| 0 <= j < fields.len() implies #[trigger] find_series(c1, fields[j].name) is Some by {
                assert(find_series(c2, fields[j].name) is Some);
            }
        }
    }
    if columns_found(fields, c1) {
        assert forall|j: int| 0 <= j < fields.len() implies #[trigger] source(fields, c1, j) == source(fields, c2, j) by {
            assert(find_series(c1, fields[j].name) is Some);
        }
        lemma_row_count_exists(fields, c1);
        let m = row_count(fields, c1);
        assert(is_row_count(fields, c2, m)) by {
            if fields.len() > 0 {
                let j = choose|j: int| 0 <= j < fields.len() && m == #[trigger] source(fields, c1, j).values.len();
                assert(source(fields, c1, j) == source(fields, c2, j));
            }
            assert forall|j: int| 0 <= j < fields.len() implies m <= #[trigger] source(fields, c2, j).values.len() by {
                assert(source(fields, c1, j) == source(fields, c2, j));
                assert(m <= source(fields, c1, j).values.len());
            }
        }
        lemma_row_count(fields, c2, m);
        assert(decoded(fields, c1) =~= decoded(fields, c2)) by {
            assert forall|i: int| 0 <= i < m implies decoded(fields, c1)[i] =~= decoded(fields, c2)[i] by {
                assert forall|j: int| 0 <= j < fields.len() implies decoded(fields, c1)[i][j] == decoded(fields, c2)[i][j] by {
                    assert(source(fields, c1, j) == source(fields, c2, j));
                }
            }
        }
        assert(types_match(fields, c1) == types_match(fields, c2)) by {
            if types_match(fields, c1) {
                assert forall|j: int| 0 <= j < fields.len() implies #[trigger] source(fields, c2, j).dtype == fields[j].dtype by {
                    assert(source(fields, c1, j) == source(fields, c2, j));
                }
            }
            if types_match(fields, c2) {
                assert forall|j: int| 0 <= j < fields.len() implies #[trigger] source(fields, c1, j).dtype == fields[j].dtype by {
                    assert(source(fields, c1, j) == source(fields, c2, j));
                }
            }
        }
    }
}

/// Whether no two columns share a name.
pub open spec fn distinct_series_names(cols: Seq<SeriesModel>) -> bool {
    forall|a: int, b: int| 0 <= a < cols.len() && 0 <= b < cols.len() && a != b
        ==> #[trigger] cols[a].name != #[trigger] cols[b].name
}

proof fn lemma_find_unique(cols: Seq<SeriesModel>, name: Seq<char>, m: int)
    requires
        distinct_series_names(cols),
        0 <= m <= cols.len(),
    ensures
        match find_series(cols.take(m), name) {
            Some(k) => 0 <= k < m && cols[k].name == name,
            None => forall|k: int| 0 <= k < m ==> #[trigger] cols[k].name != name,
        },
    decreases m,
{
    if m > 0 {
        lemma_find_unique(cols, name, m - 1);
        assert(cols.take(m).drop_last() =~= cols.take(m - 1));
        assert(cols.take(m).last() == cols[m - 1]);
    }
}

proof fn lemma_find_named(cols: Seq<SeriesModel>, name: Seq<char>)
    requires
        distinct_series_names(cols),
    ensures
        match find_series(cols, name) {
            Some(k) => 0 <= k < cols.len() && cols[k].name == name,
            None => forall|k: int| 0 <= k < cols.len() ==> #[trigger] cols[k].name != name,
        },
{
    lemma_find_unique(cols, name, cols.len() as int);
    assert(cols.take(cols.len() as int) =~= cols);
}

/// Whether every column of `c1` that a field reads stands in `c2` too.
pub open spec fn field_columns_kept(
    fields: Seq<ColumnModel>,
    c1: Seq<SeriesModel>,
    c2: Seq<SeriesModel>,
) -> bool {
    forall|j: int, k1: int| 0 <= j < fields.len() && 0 <= k1 < c1.len() && #[trigger] c1[k1].name == #[trigger] fields[j].name
        ==> exists|k2: int| 0 <= k2 < c2.len() && #[trigger] c2[k2] == c1[k1]
}

/// Columns are matched by name: reordering the columns, or adding columns
/// that no field reads, leaves the decoded rows unchanged.
pub proof fn lemma_columns_matched_by_name(
    fields: Seq<ColumnModel>,
    c1: Seq<SeriesModel>,
    c2: Seq<SeriesModel>,
    r1: Result<Seq<Seq<Val>>, ConversionError>,
    r2: Result<Seq<Seq<Val>>, ConversionError>,
)
    requires
        distinct_series_names(c1),
        distinct_series_names(c2),
        field_columns_kept(fields, c1, c2),
        field_columns_kept(fields, c2, c1),
        decode_outcome(fields, c1, r1),
        decode_outcome(fields, c2, r2),
    ensures
        r1 is Ok <==> r2 is Ok,
        r1 is Ok ==> r1 == r2,
{
    assert forall|j: int| 0 <= j < fields.len() implies (#[trigger] find_series(c1, fields[j].name) is Some
        <==> find_series(c2, fields[j].name) is Some) && (find_series(c1, fields[j].name) is Some
        ==> source(fields, c1, j) == source(fields, c2, j)) by {
        let n = fields[j].name;
        lemma_find_named(c1, n);
        lemma_find_named(c2, n);
        match find_series(c1, n) {
            Some(k1) => {
                assert(c1[k1].name == fields[j].name);
                let k2 = choose|k2: int| 0 <= k2 < c2.len() && #[trigger] c2[k2] == c1[k1];
                assert(c2[k2].name == n);
                assert(find_series(c2, n) == Some(k2)) by {
                    let f = find_series(c2, n);
                    if f is Some && f->Some_0 != k2 {
                        assert(c2[f->Some_0].name == c2[k2].name);
                    }
                }
            },
            None => {
                match find_series(c2, n) {
                    Some(k2) => {
                        assert(c2[k2].name == fields[j].name);
                        let k1 = choose|k1: int| 0 <= k1 < c1.len() && #[trigger] c1[k1] == c2[k2];
                        assert(c1[k1].name == n);
                    },
                    None => {},
                }
            },
        }
    }
    lemma_decode_depends_on_sources(fields, c1, c2);
}

/// When the decode conversion can fail only on field `j`, and does fail on an
/// entry of it that is read, the decoding fails naming field `j`, with a
/// message that the conversion gave for a value of that field.
pub proof fn lemma_failure_names_field<F: Fn(usize, Value) -> Result<Value, String>>(
    f: F,
    fields: Seq<ColumnModel>,
    cols: Seq<SeriesModel>,
    r: Result<Vec<Vec<Value>>, ConversionError>,
    i: int,
    j: int,
)
    requires
        decode_result(f, fields, cols, r),
        decodable(fields, cols),
        selected(fields, true, j),
        0 <= i < row_count(fields, cols),
        forall|x: Value, res: Result<Value, String>|
            x@ == decoded(fields, cols)[i][j] && #[trigger] f.ensures((j as usize, x), res) ==> res is Err,
        forall|k: int, x: Value, res: Result<Value, String>|
            0 <= k < fields.len() && k != j && #[trigger] f.ensures((k as usize, x), res) ==> res is Ok,
    ensures
        r matches Err(ConversionError::Custom { field, message }) && field@ == fields[j].name
            && exists|x: Value| #[trigger] f.ensures((j as usize, x), Err::<Value, String>(message)),
{
    lemma_conversion_failure_propagates(f, fields, cols, r, i, j);
    if let Err(ConversionError::Custom { field, message }) = r {
        let raw = choose|raw: Seq<Vec<Value>>|
            #[trigger] rows_view(raw) == decoded(fields, cols) && conversion_failed(f, fields, true, raw, field@, message);
        let (a, b) = choose|a: int, b: int|
            0 <= a < raw.len() && 0 <= b < raw[a]@.len() && selected(fields, true, b)
                && f.ensures((b as usize, #[trigger] raw[a]@[b]), Err::<Value, String>(message))
                && field@ == fields[b].name;
        assert(b == j) by {
            if b != j {
                assert(f.ensures((b as usize, raw[a]@[b]), Err::<Value, String>(message)));
            }
        }
        assert(f.ensures((j as usize, raw[a]@[j]), Err::<Value, String>(message)));
    }
}

} // verus!
