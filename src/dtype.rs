//! Logical column types.
use vstd::prelude::*;

use crate::text::same_text;

verus! {

/// Resolution of a time-based column.
#[derive(Clone, Copy, Debug, PartialEq, Eq, Structural)]
pub enum TimeUnit {
    Nanoseconds,
    Microseconds,
    Milliseconds,
}

/// The logical type of a column.
#[derive(Debug, PartialEq, Eq)]
pub enum DataType {
    Boolean,
    UInt8,
    UInt16,
    UInt32,
    UInt64,
    Int8,
    Int16,
    Int32,
    Int64,
    Float32,
    Float64,
    Utf8,
    Binary,
    Date,
    Datetime(TimeUnit, Option<String>),
    Duration(TimeUnit),
    Time,
    List(Box<DataType>),
    Struct(Vec<Field>),
    Null,
    Unknown,
}

/// A named logical type: one column of a schema, or one member of a struct type.
#[derive(Debug, PartialEq, Eq)]
pub struct Field {
    pub name: String,
    pub dtype: DataType,
}

/// The mathematical value of a [`DataType`]: strings become character sequences
/// and the members of a struct type become a sequence of (name, type) pairs.
pub ghost enum DType {
    Boolean,
    UInt8,
    UInt16,
    UInt32,
    UInt64,
    Int8,
    Int16,
    Int32,
    Int64,
    Float32,
    Float64,
    Utf8,
    Binary,
    Date,
    Datetime(TimeUnit, Option<Seq<char>>),
    Duration(TimeUnit),
    Time,
    List(Box<DType>),
    Struct(Seq<(Seq<char>, DType)>),
    Null,
    Unknown,
}

pub open spec fn zone_view(z: Option<String>) -> Option<Seq<char>> {
    match z {
        Some(s) => Some(s@),
        None => None,
    }
}

pub open spec fn dtype_view(dt: DataType) -> DType
    decreases dt,
{
    match dt {
        DataType::Boolean => DType::Boolean,
        DataType::UInt8 => DType::UInt8,
        DataType::UInt16 => DType::UInt16,
        DataType::UInt32 => DType::UInt32,
        DataType::UInt64 => DType::UInt64,
        DataType::Int8 => DType::Int8,
        DataType::Int16 => DType::Int16,
        DataType::Int32 => DType::Int32,
        DataType::Int64 => DType::Int64,
        DataType::Float32 => DType::Float32,
        DataType::Float64 => DType::Float64,
        DataType::Utf8 => DType::Utf8,
        DataType::Binary => DType::Binary,
        DataType::Date => DType::Date,
        DataType::Datetime(u, z) => DType::Datetime(u, zone_view(z)),
        DataType::Duration(u) => DType::Duration(u),
        DataType::Time => DType::Time,
        DataType::List(inner) => DType::List(Box::new(dtype_view(*inner))),
        DataType::Struct(fields) => DType::Struct(fields_view(fields@)),
        DataType::Null => DType::Null,
        DataType::Unknown => DType::Unknown,
    }
}

pub open spec fn fields_view(fields: Seq<Field>) -> Seq<(Seq<char>, DType)>
    decreases fields,
{
    if fields.len() == 0 {
        Seq::empty()
    } else {
        fields_view(fields.drop_last()).push(
            (fields.last().name@, dtype_view(fields.last().dtype)),
        )
    }
}

impl View for DataType {
    type V = DType;

    open spec fn view(&self) -> DType {
        dtype_view(*self)
    }
}

pub proof fn lemma_fields_view(fields: Seq<Field>)
    ensures
        fields_view(fields).len() == fields.len(),
        forall|k: int| 0 <= k < fields.len() ==> #[trigger] fields_view(fields)[k] == (
            fields[k].name@,
            dtype_view(fields[k].dtype),
        ),
    decreases fields.len(),
{
    if fields.len() > 0 {
        lemma_fields_view(fields.drop_last());
        assert forall|k: int| 0 <= k < fields.len() implies #[trigger] fields_view(fields)[k] == (
            fields[k].name@,
            dtype_view(fields[k].dtype),
        ) by {
            if k < fields.len() - 1 {
                assert(fields.drop_last()[k] == fields[k]);
            }
        }
    }
}

/// Whether two types are the same.
pub fn same_dtype(a: &DataType, b: &DataType) -> (r: bool)
    ensures
        r == (a@ == b@),
    decreases a,
{
    match (a, b) {
        (DataType::Boolean, DataType::Boolean) => true,
        (DataType::UInt8, DataType::UInt8) => true,
        (DataType::UInt16, DataType::UInt16) => true,
        (DataType::UInt32, DataType::UInt32) => true,
        (DataType::UInt64, DataType::UInt64) => true,
        (DataType::Int8, DataType::Int8) => true,
        (DataType::Int16, DataType::Int16) => true,
        (DataType::Int32, DataType::Int32) => true,
        (DataType::Int64, DataType::Int64) => true,
        (DataType::Float32, DataType::Float32) => true,
        (DataType::Float64, DataType::Float64) => true,
        (DataType::Utf8, DataType::Utf8) => true,
        (DataType::Binary, DataType::Binary) => true,
        (DataType::Date, DataType::Date) => true,
        (DataType::Time, DataType::Time) => true,
        (DataType::Null, DataType::Null) => true,
        (DataType::Unknown, DataType::Unknown) => true,
        (DataType::Duration(u), DataType::Duration(v)) => *u == *v,
        (DataType::Datetime(u, z), DataType::Datetime(v, w)) => {
            if *u != *v {
                return false;
            }
            match (z, w) {
                (Some(x), Some(y)) => {
                    same_text(x.as_str(), y.as_str())
                },
                (None, None) => true,
                _ => false,
            }
        },
        (DataType::List(x), DataType::List(y)) => {
            let r = same_dtype(x, y);
            proof {
                if !r {
                    assert(a@->List_0 != b@->List_0);
                }
            }
            r
        },
        (DataType::Struct(fs), DataType::Struct(gs)) => {
            proof {
                lemma_fields_view(fs@);
                lemma_fields_view(gs@);
            }
            if fs.len() != gs.len() {
                return false;
            }
            let mut k: usize = 0;
            while k < fs.len()
                invariant
                    *a == DataType::Struct(*fs),
                    *b == DataType::Struct(*gs),
                    fs@.len() == gs@.len(),
                    fields_view(fs@).len() == fs@.len(),
                    fields_view(gs@).len() == gs@.len(),
                    k <= fs@.len(),
                    forall|m: int| 0 <= m < k ==> #[trigger] fields_view(fs@)[m] == fields_view(gs@)[m],
                decreases fs@.len() - k,
            {
                proof {
                    lemma_fields_view(fs@);
                    lemma_fields_view(gs@);
                    assert(decreases_to!(*a => (*a)->Struct_0));
                    assert(decreases_to!(*fs => fs[k as int]));
                    assert(decreases_to!(fs[k as int] => fs[k as int].dtype));
                }
                let same = same_text(fs[k].name.as_str(), gs[k].name.as_str()) && same_dtype(&fs[k].dtype, &gs[k].dtype);
                if !same {
                    assert(fields_view(fs@)[k as int] != fields_view(gs@)[k as int]);
                    assert(fields_view(fs@) != fields_view(gs@));
                    return false;
                }
                k = k + 1;
            }
            assert(fields_view(fs@) =~= fields_view(gs@));
            true
        },
        _ => false,
    }
}

} // verus!
