//! Field values and column entries.
use vstd::prelude::*;

use crate::dtype::{DType, DataType, Field, fields_view};

verus! {

/// One field value of a row, or one entry of a column.
///
/// Temporal types hold their integer count (days for a date, time units since
/// the epoch for a date-time, and so on); floating-point numbers hold their
/// IEEE 754 bit pattern.
#[derive(Debug, PartialEq, Eq)]
pub enum Value {
    /// An absent value: `None` in an optional field.
    Null,
    Boolean(bool),
    UInt(u64),
    Int(i64),
    Float(u64),
    Text(String),
    Bytes(Vec<u8>),
    List(Vec<Value>),
}

/// The mathematical value of a [`Value`].
pub ghost enum Val {
    Null,
    Boolean(bool),
    UInt(u64),
    Int(i64),
    Float(u64),
    Text(Seq<char>),
    Bytes(Seq<u8>),
    List(Seq<Val>),
}

pub open spec fn value_view(v: Value) -> Val
    decreases v,
{
    match v {
        Value::Null => Val::Null,
        Value::Boolean(b) => Val::Boolean(b),
        Value::UInt(n) => Val::UInt(n),
        Value::Int(n) => Val::Int(n),
        Value::Float(b) => Val::Float(b),
        Value::Text(s) => Val::Text(s@),
        Value::Bytes(b) => Val::Bytes(b@),
        Value::List(items) => Val::List(values_view(items@)),
    }
}

pub open spec fn values_view(items: Seq<Value>) -> Seq<Val>
    decreases items,
{
    if items.len() == 0 {
        Seq::empty()
    } else {
        values_view(items.drop_last()).push(value_view(items.last()))
    }
}

impl View for Value {
    type V = Val;

    open spec fn view(&self) -> Val {
        value_view(*self)
    }
}

pub proof fn lemma_values_view_len(items: Seq<Value>)
    ensures
        values_view(items).len() == items.len(),
    decreases items.len(),
{
    if items.len() > 0 {
        lemma_values_view_len(items.drop_last());
    }
}

pub proof fn lemma_values_view_index(items: Seq<Value>, i: int)
    requires
        0 <= i < items.len(),
    ensures
        values_view(items).len() == items.len(),
        values_view(items)[i] == value_view(items[i]),
    decreases items.len(),
{
    lemma_values_view_len(items);
    if i < items.len() - 1 {
        lemma_values_view_index(items.drop_last(), i);
    }
}

/// Whether a present value belongs to a logical type. No value is absent
/// inside a list, and struct, null and unknown types hold no values.
pub open spec fn fits(v: Val, d: DType) -> bool
    decreases d, 0nat,
{
    match d {
        DType::Boolean => v is Boolean,
        DType::UInt8 => v matches Val::UInt(n) && n <= 0xff,
        DType::UInt16 => v matches Val::UInt(n) && n <= 0xffff,
        DType::UInt32 => v matches Val::UInt(n) && n <= 0xffff_ffff,
        DType::UInt64 => v is UInt,
        DType::Int8 => v matches Val::Int(n) && -0x80 <= n <= 0x7f,
        DType::Int16 => v matches Val::Int(n) && -0x8000 <= n <= 0x7fff,
        DType::Int32 => v matches Val::Int(n) && -0x8000_0000 <= n <= 0x7fff_ffff,
        DType::Int64 => v is Int,
        DType::Float32 => v matches Val::Float(b) && b <= 0xffff_ffff,
        DType::Float64 => v is Float,
        DType::Utf8 => v is Text,
        DType::Binary => v is Bytes,
        DType::Date => v matches Val::Int(n) && -0x8000_0000 <= n <= 0x7fff_ffff,
        DType::Datetime(_, _) => v is Int,
        DType::Duration(_) => v is Int,
        DType::Time => v is Int,
        DType::List(inner) => match v {
            Val::List(items) => all_fit(items, *inner),
            _ => false,
        },
        _ => false,
    }
}

/// Whether a column of type `d` can be stored: struct, null and unknown types
/// hold no values, at the top or inside a list.
pub open spec fn storable(d: DType) -> bool
    decreases d,
{
    match d {
        DType::List(inner) => storable(*inner),
        DType::Struct(_) => false,
        DType::Null => false,
        DType::Unknown => false,
        _ => true,
    }
}

/// Whether a column of the type can be stored.
pub fn is_storable(d: &DataType) -> (r: bool)
    ensures
        r == storable(d@),
    decreases d,
{
    match d {
        DataType::List(inner) => is_storable(inner),
        DataType::Struct(_) | DataType::Null | DataType::Unknown => false,
        _ => true,
    }
}

/// A value of each storable type.
pub open spec fn sample(d: DType) -> Val {
    match d {
        DType::Boolean => Val::Boolean(false),
        DType::UInt8 | DType::UInt16 | DType::UInt32 | DType::UInt64 => Val::UInt(0),
        DType::Float32 | DType::Float64 => Val::Float(0),
        DType::Utf8 => Val::Text(Seq::empty()),
        DType::Binary => Val::Bytes(Seq::empty()),
        DType::List(_) => Val::List(Seq::empty()),
        _ => Val::Int(0),
    }
}

/// Every storable type has values, so the round trip speaks of every
/// resolved layout.
pub proof fn lemma_storable_has_values(d: DType)
    requires
        storable(d),
    ensures
        fits(sample(d), d),
{
}

/// Whether every value of `items` belongs to `d`.
pub open spec fn all_fit(items: Seq<Val>, d: DType) -> bool
    decreases d, items.len() + 1,
{
    if items.len() == 0 {
        true
    } else {
        all_fit(items.drop_last(), d) && fits(items.last(), d)
    }
}

pub proof fn lemma_all_fit(items: Seq<Val>, d: DType)
    ensures
        all_fit(items, d) <==> forall|k: int| 0 <= k < items.len() ==> #[trigger] fits(items[k], d),
    decreases items.len(),
{
    if items.len() > 0 {
        let init = items.drop_last();
        lemma_all_fit(init, d);
        if all_fit(items, d) {
            assert forall|k: int| 0 <= k < items.len() implies #[trigger] fits(items[k], d) by {
                if k < items.len() - 1 {
                    assert(init[k] == items[k]);
                    assert(fits(init[k], d));
                }
            }
        }
        if forall|k: int| 0 <= k < items.len() ==> #[trigger] fits(items[k], d) {
            assert forall|k: int| 0 <= k < init.len() implies #[trigger] fits(init[k], d) by {
                assert(init[k] == items[k]);
                assert(fits(items[k], d));
            }
            assert(fits(items[items.len() - 1], d));
        }
    }
}

/// Whether an entry belongs to a column of type `d`: absent entries only
/// where the column is nullable.
pub open spec fn entry_fits(v: Val, d: DType, nullable: bool) -> bool {
    if v is Null {
        nullable
    } else {
        fits(v, d)
    }
}

/// Whether a present value belongs to a logical type.
pub fn value_fits(v: &Value, d: &DataType) -> (r: bool)
    ensures
        r == fits(v@, d@),
    decreases d,
{
    match d {
        DataType::Boolean => matches!(v, Value::Boolean(_)),
        DataType::UInt8 => match v { Value::UInt(n) => *n <= 0xff, _ => false },
        DataType::UInt16 => match v { Value::UInt(n) => *n <= 0xffff, _ => false },
        DataType::UInt32 => match v { Value::UInt(n) => *n <= 0xffff_ffff, _ => false },
        DataType::UInt64 => matches!(v, Value::UInt(_)),
        DataType::Int8 => match v { Value::Int(n) => -0x80 <= *n && *n <= 0x7f, _ => false },
        DataType::Int16 => match v { Value::Int(n) => -0x8000 <= *n && *n <= 0x7fff, _ => false },
        DataType::Int32 => match v {
            Value::Int(n) => -0x8000_0000 <= *n && *n <= 0x7fff_ffff,
            _ => false,
        },
        DataType::Int64 => matches!(v, Value::Int(_)),
        DataType::Float32 => match v { Value::Float(b) => *b <= 0xffff_ffff, _ => false },
        DataType::Float64 => matches!(v, Value::Float(_)),
        DataType::Utf8 => matches!(v, Value::Text(_)),
        DataType::Binary => matches!(v, Value::Bytes(_)),
        DataType::Date => match v {
            Value::Int(n) => -0x8000_0000 <= *n && *n <= 0x7fff_ffff,
            _ => false,
        },
        DataType::Datetime(_, _) | DataType::Duration(_) | DataType::Time => matches!(v, Value::Int(_)),
        DataType::List(inner) => match v {
            Value::List(items) => {
                let mut k: usize = 0;
                proof {
                    lemma_values_view_len(items@);
                }
                while k < items.len()
                    invariant
                        *d == DataType::List(*inner),
                        *v == Value::List(*items),
                        values_view(items@).len() == items@.len(),
                        k <= items@.len(),
                        forall|m: int| 0 <= m < k ==> fits(#[trigger] values_view(items@)[m], inner@),
                    decreases items@.len() - k,
                {
                    proof {
                        lemma_values_view_index(items@, k as int);
                        assert(decreases_to!(*d => (*d)->List_0));
                    }
                    if !value_fits(&items[k], inner) {
                        assert(!fits(values_view(items@)[k as int], inner@));
                        assert(v@ == Val::List(values_view(items@)));
                        assert(d@ == DType::List(Box::new(inner@)));
                        proof {
                            lemma_all_fit(values_view(items@), inner@);
                        }
                        return false;
                    }
                    k = k + 1;
                }
                proof {
                    lemma_values_view_len(items@);
                    lemma_all_fit(values_view(items@), inner@);
                }
                true
            },
            _ => false,
        },
        _ => false,
    }
}

/// Whether an entry belongs to a column of type `d`.
pub fn entry_ok(v: &Value, d: &DataType, nullable: bool) -> (r: bool)
    ensures
        r == entry_fits(v@, d@, nullable),
{
    match v {
        Value::Null => nullable,
        _ => value_fits(v, d),
    }
}

impl Value {
    /// A copy of the value.
    pub fn copy(&self) -> (r: Value)
        ensures
            r@ == self@,
        decreases self,
    {
        match self {
            Value::Null => Value::Null,
            Value::Boolean(b) => Value::Boolean(*b),
            Value::UInt(n) => Value::UInt(*n),
            Value::Int(n) => Value::Int(*n),
            Value::Float(b) => Value::Float(*b),
            Value::Text(s) => Value::Text(s.clone()),
            Value::Bytes(b) => Value::Bytes(b.clone()),
            Value::List(items) => {
                let mut out: Vec<Value> = Vec::new();
                let mut k: usize = 0;
                while k < items.len()
                    invariant
                        *self == Value::List(*items),
                        k <= items@.len(),
                        values_view(out@) == values_view(items@.take(k as int)),
                    decreases items@.len() - k,
                {
                    proof {
                        assert(decreases_to!(*self => (*self)->List_0));
                        assert(decreases_to!(*items => items[k as int]));
                    }
                    let c = items[k].copy();
                    let ghost before = out@;
                    out.push(c);
                    assert(out@.drop_last() =~= before);
                    assert(items@.take(k + 1).drop_last() =~= items@.take(k as int));
                    k = k + 1;
                }
                assert(items@.take(k as int) =~= items@);
                Value::List(out)
            },
        }
    }
}

impl DataType {
    /// A copy of the type.
    pub fn copy(&self) -> (r: DataType)
        ensures
            r@ == self@,
        decreases self,
    {
        match self {
            DataType::Boolean => DataType::Boolean,
            DataType::UInt8 => DataType::UInt8,
            DataType::UInt16 => DataType::UInt16,
            DataType::UInt32 => DataType::UInt32,
            DataType::UInt64 => DataType::UInt64,
            DataType::Int8 => DataType::Int8,
            DataType::Int16 => DataType::Int16,
            DataType::Int32 => DataType::Int32,
            DataType::Int64 => DataType::Int64,
            DataType::Float32 => DataType::Float32,
            DataType::Float64 => DataType::Float64,
            DataType::Utf8 => DataType::Utf8,
            DataType::Binary => DataType::Binary,
            DataType::Date => DataType::Date,
            DataType::Datetime(u, z) => {
                let zone = match z {
                    Some(s) => Some(s.clone()),
                    None => None,
                };
                DataType::Datetime(*u, zone)
            },
            DataType::Duration(u) => DataType::Duration(*u),
            DataType::Time => DataType::Time,
            DataType::List(inner) => DataType::List(Box::new(inner.copy())),
            DataType::Struct(fields) => {
                let mut out: Vec<Field> = Vec::new();
                let mut k: usize = 0;
                while k < fields.len()
                    invariant
                        *self == DataType::Struct(*fields),
                        k <= fields@.len(),
                        fields_view(out@) == fields_view(fields@.take(k as int)),
                    decreases fields@.len() - k,
                {
                    proof {
                        assert(decreases_to!(*self => (*self)->Struct_0));
                        assert(decreases_to!(*fields => fields[k as int]));
                        assert(decreases_to!(fields[k as int] => fields[k as int].dtype));
                    }
                    let f = Field { name: fields[k].name.clone(), dtype: fields[k].dtype.copy() };
                    let ghost before = out@;
                    out.push(f);
                    assert(out@.drop_last() =~= before);
                    assert(fields@.take(k + 1).drop_last() =~= fields@.take(k as int));
                    k = k + 1;
                }
                assert(fields@.take(k as int) =~= fields@);
                DataType::Struct(out)
            },
            DataType::Null => DataType::Null,
            DataType::Unknown => DataType::Unknown,
        }
    }
}

} // verus!
