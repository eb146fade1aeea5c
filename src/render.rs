//! Rendering a logical type as the Rust expression that builds it, for code
//! generated around a record type.
use vstd::prelude::*;
use vstd::string::StringExecFns;
use vstd::string::StrSliceExecFns;

use crate::dtype::{DType, DataType, TimeUnit};

verus! {

pub open spec fn dtype_prefix() -> Seq<char> {
    "::polars_derive::dtype::DataType::"@
}

/// The path of a time unit.
pub open spec fn time_unit_text(u: TimeUnit) -> Seq<char> {
    match u {
        TimeUnit::Nanoseconds => "::polars_derive::dtype::TimeUnit::Nanoseconds"@,
        TimeUnit::Microseconds => "::polars_derive::dtype::TimeUnit::Microseconds"@,
        TimeUnit::Milliseconds => "::polars_derive::dtype::TimeUnit::Milliseconds"@,
    }
}

/// A character as it stands inside a string literal.
pub open spec fn escaped_char(c: char) -> Seq<char> {
    if c == '\\' {
        seq!['\\', '\\']
    } else if c == '"' {
        seq!['\\', '"']
    } else {
        seq![c]
    }
}

/// The body of a string literal that holds `s`.
pub open spec fn escaped(s: Seq<char>) -> Seq<char>
    decreases s.len(),
{
    if s.len() == 0 {
        Seq::empty()
    } else {
        escaped(s.drop_last()) + escaped_char(s.last())
    }
}

/// The expression for a time zone: `None`, or `Some` of a string.
pub open spec fn zone_text(z: Option<Seq<char>>) -> Seq<char> {
    match z {
        None => "None"@,
        Some(s) => "Some(::std::string::String::from(\""@ + escaped(s) + "\"))"@,
    }
}

/// The expression that builds a logical type; struct types have none.
pub open spec fn dtype_text(d: DType) -> Option<Seq<char>>
    decreases d,
{
    match d {
        DType::Boolean => Some(dtype_prefix() + "Boolean"@),
        DType::UInt8 => Some(dtype_prefix() + "UInt8"@),
        DType::UInt16 => Some(dtype_prefix() + "UInt16"@),
        DType::UInt32 => Some(dtype_prefix() + "UInt32"@),
        DType::UInt64 => Some(dtype_prefix() + "UInt64"@),
        DType::Int8 => Some(dtype_prefix() + "Int8"@),
        DType::Int16 => Some(dtype_prefix() + "Int16"@),
        DType::Int32 => Some(dtype_prefix() + "Int32"@),
        DType::Int64 => Some(dtype_prefix() + "Int64"@),
        DType::Float32 => Some(dtype_prefix() + "Float32"@),
        DType::Float64 => Some(dtype_prefix() + "Float64"@),
        DType::Utf8 => Some(dtype_prefix() + "Utf8"@),
        DType::Binary => Some(dtype_prefix() + "Binary"@),
        DType::Date => Some(dtype_prefix() + "Date"@),
        DType::Datetime(u, z) => Some(
            dtype_prefix() + "Datetime("@ + time_unit_text(u) + ", "@ + zone_text(z) + ")"@,
        ),
        DType::Duration(u) => Some(dtype_prefix() + "Duration("@ + time_unit_text(u) + ")"@),
        DType::Time => Some(dtype_prefix() + "Time"@),
        DType::List(inner) => match dtype_text(*inner) {
            Some(i) => Some(dtype_prefix() + "List(::std::boxed::Box::new("@ + i + "))"@),
            None => None,
        },
        DType::Struct(_) => None,
        DType::Null => Some(dtype_prefix() + "Null"@),
        DType::Unknown => Some(dtype_prefix() + "Unknown"@),
    }
}

/// The path of a time unit.
pub fn time_unit_to_expr(u: TimeUnit) -> (r: &'static str)
    ensures
        r@ == time_unit_text(u),
{
    match u {
        TimeUnit::Nanoseconds => "::polars_derive::dtype::TimeUnit::Nanoseconds",
        TimeUnit::Microseconds => "::polars_derive::dtype::TimeUnit::Microseconds",
        TimeUnit::Milliseconds => "::polars_derive::dtype::TimeUnit::Milliseconds",
    }
}

/// Appends the body of a string literal that holds `s`.
fn push_escaped(out: &mut String, s: &str)
    ensures
        final(out)@ == old(out)@ + escaped(s@),
{
    let n = s.unicode_len();
    let mut i: usize = 0;
    let ghost start = out@;
    while i < n
        invariant
            n == s@.len(),
            i <= n,
            out@ == start + escaped(s@.take(i as int)),
        decreases n - i,
    {
        let c = s.get_char(i);
        let ghost mid = out@;
        if c == '\\' {
            out.append("\\\\");
            proof {
                reveal_strlit("\\\\");
            }
            assert("\\\\"@ =~= escaped_char(c));
        } else if c == '"' {
            out.append("\\\"");
            proof {
                reveal_strlit("\\\"");
            }
            assert("\\\""@ =~= escaped_char(c));
        } else {
            out.append(s.substring_char(i, i + 1));
            assert(s@.subrange(i as int, i + 1) =~= escaped_char(c));
        }
        assert(out@ == mid + escaped_char(c));
        assert(s@.take(i + 1).drop_last() =~= s@.take(i as int));
        assert(s@.take(i + 1).last() == c);
        assert(out@ =~= start + escaped(s@.take(i + 1)));
        i = i + 1;
    }
    assert(s@.take(n as int) =~= s@);
}

fn with_prefix(name: &str) -> (r: String)
    ensures
        r@ == dtype_prefix() + name@,
{
    let mut s = String::from_str("::polars_derive::dtype::DataType::");
    s.append(name);
    s
}

/// The Rust expression that builds the logical type; `None` for a struct
/// type, which generated code does not build.
pub fn dtype_to_expr(d: &DataType) -> (r: Option<String>)
    ensures
        match r {
            Some(s) => dtype_text(d@) == Some(s@),
            None => dtype_text(d@) is None,
        },
    decreases d,
{
    match d {
        DataType::Boolean => Some(with_prefix("Boolean")),
        DataType::UInt8 => Some(with_prefix("UInt8")),
        DataType::UInt16 => Some(with_prefix("UInt16")),
        DataType::UInt32 => Some(with_prefix("UInt32")),
        DataType::UInt64 => Some(with_prefix("UInt64")),
        DataType::Int8 => Some(with_prefix("Int8")),
        DataType::Int16 => Some(with_prefix("Int16")),
        DataType::Int32 => Some(with_prefix("Int32")),
        DataType::Int64 => Some(with_prefix("Int64")),
        DataType::Float32 => Some(with_prefix("Float32")),
        DataType::Float64 => Some(with_prefix("Float64")),
        DataType::Utf8 => Some(with_prefix("Utf8")),
        DataType::Binary => Some(with_prefix("Binary")),
        DataType::Date => Some(with_prefix("Date")),
        DataType::Datetime(u, z) => {
            let mut s = with_prefix("Datetime(");
            s.append(time_unit_to_expr(*u));
            s.append(", ");
            match z {
                Some(zone) => {
                    s.append("Some(::std::string::String::from(\"");
                    push_escaped(&mut s, zone.as_str());
                    s.append("\"))");
                },
                None => {
                    s.append("None");
                },
            }
            s.append(")");
            Some(s)
        },
        DataType::Duration(u) => {
            let mut s = with_prefix("Duration(");
            s.append(time_unit_to_expr(*u));
            s.append(")");
            Some(s)
        },
        DataType::Time => Some(with_prefix("Time")),
        DataType::List(inner) => {
            match dtype_to_expr(inner) {
                Some(i) => {
                    let mut s = with_prefix("List(::std::boxed::Box::new(");
                    s.append(i.as_str());
                    s.append("))");
                    Some(s)
                },
                None => None,
            }
        },
        DataType::Struct(_) => None,
        DataType::Null => Some(with_prefix("Null")),
        DataType::Unknown => Some(with_prefix("Unknown")),
    }
}

/// The Rust type that holds a present value of a logical type in generated
/// code; struct, null and unknown types have none.
pub open spec fn storage_text(d: DType) -> Option<Seq<char>>
    decreases d,
{
    match d {
        DType::Boolean => Some("bool"@),
        DType::UInt8 => Some("u8"@),
        DType::UInt16 => Some("u16"@),
        DType::UInt32 => Some("u32"@),
        DType::UInt64 => Some("u64"@),
        DType::Int8 => Some("i8"@),
        DType::Int16 => Some("i16"@),
        DType::Int32 => Some("i32"@),
        DType::Int64 => Some("i64"@),
        DType::Float32 => Some("u32"@),
        DType::Float64 => Some("u64"@),
        DType::Utf8 => Some("::std::string::String"@),
        DType::Binary => Some("::std::vec::Vec<u8>"@),
        DType::Date => Some("i32"@),
        DType::Datetime(_, _) => Some("i64"@),
        DType::Duration(_) => Some("i64"@),
        DType::Time => Some("i64"@),
        DType::List(inner) => match storage_text(*inner) {
            Some(i) => Some("::std::vec::Vec<"@ + i + ">"@),
            None => None,
        },
        _ => None,
    }
}

fn text_of(s: &str) -> (r: Option<String>)
    ensures
        r matches Some(t) && t@ == s@,
{
    Some(String::from_str(s))
}

/// The Rust type that holds a present value of the logical type in generated
/// code; `None` for struct, null and unknown types.
pub fn rtype_for_dtype(d: &DataType) -> (r: Option<String>)
    ensures
        match r {
            Some(s) => storage_text(d@) == Some(s@),
            None => storage_text(d@) is None,
        },
    decreases d,
{
    match d {
        DataType::Boolean => text_of("bool"),
        DataType::UInt8 => text_of("u8"),
        DataType::UInt16 => text_of("u16"),
        DataType::UInt32 => text_of("u32"),
        DataType::UInt64 => text_of("u64"),
        DataType::Int8 => text_of("i8"),
        DataType::Int16 => text_of("i16"),
        DataType::Int32 => text_of("i32"),
        DataType::Int64 => text_of("i64"),
        DataType::Float32 => text_of("u32"),
        DataType::Float64 => text_of("u64"),
        DataType::Utf8 => text_of("::std::string::String"),
        DataType::Binary => text_of("::std::vec::Vec<u8>"),
        DataType::Date => text_of("i32"),
        DataType::Datetime(_, _) | DataType::Duration(_) | DataType::Time => text_of("i64"),
        DataType::List(inner) => match rtype_for_dtype(inner) {
            Some(i) => {
                let mut s = String::from_str("::std::vec::Vec<");
                s.append(i.as_str());
                s.append(">");
                Some(s)
            },
            None => None,
        },
        _ => None,
    }
}

} // verus!
