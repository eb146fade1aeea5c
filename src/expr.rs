//! Type expressions such as `UInt16` or `List(Utf8)`, read into logical types.
use vstd::prelude::*;

use crate::dtype::{DType, DataType, TimeUnit};
use crate::error::ConfigError;
use crate::infer::dtype_result_view;
use crate::text::same_text;

verus! {

/// A type expression, reduced to the shapes that name a logical type.
#[derive(Debug, PartialEq, Eq)]
pub enum DtypeExpr {
    /// `func(args, ..)`.
    Call { func: Box<DtypeExpr>, args: Vec<DtypeExpr> },
    /// A path that is one plain identifier.
    Ident(String),
    /// Any other path.
    Path,
    /// Any other expression.
    Other,
}

pub open spec fn is_ident(e: DtypeExpr, name: Seq<char>) -> bool {
    match e {
        DtypeExpr::Ident(n) => n@ == name,
        _ => false,
    }
}

/// The logical type that a bare identifier names.
pub open spec fn named_dtype(name: Seq<char>) -> Option<DType> {
    if name == "Boolean"@ {
        Some(DType::Boolean)
    } else if name == "UInt8"@ {
        Some(DType::UInt8)
    } else if name == "UInt16"@ {
        Some(DType::UInt16)
    } else if name == "UInt32"@ {
        Some(DType::UInt32)
    } else if name == "UInt64"@ {
        Some(DType::UInt64)
    } else if name == "Int8"@ {
        Some(DType::Int8)
    } else if name == "Int16"@ {
        Some(DType::Int16)
    } else if name == "Int32"@ {
        Some(DType::Int32)
    } else if name == "Int64"@ {
        Some(DType::Int64)
    } else if name == "Float32"@ {
        Some(DType::Float32)
    } else if name == "Float64"@ {
        Some(DType::Float64)
    } else if name == "Utf8"@ {
        Some(DType::Utf8)
    } else if name == "Binary"@ {
        Some(DType::Binary)
    } else if name == "Date"@ {
        Some(DType::Date)
    } else if name == "Time"@ {
        Some(DType::Time)
    } else if name == "Null"@ {
        Some(DType::Null)
    } else if name == "Unknown"@ {
        Some(DType::Unknown)
    } else {
        None
    }
}

/// The time unit that an expression names.
pub open spec fn named_time_unit(e: DtypeExpr) -> Option<TimeUnit> {
    if is_ident(e, "Milliseconds"@) {
        Some(TimeUnit::Milliseconds)
    } else if is_ident(e, "Microseconds"@) {
        Some(TimeUnit::Microseconds)
    } else if is_ident(e, "Nanoseconds"@) {
        Some(TimeUnit::Nanoseconds)
    } else {
        None
    }
}

/// The logical type that a type expression names.
pub open spec fn expr_dtype(e: DtypeExpr) -> Result<DType, ConfigError>
    decreases e,
{
    match e {
        DtypeExpr::Call { func, args } => if is_ident(*func, "List"@) && args@.len() == 1 {
            match expr_dtype(args@[0]) {
                Ok(d) => Ok(DType::List(Box::new(d))),
                Err(err) => Err(err),
            }
        } else if is_ident(*func, "Datetime"@) {
            if args@.len() == 1 {
                match named_time_unit(args@[0]) {
                    Some(u) => Ok(DType::Datetime(u, None)),
                    None => Err(ConfigError::InvalidTimeUnit),
                }
            } else {
                Err(ConfigError::DatetimeArity)
            }
        } else {
            Err(ConfigError::InvalidDtype)
        },
        DtypeExpr::Ident(n) => match named_dtype(n@) {
            Some(d) => Ok(d),
            None => Err(ConfigError::InvalidDtype),
        },
        _ => Err(ConfigError::InvalidDtype),
    }
}

impl DtypeExpr {
    /// Whether the expression is the plain identifier `name`.
    pub fn is_ident(&self, name: &str) -> (r: bool)
        ensures
            r == is_ident(*self, name@),
    {
        match self {
            DtypeExpr::Ident(n) => same_text(n.as_str(), name),
            _ => false,
        }
    }
}

fn dtype_for_name(name: &String) -> (r: Option<DataType>)
    ensures
        match r {
            Some(d) => named_dtype(name@) == Some(d@),
            None => named_dtype(name@) is None,
        },
{
    let n = name.as_str();
    if same_text(n, "Boolean") {
        Some(DataType::Boolean)
    } else if same_text(n, "UInt8") {
        Some(DataType::UInt8)
    } else if same_text(n, "UInt16") {
        Some(DataType::UInt16)
    } else if same_text(n, "UInt32") {
        Some(DataType::UInt32)
    } else if same_text(n, "UInt64") {
        Some(DataType::UInt64)
    } else if same_text(n, "Int8") {
        Some(DataType::Int8)
    } else if same_text(n, "Int16") {
        Some(DataType::Int16)
    } else if same_text(n, "Int32") {
        Some(DataType::Int32)
    } else if same_text(n, "Int64") {
        Some(DataType::Int64)
    } else if same_text(n, "Float32") {
        Some(DataType::Float32)
    } else if same_text(n, "Float64") {
        Some(DataType::Float64)
    } else if same_text(n, "Utf8") {
        Some(DataType::Utf8)
    } else if same_text(n, "Binary") {
        Some(DataType::Binary)
    } else if same_text(n, "Date") {
        Some(DataType::Date)
    } else if same_text(n, "Time") {
        Some(DataType::Time)
    } else if same_text(n, "Null") {
        Some(DataType::Null)
    } else if same_text(n, "Unknown") {
        Some(DataType::Unknown)
    } else {
        None
    }
}

/// Reads a type expression into the logical type it names.
pub fn expr_to_dtype(ex: &DtypeExpr) -> (r: Result<DataType, ConfigError>)
    ensures
        dtype_result_view(r) == expr_dtype(*ex),
    decreases ex,
{
    match ex {
        DtypeExpr::Call { func, args } => {
            if func.is_ident("List") && args.len() == 1 {
                proof {
                    assert(decreases_to!(*ex => *args));
                    assert(decreases_to!(*args => args@));
                }
                return match expr_to_dtype(&args[0]) {
                    Ok(d) => Ok(DataType::List(Box::new(d))),
                    Err(e) => Err(e),
                };
            }
            if func.is_ident("Datetime") {
                if args.len() == 1 {
                    let a = &args[0];
                    if a.is_ident("Milliseconds") {
                        Ok(DataType::Datetime(TimeUnit::Milliseconds, None))
                    } else if a.is_ident("Microseconds") {
                        Ok(DataType::Datetime(TimeUnit::Microseconds, None))
                    } else if a.is_ident("Nanoseconds") {
                        Ok(DataType::Datetime(TimeUnit::Nanoseconds, None))
                    } else {
                        Err(ConfigError::InvalidTimeUnit)
                    }
                } else {
                    Err(ConfigError::DatetimeArity)
                }
            } else {
                Err(ConfigError::InvalidDtype)
            }
        },
        DtypeExpr::Ident(n) => match dtype_for_name(n) {
            Some(d) => Ok(d),
            None => Err(ConfigError::InvalidDtype),
        },
        _ => Err(ConfigError::InvalidDtype),
    }
}

} // verus!
