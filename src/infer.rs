//! Inference of a column's logical type from a field's declared type.
use vstd::prelude::*;
use vstd::string::StringExecFns;

use crate::dtype::{fields_view, DType, DataType, Field, TimeUnit};
use crate::error::ConfigError;
use crate::rtype::{path_ident, GenericArgument, PathArguments, RustType};
use crate::text::{decimal, decimal_text, same_text};

verus! {

/// The zone given to a zoned date-time; it is filled in after inference.
pub open spec fn zone_placeholder() -> Seq<char> {
    "PLACEHOLDER"@
}

/// The logical type of a scalar type name.
pub open spec fn scalar_dtype(name: Seq<char>) -> Option<DType> {
    if name == "u8"@ {
        Some(DType::UInt8)
    } else if name == "u16"@ {
        Some(DType::UInt16)
    } else if name == "u32"@ {
        Some(DType::UInt32)
    } else if name == "u64"@ {
        Some(DType::UInt64)
    } else if name == "i8"@ {
        Some(DType::Int8)
    } else if name == "i16"@ {
        Some(DType::Int16)
    } else if name == "i32"@ {
        Some(DType::Int32)
    } else if name == "i64"@ {
        Some(DType::Int64)
    } else if name == "bool"@ {
        Some(DType::Boolean)
    } else if name == "f32"@ {
        Some(DType::Float32)
    } else if name == "f64"@ {
        Some(DType::Float64)
    } else if name == "String"@ || name == "str"@ {
        Some(DType::Utf8)
    } else if name == "NaiveDateTime"@ {
        Some(DType::Datetime(TimeUnit::Milliseconds, None))
    } else {
        None
    }
}

/// The logical type inferred from a declared type.
pub open spec fn infer_dtype(ty: RustType) -> Result<DType, ConfigError>
    decreases ty,
{
    match ty {
        RustType::Path(p) => match path_ident(p) {
            Some(name) => match scalar_dtype(name) {
                Some(d) => Ok(d),
                None => Err(ConfigError::UnknownType),
            },
            None => if !p.leading_colon && p.segments@.len() == 1 {
                let seg = p.segments@[0];
                if seg.ident@ == "Vec"@ {
                    match seg.arguments {
                        PathArguments::AngleBracketed(args) => if args@.len() == 1 {
                            match args@[0] {
                                GenericArgument::Type(t) => match infer_dtype(t) {
                                    Ok(d) => Ok(DType::List(Box::new(d))),
                                    Err(e) => Err(e),
                                },
                                GenericArgument::Other => Err(ConfigError::UnknownType),
                            }
                        } else {
                            Err(ConfigError::InvalidVecArguments)
                        },
                        _ => Err(ConfigError::InvalidVecArguments),
                    }
                } else if seg.ident@ == "DateTime"@ {
                    match seg.arguments {
                        PathArguments::AngleBracketed(args) => if args@.len() == 1 && args@[0] matches GenericArgument::Type(RustType::Path(_)) {
                            Ok(DType::Datetime(TimeUnit::Milliseconds, Some(zone_placeholder())))
                        } else {
                            Err(ConfigError::UnknownType)
                        },
                        _ => Err(ConfigError::UnknownType),
                    }
                } else {
                    Err(ConfigError::UnknownType)
                }
            } else {
                Err(ConfigError::UnknownType)
            },
        },
        RustType::Tuple(elems) => match infer_members(elems@) {
            Ok(ms) => Ok(DType::Struct(ms)),
            Err(e) => Err(e),
        },
        RustType::Array(t) => match infer_dtype(*t) {
            Ok(d) => Ok(DType::List(Box::new(d))),
            Err(e) => Err(e),
        },
        RustType::Slice(t) => match infer_dtype(*t) {
            Ok(d) => Ok(DType::List(Box::new(d))),
            Err(e) => Err(e),
        },
        RustType::Reference(t) => infer_dtype(*t),
        RustType::Paren(t) => infer_dtype(*t),
        RustType::Other => Err(ConfigError::UnknownType),
    }
}

/// The members of the struct type inferred from a tuple's element types, named
/// by position; the first element that fails decides the error.
pub open spec fn infer_members(elems: Seq<RustType>) -> Result<Seq<(Seq<char>, DType)>, ConfigError>
    decreases elems,
{
    if elems.len() == 0 {
        Ok(Seq::empty())
    } else {
        match infer_members(elems.drop_last()) {
            Err(e) => Err(e),
            Ok(ms) => match infer_dtype(elems.last()) {
                Err(e) => Err(e),
                Ok(d) => Ok(ms.push((decimal((elems.len() - 1) as nat), d))),
            },
        }
    }
}

/// The logical type and nullability inferred from a declared type: reference
/// and parenthesis wrappers are looked through, and `Option<T>` is `T` made
/// nullable.
pub open spec fn infer_dtype_opt(ty: RustType) -> Result<(DType, bool), ConfigError>
    decreases ty,
{
    match ty {
        RustType::Reference(t) => infer_dtype_opt(*t),
        RustType::Paren(t) => infer_dtype_opt(*t),
        RustType::Path(p) => if !p.leading_colon && p.segments@.len() == 1
            && p.segments@[0].ident@ == "Option"@ {
            match p.segments@[0].arguments {
                PathArguments::AngleBracketed(args) => if args@.len() == 1 {
                    match args@[0] {
                        GenericArgument::Type(t) => match infer_dtype(t) {
                            Ok(d) => Ok((d, true)),
                            Err(e) => Err(e),
                        },
                        GenericArgument::Other => Err(ConfigError::InvalidOptionArguments),
                    }
                } else {
                    Err(ConfigError::InvalidOptionArguments)
                },
                _ => Err(ConfigError::InvalidOptionArguments),
            }
        } else {
            match infer_dtype(ty) {
                Ok(d) => Ok((d, false)),
                Err(e) => Err(e),
            }
        },
        _ => match infer_dtype(ty) {
            Ok(d) => Ok((d, false)),
            Err(e) => Err(e),
        },
    }
}

pub open spec fn dtype_result_view(r: Result<DataType, ConfigError>) -> Result<DType, ConfigError> {
    match r {
        Ok(d) => Ok(d@),
        Err(e) => Err(e),
    }
}

pub open spec fn dtype_opt_result_view(r: Result<(DataType, bool), ConfigError>) -> Result<(DType, bool), ConfigError> {
    match r {
        Ok((d, o)) => Ok((d@, o)),
        Err(e) => Err(e),
    }
}

proof fn lemma_members_error_extends(elems: Seq<RustType>, i: int, j: int)
    requires
        0 <= i <= j <= elems.len(),
        infer_members(elems.take(i)) is Err,
    ensures
        infer_members(elems.take(j)) == infer_members(elems.take(i)),
    decreases j - i,
{
    if j > i {
        lemma_members_error_extends(elems, i, j - 1);
        assert(elems.take(j).drop_last() =~= elems.take(j - 1));
    }
}

fn scalar_for_name(name: &String) -> (r: Option<DataType>)
    ensures
        match r {
            Some(d) => scalar_dtype(name@) == Some(d@),
            None => scalar_dtype(name@) is None,
        },
{
    let n = name.as_str();
    if same_text(n, "u8") {
        Some(DataType::UInt8)
    } else if same_text(n, "u16") {
        Some(DataType::UInt16)
    } else if same_text(n, "u32") {
        Some(DataType::UInt32)
    } else if same_text(n, "u64") {
        Some(DataType::UInt64)
    } else if same_text(n, "i8") {
        Some(DataType::Int8)
    } else if same_text(n, "i16") {
        Some(DataType::Int16)
    } else if same_text(n, "i32") {
        Some(DataType::Int32)
    } else if same_text(n, "i64") {
        Some(DataType::Int64)
    } else if same_text(n, "bool") {
        Some(DataType::Boolean)
    } else if same_text(n, "f32") {
        Some(DataType::Float32)
    } else if same_text(n, "f64") {
        Some(DataType::Float64)
    } else if same_text(n, "String") || same_text(n, "str") {
        Some(DataType::Utf8)
    } else if same_text(n, "NaiveDateTime") {
        Some(DataType::Datetime(TimeUnit::Milliseconds, None))
    } else {
        None
    }
}

/// Infers the logical type of a declared type that is not `Option`.
pub fn dtype_for_rtype(ty: &RustType) -> (r: Result<DataType, ConfigError>)
    ensures
        dtype_result_view(r) == infer_dtype(*ty),
    decreases ty,
{
    match ty {
        RustType::Path(p) => {
            match p.get_ident() {
                Some(name) => {
                    return match scalar_for_name(name) {
                        Some(d) => Ok(d),
                        None => Err(ConfigError::UnknownType),
                    };
                },
                None => {},
            }
            if p.leading_colon || p.segments.len() != 1 {
                return Err(ConfigError::UnknownType);
            }
            let seg = &p.segments[0];
            if same_text(seg.ident.as_str(), "Vec") {
                match &seg.arguments {
                    PathArguments::AngleBracketed(args) => {
                        if args.len() == 1 {
                            match &args[0] {
                                GenericArgument::Type(t) => {
                                    match dtype_for_rtype(t) {
                                        Ok(d) => Ok(DataType::List(Box::new(d))),
                                        Err(e) => Err(e),
                                    }
                                },
                                GenericArgument::Other => Err(ConfigError::UnknownType),
                            }
                        } else {
                            Err(ConfigError::InvalidVecArguments)
                        }
                    },
                    _ => Err(ConfigError::InvalidVecArguments),
                }
            } else if same_text(seg.ident.as_str(), "DateTime") {
                match &seg.arguments {
                    PathArguments::AngleBracketed(args) => {
                        if args.len() == 1 {
                            match &args[0] {
                                GenericArgument::Type(RustType::Path(_)) => {
                                    let zone = String::from_str("PLACEHOLDER");
                                    Ok(DataType::Datetime(TimeUnit::Milliseconds, Some(zone)))
                                },
                                _ => Err(ConfigError::UnknownType),
                            }
                        } else {
                            Err(ConfigError::UnknownType)
                        }
                    },
                    _ => Err(ConfigError::UnknownType),
                }
            } else {
                Err(ConfigError::UnknownType)
            }
        },
        RustType::Tuple(elems) => {
            let mut fields: Vec<Field> = Vec::new();
            let mut i: usize = 0;
            while i < elems.len()
                invariant
                    *ty == RustType::Tuple(*elems),
                    i <= elems@.len(),
                    infer_members(elems@.take(i as int)) == Ok::<Seq<(Seq<char>, DType)>, ConfigError>(fields_view(fields@)),
                decreases elems@.len() - i,
            {
                assert(elems@.take(i + 1).drop_last() =~= elems@.take(i as int));
                assert(elems@.take(i + 1).last() == elems@[i as int]);
                proof {
                    assert(decreases_to!(*ty => *elems));
                    assert(decreases_to!(*elems => elems@));
                }
                match dtype_for_rtype(&elems[i]) {
                    Ok(d) => {
                        let name = decimal_text(i);
                        let ghost before = fields@;
                        fields.push(Field { name, dtype: d });
                        assert(fields@.drop_last() =~= before);
                    },
                    Err(e) => {
                        proof {
                            lemma_members_error_extends(elems@, i + 1, elems@.len() as int);
                            assert(elems@.take(elems@.len() as int) =~= elems@);
                            assert(infer_members(elems@.take(i + 1)) == Err::<Seq<(Seq<char>, DType)>, ConfigError>(e));
                            assert(infer_members(elems@) == Err::<Seq<(Seq<char>, DType)>, ConfigError>(e));
                        }
                        return Err(e);
                    },
                }
                i = i + 1;
            }
            assert(elems@.take(elems@.len() as int) =~= elems@);
            Ok(DataType::Struct(fields))
        },
        RustType::Array(t) | RustType::Slice(t) => {
            match dtype_for_rtype(t) {
                Ok(d) => Ok(DataType::List(Box::new(d))),
                Err(e) => Err(e),
            }
        },
        RustType::Reference(t) | RustType::Paren(t) => dtype_for_rtype(t),
        RustType::Other => Err(ConfigError::UnknownType),
    }
}

/// Infers the logical type and nullability of a declared type: references and
/// parentheses are looked through, and `Option<T>` gives the type of `T`,
/// nullable.
pub fn dtype_for_rtype_opt(ty: &RustType) -> (r: Result<(DataType, bool), ConfigError>)
    ensures
        dtype_opt_result_view(r) == infer_dtype_opt(*ty),
    decreases ty,
{
    match ty {
        RustType::Reference(t) | RustType::Paren(t) => {
            return dtype_for_rtype_opt(t);
        },
        _ => {},
    }
    if let RustType::Path(p) = ty {
        if !p.leading_colon && p.segments.len() == 1 && same_text(p.segments[0].ident.as_str(), "Option") {
            if let PathArguments::AngleBracketed(args) = &p.segments[0].arguments {
                if args.len() == 1 {
                    if let GenericArgument::Type(t) = &args[0] {
                        return match dtype_for_rtype(t) {
                            Ok(d) => Ok((d, true)),
                            Err(e) => Err(e),
                        };
                    }
                }
            }
            return Err(ConfigError::InvalidOptionArguments);
        }
    }
    match dtype_for_rtype(ty) {
        Ok(d) => Ok((d, false)),
        Err(e) => Err(e),
    }
}

/// The `T` of a declared type written `Option<T>`.
pub open spec fn option_inner(ty: RustType) -> Option<RustType> {
    match ty {
        RustType::Path(p) => if !p.leading_colon && p.segments@.len() == 1
            && p.segments@[0].ident@ == "Option"@ {
            match p.segments@[0].arguments {
                PathArguments::AngleBracketed(args) => if args@.len() == 1 {
                    match args@[0] {
                        GenericArgument::Type(t) => Some(t),
                        GenericArgument::Other => None,
                    }
                } else {
                    None
                },
                _ => None,
            }
        } else {
            None
        },
        _ => None,
    }
}

/// Inference gives one answer for each declared type: any two results that
/// the contract of `dtype_for_rtype_opt` admits are the same.
pub proof fn lemma_inference_deterministic(
    ty: RustType,
    r1: Result<(DataType, bool), ConfigError>,
    r2: Result<(DataType, bool), ConfigError>,
)
    requires
        dtype_opt_result_view(r1) == infer_dtype_opt(ty),
        dtype_opt_result_view(r2) == infer_dtype_opt(ty),
    ensures
        dtype_opt_result_view(r1) == dtype_opt_result_view(r2),
{
}

/// `Option<Option<T>>` is rejected: only one level of optionality is allowed.
pub proof fn lemma_nested_option_rejected(ty: RustType)
    requires
        option_inner(ty) matches Some(inner) && option_inner(inner) is Some,
    ensures
        infer_dtype_opt(ty) is Err,
{
    reveal_strlit("Option");
    reveal_strlit("Vec");
    reveal_strlit("DateTime");
    let inner = option_inner(ty)->Some_0;
    assert("Option"@ != "Vec"@) by {
        assert("Option"@.len() != "Vec"@.len());
    }
    assert("Option"@ != "DateTime"@) by {
        assert("Option"@[0] != "DateTime"@[0]);
    }
    assert(infer_dtype(inner) is Err);
}

/// A value of a declared `Option<T>` is nullable, with the logical type of `T`.
pub proof fn lemma_option_is_nullable(ty: RustType)
    requires
        option_inner(ty) matches Some(inner) && infer_dtype(inner) is Ok,
    ensures
        infer_dtype_opt(ty) == Ok::<(DType, bool), ConfigError>((infer_dtype(option_inner(ty)->Some_0)->Ok_0, true)),
{
}

} // verus!
