use polars_derive::dtype::{DataType, Field, TimeUnit};
use polars_derive::error::ConfigError;
use polars_derive::expr::{expr_to_dtype, DtypeExpr};
use polars_derive::infer::{dtype_for_rtype, dtype_for_rtype_opt};
use polars_derive::rtype::{GenericArgument, PathArguments, PathSegment, RustType, TypePath};
use polars_derive::text::decimal_text;

fn name(s: &str) -> RustType {
    RustType::Path(TypePath {
        leading_colon: false,
        segments: vec![PathSegment { ident: s.to_string(), arguments: PathArguments::Empty }],
    })
}

fn generic(s: &str, args: Vec<RustType>) -> RustType {
    RustType::Path(TypePath {
        leading_colon: false,
        segments: vec![PathSegment {
            ident: s.to_string(),
            arguments: PathArguments::AngleBracketed(args.into_iter().map(GenericArgument::Type).collect()),
        }],
    })
}

fn ident(s: &str) -> DtypeExpr {
    DtypeExpr::Ident(s.to_string())
}

fn call(f: &str, args: Vec<DtypeExpr>) -> DtypeExpr {
    DtypeExpr::Call { func: Box::new(ident(f)), args }
}

#[test]
fn scalar_names_map_to_their_types() {
    assert_eq!(dtype_for_rtype(&name("u8")), Ok(DataType::UInt8));
    assert_eq!(dtype_for_rtype(&name("u16")), Ok(DataType::UInt16));
    assert_eq!(dtype_for_rtype(&name("u32")), Ok(DataType::UInt32));
    assert_eq!(dtype_for_rtype(&name("u64")), Ok(DataType::UInt64));
    assert_eq!(dtype_for_rtype(&name("i8")), Ok(DataType::Int8));
    assert_eq!(dtype_for_rtype(&name("i16")), Ok(DataType::Int16));
    assert_eq!(dtype_for_rtype(&name("i32")), Ok(DataType::Int32));
    assert_eq!(dtype_for_rtype(&name("i64")), Ok(DataType::Int64));
    assert_eq!(dtype_for_rtype(&name("bool")), Ok(DataType::Boolean));
    assert_eq!(dtype_for_rtype(&name("f32")), Ok(DataType::Float32));
    assert_eq!(dtype_for_rtype(&name("f64")), Ok(DataType::Float64));
    assert_eq!(dtype_for_rtype(&name("String")), Ok(DataType::Utf8));
    assert_eq!(dtype_for_rtype(&name("str")), Ok(DataType::Utf8));
    assert_eq!(
        dtype_for_rtype(&name("NaiveDateTime")),
        Ok(DataType::Datetime(TimeUnit::Milliseconds, None))
    );
    assert_eq!(dtype_for_rtype(&name("Url")), Err(ConfigError::UnknownType));
}

#[test]
fn sequence_of_string_is_list_of_utf8() {
    let ty = generic("Vec", vec![name("String")]);
    assert_eq!(dtype_for_rtype_opt(&ty), Ok((DataType::List(Box::new(DataType::Utf8)), false)));
}

#[test]
fn optional_sequence_is_nullable_list() {
    let ty = generic("Option", vec![generic("Vec", vec![name("String")])]);
    assert_eq!(dtype_for_rtype_opt(&ty), Ok((DataType::List(Box::new(DataType::Utf8)), true)));
}

#[test]
fn nested_option_is_rejected() {
    let ty = generic("Option", vec![generic("Option", vec![name("u8")])]);
    assert_eq!(dtype_for_rtype_opt(&ty), Err(ConfigError::UnknownType));
}

#[test]
fn option_needs_one_type_argument() {
    assert_eq!(dtype_for_rtype_opt(&name("Option")), Err(ConfigError::InvalidOptionArguments));
    let two = generic("Option", vec![name("u8"), name("u8")]);
    assert_eq!(dtype_for_rtype_opt(&two), Err(ConfigError::InvalidOptionArguments));
}

#[test]
fn vec_needs_one_argument() {
    let two = generic("Vec", vec![name("u8"), name("u8")]);
    assert_eq!(dtype_for_rtype(&two), Err(ConfigError::InvalidVecArguments));
    let none = generic("Vec", vec![]);
    assert_eq!(dtype_for_rtype(&none), Err(ConfigError::InvalidVecArguments));
}

#[test]
fn wrappers_are_transparent() {
    let r = RustType::Reference(Box::new(name("str")));
    assert_eq!(dtype_for_rtype(&r), Ok(DataType::Utf8));
    let p = RustType::Paren(Box::new(name("u32")));
    assert_eq!(dtype_for_rtype(&p), Ok(DataType::UInt32));
    let a = RustType::Array(Box::new(name("u8")));
    assert_eq!(dtype_for_rtype(&a), Ok(DataType::List(Box::new(DataType::UInt8))));
    let s = RustType::Slice(Box::new(name("i64")));
    assert_eq!(dtype_for_rtype(&s), Ok(DataType::List(Box::new(DataType::Int64))));
}

#[test]
fn tuple_becomes_struct_with_positional_names() {
    let t = RustType::Tuple(vec![name("u8"), name("String")]);
    assert_eq!(
        dtype_for_rtype(&t),
        Ok(DataType::Struct(vec![
            Field { name: "0".to_string(), dtype: DataType::UInt8 },
            Field { name: "1".to_string(), dtype: DataType::Utf8 },
        ]))
    );
    let bad = RustType::Tuple(vec![name("u8"), name("Url"), RustType::Other]);
    assert_eq!(dtype_for_rtype(&bad), Err(ConfigError::UnknownType));
}

#[test]
fn zoned_datetime_gets_placeholder_zone() {
    let ty = generic("DateTime", vec![name("Utc")]);
    assert_eq!(
        dtype_for_rtype(&ty),
        Ok(DataType::Datetime(TimeUnit::Milliseconds, Some("PLACEHOLDER".to_string())))
    );
    let odd = generic("DateTime", vec![RustType::Tuple(vec![])]);
    assert_eq!(dtype_for_rtype(&odd), Err(ConfigError::UnknownType));
}

#[test]
fn other_shapes_are_unknown() {
    assert_eq!(dtype_for_rtype(&RustType::Other), Err(ConfigError::UnknownType));
    let qualified = RustType::Path(TypePath {
        leading_colon: false,
        segments: vec![
            PathSegment { ident: "chrono".to_string(), arguments: PathArguments::Empty },
            PathSegment { ident: "NaiveDateTime".to_string(), arguments: PathArguments::Empty },
        ],
    });
    assert_eq!(dtype_for_rtype(&qualified), Err(ConfigError::UnknownType));
}

#[test]
fn inference_is_deterministic() {
    let ty = generic("Option", vec![generic("Vec", vec![name("i32")])]);
    assert_eq!(dtype_for_rtype_opt(&ty), dtype_for_rtype_opt(&ty));
}

#[test]
fn type_expressions() {
    assert_eq!(expr_to_dtype(&ident("UInt16")), Ok(DataType::UInt16));
    assert_eq!(expr_to_dtype(&ident("Binary")), Ok(DataType::Binary));
    assert_eq!(expr_to_dtype(&ident("Null")), Ok(DataType::Null));
    assert_eq!(
        expr_to_dtype(&call("List", vec![ident("Utf8")])),
        Ok(DataType::List(Box::new(DataType::Utf8)))
    );
    assert_eq!(
        expr_to_dtype(&call("Datetime", vec![ident("Microseconds")])),
        Ok(DataType::Datetime(TimeUnit::Microseconds, None))
    );
    assert_eq!(expr_to_dtype(&call("Datetime", vec![ident("Days")])), Err(ConfigError::InvalidTimeUnit));
    assert_eq!(
        expr_to_dtype(&call("Datetime", vec![ident("Milliseconds"), ident("Utc")])),
        Err(ConfigError::DatetimeArity)
    );
    assert_eq!(expr_to_dtype(&call("List", vec![])), Err(ConfigError::InvalidDtype));
    assert_eq!(expr_to_dtype(&ident("Datetime")), Err(ConfigError::InvalidDtype));
    assert_eq!(expr_to_dtype(&DtypeExpr::Path), Err(ConfigError::InvalidDtype));
    assert_eq!(
        expr_to_dtype(&call("List", vec![ident("Text")])),
        Err(ConfigError::InvalidDtype)
    );
}

#[test]
fn decimal_numerals() {
    assert_eq!(decimal_text(0), "0");
    assert_eq!(decimal_text(7), "7");
    assert_eq!(decimal_text(1204), "1204");
}

#[test]
fn error_messages() {
    assert_eq!(ConfigError::UnknownType.message(), "unknown type, please specify dtype explicitly");
    assert_eq!(ConfigError::GenericParameters.message(), "generic parameters are not allowed");
}

#[test]
fn wrappers_around_option_are_looked_through() {
    let opt = || generic("Option", vec![name("u16")]);
    let r = RustType::Reference(Box::new(opt()));
    assert_eq!(dtype_for_rtype_opt(&r), Ok((DataType::UInt16, true)));
    let p = RustType::Paren(Box::new(opt()));
    assert_eq!(dtype_for_rtype_opt(&p), Ok((DataType::UInt16, true)));
    let plain = RustType::Reference(Box::new(name("str")));
    assert_eq!(dtype_for_rtype_opt(&plain), Ok((DataType::Utf8, false)));
}
