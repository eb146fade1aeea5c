use polars_derive::dtype::{DataType, Field, TimeUnit};
use polars_derive::error::ConfigError;
use polars_derive::expr::DtypeExpr;
use polars_derive::options::{value_kind, Attr, AttrOption, OptionValue, ValueKind};
use polars_derive::render::{dtype_to_expr, time_unit_to_expr};
use polars_derive::rtype::{GenericArgument, PathArguments, PathSegment, RustType, TypePath};
use polars_derive::template::{ConvertFrom, ConvertInto, FieldDecl, StructDecl, Template};

fn name(s: &str) -> RustType {
    RustType::Path(TypePath {
        leading_colon: false,
        segments: vec![PathSegment { ident: s.to_string(), arguments: PathArguments::Empty }],
    })
}

fn generic(s: &str, args: Vec<RustType>) -> RustType {
    RustType::Path(TypePath {
        leading_colon: false,
        segments: vec![PathSegment {
            ident: s.to_string(),
            arguments: PathArguments::AngleBracketed(args.into_iter().map(GenericArgument::Type).collect()),
        }],
    })
}

fn field(n: &str, ty: RustType, opts: Vec<AttrOption>) -> FieldDecl {
    let attrs = if opts.is_empty() { vec![] } else { vec![Attr(opts)] };
    FieldDecl { ident: Some(n.to_string()), ty, attrs }
}

fn record(fields: Vec<FieldDecl>) -> StructDecl {
    StructDecl { ident: "Record".to_string(), type_params: 0, fields }
}

fn list_utf8() -> DataType {
    DataType::List(Box::new(DataType::Utf8))
}

#[test]
fn test_schema() {
    let decl = record(vec![
        field("location", name("Url"), vec![
            AttrOption::Into(name("String")),
            AttrOption::TryFrom { borrow: true },
        ]),
        field("hrefs", generic("Vec", vec![name("Url")]), vec![
            AttrOption::Dtype(list_utf8()),
            AttrOption::SerializeWith { fun: "convert_list".to_string(), borrow: false },
            AttrOption::DeserializeWith { fun: "deserialize_url_list".to_string(), borrow: false },
        ]),
        field("blob", generic("Vec", vec![name("u8")]), vec![]),
        field("time", name("NaiveDateTime"), vec![]),
    ]);
    let schema = Template::parse(decl).unwrap().schema();
    let get = |n: &str| schema.iter().find(|f| f.name == n).unwrap().dtype.copy();
    assert_eq!(get("location"), DataType::Utf8);
    // A sequence of bytes is a list of its element type.
    assert_eq!(get("blob"), DataType::List(Box::new(DataType::UInt8)));
    assert_eq!(get("time"), DataType::Datetime(TimeUnit::Milliseconds, None));
}

#[test]
fn schema_keeps_declaration_order() {
    let decl = record(vec![
        field("c", name("u8"), vec![]),
        field("a", name("String"), vec![]),
        field("b", generic("Option", vec![name("i64")]), vec![]),
    ]);
    let t = Template::parse(decl).unwrap();
    let schema = t.schema();
    assert_eq!(
        schema,
        vec![
            Field { name: "c".to_string(), dtype: DataType::UInt8 },
            Field { name: "a".to_string(), dtype: DataType::Utf8 },
            Field { name: "b".to_string(), dtype: DataType::Int64 },
        ]
    );
    assert!(!t.fields[0].optional);
    assert!(t.fields[2].optional);
}

#[test]
fn tuple_struct_fields_are_named_by_position() {
    let decl = StructDecl {
        ident: "Pair".to_string(),
        type_params: 0,
        fields: vec![
            FieldDecl { ident: None, ty: name("u32"), attrs: vec![] },
            FieldDecl { ident: None, ty: name("bool"), attrs: vec![] },
        ],
    };
    let t = Template::parse(decl).unwrap();
    assert_eq!(t.fields[0].name, "0");
    assert_eq!(t.fields[1].name, "1");
    assert_eq!(t.fields[1].dtype, DataType::Boolean);
}

#[test]
fn scenario_id_and_optional_tags() {
    let decl = record(vec![
        field("id", name("u32"), vec![]),
        field("tags", generic("Option", vec![generic("Vec", vec![name("String")])]), vec![]),
    ]);
    let t = Template::parse(decl).unwrap();
    assert_eq!(t.fields[0].dtype, DataType::UInt32);
    assert!(!t.fields[0].optional);
    assert_eq!(t.fields[1].dtype, list_utf8());
    assert!(t.fields[1].optional);
}

#[test]
fn custom_encoding_with_explicit_type_is_accepted() {
    let decl = record(vec![field("hrefs", generic("Vec", vec![name("T")]), vec![
        AttrOption::Dtype(list_utf8()),
        AttrOption::SerializeWith { fun: "to_text".to_string(), borrow: true },
    ])]);
    let t = Template::parse(decl).unwrap();
    assert_eq!(t.fields[0].dtype, list_utf8());
    assert_eq!(
        t.fields[0].convert_into,
        Some(ConvertInto::Custom { fun: "to_text".to_string(), borrow: true })
    );
}

#[test]
fn custom_encoding_without_explicit_type_is_rejected() {
    let decl = record(vec![field("hrefs", generic("Vec", vec![name("T")]), vec![
        AttrOption::SerializeWith { fun: "to_text".to_string(), borrow: true },
    ])]);
    assert_eq!(Template::parse(decl), Err(ConfigError::CustomNeedsDtype));
}

#[test]
fn conversion_target_decides_the_type() {
    let decl = record(vec![field("location", name("Url"), vec![
        AttrOption::AsRef(name("str")),
        AttrOption::TryFrom { borrow: false },
    ])]);
    let t = Template::parse(decl).unwrap();
    assert_eq!(t.fields[0].dtype, DataType::Utf8);
    assert_eq!(t.fields[0].convert_from, Some(ConvertFrom::TryFrom { borrow: false }));
    assert_eq!(t.fields[0].ty, name("Url"));
}

#[test]
fn explicit_optional_overrides() {
    let decl = record(vec![
        field("a", name("u8"), vec![AttrOption::Optional(true)]),
        field("b", name("Blob"), vec![AttrOption::Dtype(DataType::Binary)]),
        field("c", generic("Option", vec![name("u8")]), vec![AttrOption::Optional(false)]),
    ]);
    let t = Template::parse(decl).unwrap();
    assert!(t.fields[0].optional);
    assert!(!t.fields[1].optional);
    assert_eq!(t.fields[1].dtype, DataType::Binary);
    assert!(!t.fields[2].optional);
}

#[test]
fn duplicate_options_are_rejected() {
    let two_encoders = record(vec![field("a", name("u8"), vec![
        AttrOption::Into(name("u16")),
        AttrOption::AsRef(name("u8")),
    ])]);
    assert_eq!(Template::parse(two_encoders), Err(ConfigError::DuplicateOption));
    let two_decoders = FieldDecl {
        ident: Some("a".to_string()),
        ty: name("u8"),
        attrs: vec![
            Attr(vec![AttrOption::TryFrom { borrow: false }]),
            Attr(vec![AttrOption::DeserializeWith { fun: "f".to_string(), borrow: false }]),
        ],
    };
    assert_eq!(Template::parse(record(vec![two_decoders])), Err(ConfigError::DuplicateOption));
}

#[test]
fn generic_records_are_rejected() {
    let decl = StructDecl { ident: "G".to_string(), type_params: 1, fields: vec![] };
    assert_eq!(Template::parse(decl), Err(ConfigError::GenericParameters));
}

#[test]
fn first_failing_field_decides() {
    let decl = record(vec![
        field("ok", name("u8"), vec![]),
        field("bad", name("Url"), vec![]),
        field("worse", name("Option"), vec![]),
    ]);
    assert_eq!(Template::parse(decl), Err(ConfigError::UnknownType));
}

#[test]
fn option_parsing() {
    assert_eq!(value_kind("into"), Some(ValueKind::Type));
    assert_eq!(value_kind("dtype"), Some(ValueKind::Expr));
    assert_eq!(value_kind("optional"), Some(ValueKind::Bool));
    assert_eq!(value_kind("serialize_with_borrow"), Some(ValueKind::Path));
    assert_eq!(value_kind("try_from"), Some(ValueKind::Empty));
    assert_eq!(value_kind("rename"), None);
    assert_eq!(
        AttrOption::parse("dtype", OptionValue::Expr(DtypeExpr::Ident("UInt16".to_string()))),
        Ok(AttrOption::Dtype(DataType::UInt16))
    );
    assert_eq!(
        AttrOption::parse("dtype", OptionValue::Expr(DtypeExpr::Ident("Text".to_string()))),
        Err(ConfigError::InvalidDtype)
    );
    assert_eq!(
        AttrOption::parse("try_from_borrow", OptionValue::Empty),
        Ok(AttrOption::TryFrom { borrow: true })
    );
    assert_eq!(
        AttrOption::parse("deserialize_with", OptionValue::Path("parse".to_string())),
        Ok(AttrOption::DeserializeWith { fun: "parse".to_string(), borrow: false })
    );
    assert_eq!(AttrOption::parse("optional", OptionValue::Bool(true)), Ok(AttrOption::Optional(true)));
    assert_eq!(
        AttrOption::parse("optional", OptionValue::Empty),
        Err(ConfigError::InvalidAttributeParameter)
    );
    assert_eq!(
        AttrOption::parse("rename", OptionValue::Path("x".to_string())),
        Err(ConfigError::InvalidAttributeParameter)
    );
}

#[test]
fn rendering_types() {
    assert_eq!(
        dtype_to_expr(&list_utf8()),
        Some(
            "::polars_derive::dtype::DataType::List(::std::boxed::Box::new(::polars_derive::dtype::DataType::Utf8))"
                .to_string()
        )
    );
    assert_eq!(
        dtype_to_expr(&DataType::Datetime(TimeUnit::Milliseconds, None)),
        Some(
            "::polars_derive::dtype::DataType::Datetime(::polars_derive::dtype::TimeUnit::Milliseconds, None)"
                .to_string()
        )
    );
    assert_eq!(
        dtype_to_expr(&DataType::Datetime(TimeUnit::Nanoseconds, Some("a\"b\\c".to_string()))),
        Some(
            "::polars_derive::dtype::DataType::Datetime(::polars_derive::dtype::TimeUnit::Nanoseconds, Some(::std::string::String::from(\"a\\\"b\\\\c\")))"
                .to_string()
        )
    );
    assert_eq!(dtype_to_expr(&DataType::Struct(vec![])), None);
    assert_eq!(
        dtype_to_expr(&DataType::List(Box::new(DataType::Struct(vec![])))),
        None
    );
    assert_eq!(time_unit_to_expr(TimeUnit::Microseconds), "::polars_derive::dtype::TimeUnit::Microseconds");
}

#[test]
fn unstorable_types_are_rejected_when_resolving() {
    let tuple = record(vec![field("pair", RustType::Tuple(vec![name("u32")]), vec![])]);
    assert_eq!(Template::parse(tuple), Err(ConfigError::UnsupportedType));
    let null = record(vec![field("n", name("u8"), vec![AttrOption::Dtype(DataType::Null)])]);
    assert_eq!(Template::parse(null), Err(ConfigError::UnsupportedType));
    let nested = record(vec![field(
        "n",
        generic("Vec", vec![RustType::Tuple(vec![])]),
        vec![],
    )]);
    assert_eq!(Template::parse(nested), Err(ConfigError::UnsupportedType));
}
