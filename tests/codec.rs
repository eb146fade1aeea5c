use polars_derive::codec::{decode, decode_values, encode, encode_values, ConversionError, Series};
use polars_derive::dtype::DataType;
use polars_derive::options::{Attr, AttrOption};
use polars_derive::rtype::{GenericArgument, PathArguments, PathSegment, RustType, TypePath};
use polars_derive::template::{FieldDecl, StructDecl, Template};
use polars_derive::value::Value;

fn name(s: &str) -> RustType {
    RustType::Path(TypePath {
        leading_colon: false,
        segments: vec![PathSegment { ident: s.to_string(), arguments: PathArguments::Empty }],
    })
}

fn generic(s: &str, args: Vec<RustType>) -> RustType {
    RustType::Path(TypePath {
        leading_colon: false,
        segments: vec![PathSegment {
            ident: s.to_string(),
            arguments: PathArguments::AngleBracketed(args.into_iter().map(GenericArgument::Type).collect()),
        }],
    })
}

fn field(n: &str, ty: RustType, opts: Vec<AttrOption>) -> FieldDecl {
    let attrs = if opts.is_empty() { vec![] } else { vec![Attr(opts)] };
    FieldDecl { ident: Some(n.to_string()), ty, attrs }
}

fn template(fields: Vec<FieldDecl>) -> Template {
    Template::parse(StructDecl { ident: "Record".to_string(), type_params: 0, fields }).unwrap()
}

fn text(s: &str) -> Value {
    Value::Text(s.to_string())
}

fn texts(items: &[&str]) -> Value {
    Value::List(items.iter().map(|s| text(s)).collect())
}

fn id_and_tags() -> Template {
    template(vec![
        field("id", name("u32"), vec![]),
        field("tags", generic("Option", vec![generic("Vec", vec![name("String")])]), vec![]),
    ])
}

fn same(_: usize, v: Value) -> Result<Value, String> {
    Ok(v)
}

fn copy_rows(rows: &[Vec<Value>]) -> Vec<Vec<Value>> {
    rows.iter().map(|r| r.iter().map(|v| v.copy()).collect()).collect()
}

#[test]
fn scenario_optional_tags_round_trip() {
    let t = id_and_tags();
    let rows = vec![
        vec![Value::UInt(1), Value::Null],
        vec![Value::UInt(2), texts(&["x"])],
    ];
    let cols = encode(&t, copy_rows(&rows), &same).unwrap();
    assert_eq!(cols.len(), 2);
    assert_eq!(cols[0].name, "id");
    assert_eq!(cols[0].dtype, DataType::UInt32);
    assert_eq!(cols[0].values, vec![Value::UInt(1), Value::UInt(2)]);
    assert_eq!(cols[1].name, "tags");
    assert_eq!(cols[1].values, vec![Value::Null, texts(&["x"])]);
    let back = decode(&t, &cols, &same).unwrap();
    assert_eq!(back, rows);
}

#[test]
fn list_of_strings_round_trip() {
    let t = template(vec![field("words", generic("Vec", vec![name("String")]), vec![])]);
    let cols = encode_values(&t, &vec![vec![texts(&["a", "b"])]]).unwrap();
    assert_eq!(cols[0].dtype, DataType::List(Box::new(DataType::Utf8)));
    let back = decode_values(&t, &cols).unwrap();
    assert_eq!(back, vec![vec![texts(&["a", "b"])]]);
}

#[test]
fn absent_optional_value_round_trips() {
    let t = template(vec![field("n", name("u8"), vec![AttrOption::Optional(true)])]);
    let cols = encode_values(&t, &vec![vec![Value::Null]]).unwrap();
    assert_eq!(cols[0].values, vec![Value::Null]);
    assert_eq!(decode_values(&t, &cols), Ok(vec![vec![Value::Null]]));
}

#[test]
fn columns_follow_field_order() {
    let t = template(vec![
        field("z", name("bool"), vec![]),
        field("a", name("i8"), vec![]),
        field("m", name("String"), vec![]),
    ]);
    let rows = vec![vec![Value::Boolean(true), Value::Int(-3), text("q")]];
    let cols = encode_values(&t, &rows).unwrap();
    let names: Vec<&str> = cols.iter().map(|c| c.name.as_str()).collect();
    assert_eq!(names, vec!["z", "a", "m"]);
    // Columns given in another order are matched by name.
    let mut reversed = cols;
    reversed.reverse();
    assert_eq!(decode_values(&t, &reversed), Ok(rows));
}

#[test]
fn missing_required_value_is_an_error() {
    let t = id_and_tags();
    let cols = vec![
        Series { name: "id".to_string(), dtype: DataType::UInt32, values: vec![Value::Null] },
        Series {
            name: "tags".to_string(),
            dtype: DataType::List(Box::new(DataType::Utf8)),
            values: vec![Value::Null],
        },
    ];
    assert_eq!(
        decode_values(&t, &cols),
        Err(ConversionError::MissingData { field: "id".to_string() })
    );
}

#[test]
fn entry_of_wrong_type_is_an_error() {
    let t = id_and_tags();
    let cols = vec![
        Series { name: "id".to_string(), dtype: DataType::UInt32, values: vec![Value::UInt(1 << 40)] },
        Series {
            name: "tags".to_string(),
            dtype: DataType::List(Box::new(DataType::Utf8)),
            values: vec![Value::Null],
        },
    ];
    assert_eq!(
        decode_values(&t, &cols),
        Err(ConversionError::Mismatch { field: "id".to_string() })
    );
    let rows = vec![vec![Value::UInt(3), Value::List(vec![Value::Null])]];
    assert_eq!(
        encode_values(&t, &rows),
        Err(ConversionError::Mismatch { field: "tags".to_string() })
    );
}

#[test]
fn missing_column_is_an_error() {
    let t = id_and_tags();
    let cols = vec![Series { name: "id".to_string(), dtype: DataType::UInt32, values: vec![] }];
    assert_eq!(
        decode_values(&t, &cols),
        Err(ConversionError::MissingColumn { field: "tags".to_string() })
    );
}

#[test]
fn row_of_wrong_length_is_an_error() {
    let t = id_and_tags();
    let rows = vec![vec![Value::UInt(1), Value::Null], vec![Value::UInt(2)]];
    assert_eq!(encode_values(&t, &rows), Err(ConversionError::RowLength { row: 1 }));
}

#[test]
fn decoding_stops_at_the_shortest_column() {
    let t = id_and_tags();
    let cols = vec![
        Series {
            name: "id".to_string(),
            dtype: DataType::UInt32,
            values: vec![Value::UInt(1), Value::UInt(2), Value::UInt(3)],
        },
        Series {
            name: "tags".to_string(),
            dtype: DataType::List(Box::new(DataType::Utf8)),
            values: vec![Value::Null],
        },
    ];
    assert_eq!(decode_values(&t, &cols), Ok(vec![vec![Value::UInt(1), Value::Null]]));
}

#[test]
fn empty_input_gives_empty_columns() {
    let t = id_and_tags();
    let cols = encode_values(&t, &vec![]).unwrap();
    assert_eq!(cols.len(), 2);
    assert!(cols[0].values.is_empty());
    assert_eq!(decode_values(&t, &cols), Ok(vec![]));
}

#[test]
fn record_without_fields_decodes_to_no_rows() {
    let t = template(vec![]);
    assert_eq!(decode_values(&t, &vec![]), Ok(vec![]));
}

#[test]
fn custom_decode_failure_fails_the_whole_call() {
    let t = template(vec![
        field("id", name("u32"), vec![]),
        field("link", name("String"), vec![AttrOption::DeserializeWith { fun: "parse".to_string(), borrow: false }]),
    ]);
    let cols = encode_values(
        &t,
        &vec![vec![Value::UInt(1), text("https://a.example")], vec![Value::UInt(2), text("nonsense")]],
    )
    .unwrap();
    let parse = |_: usize, v: Value| match v {
        Value::Text(s) if s.starts_with("https://") => Ok(Value::Text(s)),
        _ => Err("relative URL without a base".to_string()),
    };
    assert_eq!(
        decode(&t, &cols, &parse),
        Err(ConversionError::Custom {
            field: "link".to_string(),
            message: "relative URL without a base".to_string()
        })
    );
}

#[test]
fn conversions_apply_only_to_their_fields() {
    let t = template(vec![
        field("n", name("u8"), vec![]),
        field("label", name("Label"), vec![
            AttrOption::Into(name("String")),
            AttrOption::TryFrom { borrow: false },
        ]),
    ]);
    let upper = |j: usize, v: Value| {
        assert_eq!(j, 1);
        match v {
            Value::Text(s) => Ok(Value::Text(s.to_uppercase())),
            _ => Err("not text".to_string()),
        }
    };
    let cols = encode(&t, vec![vec![Value::UInt(4), text("ab")]], &upper).unwrap();
    assert_eq!(cols[0].values, vec![Value::UInt(4)]);
    assert_eq!(cols[1].values, vec![text("AB")]);
    let lower = |_: usize, v: Value| match v {
        Value::Text(s) => Ok(Value::Text(s.to_lowercase())),
        _ => Err("not text".to_string()),
    };
    assert_eq!(decode(&t, &cols, &lower), Ok(vec![vec![Value::UInt(4), text("ab")]]));
}

#[test]
fn custom_encode_failure_names_the_field() {
    let t = template(vec![field("v", name("Thing"), vec![
        AttrOption::Dtype(DataType::Utf8),
        AttrOption::SerializeWith { fun: "render".to_string(), borrow: true },
    ])]);
    let fail = |_: usize, _: Value| -> Result<Value, String> { Err("cannot render".to_string()) };
    assert_eq!(
        encode(&t, vec![vec![Value::Int(1)]], &fail),
        Err(ConversionError::Custom { field: "v".to_string(), message: "cannot render".to_string() })
    );
}

#[test]
fn integer_widths_are_checked() {
    let t = template(vec![field("b", name("u8"), vec![]), field("s", name("i16"), vec![])]);
    assert!(encode_values(&t, &vec![vec![Value::UInt(255), Value::Int(-32768)]]).is_ok());
    assert_eq!(
        encode_values(&t, &vec![vec![Value::UInt(256), Value::Int(0)]]),
        Err(ConversionError::Mismatch { field: "b".to_string() })
    );
    assert_eq!(
        encode_values(&t, &vec![vec![Value::UInt(0), Value::Int(40000)]]),
        Err(ConversionError::Mismatch { field: "s".to_string() })
    );
}

#[test]
fn test_read_write() {
    let url = "https://ditto.fyi/interior-crocodile-alligator";
    let t = template(vec![
        field("location", name("Url"), vec![
            AttrOption::Into(name("String")),
            AttrOption::TryFrom { borrow: true },
        ]),
        field("hrefs", generic("Vec", vec![name("Url")]), vec![
            AttrOption::Dtype(DataType::List(Box::new(DataType::Utf8))),
            AttrOption::SerializeWith { fun: "convert_list".to_string(), borrow: false },
            AttrOption::DeserializeWith { fun: "deserialize_url_list".to_string(), borrow: false },
        ]),
        field("blob", generic("Vec", vec![name("u8")]), vec![]),
        field("time", name("NaiveDateTime"), vec![]),
    ]);
    let blob = Value::List(vec![23u64, 24, 25, 28].into_iter().map(Value::UInt).collect());
    let item = vec![text(url), texts(&[url, url]), blob, Value::Int(1_700_000_000_000)];
    let check = |_: usize, v: Value| -> Result<Value, String> {
        fn valid(v: &Value) -> bool {
            match v {
                Value::Text(s) => s.starts_with("https://"),
                Value::List(items) => items.iter().all(valid),
                _ => false,
            }
        }
        if valid(&v) { Ok(v) } else { Err("invalid URL".to_string()) }
    };
    let df = encode(&t, copy_rows(&[item]), &check).unwrap();
    let list = decode(&t, &df, &check).unwrap();
    assert_eq!(list.len(), 1);
    let item = vec![
        text(url),
        texts(&[url, url]),
        Value::List(vec![23u64, 24, 25, 28].into_iter().map(Value::UInt).collect()),
        Value::Int(1_700_000_000_000),
    ];
    assert_eq!(item, list[0]);
}

#[test]
fn column_of_another_type_is_an_error() {
    let t = template(vec![field("day", name("i32"), vec![AttrOption::Dtype(DataType::Date)])]);
    let cols = vec![Series { name: "day".to_string(), dtype: DataType::Int32, values: vec![Value::Int(3)] }];
    assert_eq!(
        decode_values(&t, &cols),
        Err(ConversionError::Mismatch { field: "day".to_string() })
    );
    let good = vec![Series { name: "day".to_string(), dtype: DataType::Date, values: vec![Value::Int(3)] }];
    assert_eq!(decode_values(&t, &good), Ok(vec![vec![Value::Int(3)]]));
}

#[test]
fn extra_and_reordered_columns_are_ignored() {
    let t = id_and_tags();
    let rows = vec![vec![Value::UInt(7), texts(&["a"])]];
    let mut cols = encode_values(&t, &rows).unwrap();
    cols.insert(0, Series { name: "other".to_string(), dtype: DataType::Boolean, values: vec![] });
    cols.reverse();
    assert_eq!(decode_values(&t, &cols), Ok(rows));
}

#[test]
fn failing_field_is_named_when_others_convert() {
    let t = template(vec![
        field("a", name("String"), vec![AttrOption::TryFrom { borrow: false }]),
        field("b", name("String"), vec![AttrOption::TryFrom { borrow: false }]),
    ]);
    let cols = encode_values(&t, &vec![vec![text("ok"), text("bad")]]).unwrap();
    let only_b_fails = |j: usize, v: Value| if j == 1 { Err("b is wrong".to_string()) } else { Ok(v) };
    assert_eq!(
        decode(&t, &cols, &only_b_fails),
        Err(ConversionError::Custom { field: "b".to_string(), message: "b is wrong".to_string() })
    );
}
