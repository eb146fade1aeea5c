use polars_derive::marshal::{FromValue, ToValue};
use polars_derive::value::Value;

#[test]
fn scalars_are_stored_as_values() {
    assert_eq!(5u8.to_value(), Value::UInt(5));
    assert_eq!((-7i16).to_value(), Value::Int(-7));
    assert_eq!(true.to_value(), Value::Boolean(true));
    assert_eq!("hi".to_string().to_value(), Value::Text("hi".to_string()));
    assert_eq!(None::<u32>.to_value(), Value::Null);
    assert_eq!(
        vec![1u64, 2].to_value(),
        Value::List(vec![Value::UInt(1), Value::UInt(2)])
    );
}

#[test]
fn values_are_read_back() {
    assert_eq!(u8::from_value(Value::UInt(255)), Some(255));
    assert_eq!(u8::from_value(Value::UInt(256)), None);
    assert_eq!(i8::from_value(Value::Int(-129)), None);
    assert_eq!(i32::from_value(Value::Int(-5)), Some(-5));
    assert_eq!(String::from_value(Value::UInt(1)), None);
    assert_eq!(Option::<u16>::from_value(Value::Null), Some(None));
    assert_eq!(Option::<u16>::from_value(Value::UInt(9)), Some(Some(9)));
    let tags = Value::List(vec![Value::Text("x".to_string()), Value::Text("y".to_string())]);
    assert_eq!(
        Option::<Vec<String>>::from_value(tags),
        Some(Some(vec!["x".to_string(), "y".to_string()]))
    );
    assert_eq!(Vec::<u8>::from_value(Value::List(vec![Value::UInt(1), Value::Int(2)])), None);
}
