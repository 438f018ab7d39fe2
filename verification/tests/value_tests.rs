use typescript::error::TsError;
use typescript::ffi::value::{
    get_array_element, get_object_property, set_array_element, set_object_property, throw_error, ts_value_to_napi, Value,
};

fn obj() -> Value {
    Value::Object(vec![
        ("a".to_string(), Value::Number(1f64.to_bits())),
        ("b".to_string(), Value::Boolean(true)),
        ("a".to_string(), Value::Null),
    ])
}

fn num_of(v: &Value) -> Option<f64> {
    match v {
        Value::Number(b) => Some(f64::from_bits(*b)),
        _ => None,
    }
}

#[test]
fn get_property_finds_the_first_of_a_name() {
    let v = get_object_property(&obj(), "a").unwrap();
    assert_eq!(num_of(&v), Some(1.0));
    match get_object_property(&obj(), "zz") {
        Err(TsError::ReferenceError(m)) => assert_eq!(m, "Property 'zz' not found"),
        _ => panic!("expected a reference error"),
    }
    match get_object_property(&Value::Null, "a") {
        Err(TsError::TypeError(m)) => assert_eq!(m, "Expected object"),
        _ => panic!("expected a type error"),
    }
}

#[test]
fn set_property_replaces_or_appends() {
    let updated = set_object_property(&obj(), "a", Value::String("x".to_string())).unwrap();
    match &updated {
        Value::Object(props) => {
            assert_eq!(props.len(), 3);
            assert!(matches!(&props[0], (k, Value::String(s)) if k == "a" && s == "x"));
            assert!(matches!(&props[2], (k, Value::Null) if k == "a"));
        },
        _ => panic!("expected an object"),
    }
    let added = set_object_property(&obj(), "c", Value::Undefined).unwrap();
    match &added {
        Value::Object(props) => {
            assert_eq!(props.len(), 4);
            assert!(matches!(&props[3], (k, Value::Undefined) if k == "c"));
        },
        _ => panic!("expected an object"),
    }
    // reading back what was written
    let back = get_object_property(&added, "c").unwrap();
    assert!(matches!(back, Value::Undefined));
    assert!(matches!(set_object_property(&Value::Array(vec![]), "a", Value::Null), Err(TsError::TypeError(_))));
}

#[test]
fn array_elements_by_index() {
    let arr = Value::Array(vec![Value::Number(5f64.to_bits()), Value::Null]);
    assert_eq!(num_of(&get_array_element(&arr, 0).unwrap()), Some(5.0));
    match get_array_element(&arr, 12) {
        Err(TsError::RangeError(m)) => assert_eq!(m, "Index 12 out of bounds"),
        _ => panic!("expected a range error"),
    }
    let updated = set_array_element(&arr, 1, Value::Boolean(false)).unwrap();
    assert!(matches!(get_array_element(&updated, 1), Ok(Value::Boolean(false))));
    match set_array_element(&arr, 2, Value::Null) {
        Err(TsError::RangeError(m)) => assert_eq!(m, "Index 2 out of bounds"),
        _ => panic!("expected a range error"),
    }
    assert!(matches!(get_array_element(&Value::Null, 0), Err(TsError::TypeError(m)) if m == "Expected array"));
}

#[test]
fn only_errors_fail_at_the_native_boundary() {
    assert!(ts_value_to_napi(&obj()).is_ok());
    assert!(ts_value_to_napi(&Value::Union(vec![])).is_ok());
    match ts_value_to_napi(&Value::Union(vec![Value::Error("bad".to_string()), Value::Null])) {
        Err(TsError::Other(m)) => assert_eq!(m, "bad"),
        _ => panic!("expected an error"),
    }
    assert!(ts_value_to_napi(&Value::Union(vec![Value::Null, Value::Error("bad".to_string())])).is_ok());
}

#[test]
fn throw_error_uses_the_message() {
    let r = throw_error(&[Value::String("boom".to_string()), Value::Null]);
    assert!(matches!(r, Err(TsError::Other(ref m)) if m == "boom"));
}

#[test]
fn throw_error_without_a_message() {
    let r = throw_error(&[]);
    assert!(matches!(r, Err(TsError::TypeError(ref m)) if m == "Expected error message"));
    let r = throw_error(&[Value::Null]);
    assert!(matches!(r, Err(TsError::TypeError(ref m)) if m == "Expected error message"));
}
