use connectorx::errors::{CxError, ErrKind};
use connectorx::types::{
    check_value, parse_external_type, parse_schema_types, DataType, PandasDType, Value,
};

fn all_types() -> Vec<DataType> {
    vec![
        DataType::U64(false),
        DataType::U64(true),
        DataType::F64(false),
        DataType::F64(true),
        DataType::Bool(false),
        DataType::Bool(true),
        DataType::Str(false),
        DataType::Str(true),
    ]
}

#[test]
fn dtype_names_cover_all_kinds() {
    assert_eq!(DataType::U64(false).dtype(), "uint64");
    assert_eq!(DataType::U64(true).dtype(), "UInt64");
    assert_eq!(DataType::F64(false).dtype(), "float64");
    assert_eq!(DataType::F64(true).dtype(), "Float64");
    assert_eq!(DataType::Bool(false).dtype(), "bool");
    assert_eq!(DataType::Bool(true).dtype(), "boolean");
    assert_eq!(DataType::Str(false).dtype(), "object");
    assert_eq!(DataType::Str(true).dtype(), "string");
}

#[test]
fn nullable_types_round_trip_through_the_name() {
    for dt in [
        DataType::U64(true),
        DataType::F64(true),
        DataType::Bool(true),
        DataType::Str(true),
    ] {
        let parsed = parse_external_type(dt.dtype()).unwrap();
        assert_eq!(parsed, dt);
        assert!(parsed.is_nullable());
    }
}

#[test]
fn every_type_round_trips_through_the_name() {
    for dt in all_types() {
        assert_eq!(parse_external_type(dt.dtype()).unwrap(), dt);
    }
}

#[test]
fn type_names_are_injective() {
    let types = all_types();
    for (i, a) in types.iter().enumerate() {
        for (j, b) in types.iter().enumerate() {
            if i != j {
                assert_ne!(a.dtype(), b.dtype());
            }
        }
    }
}

#[test]
fn unknown_type_name_is_rejected() {
    match parse_external_type("int32") {
        Err(CxError::UnknownPandasType(s)) => assert_eq!(s, "int32"),
        _ => panic!("expected an unknown-type error"),
    }
}

#[test]
fn schema_type_list_parses_elementwise() {
    let names = vec!["uint64".to_string(), "boolean".to_string()];
    let parsed = parse_schema_types(&names).unwrap();
    assert_eq!(parsed, vec![DataType::U64(false), DataType::Bool(true)]);

    let bad = vec!["uint64".to_string(), "int32".to_string()];
    let err = parse_schema_types(&bad).unwrap_err();
    assert_eq!(err.kind_exec(), ErrKind::UnknownType);
}

#[test]
fn value_matching_respects_kind_and_nullability() {
    assert!(check_value(&DataType::U64(false), &Value::U64(3)));
    assert!(check_value(&DataType::U64(true), &Value::Null));
    assert!(!check_value(&DataType::U64(false), &Value::Null));
    assert!(!check_value(&DataType::U64(false), &Value::Bool(true)));
    assert!(check_value(&DataType::Str(true), &Value::Str("x".to_string())));
    assert!(check_value(&DataType::F64(false), &Value::F64Bits(1.5f64.to_bits())));
    assert!(!check_value(&DataType::F64(false), &Value::U64(1)));
}

#[test]
fn error_messages_carry_the_payload() {
    assert_eq!(
        CxError::ParseError("bad url".to_string()).message(),
        "url parse error: bad url"
    );
    assert_eq!(
        CxError::UnknownPandasType("int32".to_string()).message(),
        "unknown pandas data type: int32"
    );
    assert_eq!(
        CxError::FileNotFoundError("a/b.jar".to_string()).message(),
        "file not found: a/b.jar"
    );
    assert_eq!(CxError::ConnectionError("refused".to_string()).message(), "connection error: refused");
}
