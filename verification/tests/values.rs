use enoki::convert::{conversion, signed_decimal_string, Conversion, Converted};
use enoki::datalog_value::{from_datalog, to_datalog, DataLogType, DataLogValue};
use enoki::error::EnokiError;
use enoki::json::{
    from_json, from_json_as, stamped_from_json, stamped_to_json, tag_from_name, to_json,
    JsonScalar, JsonValue, StampedJson,
};
use enoki::key::EnokiKey;
use enoki::nt_types::{wire_type, NtType};
use enoki::object::TimestampedEnokiValue;
use enoki::value::{EnokiValue, TypeTag};
use enoki::wire::{from_wire, saturate_unsigned, to_wire, WireScalar, WireValue};

fn samples() -> Vec<EnokiValue> {
    vec![
        EnokiValue::ByteArray(vec![1, 2, 255]),
        EnokiValue::ByteArray(vec![]),
        EnokiValue::Float(1.5f32.to_bits()),
        EnokiValue::FloatArray(vec![0.25f32.to_bits(), (-3.0f32).to_bits()]),
        EnokiValue::Double(2.5f64.to_bits()),
        EnokiValue::DoubleArray(vec![1.0f64.to_bits(), f64::MAX.to_bits()]),
        EnokiValue::Int(-7),
        EnokiValue::IntArray(vec![i64::MIN, 0, i64::MAX]),
        EnokiValue::String("he said \"hi\"".to_string()),
        EnokiValue::StringArray(vec!["a".to_string(), "".to_string(), "\u{e9}t\u{e9}".to_string()]),
        EnokiValue::Boolean(true),
        EnokiValue::BooleanArray(vec![true, false]),
    ]
}

#[test]
fn a_key_and_a_value_make_the_trip() {
    let key = EnokiKey::parse("a:b/c");
    assert_eq!(key.to_path_string(), "a/b/c");
    let value = EnokiValue::Int(7);
    assert_eq!(from_wire(wire_type(&value), &to_wire(&value)), Ok(value));
}

#[test]
fn wire_roundtrip_gives_the_value_back() {
    for v in samples() {
        assert_eq!(from_wire(wire_type(&v), &to_wire(&v)), Ok(v.clone()));
    }
}

#[test]
fn wire_roundtrip_of_protobuf_gives_protobuf() {
    let v = EnokiValue::Protobuf(vec![9, 8, 7]);
    assert_eq!(wire_type(&v), NtType::ProtoBuf);
    assert_eq!(to_wire(&v), WireValue::Scalar(WireScalar::Binary(vec![9, 8, 7])));
    assert_eq!(from_wire(wire_type(&v), &to_wire(&v)), Ok(v.clone()));
    assert_eq!(from_wire(NtType::ProtoBuf, &to_wire(&v)), Ok(v));
    let empty = EnokiValue::Protobuf(vec![]);
    assert_eq!(from_wire(wire_type(&empty), &to_wire(&empty)), Ok(empty));
}

#[test]
fn the_topic_type_tells_only_binary_payloads_apart() {
    let bytes = WireValue::Scalar(WireScalar::Binary(vec![1, 2]));
    assert_eq!(from_wire(NtType::ProtoBuf, &bytes), Ok(EnokiValue::Protobuf(vec![1, 2])));
    for t in [NtType::Raw, NtType::Rpc, NtType::MsgPack, NtType::Json, NtType::Int] {
        assert_eq!(from_wire(t, &bytes), Ok(EnokiValue::ByteArray(vec![1, 2])));
    }
    let number = WireValue::Scalar(WireScalar::Integer(3));
    assert_eq!(from_wire(NtType::ProtoBuf, &number), Ok(EnokiValue::Int(3)));
    assert_eq!(from_wire(NtType::String, &number), Ok(EnokiValue::Int(3)));
    assert_eq!(
        from_wire(NtType::ProtoBuf, &WireValue::Array(vec![])),
        Ok(EnokiValue::DoubleArray(vec![]))
    );
}

#[test]
fn empty_array_canonicalization() {
    assert_eq!(from_wire(NtType::Raw, &WireValue::Array(vec![])), Ok(EnokiValue::DoubleArray(vec![])));
    assert_eq!(to_wire(&EnokiValue::DoubleArray(vec![])), WireValue::Array(vec![]));
    for v in [
        EnokiValue::FloatArray(vec![]),
        EnokiValue::IntArray(vec![]),
        EnokiValue::StringArray(vec![]),
        EnokiValue::BooleanArray(vec![]),
        EnokiValue::DoubleArray(vec![]),
    ] {
        assert_eq!(to_wire(&v), WireValue::Array(vec![]));
        assert_eq!(from_wire(wire_type(&v), &to_wire(&v)), Ok(EnokiValue::DoubleArray(vec![])));
    }
}

#[test]
fn to_wire_keeps_single_and_double_apart() {
    assert_eq!(
        to_wire(&EnokiValue::Float(1.5f32.to_bits())),
        WireValue::Scalar(WireScalar::F32(1.5f32.to_bits()))
    );
    assert_eq!(
        to_wire(&EnokiValue::Double(1.5f64.to_bits())),
        WireValue::Scalar(WireScalar::F64(1.5f64.to_bits()))
    );
    assert_eq!(
        to_wire(&EnokiValue::FloatArray(vec![7])),
        WireValue::Array(vec![WireScalar::F32(7)])
    );
}

#[test]
fn from_wire_rejects_a_mixed_array() {
    let mixed = WireValue::Array(vec![WireScalar::Integer(1), WireScalar::Boolean(true)]);
    assert_eq!(from_wire(NtType::Raw, &mixed), Err(EnokiError::TypeMismatch));
    let mixed = WireValue::Array(vec![WireScalar::F64(1), WireScalar::F32(1)]);
    assert_eq!(from_wire(NtType::Raw, &mixed), Err(EnokiError::TypeMismatch));
    let mixed = WireValue::Array(vec![WireScalar::String(vec![b'a']), WireScalar::Nil]);
    assert_eq!(from_wire(NtType::Raw, &mixed), Err(EnokiError::TypeMismatch));
}

#[test]
fn from_wire_rejects_what_is_no_value() {
    assert_eq!(from_wire(NtType::Raw, &WireValue::Scalar(WireScalar::Nil)), Err(EnokiError::TypeMismatch));
    assert_eq!(from_wire(NtType::Raw, &WireValue::Mapping), Err(EnokiError::TypeMismatch));
    assert_eq!(from_wire(NtType::Raw, &WireValue::Ext), Err(EnokiError::TypeMismatch));
    assert_eq!(
        from_wire(NtType::Raw, &WireValue::Array(vec![WireScalar::Container])),
        Err(EnokiError::TypeMismatch)
    );
    assert_eq!(
        from_wire(NtType::Raw, &WireValue::Array(vec![WireScalar::Binary(vec![1])])),
        Err(EnokiError::TypeMismatch)
    );
}

#[test]
fn from_wire_collapses_integers_and_saturates() {
    assert_eq!(from_wire(NtType::Raw, &WireValue::Scalar(WireScalar::Integer(-5))), Ok(EnokiValue::Int(-5)));
    assert_eq!(from_wire(NtType::Raw, &WireValue::Scalar(WireScalar::Unsigned(5))), Ok(EnokiValue::Int(5)));
    assert_eq!(
        from_wire(NtType::Raw, &WireValue::Scalar(WireScalar::Unsigned(u64::MAX))),
        Ok(EnokiValue::Int(i64::MAX))
    );
    assert_eq!(
        from_wire(NtType::Raw, &WireValue::Array(vec![
            WireScalar::Integer(-1),
            WireScalar::Unsigned(1u64 << 63),
            WireScalar::Unsigned(3),
        ])),
        Ok(EnokiValue::IntArray(vec![-1, i64::MAX, 3]))
    );
    assert_eq!(saturate_unsigned(i64::MAX as u64), i64::MAX);
    assert_eq!(saturate_unsigned(i64::MAX as u64 + 1), i64::MAX);
    assert_eq!(saturate_unsigned(0), 0);
}

#[test]
fn from_wire_reads_utf8_and_rejects_other_bytes() {
    let bytes = "h\u{e9}llo".as_bytes().to_vec();
    assert_ne!(bytes.len(), 5);
    assert_eq!(
        from_wire(NtType::Raw, &WireValue::Scalar(WireScalar::String(bytes))),
        Ok(EnokiValue::String("h\u{e9}llo".to_string()))
    );
    assert_eq!(
        from_wire(NtType::Raw, &WireValue::Scalar(WireScalar::String(vec![0xff, 0xfe]))),
        Err(EnokiError::TypeMismatch)
    );
    assert_eq!(
        from_wire(NtType::Raw, &WireValue::Array(vec![
            WireScalar::String(vec![b'o', b'k']),
            WireScalar::String(vec![0xc3]),
        ])),
        Err(EnokiError::TypeMismatch)
    );
    assert_eq!(
        from_wire(NtType::Raw, &WireValue::Array(vec![
            WireScalar::String(vec![b'o', b'k']),
            WireScalar::String(vec![]),
        ])),
        Ok(EnokiValue::StringArray(vec!["ok".to_string(), "".to_string()]))
    );
}

#[test]
fn binary_reads_as_bytes() {
    assert_eq!(
        from_wire(NtType::Raw, &WireValue::Scalar(WireScalar::Binary(vec![1, 2]))),
        Ok(EnokiValue::ByteArray(vec![1, 2]))
    );
}

#[test]
fn datalog_roundtrip_gives_the_value_back() {
    for v in samples() {
        let stored = to_datalog(v.clone()).unwrap();
        assert_eq!(from_datalog(stored), v);
    }
}

#[test]
fn datalog_stores_protobuf_as_raw() {
    let stored = to_datalog(EnokiValue::Protobuf(vec![4, 5])).unwrap();
    assert_eq!(stored, DataLogValue::Raw(vec![4, 5]));
    assert_eq!(from_datalog(stored), EnokiValue::ByteArray(vec![4, 5]));
}

#[test]
fn datalog_type_names() {
    let cases = [
        (EnokiValue::Boolean(true), "boolean", DataLogType::Boolean),
        (EnokiValue::Int(1), "int64", DataLogType::Integer),
        (EnokiValue::Float(0), "float", DataLogType::Float),
        (EnokiValue::Double(0), "double", DataLogType::Double),
        (EnokiValue::String("s".to_string()), "string", DataLogType::String),
        (EnokiValue::ByteArray(vec![]), "raw", DataLogType::Raw),
        (EnokiValue::Protobuf(vec![]), "raw", DataLogType::Raw),
        (EnokiValue::BooleanArray(vec![]), "boolean[]", DataLogType::BooleanArray),
        (EnokiValue::IntArray(vec![]), "int64[]", DataLogType::IntegerArray),
        (EnokiValue::FloatArray(vec![]), "float[]", DataLogType::FloatArray),
        (EnokiValue::DoubleArray(vec![]), "double[]", DataLogType::DoubleArray),
        (EnokiValue::StringArray(vec![]), "string[]", DataLogType::StringArray),
    ];
    for (v, name, tag) in cases {
        let stored = to_datalog(v).unwrap();
        assert_eq!(stored.get_data_type(), name);
        assert_eq!(stored.type_of(), tag);
        assert_eq!(tag.as_str(), name);
        assert!(stored.matches_type(&name.to_string()));
        assert!(!stored.matches_type(&"json".to_string()));
    }
}

#[test]
fn type_of_and_predicates() {
    let v = EnokiValue::IntArray(vec![1, 2, 3]);
    assert_eq!(v.type_of(), TypeTag::IntArray);
    assert_eq!(v.get_type(), "IntArray");
    assert!(v.is_numeric() && v.is_array() && !v.is_single());
    assert!(!v.is_binary() && !v.is_string() && !v.is_boolean());
    assert_eq!(v.get_len(), Some(3));
    assert_eq!(v.get_index(1), Some(EnokiValue::Int(2)));
    assert_eq!(v.get_index(3), None);
    let s = EnokiValue::String("x".to_string());
    assert!(s.is_string() && s.is_single() && !s.is_array());
    assert_eq!(s.get_len(), None);
    assert_eq!(s.get_index(0), None);
    let b = EnokiValue::Protobuf(vec![200]);
    assert!(b.is_binary() && b.is_array());
    assert_eq!(b.get_index(0), Some(EnokiValue::Int(200)));
    assert_eq!(EnokiValue::Boolean(false).get_type(), "Boolean");
    assert!(EnokiValue::BooleanArray(vec![]).is_boolean());
    assert_eq!(
        EnokiValue::StringArray(vec!["p".to_string(), "q".to_string()]).get_index(1),
        Some(EnokiValue::String("q".to_string()))
    );
    assert_eq!(EnokiValue::Float(3).get_type(), "Float");
    assert_eq!(EnokiValue::Double(3).duplicate(), EnokiValue::Double(3));
}

#[test]
fn expect_type_checks_the_type() {
    assert_eq!(EnokiValue::Int(1).expect_type(TypeTag::Int), Ok(EnokiValue::Int(1)));
    assert_eq!(EnokiValue::Int(1).expect_type(TypeTag::Double), Err(EnokiError::TypeMismatch));
}

#[test]
fn json_untyped() {
    assert_eq!(to_json(&EnokiValue::Int(3)), JsonValue::Scalar(JsonScalar::Int(3)));
    assert_eq!(
        to_json(&EnokiValue::ByteArray(vec![0, 255])),
        JsonValue::Array(vec![JsonScalar::Int(0), JsonScalar::Int(255)])
    );
    assert_eq!(
        from_json(&JsonValue::Scalar(JsonScalar::Null)),
        Ok(EnokiValue::DoubleArray(vec![]))
    );
    assert_eq!(from_json(&JsonValue::Array(vec![])), Ok(EnokiValue::DoubleArray(vec![])));
    assert_eq!(
        from_json(&JsonValue::Scalar(JsonScalar::UInt(u64::MAX))),
        Ok(EnokiValue::Int(i64::MAX))
    );
    assert_eq!(
        from_json(&JsonValue::Array(vec![JsonScalar::Double(1), JsonScalar::Double(2)])),
        Ok(EnokiValue::DoubleArray(vec![1, 2]))
    );
    assert_eq!(
        from_json(&JsonValue::Array(vec![JsonScalar::Double(1), JsonScalar::Int(2)])),
        Err(EnokiError::TypeMismatch)
    );
    assert_eq!(
        from_json(&JsonValue::Array(vec![JsonScalar::Nested])),
        Err(EnokiError::TypeMismatch)
    );
    assert_eq!(from_json(&JsonValue::Object), Err(EnokiError::TypeMismatch));
    assert_eq!(
        from_json(&JsonValue::Array(vec![
            JsonScalar::String("a".to_string()),
            JsonScalar::String("b".to_string()),
        ])),
        Ok(EnokiValue::StringArray(vec!["a".to_string(), "b".to_string()]))
    );
    assert_eq!(
        from_json(&JsonValue::Array(vec![JsonScalar::Bool(true)])),
        Ok(EnokiValue::BooleanArray(vec![true]))
    );
}

#[test]
fn json_typed_roundtrip() {
    let mut all = samples();
    all.push(EnokiValue::Protobuf(vec![1, 2]));
    all.push(EnokiValue::FloatArray(vec![]));
    all.push(EnokiValue::ByteArray(vec![]));
    for v in all {
        let stamped = TimestampedEnokiValue::new(42, v.clone());
        let json = stamped_to_json(&stamped);
        assert_eq!(json.kind, v.get_type());
        assert_eq!(json.timestamp, 42);
        assert_eq!(stamped_from_json(&json), Ok(stamped));
        assert_eq!(from_json_as(v.type_of(), &to_json(&v)), Ok(v));
    }
}

#[test]
fn json_typed_rejects() {
    let unknown = StampedJson {
        kind: "Complex".to_string(),
        value: JsonValue::Scalar(JsonScalar::Int(1)),
        timestamp: 1,
    };
    assert_eq!(stamped_from_json(&unknown), Err(EnokiError::TypeMismatch));
    let wrong = StampedJson {
        kind: "Boolean".to_string(),
        value: JsonValue::Scalar(JsonScalar::Int(1)),
        timestamp: 1,
    };
    assert_eq!(stamped_from_json(&wrong), Err(EnokiError::TypeMismatch));
    assert_eq!(
        from_json_as(TypeTag::ByteArray, &JsonValue::Array(vec![JsonScalar::Int(256)])),
        Err(EnokiError::TypeMismatch)
    );
    assert_eq!(
        from_json_as(TypeTag::ByteArray, &JsonValue::Array(vec![JsonScalar::Int(-1)])),
        Err(EnokiError::TypeMismatch)
    );
    assert_eq!(
        from_json_as(TypeTag::ByteArray, &JsonValue::Array(vec![JsonScalar::UInt(255)])),
        Ok(EnokiValue::ByteArray(vec![255]))
    );
    assert_eq!(
        from_json_as(TypeTag::Double, &JsonValue::Scalar(JsonScalar::Single(1))),
        Err(EnokiError::TypeMismatch)
    );
    assert_eq!(from_json_as(TypeTag::Int, &JsonValue::Object), Err(EnokiError::TypeMismatch));
}

#[test]
fn tag_names() {
    assert_eq!(tag_from_name("Int"), Some(TypeTag::Int));
    assert_eq!(tag_from_name("BooleanArray"), Some(TypeTag::BooleanArray));
    assert_eq!(tag_from_name("Protobuf"), Some(TypeTag::Protobuf));
    assert_eq!(tag_from_name("int"), None);
    assert_eq!(tag_from_name(""), None);
    assert_eq!(TypeTag::StringArray.as_str(), "StringArray");
}

#[test]
fn conversions() {
    assert_eq!(conversion(TypeTag::Int, TypeTag::Int), Conversion::Same);
    assert_eq!(conversion(TypeTag::Float, TypeTag::Double), Conversion::Widening);
    assert_eq!(conversion(TypeTag::Int, TypeTag::Float), Conversion::Widening);
    assert_eq!(conversion(TypeTag::Int, TypeTag::Double), Conversion::Widening);
    assert_eq!(conversion(TypeTag::Double, TypeTag::Float), Conversion::Narrowing);
    assert_eq!(conversion(TypeTag::Double, TypeTag::Int), Conversion::Narrowing);
    assert_eq!(conversion(TypeTag::IntArray, TypeTag::DoubleArray), Conversion::Widening);
    assert_eq!(conversion(TypeTag::DoubleArray, TypeTag::IntArray), Conversion::Narrowing);
    assert_eq!(conversion(TypeTag::Boolean, TypeTag::String), Conversion::Formatting);
    assert_eq!(conversion(TypeTag::Double, TypeTag::String), Conversion::Formatting);
    assert_eq!(conversion(TypeTag::String, TypeTag::Int), Conversion::Undefined);
    assert_eq!(conversion(TypeTag::Int, TypeTag::IntArray), Conversion::Undefined);
    assert_eq!(conversion(TypeTag::ByteArray, TypeTag::Protobuf), Conversion::Undefined);
    assert_eq!(conversion(TypeTag::StringArray, TypeTag::String), Conversion::Undefined);

    assert_eq!(
        EnokiValue::Int(-12).convert(TypeTag::String),
        Ok(Converted::Done(EnokiValue::String("-12".to_string())))
    );
    assert_eq!(
        EnokiValue::Boolean(false).convert(TypeTag::String),
        Ok(Converted::Done(EnokiValue::String("false".to_string())))
    );
    assert_eq!(
        EnokiValue::Boolean(true).convert(TypeTag::Boolean),
        Ok(Converted::Done(EnokiValue::Boolean(true)))
    );
    assert_eq!(
        EnokiValue::Int(3).convert(TypeTag::Double),
        Ok(Converted::Floating(EnokiValue::Int(3), TypeTag::Double))
    );
    assert_eq!(
        EnokiValue::Double(3).convert(TypeTag::String),
        Ok(Converted::Floating(EnokiValue::Double(3), TypeTag::String))
    );
    assert_eq!(
        EnokiValue::String("1".to_string()).convert(TypeTag::Int),
        Err(EnokiError::TypeMismatch)
    );
    assert_eq!(EnokiValue::Boolean(true).convert(TypeTag::Int), Err(EnokiError::TypeMismatch));
    assert_eq!(signed_decimal_string(i64::MIN), "-9223372036854775808");
    assert_eq!(signed_decimal_string(i64::MAX), "9223372036854775807");
    assert_eq!(signed_decimal_string(0), "0");
}

#[test]
fn conversions_by_from() {
    let stored = DataLogValue::from(EnokiValue::Protobuf(vec![1]));
    assert_eq!(stored, DataLogValue::Raw(vec![1]));
    assert_eq!(EnokiValue::from(stored), EnokiValue::ByteArray(vec![1]));
    assert_eq!(
        WireValue::from(&EnokiValue::Int(4)),
        WireValue::Scalar(WireScalar::Integer(4))
    );
}
