use dicedb_rs::values::{FloatLit, HSetValue, ScalarValue, SetInput, WatchValue};

fn float_lit(v: f64) -> FloatLit {
    FloatLit::new(v.to_bits(), v.to_string())
}

#[test]
fn test_try_into() {
    let v: ScalarValue = ScalarValue::VInt(42);
    let v_setval: SetInput = v.try_into().unwrap();
    assert_eq!(v_setval, SetInput::Int(42));
    let v: ScalarValue = ScalarValue::VStr("42".to_string());
    let v_setval: SetInput = v.try_into().unwrap();
    assert_eq!(v_setval, SetInput::Str("42".to_string()));
    let v: ScalarValue = ScalarValue::VFloat(float_lit(42.0));
    let v_setval: SetInput = v.try_into().unwrap();
    assert_eq!(v_setval, SetInput::Float(float_lit(42.0)));
    let v: ScalarValue = ScalarValue::VBool(true);
    let v_setval: Result<SetInput, String> = v.try_into();
    assert_eq!(
        v_setval,
        Err("Cannot convert Value::VBool to SetValue".to_string())
    );
    let v: ScalarValue = ScalarValue::VNull;
    let v_setval: Result<SetInput, String> = v.try_into();
    assert_eq!(
        v_setval,
        Err("Cannot convert Value::VNull to SetValue".to_string())
    );
}

#[test]
fn test_value_can_convert() {
    let v: i64 = 42;
    let v_setval: SetInput = v.into();
    let v_value: ScalarValue = v.into();
    assert_eq!(v_setval, SetInput::Int(42));
    assert_eq!(v_value, ScalarValue::VInt(42));

    let v_f: f64 = 42.0;
    let v_setval = SetInput::Float(float_lit(v_f));
    let v_value = ScalarValue::VFloat(float_lit(v_f));
    assert_eq!(v_setval, SetInput::Float(float_lit(42.0)));
    assert_eq!(v_value, ScalarValue::VFloat(float_lit(42.0)));

    let v_str: &str = "42";
    let v_setval: SetInput = v_str.into();
    let v_value: ScalarValue = v_str.into();
    assert_eq!(v_setval, SetInput::Str("42".to_string()));
    assert_eq!(v_value, ScalarValue::VStr("42".to_string()));
}

#[test]
fn test_display_for_value() {
    let value = ScalarValue::VInt(1);
    assert_eq!(value.to_text(), "1");
    let value = ScalarValue::VStr("test".to_string());
    assert_eq!(value.to_text(), "test");
    let value = ScalarValue::VNull;
    assert_eq!(value.to_text(), "null");
    let value = ScalarValue::VFloat(float_lit(1.2));
    assert_eq!(value.to_text(), "1.2");
    let value = ScalarValue::VBool(true);
    assert_eq!(value.to_text(), "true");
}

#[test]
fn test_numeric_widening_all_types() {
    assert_eq!(ScalarValue::from(-1i8), ScalarValue::VInt(-1));
    assert_eq!(ScalarValue::from(i8::MIN), ScalarValue::VInt(-128));
    assert_eq!(ScalarValue::from(i16::MAX), ScalarValue::VInt(32767));
    assert_eq!(ScalarValue::from(i32::MIN), ScalarValue::VInt(-2147483648));
    assert_eq!(ScalarValue::from(u8::MAX), ScalarValue::VInt(255));
    assert_eq!(ScalarValue::from(u16::MAX), ScalarValue::VInt(65535));
    assert_eq!(ScalarValue::from(u32::MAX), ScalarValue::VInt(4294967295));
    assert_eq!(ScalarValue::from(i64::MIN), ScalarValue::VInt(i64::MIN));
    // The 64-bit unsigned conversion reinterprets the bits; narrowing back
    // restores the original exactly.
    let big: u64 = u64::MAX;
    let widened: SetInput = big.into();
    match widened {
        SetInput::Int(i) => assert_eq!(i as u64, big),
        other => panic!("expected an integer input, got {:?}", other),
    }
    // Float widening from f32 to f64 is exact.
    let f: f32 = 1.5;
    let lit = float_lit(f as f64);
    assert_eq!(f64::from_bits(lit.bits), 1.5f64);
}

#[test]
fn test_float_round_trip_through_set_input() {
    let lit = float_lit(3.25);
    let scalar: ScalarValue = SetInput::Float(lit.clone()).into();
    assert_eq!(scalar, ScalarValue::VFloat(lit.clone()));
    let back = scalar.try_into_set_input().unwrap();
    assert_eq!(back, SetInput::Float(lit));
}

#[test]
fn test_as_arg_renderings() {
    assert_eq!(ScalarValue::VStr("abc".to_string()).as_arg(), "abc");
    assert_eq!(ScalarValue::VInt(-17).as_arg(), "-17");
    assert_eq!(ScalarValue::VBool(false).as_arg(), "false");
    assert_eq!(ScalarValue::VNull.as_arg(), "");
    assert_eq!(ScalarValue::VFloat(float_lit(2.5)).as_arg(), "2.5");
    assert_eq!(SetInput::Int(i64::MIN).as_arg(), "-9223372036854775808");
    assert_eq!(SetInput::Str("x y".to_string()).as_arg(), "x y");
}

#[test]
fn test_hset_value_lookup() {
    let record = HSetValue {
        fields: vec![
            ("a".to_string(), "1".to_string()),
            ("b".to_string(), "2".to_string()),
            ("a".to_string(), "3".to_string()),
        ],
    };
    assert_eq!(record.len(), 3);
    assert_eq!(record.get("a"), Some(&"3".to_string()));
    assert_eq!(record.get("b"), Some(&"2".to_string()));
    assert_eq!(record.get("c"), None);
}

#[test]
fn test_watch_value_into_scalar() {
    let w = WatchValue {
        value: ScalarValue::VInt(9),
        fingerprint: "k".to_string(),
    };
    assert_eq!(w.into_scalar(), ScalarValue::VInt(9));
}
