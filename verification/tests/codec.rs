use dicedb_rs::codec::{encode_response, AttrVal, WirePayload, WireResponse};
use dicedb_rs::commands::{
    Command, DelInput, ExpireAtOption, ExpireOption, GetexOption, HSetInput, SetOption,
};
use dicedb_rs::commands::{del_keys, hset_fields, ExecutionMode};
use dicedb_rs::errors::CommandError;
use dicedb_rs::values::{HSetValue, ScalarValue, SetInput, WatchValue};

fn layout(c: &Command) -> (String, Vec<String>) {
    let m = c.wire_message();
    (m.cmd, m.args)
}

fn args(list: &[&str]) -> Vec<String> {
    list.iter().map(|s| s.to_string()).collect()
}

fn reply(payload: Option<WirePayload>) -> Vec<u8> {
    let mut r = WireResponse::empty();
    r.payload = payload;
    encode_response(&r)
}

#[test]
fn test_set_plain_layout() {
    let c = Command::SET {
        key: "k".to_string(),
        value: SetInput::Str("v".to_string()),
        option: SetOption::Plain,
        get: false,
    };
    let (cmd, a) = layout(&c);
    assert_eq!(cmd, "SET");
    assert_eq!(a, args(&["k", "v"]));
}

#[test]
fn test_set_ex_with_readback_layout() {
    let c = Command::SET {
        key: "k".to_string(),
        value: SetInput::Str("v".to_string()),
        option: SetOption::EX(10),
        get: true,
    };
    let (cmd, a) = layout(&c);
    assert_eq!(cmd, "SET");
    assert_eq!(a, args(&["k", "v", "EX", "10", "GET"]));
}

#[test]
fn test_expire_nx_layout() {
    let c = Command::EXPIRE {
        key: "k".to_string(),
        seconds: 5,
        option: ExpireOption::NX,
    };
    let (cmd, a) = layout(&c);
    assert_eq!(cmd, "EXPIRE");
    assert_eq!(a, args(&["k", "5", "NX"]));
}

#[test]
fn test_expire_no_option_layout() {
    let c = Command::EXPIRE {
        key: "k".to_string(),
        seconds: 5,
        option: ExpireOption::Always,
    };
    let (cmd, a) = layout(&c);
    assert_eq!(cmd, "EXPIRE");
    assert_eq!(a, args(&["k", "5"]));
}

#[test]
fn test_exists_multi_key_layout() {
    let c = Command::EXISTS {
        key: "a".to_string(),
        additional_keys: args(&["b", "c"]),
    };
    let (cmd, a) = layout(&c);
    assert_eq!(cmd, "EXISTS");
    assert_eq!(a, args(&["a", "b", "c"]));
}

#[test]
fn test_more_layouts() {
    let c = Command::EXPIREAT {
        key: "k".to_string(),
        timestamp: -3,
        option: ExpireAtOption::GT,
    };
    assert_eq!(layout(&c), ("EXPIREAT".to_string(), args(&["k", "-3", "GT"])));
    let c = Command::GETEX {
        key: "k".to_string(),
        ex: GetexOption::PERSIST,
    };
    assert_eq!(layout(&c), ("GETEX".to_string(), args(&["k", "PERSIST"])));
    let c = Command::GETEX {
        key: "k".to_string(),
        ex: GetexOption::PXAT(0),
    };
    assert_eq!(layout(&c), ("GETEX".to_string(), args(&["k", "PXAT", "0"])));
    let c = Command::HSET {
        key: "h".to_string(),
        fields: vec![("f1".to_string(), "v1".to_string()), ("f2".to_string(), "v2".to_string())],
    };
    assert_eq!(
        layout(&c),
        ("HSET".to_string(), args(&["h", "f1", "v1", "f2", "v2"]))
    );
    let c = Command::GETWATCH { key: "w".to_string() };
    assert_eq!(layout(&c), ("GET.WATCH".to_string(), args(&["w"])));
    let c = Command::HANDSHAKE {
        client_id: "id1".to_string(),
        execution_mode: ExecutionMode::Watch,
    };
    assert_eq!(layout(&c), ("HANDSHAKE".to_string(), args(&["id1", "watch"])));
    let c = Command::FLUSHDB;
    assert_eq!(layout(&c), ("FLUSHDB".to_string(), args(&[])));
    let c = Command::DECRBY { key: "k".to_string(), delta: i64::MIN };
    assert_eq!(
        layout(&c),
        ("DECRBY".to_string(), args(&["k", "-9223372036854775808"]))
    );
}

#[test]
fn test_single_key_layouts() {
    for (c, tok) in [
        (Command::GET { key: "k".to_string() }, "GET"),
        (Command::GETDEL { key: "k".to_string() }, "GETDEL"),
        (Command::INCR { key: "k".to_string() }, "INCR"),
        (Command::DECR { key: "k".to_string() }, "DECR"),
        (Command::TTL { key: "k".to_string() }, "TTL"),
        (Command::TYPE { key: "k".to_string() }, "TYPE"),
        (Command::EXPIRETIME { key: "k".to_string() }, "EXPIRETIME"),
        (Command::HGETALL { key: "k".to_string() }, "HGETALL"),
        (Command::UNWATCH { key: "k".to_string() }, "UNWATCH"),
    ] {
        assert_eq!(layout(&c), (tok.to_string(), args(&["k"])));
    }
    let c = Command::DEL { keys: args(&["a", "b"]) };
    assert_eq!(layout(&c), ("DEL".to_string(), args(&["a", "b"])));
    let c = Command::ECHO { message: "hello".to_string() };
    assert_eq!(layout(&c), ("ECHO".to_string(), args(&["hello"])));
    let c = Command::HGET { key: "k".to_string(), field: "f".to_string() };
    assert_eq!(layout(&c), ("HGET".to_string(), args(&["k", "f"])));
    let c = Command::INCRBY { key: "k".to_string(), delta: 300 };
    assert_eq!(layout(&c), ("INCRBY".to_string(), args(&["k", "300"])));
    let c = Command::GETEX { key: "k".to_string(), ex: GetexOption::EXAT(u64::MAX) };
    assert_eq!(
        layout(&c),
        ("GETEX".to_string(), args(&["k", "EXAT", "18446744073709551615"]))
    );
}

#[test]
fn test_input_flattening() {
    assert_eq!(del_keys(DelInput::Single("a")), args(&["a"]));
    assert_eq!(del_keys(DelInput::Multiple(vec!["a", "b"])), args(&["a", "b"]));
    assert_eq!(
        hset_fields(HSetInput::Single("f", "v")),
        vec![("f".to_string(), "v".to_string())]
    );
    assert_eq!(
        hset_fields(HSetInput::Multiple(vec![("f", "v"), ("g", "w")])),
        vec![("f".to_string(), "v".to_string()), ("g".to_string(), "w".to_string())]
    );
}

#[test]
fn test_request_frame_bytes() {
    let c = Command::PING;
    assert_eq!(c.encode(), vec![0x0a, 0x04, 0x50, 0x49, 0x4e, 0x47]);
    let c = Command::GET { key: "k".to_string() };
    assert_eq!(c.encode(), vec![0x0a, 0x03, 0x47, 0x45, 0x54, 0x12, 0x01, 0x6b]);
}

#[test]
fn test_decode_integer_round_trip() {
    let bytes = reply(Some(WirePayload::Int(7)));
    assert_eq!(ScalarValue::decode(&bytes), Ok(ScalarValue::VInt(7)));
    let bytes = reply(Some(WirePayload::Int(-5)));
    assert_eq!(ScalarValue::decode(&bytes), Ok(ScalarValue::VInt(-5)));
    let bytes = reply(Some(WirePayload::Int(i64::MAX)));
    assert_eq!(ScalarValue::decode(&bytes), Ok(ScalarValue::VInt(i64::MAX)));
}

#[test]
fn test_decode_null_reply() {
    // No payload and no error: null, not an error.
    let bytes = reply(None);
    assert_eq!(ScalarValue::decode(&bytes), Ok(ScalarValue::VNull));
    // An explicit nil marker is null as well.
    let bytes = reply(Some(WirePayload::Nil(true)));
    assert_eq!(ScalarValue::decode(&bytes), Ok(ScalarValue::VNull));
}

#[test]
fn test_decode_string_and_bytes_round_trip() {
    let bytes = reply(Some(WirePayload::Str(b"hello".to_vec())));
    assert_eq!(
        ScalarValue::decode(&bytes),
        Ok(ScalarValue::VStr("hello".to_string()))
    );
    // A byte payload with valid UTF-8 decodes to the same characters.
    let bytes = reply(Some(WirePayload::Bytes(b"raw".to_vec())));
    assert_eq!(
        ScalarValue::decode(&bytes),
        Ok(ScalarValue::VStr("raw".to_string()))
    );
    // A string payload that is not UTF-8 is a frame fault.
    let bytes = reply(Some(WirePayload::Str(vec![0xff, 0xfe])));
    assert_eq!(
        ScalarValue::decode(&bytes),
        Err(CommandError::DecodeError("malformed response frame".to_string()))
    );
}

#[test]
fn test_decode_float_bits_round_trip() {
    let bits = (2.5f64).to_bits();
    let bytes = reply(Some(WirePayload::Float(bits)));
    match ScalarValue::decode(&bytes) {
        Ok(ScalarValue::VFloat(lit)) => {
            assert_eq!(lit.bits, bits);
            assert_eq!(f64::from_bits(lit.bits), 2.5f64);
        }
        other => panic!("expected a float, got {:?}", other),
    }
}

#[test]
fn test_decode_server_error() {
    let mut r = WireResponse::empty();
    r.err = b"ERR boom".to_vec();
    r.payload = Some(WirePayload::Int(1));
    let bytes = encode_response(&r);
    assert_eq!(
        ScalarValue::decode(&bytes),
        Err(CommandError::ServerError("ERR boom".to_string()))
    );
}

#[test]
fn test_decode_malformed_frames() {
    let malformed = Err(CommandError::DecodeError(
        "malformed response frame".to_string(),
    ));
    // A length-delimited field with its count missing.
    assert_eq!(ScalarValue::decode(&[0x0a]), malformed);
    // A header varint that never terminates.
    assert_eq!(ScalarValue::decode(&[0xff]), malformed);
    // A group wire shape, which this frame format does not carry.
    assert_eq!(ScalarValue::decode(&[0x0b]), malformed);
    // A count larger than the remaining bytes.
    assert_eq!(ScalarValue::decode(&[0x0a, 0x05, 0x41]), malformed);
}

#[test]
fn test_decode_skips_unknown_fields() {
    // Field 15 as a varint, then field 12 as four fixed bytes, then the
    // real integer payload: unknown fields are passed over by shape.
    let mut bytes = vec![0x78, 0x2a, 0x65, 0x01, 0x02, 0x03, 0x04];
    bytes.extend(reply(Some(WirePayload::Int(3))));
    assert_eq!(ScalarValue::decode(&bytes), Ok(ScalarValue::VInt(3)));
}

#[test]
fn test_decode_watch_value() {
    let mut r = WireResponse::empty();
    r.payload = Some(WirePayload::Int(4));
    r.attrs = Some(vec![(b"fingerprint".to_vec(), AttrVal::Str(b"mykey".to_vec()))]);
    let bytes = encode_response(&r);
    assert_eq!(
        WatchValue::decode_watchvalue(&bytes),
        Ok(WatchValue {
            value: ScalarValue::VInt(4),
            fingerprint: "mykey".to_string(),
        })
    );
}

#[test]
fn test_decode_watch_value_faults() {
    // No attribute record at all.
    let bytes = reply(Some(WirePayload::Int(4)));
    assert_eq!(
        WatchValue::decode_watchvalue(&bytes),
        Err(CommandError::WatchValueExpectationError(
            "Missing attributes from response".to_string()
        ))
    );
    // An attribute record without the fingerprint.
    let mut r = WireResponse::empty();
    r.payload = Some(WirePayload::Int(4));
    r.attrs = Some(vec![(b"other".to_vec(), AttrVal::Str(b"x".to_vec()))]);
    assert_eq!(
        WatchValue::decode_watchvalue(&encode_response(&r)),
        Err(CommandError::WatchValueExpectationError(
            "Missing fingerprint from attributes".to_string()
        ))
    );
    // A fingerprint without any recognized kind.
    let mut r = WireResponse::empty();
    r.payload = Some(WirePayload::Int(4));
    r.attrs = Some(vec![(b"fingerprint".to_vec(), AttrVal::Unset)]);
    assert_eq!(
        WatchValue::decode_watchvalue(&encode_response(&r)),
        Err(CommandError::WatchValueExpectationError(
            "Missing kind from fingerprint attribute".to_string()
        ))
    );
    // A fingerprint of a non-string kind.
    let mut r = WireResponse::empty();
    r.payload = Some(WirePayload::Int(4));
    r.attrs = Some(vec![(b"fingerprint".to_vec(), AttrVal::Bool(true))]);
    assert_eq!(
        WatchValue::decode_watchvalue(&encode_response(&r)),
        Err(CommandError::WatchValueExpectationError(
            "Fingerprint is not a string".to_string()
        ))
    );
    // A fingerprint with no payload: an absent payload means null, just
    // as for scalar replies — not a fault.
    let mut r = WireResponse::empty();
    r.attrs = Some(vec![(b"fingerprint".to_vec(), AttrVal::Str(b"k".to_vec()))]);
    assert_eq!(
        WatchValue::decode_watchvalue(&encode_response(&r)),
        Ok(WatchValue {
            value: ScalarValue::VNull,
            fingerprint: "k".to_string(),
        })
    );
}

#[test]
fn test_decode_field_map() {
    // No entries decode to the empty record, never an error.
    let bytes = reply(None);
    let record = HSetValue::decode(&bytes).unwrap();
    assert_eq!(record.len(), 0);
    // Entries are written in wire order into a record with unique names:
    // a repeated name keeps its first position and takes its last value.
    let mut r = WireResponse::empty();
    r.field_map = vec![
        (b"f1".to_vec(), b"v1".to_vec()),
        (b"f2".to_vec(), b"v2".to_vec()),
        (b"f1".to_vec(), b"v3".to_vec()),
    ];
    let record = HSetValue::decode(&encode_response(&r)).unwrap();
    assert_eq!(record.len(), 2);
    assert_eq!(
        record.fields,
        vec![
            ("f1".to_string(), "v3".to_string()),
            ("f2".to_string(), "v2".to_string()),
        ]
    );
    assert_eq!(record.get("f1"), Some(&"v3".to_string()));
    assert_eq!(record.get("f2"), Some(&"v2".to_string()));
    // A server error wins over the entries.
    let mut r = WireResponse::empty();
    r.err = b"ERR no".to_vec();
    r.field_map = vec![(b"f".to_vec(), b"v".to_vec())];
    assert_eq!(
        HSetValue::decode(&encode_response(&r)),
        Err(CommandError::ServerError("ERR no".to_string()))
    );
}

#[test]
fn test_decode_last_payload_wins() {
    // Two payload fields in one frame: the later occurrence wins, as for
    // any repeated scalar field.
    let mut bytes = reply(Some(WirePayload::Int(1)));
    bytes.extend(reply(Some(WirePayload::Int(2))));
    assert_eq!(ScalarValue::decode(&bytes), Ok(ScalarValue::VInt(2)));
}
