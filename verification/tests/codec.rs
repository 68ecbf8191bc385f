//! Byte-exact behaviour of the self-describing codec.
use radix_engine::decode::{DecodeError, Decoder};
use radix_engine::encode::{Encode, Encoder};
use radix_engine::buffer::{frame_buffer, unframe_buffer};
use radix_engine::types::{Vid, H256};
use radix_engine::value::{Fields, Value};

#[test]
fn test_encode_struct() {
    let a = Value::Struct(Fields::Named(vec![Value::U32(3)]));
    let b = Value::Struct(Fields::Unnamed(vec![Value::U32(3)]));
    let c = Value::Struct(Fields::Unit);

    let mut encoder = Encoder::with_type(Vec::with_capacity(512));
    a.encode(&mut encoder);
    b.encode(&mut encoder);
    c.encode(&mut encoder);
    let bytes: Vec<u8> = encoder.into_vec();

    assert_eq!(
        vec![
            16, // struct type
            18, // fields type
            1, 0, 0, 0, // number of fields
            9, 3, 0, 0, 0, // field value
            16, // struct type
            19, // fields type
            1, 0, 0, 0, // number of fields
            9, 3, 0, 0, 0, // field value
            16, // struct type
            20  // fields type
        ],
        bytes
    );
}

#[test]
fn test_encode_enum() {
    let a = Value::Enum(0, Fields::Named(vec![Value::U32(2), Value::U32(3)]));
    let b = Value::Enum(1, Fields::Unnamed(vec![Value::U32(1)]));
    let c = Value::Enum(2, Fields::Unit);

    let mut encoder = Encoder::with_type(Vec::with_capacity(512));
    a.encode(&mut encoder);
    b.encode(&mut encoder);
    c.encode(&mut encoder);
    let bytes: Vec<u8> = encoder.into_vec();

    assert_eq!(
        vec![
            17, // enum type
            0,  // enum index
            18, // fields type
            2, 0, 0, 0, // number of fields
            9, 2, 0, 0, 0, // field value
            9, 3, 0, 0, 0, // field value
            17, // enum type
            1,  // enum index
            19, // fields type
            1, 0, 0, 0, // number of fields
            9, 1, 0, 0, 0, // field value
            17, // enum type
            2,  // enum index
            20  // fields type
        ],
        bytes
    );
}

#[test]
fn test_encode_primitives() {
    let mut encoder = Encoder::new();
    encoder.encode_unit();
    encoder.encode_bool(true);
    encoder.encode_u8(7);
    encoder.encode_u16(2);
    encoder.encode_u32(3);
    encoder.encode_i8(-1);
    let bytes: Vec<u8> = encoder.into_vec();
    assert_eq!(
        vec![0, 1, 1, 7, 7, 8, 2, 0, 9, 3, 0, 0, 0, 2, 255],
        bytes
    );
}

#[test]
fn test_encode_string_and_option() {
    let mut encoder = Encoder::new();
    encoder.encode_string(String::from("ok"));
    encoder.encode_option(Some(Value::U8(5)));
    encoder.encode_option::<Value>(None);
    let bytes: Vec<u8> = encoder.into_vec();
    assert_eq!(
        vec![12, 2, 0, 0, 0, 111, 107, 13, 1, 7, 5, 13, 0],
        bytes
    );
}

#[test]
fn test_encode_vec_and_tuple() {
    let mut encoder = Encoder::new();
    encoder.encode_vec(vec![Value::U8(1), Value::U8(2)]);
    encoder.encode_tuple((Value::Unit, Value::Bool(false)));
    let bytes: Vec<u8> = encoder.into_vec();
    assert_eq!(
        vec![14, 2, 0, 0, 0, 7, 1, 7, 2, 15, 2, 0, 0, 0, 0, 1, 0],
        bytes
    );
}

#[test]
fn test_value_round_trip() {
    let v = Value::Struct(Fields::Named(vec![
        Value::U32(3),
        Value::Str(String::from("hello")),
        Value::Opt(Some(Box::new(Value::I64(-9)))),
        Value::List(vec![Value::Bool(true), Value::Bool(false)]),
        Value::Tuple(vec![Value::U128(u128::MAX), Value::Unit]),
        Value::List(vec![]),
        Value::Str(String::new()),
        Value::Opt(None),
        Value::Enum(1, Fields::Unnamed(vec![Value::U16(65535)])),
    ]));
    let mut encoder = Encoder::new();
    v.encode(&mut encoder);
    let bytes: Vec<u8> = encoder.into_vec();

    let mut decoder = Decoder::new(bytes.clone());
    let decoded = decoder.decode_value().unwrap();

    let mut encoder2 = Encoder::new();
    decoded.encode(&mut encoder2);
    let bytes2: Vec<u8> = encoder2.into_vec();
    assert_eq!(bytes, bytes2);
}

#[test]
fn test_decode_wrong_type() {
    let mut decoder = Decoder::new(vec![9, 3, 0, 0, 0]);
    assert_eq!(decoder.check_type(16), Err(DecodeError::InvalidType(16, 9)));
}

#[test]
fn test_decode_wrong_len() {
    let mut decoder = Decoder::new(vec![2, 0, 0, 0]);
    assert_eq!(decoder.check_len(1), Err(DecodeError::InvalidLength(1, 2)));
}

#[test]
fn test_decode_invalid_index() {
    let mut decoder = Decoder::new(vec![7]);
    assert_eq!(decoder.read_variant_index(3), Err(DecodeError::InvalidIndex(7)));
}

#[test]
fn test_decode_underflow() {
    let mut decoder = Decoder::new(vec![9, 3]);
    assert_eq!(decoder.decode_value(), Err(DecodeError::Underflow));
}

#[test]
fn test_decode_unknown_type() {
    let mut decoder = Decoder::new(vec![99]);
    assert_eq!(decoder.decode_value(), Err(DecodeError::UnknownType(99)));
}

#[test]
fn test_decode_invalid_bool_and_option() {
    let mut decoder = Decoder::new(vec![1, 2]);
    assert_eq!(decoder.decode_value(), Err(DecodeError::InvalidBool(2)));
    let mut decoder = Decoder::new(vec![13, 9]);
    assert_eq!(decoder.decode_value(), Err(DecodeError::InvalidOption(9)));
}

#[test]
fn test_decode_invalid_utf8() {
    // a string of length one whose byte is not valid UTF-8
    let mut decoder = Decoder::new(vec![12, 1, 0, 0, 0, 0xff]);
    assert_eq!(decoder.decode_value(), Err(DecodeError::InvalidUtf8));
}

#[test]
fn test_decode_string_value() {
    let mut decoder = Decoder::new(vec![12, 2, 0, 0, 0, 111, 107]);
    match decoder.decode_value().unwrap() {
        Value::Str(s) => assert_eq!(s, "ok"),
        other => panic!("unexpected shape: {:?}", other),
    }
}

#[test]
fn test_buffer_framing_round_trip() {
    let framed = frame_buffer(vec![7, 8, 9]);
    assert_eq!(framed, vec![3, 0, 0, 0, 7, 8, 9]);
    assert_eq!(unframe_buffer(framed.as_slice()), Some(vec![7, 8, 9]));
    // a length prefix that disagrees with the buffer is rejected
    assert_eq!(unframe_buffer(&[5, 0, 0, 0, 1]), None);
    assert_eq!(unframe_buffer(&[1, 0]), None);
}

#[test]
fn test_vid_codec_round_trip() {
    let v = Vid(H256 { w0: 3, w1: 1, w2: 4, w3: 1 }, 59);
    let mut encoder = Encoder::new();
    v.encode_value(&mut encoder);
    let bytes: Vec<u8> = encoder.into_vec();
    assert_eq!(bytes.len(), 40);
    let mut decoder = Decoder::new(bytes);
    assert_eq!(Vid::decode_value(&mut decoder), Ok(v));
}
