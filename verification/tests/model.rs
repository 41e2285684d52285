//! Tests of the value model: casting between kinds and from raw bytes.

use filemagic::expr::Expression;
use filemagic::expr_value::{SignValType, ValType, Value};

#[test]
fn test_cast_by() {
    let testcases = [
        (
            SignValType::new(true, ValType::Short),
            Value::I64(10),
            Value::U16(10),
        ),
        (
            SignValType::new(true, ValType::Byte),
            Value::I64(1024),
            Value::U8(0),
        ),
    ];
    for (typ, val, expect) in testcases.iter() {
        assert_eq!(&val.cast_by(typ).unwrap(), expect)
    }
}

#[test]
fn cast_by_signed_narrowing() {
    // -1 keeps all bits: every narrowing sees 0xff..
    let v = Value::I64(-1);
    assert_eq!(
        v.cast_by(&SignValType::new(true, ValType::Byte)).unwrap(),
        Value::U8(0xff)
    );
    assert_eq!(
        v.cast_by(&SignValType::new(false, ValType::Short)).unwrap(),
        Value::I16(-1)
    );
    assert_eq!(
        v.cast_by(&SignValType::new(true, ValType::Long)).unwrap(),
        Value::U32(0xffff_ffff)
    );
}

#[test]
fn cast_round_trip_same_width() {
    // a same-width cast preserves the bits: u8 -> i8 -> u8
    let v = Value::U8(0xf3);
    let as_signed = v.cast_by(&SignValType::new(false, ValType::Byte)).unwrap();
    assert_eq!(as_signed, Value::I8(-13));
    let back = as_signed
        .cast_by(&SignValType::new(true, ValType::Byte))
        .unwrap();
    assert_eq!(back, Value::U8(0xf3));
}

#[test]
fn cast_float_domain_is_refused() {
    // int-to-float conversions are left to the caller
    let v = Value::I64(5);
    assert!(v.cast_by(&SignValType::new(false, ValType::Float)).is_none());
    assert!(v.cast_by(&SignValType::new(false, ValType::BEDouble)).is_none());
    // float bits are kept only at the same width
    let f = Value::F32(0x3f80_0000);
    assert_eq!(
        f.cast_by(&SignValType::new(false, ValType::LEFloat)).unwrap(),
        Value::F32(0x3f80_0000)
    );
    assert!(f.cast_by(&SignValType::new(false, ValType::Double)).is_none());
}

#[test]
fn endianness_medium() {
    // bytes 01 02 03 04 read as melong give 0x03040102
    let bytes = [0x01u8, 0x02, 0x03, 0x04];
    let t = SignValType::new(true, ValType::MELong);
    let v = Value::cast_from_bytes(&t, &bytes).unwrap();
    assert_eq!(v, Value::U32(0x0304_0102));
}

#[test]
fn endianness_big_and_little() {
    let bytes = [0x01u8, 0x02, 0x03, 0x04, 0x05, 0x06, 0x07, 0x08];
    assert_eq!(
        Value::cast_from_bytes(&SignValType::new(true, ValType::BELong), &bytes).unwrap(),
        Value::U32(0x0102_0304)
    );
    assert_eq!(
        Value::cast_from_bytes(&SignValType::new(true, ValType::LELong), &bytes).unwrap(),
        Value::U32(0x0403_0201)
    );
    assert_eq!(
        Value::cast_from_bytes(&SignValType::new(true, ValType::BEShort), &bytes).unwrap(),
        Value::U16(0x0102)
    );
    assert_eq!(
        Value::cast_from_bytes(&SignValType::new(true, ValType::BEQuad), &bytes).unwrap(),
        Value::U64(0x0102_0304_0506_0708)
    );
    assert_eq!(
        Value::cast_from_bytes(&SignValType::new(false, ValType::LEShort), &[0xff, 0xff]).unwrap(),
        Value::I16(-1)
    );
}

#[test]
fn cast_from_bytes_short_slice_fails() {
    let bytes = [0x01u8, 0x02];
    assert!(Value::cast_from_bytes(&SignValType::new(true, ValType::BELong), &bytes).is_none());
    assert!(Value::cast_from_bytes(&SignValType::new(false, ValType::Quad), &bytes).is_none());
}

#[test]
fn cast_from_bytes_string_class_gives_default() {
    let bytes = [0x41u8, 0x42];
    assert_eq!(
        Value::cast_from_bytes(&SignValType::new(false, ValType::String), &bytes).unwrap(),
        Value::I64(0)
    );
}

#[test]
fn float_bits_read_from_bytes() {
    // 1.0f32 in big-endian bytes: the bit pattern is read, never computed on
    let bytes = [0x3fu8, 0x80, 0x00, 0x00];
    assert_eq!(
        Value::cast_from_bytes(&SignValType::new(false, ValType::BEFloat), &bytes).unwrap(),
        Value::F32(0x3f80_0000)
    );
}

#[test]
fn expression_collapse() {
    // an absolute node with no mask collapses to its inner expression
    let e = Expression::val(Value::U64(7));
    let collapsed = Expression::unop_abs(Expression::val(Value::U64(7)), None);
    assert_eq!(collapsed, e);
    match *collapsed {
        Expression::Val(Value::U64(7)) => {}
        ref other => panic!("expected the inner literal, got {:?}", other),
    }
}

#[test]
fn valtype_lookup_names_and_chars() {
    assert_eq!(ValType::lookup(b"lelong"), ValType::LELong);
    assert_eq!(ValType::lookup(b"bestring16"), ValType::BEString16);
    assert_eq!(ValType::lookup(b"L"), ValType::BELong);
    assert_eq!(ValType::lookup(b"q"), ValType::LEQuad);
    assert_eq!(ValType::lookup(b"nosuch"), ValType::Invalid);
    assert!(ValType::try_from(b"melong").is_ok());
    assert!(ValType::try_from(b"zzz").is_err());
}

#[test]
fn valtype_predicates_and_sizes() {
    assert!(ValType::LEString16.is_string());
    assert!(ValType::BEQuad.is_i64());
    assert!(ValType::MELong.is_me());
    assert!(ValType::Long.is_ne());
    assert_eq!(ValType::Byte.size(), Some(1));
    assert_eq!(ValType::BEShort.size(), Some(2));
    assert_eq!(ValType::LEDate.size(), Some(4));
    assert_eq!(ValType::QLDate.size(), Some(8));
    assert_eq!(ValType::Regex.size(), None);
}
