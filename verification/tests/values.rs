use kerbalobjects::{KOSValue, ToBytes};

#[test]
fn null_to_bytes() {
    let v = KOSValue::Null;

    let mut buf = Vec::with_capacity(1);

    v.to_bytes(&mut buf);

    assert_eq!(buf, vec![0]);
}

#[test]
fn bool_to_bytes() {
    let v1 = KOSValue::Bool(true);
    let v2 = KOSValue::Bool(false);

    let mut buf = Vec::with_capacity(2);

    v1.to_bytes(&mut buf);

    assert_eq!(buf, vec![1, 1]);

    buf.clear();
    v2.to_bytes(&mut buf);

    assert_eq!(buf, vec![1, 0]);
}

#[test]
fn byte_to_bytes() {
    let v1 = KOSValue::Byte(0);
    let v2 = KOSValue::Byte(-128);

    let mut buf = Vec::with_capacity(2);

    v1.to_bytes(&mut buf);

    assert_eq!(buf, vec![2, 0]);

    buf.clear();
    v2.to_bytes(&mut buf);

    assert_eq!(buf, vec![2, -128i8 as u8]);
}

#[test]
fn int16_to_bytes() {
    let v1 = KOSValue::Int16(526);

    let mut buf = Vec::with_capacity(3);

    v1.to_bytes(&mut buf);

    assert_eq!(buf, vec![3, 0b00001110, 0b00000010]);
}

#[test]
fn int32_to_bytes() {
    let v1 = KOSValue::Int32(-764);

    let mut buf = Vec::with_capacity(5);

    v1.to_bytes(&mut buf);

    assert_eq!(buf, vec![4, 0b00000100, 0b11111101, 0b11111111, 0b11111111]);
}

#[test]
fn float_to_bytes() {
    let v1 = KOSValue::Float(3.14159f32.to_bits());

    let mut buf = Vec::with_capacity(5);

    v1.to_bytes(&mut buf);

    assert_eq!(buf, vec![5, 208, 15, 73, 64]);
}

#[test]
fn double_to_bytes() {
    let v1 = KOSValue::Double(3.14159f64.to_bits());

    let mut buf = Vec::with_capacity(9);

    v1.to_bytes(&mut buf);

    assert_eq!(buf, vec![6, 110, 134, 27, 240, 249, 33, 9, 64]);
}

#[test]
fn string_to_bytes() {
    let v1 = KOSValue::String(String::from("test str"));

    let mut buf = Vec::with_capacity(10);

    v1.to_bytes(&mut buf);

    assert_eq!(
        buf,
        vec![7, 8, b't', b'e', b's', b't', b' ', b's', b't', b'r']
    );
}

#[test]
fn argmarker_to_bytes() {
    let v1 = KOSValue::ArgMarker;

    let mut buf = Vec::with_capacity(1);

    v1.to_bytes(&mut buf);

    assert_eq!(buf, vec![8]);
}

#[test]
fn scalarint_to_bytes() {
    let v1 = KOSValue::ScalarInt(-1267);

    let mut buf = Vec::with_capacity(5);

    v1.to_bytes(&mut buf);

    assert_eq!(buf, vec![9, 0b00001101, 0b11111011, 0b11111111, 0b11111111]);
}

#[test]
fn scalardouble_to_bytes() {
    let v1 = KOSValue::ScalarDouble(3.14159f64.to_bits());

    let mut buf = Vec::with_capacity(9);

    v1.to_bytes(&mut buf);

    assert_eq!(buf, vec![10, 110, 134, 27, 240, 249, 33, 9, 64]);
}

#[test]
fn boolvalue_to_bytes() {
    let v1 = KOSValue::BoolValue(true);
    let v2 = KOSValue::BoolValue(false);

    let mut buf = Vec::with_capacity(2);

    v1.to_bytes(&mut buf);

    assert_eq!(buf, vec![11, 1]);

    buf.clear();
    v2.to_bytes(&mut buf);

    assert_eq!(buf, vec![11, 0]);
}

#[test]
fn stringvalue_to_bytes() {
    let v1 = KOSValue::StringValue(String::from("hello"));

    let mut buf = Vec::with_capacity(7);

    v1.to_bytes(&mut buf);

    assert_eq!(buf, vec![12, 5, b'h', b'e', b'l', b'l', b'o']);
}
