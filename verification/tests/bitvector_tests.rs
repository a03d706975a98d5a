use ir_core::{Bitvector, ByteSize};

#[test]
fn to_i64_sign_extends_from_the_width() {
    let minus_four = Bitvector { value: 0xFFFF_FFFC, width: ByteSize::new(4) };
    assert_eq!(minus_four.to_i64(), -4);
    let small = Bitvector { value: 0x7F, width: ByteSize::new(1) };
    assert_eq!(small.to_i64(), 127);
    let minus_one = Bitvector { value: 0xFF, width: ByteSize::new(1) };
    assert_eq!(minus_one.to_i64(), -1);
    let wide = Bitvector::from_i64(-16);
    assert_eq!(wide.to_i64(), -16);
}

#[test]
fn negate_works_at_the_vector_width() {
    let minus_sixteen = Bitvector::from_i64(-16);
    assert_eq!(minus_sixteen.negate().to_i64(), 16);
    let minus_four_narrow = Bitvector { value: 0xFFFF_FFFC, width: ByteSize::new(4) };
    assert_eq!(minus_four_narrow.negate().to_i64(), 4);
    let zero = Bitvector { value: 0, width: ByteSize::new(2) };
    assert_eq!(zero.negate().value, 0);
}

#[test]
fn resize_unsigned_truncates_and_extends() {
    let v = Bitvector::from_i64(-1);
    let narrowed = v.resize_unsigned(ByteSize::new(2));
    assert_eq!(narrowed.value, 0xFFFF);
    assert_eq!(narrowed.width.bytes, 2);
    let widened = narrowed.resize_unsigned(ByteSize::new(4));
    assert_eq!(widened.value, 0xFFFF);
    assert_eq!(widened.width.bytes, 4);
}
