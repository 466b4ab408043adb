use jit::convert::{convert, ConvertError};
use jit::layout::Primitive;

#[test]
fn widening_and_cutting_back_gives_the_value_again() {
    for v in [-128i128, -1, 0, 1, 127] {
        for check in [false, true] {
            let wide = convert(v, Primitive::Int, check).unwrap();
            assert_eq!(wide, v);
            assert_eq!(convert(wide, Primitive::SByte, false), Ok(v));
        }
    }
    for v in [0i128, 200, 255] {
        let wide = convert(v, Primitive::Long, true).unwrap();
        assert_eq!(convert(wide, Primitive::UByte, false), Ok(v));
        assert_eq!(convert(wide, Primitive::UByte, true), Ok(v));
    }
}

#[test]
fn cutting_keeps_the_low_bits() {
    assert_eq!(convert(256, Primitive::UByte, false), Ok(0));
    assert_eq!(convert(257, Primitive::UByte, false), Ok(1));
    assert_eq!(convert(-1, Primitive::UByte, false), Ok(255));
    assert_eq!(convert(128, Primitive::SByte, false), Ok(-128));
    assert_eq!(convert(255, Primitive::SByte, false), Ok(-1));
    assert_eq!(convert(-129, Primitive::SByte, false), Ok(127));
    assert_eq!(convert(0x1_2345, Primitive::UShort, false), Ok(0x2345));
    assert_eq!(convert(0x8000, Primitive::Short, false), Ok(-0x8000));
    assert_eq!(convert(0x1_0000_0001, Primitive::UInt, false), Ok(1));
    assert_eq!(convert(0x8000_0000, Primitive::Int, false), Ok(-0x8000_0000));
    assert_eq!(convert(-1, Primitive::ULong, false), Ok(0xffff_ffff_ffff_ffff));
    assert_eq!(convert(0x8000_0000_0000_0000, Primitive::Long, false), Ok(-0x8000_0000_0000_0000));
    assert_eq!(convert(i128::MIN, Primitive::UByte, false), Ok(0));
    assert_eq!(convert(i128::MAX, Primitive::SByte, false), Ok(-1));
}

#[test]
fn overflow_check_refuses_what_does_not_fit() {
    assert_eq!(convert(256, Primitive::UByte, true), Err(ConvertError::Overflow));
    assert_eq!(convert(-1, Primitive::UByte, true), Err(ConvertError::Overflow));
    assert_eq!(convert(128, Primitive::SByte, true), Err(ConvertError::Overflow));
    assert_eq!(convert(-129, Primitive::SByte, true), Err(ConvertError::Overflow));
    assert_eq!(convert(255, Primitive::UByte, true), Ok(255));
    assert_eq!(convert(-128, Primitive::SByte, true), Ok(-128));
    assert_eq!(convert(0x1_0000_0000, Primitive::UInt, true), Err(ConvertError::Overflow));
    assert_eq!(convert(0x1_0000_0000, Primitive::Long, true), Ok(0x1_0000_0000));
}

#[test]
fn only_integer_kinds_convert() {
    assert_eq!(convert(1, Primitive::Void, false), Err(ConvertError::NotAnInteger));
    assert_eq!(convert(1, Primitive::Float32, true), Err(ConvertError::NotAnInteger));
    assert_eq!(convert(1, Primitive::Float64, false), Err(ConvertError::NotAnInteger));
    assert_eq!(convert(1, Primitive::NFloat, false), Err(ConvertError::NotAnInteger));
}

#[test]
fn native_integers_have_the_width_of_a_word() {
    let bits = 8 * std::mem::size_of::<usize>() as u32;
    let top = 1i128 << bits;
    assert_eq!(convert(top, Primitive::NUInt, false), Ok(0));
    assert_eq!(convert(top - 1, Primitive::NUInt, true), Ok(top - 1));
    assert_eq!(convert(top, Primitive::NUInt, true), Err(ConvertError::Overflow));
    assert_eq!(convert(top / 2, Primitive::NInt, false), Ok(-top / 2));
}
