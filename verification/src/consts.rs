//! Type constants: the primitive types, and the types that stand for the
//! C types of the system. The system types follow the common 64-bit data
//! model: `char` is signed, `short` has 16 bits, `int` 32, `long` one machine
//! word and `long long` 64.

use vstd::prelude::*;
use crate::kind;
use crate::layout::{word_bytes, word_size, Primitive, Shape};
use crate::types::{Type, TypeRef};

verus! {

/// The type of the absence of a value.
pub fn get_void() -> (r: Type)
    ensures
        r@ == Shape::Primitive(Primitive::Void),
{
    Type::primitive(Primitive::Void)
}

/// The type of a signed 8-bit integer.
pub fn get_sbyte() -> (r: Type)
    ensures
        r@ == Shape::Primitive(Primitive::SByte),
{
    Type::primitive(Primitive::SByte)
}

/// The type of an unsigned 8-bit integer.
pub fn get_ubyte() -> (r: Type)
    ensures
        r@ == Shape::Primitive(Primitive::UByte),
{
    Type::primitive(Primitive::UByte)
}

/// The type of a signed 16-bit integer.
pub fn get_short() -> (r: Type)
    ensures
        r@ == Shape::Primitive(Primitive::Short),
{
    Type::primitive(Primitive::Short)
}

/// The type of an unsigned 16-bit integer.
pub fn get_ushort() -> (r: Type)
    ensures
        r@ == Shape::Primitive(Primitive::UShort),
{
    Type::primitive(Primitive::UShort)
}

/// The type of a signed 32-bit integer.
pub fn get_int() -> (r: Type)
    ensures
        r@ == Shape::Primitive(Primitive::Int),
{
    Type::primitive(Primitive::Int)
}

/// The type of an unsigned 32-bit integer.
pub fn get_uint() -> (r: Type)
    ensures
        r@ == Shape::Primitive(Primitive::UInt),
{
    Type::primitive(Primitive::UInt)
}

/// The type of a signed integer of one machine word.
pub fn get_nint() -> (r: Type)
    ensures
        r@ == Shape::Primitive(Primitive::NInt),
{
    Type::primitive(Primitive::NInt)
}

/// The type of an unsigned integer of one machine word.
pub fn get_nuint() -> (r: Type)
    ensures
        r@ == Shape::Primitive(Primitive::NUInt),
{
    Type::primitive(Primitive::NUInt)
}

/// The type of a signed 64-bit integer.
pub fn get_long() -> (r: Type)
    ensures
        r@ == Shape::Primitive(Primitive::Long),
{
    Type::primitive(Primitive::Long)
}

/// The type of an unsigned 64-bit integer.
pub fn get_ulong() -> (r: Type)
    ensures
        r@ == Shape::Primitive(Primitive::ULong),
{
    Type::primitive(Primitive::ULong)
}

/// The type of a 32-bit float.
pub fn get_float32() -> (r: Type)
    ensures
        r@ == Shape::Primitive(Primitive::Float32),
{
    Type::primitive(Primitive::Float32)
}

/// The type of a 64-bit float.
pub fn get_float64() -> (r: Type)
    ensures
        r@ == Shape::Primitive(Primitive::Float64),
{
    Type::primitive(Primitive::Float64)
}

/// The type of the native float.
pub fn get_nfloat() -> (r: Type)
    ensures
        r@ == Shape::Primitive(Primitive::NFloat),
{
    Type::primitive(Primitive::NFloat)
}

/// The type of a pointer to anything.
pub fn get_void_ptr() -> (r: Type)
    ensures
        r@ == Shape::Pointer(Box::new(Shape::Primitive(Primitive::Void))),
{
    let void = get_void();
    Type::new_pointer(TypeRef::borrow_from(&void))
}

/// The primitive under a system type whose width is one machine word.
pub open spec fn word_primitive(signed: bool) -> Primitive {
    if word_size() == 8 {
        if signed {
            Primitive::Long
        } else {
            Primitive::ULong
        }
    } else {
        if signed {
            Primitive::Int
        } else {
            Primitive::UInt
        }
    }
}

/// The shape of a system type: a primitive under the system type's tag.
pub open spec fn sys_shape(tag: i32, p: Primitive) -> Shape {
    Shape::Tagged(tag as int, Box::new(Shape::Primitive(p)))
}

fn sys_type(tag: i32, p: Primitive) -> (r: Type)
    requires
        0 <= tag <= 20000,
    ensures
        r@ == sys_shape(tag, p),
{
    let inner = Type::primitive(p);
    Type::tagged(TypeRef::borrow_from(&inner), tag)
}

/// The system's `bool`.
pub fn get_sys_bool() -> (r: Type)
    ensures
        r@ == sys_shape(kind::SYS_BOOL, Primitive::UByte),
{
    sys_type(kind::SYS_BOOL, Primitive::UByte)
}

/// The system's `char`.
pub fn get_sys_char() -> (r: Type)
    ensures
        r@ == sys_shape(kind::SYS_CHAR, Primitive::SByte),
{
    sys_type(kind::SYS_CHAR, Primitive::SByte)
}

/// The system's `signed char`.
pub fn get_sys_schar() -> (r: Type)
    ensures
        r@ == sys_shape(kind::SYS_SCHAR, Primitive::SByte),
{
    sys_type(kind::SYS_SCHAR, Primitive::SByte)
}

/// The system's `unsigned char`.
pub fn get_sys_uchar() -> (r: Type)
    ensures
        r@ == sys_shape(kind::SYS_UCHAR, Primitive::UByte),
{
    sys_type(kind::SYS_UCHAR, Primitive::UByte)
}

/// The system's `short`.
pub fn get_sys_short() -> (r: Type)
    ensures
        r@ == sys_shape(kind::SYS_SHORT, Primitive::Short),
{
    sys_type(kind::SYS_SHORT, Primitive::Short)
}

/// The system's `unsigned short`.
pub fn get_sys_ushort() -> (r: Type)
    ensures
        r@ == sys_shape(kind::SYS_USHORT, Primitive::UShort),
{
    sys_type(kind::SYS_USHORT, Primitive::UShort)
}

/// The system's `int`.
pub fn get_sys_int() -> (r: Type)
    ensures
        r@ == sys_shape(kind::SYS_INT, Primitive::Int),
{
    sys_type(kind::SYS_INT, Primitive::Int)
}

/// The system's `unsigned int`.
pub fn get_sys_uint() -> (r: Type)
    ensures
        r@ == sys_shape(kind::SYS_UINT, Primitive::UInt),
{
    sys_type(kind::SYS_UINT, Primitive::UInt)
}

/// The system's `long long`.
pub fn get_sys_longlong() -> (r: Type)
    ensures
        r@ == sys_shape(kind::SYS_LONGLONG, Primitive::Long),
{
    sys_type(kind::SYS_LONGLONG, Primitive::Long)
}

/// The system's `unsigned long long`.
pub fn get_sys_ulonglong() -> (r: Type)
    ensures
        r@ == sys_shape(kind::SYS_ULONGLONG, Primitive::ULong),
{
    sys_type(kind::SYS_ULONGLONG, Primitive::ULong)
}

/// The system's `float`.
pub fn get_sys_float() -> (r: Type)
    ensures
        r@ == sys_shape(kind::SYS_FLOAT, Primitive::Float32),
{
    sys_type(kind::SYS_FLOAT, Primitive::Float32)
}

/// The system's `double`.
pub fn get_sys_double() -> (r: Type)
    ensures
        r@ == sys_shape(kind::SYS_DOUBLE, Primitive::Float64),
{
    sys_type(kind::SYS_DOUBLE, Primitive::Float64)
}

/// The system's `long double`.
pub fn get_sys_long_double() -> (r: Type)
    ensures
        r@ == sys_shape(kind::SYS_LONG_DOUBLE, Primitive::NFloat),
{
    sys_type(kind::SYS_LONG_DOUBLE, Primitive::NFloat)
}

/// The system's `long`: one machine word.
pub fn get_sys_long() -> (r: Type)
    ensures
        r@ == sys_shape(kind::SYS_LONG, word_primitive(true)),
        r@.size() == word_size(),
{
    assert(Shape::Primitive(Primitive::Long).size() == 8);
    assert(Shape::Primitive(Primitive::Int).size() == 4);
    if word_bytes() == 8 {
        sys_type(kind::SYS_LONG, Primitive::Long)
    } else {
        sys_type(kind::SYS_LONG, Primitive::Int)
    }
}

/// The system's `unsigned long`: one machine word.
pub fn get_sys_ulong() -> (r: Type)
    ensures
        r@ == sys_shape(kind::SYS_ULONG, word_primitive(false)),
        r@.size() == word_size(),
{
    assert(Shape::Primitive(Primitive::ULong).size() == 8);
    assert(Shape::Primitive(Primitive::UInt).size() == 4);
    if word_bytes() == 8 {
        sys_type(kind::SYS_ULONG, Primitive::ULong)
    } else {
        sys_type(kind::SYS_ULONG, Primitive::UInt)
    }
}

} // verus!
