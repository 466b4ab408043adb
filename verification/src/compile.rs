//! The type descriptors of the host language's own types.
//!
//! The integer types stand for themselves. The unit type is described as
//! the type of nothing, a `bool` as the system's `bool` and a `char` as the
//! system's `char`: generated code handles both as single bytes.

use vstd::prelude::*;
use crate::consts::{
    get_int, get_long, get_nint, get_nuint, get_sbyte, get_short, get_sys_bool, get_sys_char,
    get_ubyte, get_uint, get_ulong, get_ushort, get_void, sys_shape,
};
use crate::kind;
use crate::layout::{Primitive, Shape};
use crate::types::CowType;

verus! {

/// A type of the host language that generated code can handle.
pub trait Compile {
    /// What the descriptor of the type is made of.
    spec fn shape() -> Shape;

    /// Get the type descriptor of the host type.
    fn get_type() -> (r: CowType<'static>)
        ensures
            r@ == Self::shape(),
    ;
}

impl Compile for () {
    open spec fn shape() -> Shape {
        Shape::Primitive(Primitive::Void)
    }

    fn get_type() -> (r: CowType<'static>) {
        get_void().into_cow()
    }
}

impl Compile for i8 {
    open spec fn shape() -> Shape {
        Shape::Primitive(Primitive::SByte)
    }

    fn get_type() -> (r: CowType<'static>) {
        get_sbyte().into_cow()
    }
}

impl Compile for u8 {
    open spec fn shape() -> Shape {
        Shape::Primitive(Primitive::UByte)
    }

    fn get_type() -> (r: CowType<'static>) {
        get_ubyte().into_cow()
    }
}

impl Compile for i16 {
    open spec fn shape() -> Shape {
        Shape::Primitive(Primitive::Short)
    }

    fn get_type() -> (r: CowType<'static>) {
        get_short().into_cow()
    }
}

impl Compile for u16 {
    open spec fn shape() -> Shape {
        Shape::Primitive(Primitive::UShort)
    }

    fn get_type() -> (r: CowType<'static>) {
        get_ushort().into_cow()
    }
}

impl Compile for i32 {
    open spec fn shape() -> Shape {
        Shape::Primitive(Primitive::Int)
    }

    fn get_type() -> (r: CowType<'static>) {
        get_int().into_cow()
    }
}

impl Compile for u32 {
    open spec fn shape() -> Shape {
        Shape::Primitive(Primitive::UInt)
    }

    fn get_type() -> (r: CowType<'static>) {
        get_uint().into_cow()
    }
}

impl Compile for i64 {
    open spec fn shape() -> Shape {
        Shape::Primitive(Primitive::Long)
    }

    fn get_type() -> (r: CowType<'static>) {
        get_long().into_cow()
    }
}

impl Compile for u64 {
    open spec fn shape() -> Shape {
        Shape::Primitive(Primitive::ULong)
    }

    fn get_type() -> (r: CowType<'static>) {
        get_ulong().into_cow()
    }
}

impl Compile for isize {
    open spec fn shape() -> Shape {
        Shape::Primitive(Primitive::NInt)
    }

    fn get_type() -> (r: CowType<'static>) {
        get_nint().into_cow()
    }
}

impl Compile for usize {
    open spec fn shape() -> Shape {
        Shape::Primitive(Primitive::NUInt)
    }

    fn get_type() -> (r: CowType<'static>) {
        get_nuint().into_cow()
    }
}

impl Compile for bool {
    open spec fn shape() -> Shape {
        sys_shape(kind::SYS_BOOL, Primitive::UByte)
    }

    fn get_type() -> (r: CowType<'static>) {
        get_sys_bool().into_cow()
    }
}

impl Compile for char {
    open spec fn shape() -> Shape {
        sys_shape(kind::SYS_CHAR, Primitive::SByte)
    }

    fn get_type() -> (r: CowType<'static>) {
        get_sys_char().into_cow()
    }
}

/// Get the Rust type given as a type descriptor
pub fn get<T>() -> (r: CowType<'static>) where T: Compile
    ensures
        r@ == T::shape(),
{
    T::get_type()
}

} // verus!
