//! The types of the results of arithmetic.
//!
//! Before two operands meet they are brought to one of six working kinds:
//! small integers widen to 32 bits, native integers and addresses become the
//! integer of one machine word, the native float becomes the 64-bit float.
//! Two integers then meet at the wider of their widths, unsigned only when
//! both are; a float on either side wins over any integer.

use vstd::prelude::*;
use crate::layout::{word_bytes, word_size, Primitive, Shape};

verus! {

impl Primitive {
    /// Whether the kind is an integer of 32 or 64 bits.
    pub open spec fn is_working_integer(self) -> bool {
        self is Int || self is UInt || self is Long || self is ULong
    }

    /// Whether the kind is an integer without a sign.
    pub open spec fn is_unsigned(self) -> bool {
        self is UByte || self is UShort || self is UInt || self is NUInt || self is ULong
    }

    /// The working kind as which a value of this kind takes part in
    /// arithmetic. `Void` stays what it is.
    pub open spec fn working(self) -> Primitive {
        match self {
            Primitive::SByte | Primitive::Short | Primitive::Int => Primitive::Int,
            Primitive::UByte | Primitive::UShort | Primitive::UInt => Primitive::UInt,
            Primitive::NInt => if word_size() == 8 {
                Primitive::Long
            } else {
                Primitive::Int
            },
            Primitive::NUInt => if word_size() == 8 {
                Primitive::ULong
            } else {
                Primitive::UInt
            },
            Primitive::NFloat => Primitive::Float64,
            other => other,
        }
    }

    /// The working kind as which a value of this kind takes part in
    /// arithmetic.
    pub fn to_working(self) -> (r: Primitive)
        ensures
            r == self.working(),
    {
        match self {
            Primitive::SByte | Primitive::Short | Primitive::Int => Primitive::Int,
            Primitive::UByte | Primitive::UShort | Primitive::UInt => Primitive::UInt,
            Primitive::NInt => if word_bytes() == 8 {
                Primitive::Long
            } else {
                Primitive::Int
            },
            Primitive::NUInt => if word_bytes() == 8 {
                Primitive::ULong
            } else {
                Primitive::UInt
            },
            Primitive::NFloat => Primitive::Float64,
            other => other,
        }
    }

    fn working_integer(self) -> (r: bool)
        ensures
            r == self.is_working_integer(),
    {
        match self {
            Primitive::Int | Primitive::UInt | Primitive::Long | Primitive::ULong => true,
            _ => false,
        }
    }

    fn wide(self) -> (r: bool)
        ensures
            r == (self is Long || self is ULong),
    {
        match self {
            Primitive::Long | Primitive::ULong => true,
            _ => false,
        }
    }

    fn unsigned(self) -> (r: bool)
        ensures
            r == self.is_unsigned(),
    {
        match self {
            Primitive::UByte
            | Primitive::UShort
            | Primitive::UInt
            | Primitive::NUInt
            | Primitive::ULong => true,
            _ => false,
        }
    }
}

/// Where two working integers meet: at 64 bits if either has 64, and without
/// a sign only if neither has one.
pub open spec fn meet_integers(a: Primitive, b: Primitive) -> Primitive {
    let wide = a is Long || a is ULong || b is Long || b is ULong;
    let unsigned = a.is_unsigned() && b.is_unsigned();
    if wide {
        if unsigned {
            Primitive::ULong
        } else {
            Primitive::Long
        }
    } else {
        if unsigned {
            Primitive::UInt
        } else {
            Primitive::Int
        }
    }
}

/// The kind of the result of an arithmetic operation on operands of the two
/// given kinds.
pub open spec fn meet(a: Primitive, b: Primitive) -> Primitive {
    let a = a.working();
    let b = b.working();
    if a.is_working_integer() && b.is_working_integer() {
        meet_integers(a, b)
    } else if a is Float64 || b is Float64 {
        Primitive::Float64
    } else if a is Float32 || b is Float32 {
        Primitive::Float32
    } else {
        Primitive::NFloat
    }
}

/// The kind of the result of a bitwise operation on operands of the two
/// given kinds: where they meet if both are integers, and the signed 64-bit
/// integer otherwise.
pub open spec fn meet_bits(a: Primitive, b: Primitive) -> Primitive {
    let a = a.working();
    let b = b.working();
    if a.is_working_integer() && b.is_working_integer() {
        meet_integers(a, b)
    } else {
        Primitive::Long
    }
}

/// The kind of the negation of an operand: integers become signed.
pub open spec fn negated(a: Primitive) -> Primitive {
    match a.working() {
        Primitive::UInt => Primitive::Int,
        Primitive::ULong => Primitive::Long,
        other => other,
    }
}

fn join_integers(a: Primitive, b: Primitive) -> (r: Primitive)
    ensures
        r == meet_integers(a, b),
{
    let wide = a.wide() || b.wide();
    let unsigned = a.unsigned() && b.unsigned();
    if wide {
        if unsigned {
            Primitive::ULong
        } else {
            Primitive::Long
        }
    } else {
        if unsigned {
            Primitive::UInt
        } else {
            Primitive::Int
        }
    }
}

/// Finds the kind of the result of an arithmetic operation.
pub fn join(a: Primitive, b: Primitive) -> (r: Primitive)
    ensures
        r == meet(a, b),
{
    let a = a.to_working();
    let b = b.to_working();
    if a.working_integer() && b.working_integer() {
        join_integers(a, b)
    } else if matches!(a, Primitive::Float64) || matches!(b, Primitive::Float64) {
        Primitive::Float64
    } else if matches!(a, Primitive::Float32) || matches!(b, Primitive::Float32) {
        Primitive::Float32
    } else {
        Primitive::NFloat
    }
}

/// Finds the kind of the result of a bitwise operation.
pub fn join_bits(a: Primitive, b: Primitive) -> (r: Primitive)
    ensures
        r == meet_bits(a, b),
{
    let a = a.to_working();
    let b = b.to_working();
    if a.working_integer() && b.working_integer() {
        join_integers(a, b)
    } else {
        Primitive::Long
    }
}

/// Finds the kind of the negation of an operand.
pub fn negate(a: Primitive) -> (r: Primitive)
    ensures
        r == negated(a),
{
    match a.to_working() {
        Primitive::UInt => Primitive::Int,
        Primitive::ULong => Primitive::Long,
        other => other,
    }
}

impl Shape {
    /// The primitive kind as which a value of the type is handled: that of
    /// the type under its tags if it is a primitive, a signed integer of one
    /// machine word for an address, and `Void` for what is no operand at all.
    pub open spec fn operand(self) -> Primitive
        decreases self,
    {
        match self {
            Shape::Primitive(p) => p,
            Shape::Struct(_) => Primitive::Void,
            Shape::Union(_) => Primitive::Void,
            Shape::Signature(_, _, _) => Primitive::NInt,
            Shape::Pointer(_) => Primitive::NInt,
            Shape::Tagged(_, inner) => inner.operand(),
        }
    }
}

} // verus!
