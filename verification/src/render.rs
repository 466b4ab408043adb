//! How a type reads: a pointer as `*mut` and what it points to, a signature
//! as `fn(..) -> ..`, and every other type by its structural name.

use vstd::prelude::*;
use crate::layout::{Primitive, Shape, Slot};

verus! {

/// The character of a decimal digit.
pub open spec fn digit(d: nat) -> char {
    if d == 0 {
        '0'
    } else if d == 1 {
        '1'
    } else if d == 2 {
        '2'
    } else if d == 3 {
        '3'
    } else if d == 4 {
        '4'
    } else if d == 5 {
        '5'
    } else if d == 6 {
        '6'
    } else if d == 7 {
        '7'
    } else if d == 8 {
        '8'
    } else {
        '9'
    }
}

/// A number in decimal notation, without leading zeros.
pub open spec fn digits(n: nat) -> Seq<char>
    decreases n,
{
    if n < 10 {
        seq![digit(n)]
    } else {
        digits(n / 10) + seq![digit(n % 10)]
    }
}

fn digit_text(d: usize) -> (r: &'static str)
    requires
        d < 10,
    ensures
        r@ == seq![digit(d as nat)],
{
    proof {
        reveal_strlit("0");
        reveal_strlit("1");
        reveal_strlit("2");
        reveal_strlit("3");
        reveal_strlit("4");
        reveal_strlit("5");
        reveal_strlit("6");
        reveal_strlit("7");
        reveal_strlit("8");
        reveal_strlit("9");
    }
    let r = if d == 0 {
        "0"
    } else if d == 1 {
        "1"
    } else if d == 2 {
        "2"
    } else if d == 3 {
        "3"
    } else if d == 4 {
        "4"
    } else if d == 5 {
        "5"
    } else if d == 6 {
        "6"
    } else if d == 7 {
        "7"
    } else if d == 8 {
        "8"
    } else {
        "9"
    };
    assert(r@ =~= seq![digit(d as nat)]);
    r
}

/// Writes a number in decimal notation.
pub fn decimal(n: usize) -> (r: String)
    ensures
        r@ == digits(n as nat),
    decreases n,
{
    if n < 10 {
        String::from_str(digit_text(n))
    } else {
        let mut s = decimal(n / 10);
        s.append(digit_text(n % 10));
        s
    }
}

impl Primitive {
    /// The name of the kind.
    pub open spec fn name(self) -> Seq<char> {
        match self {
            Primitive::Void => "void"@,
            Primitive::SByte => "sbyte"@,
            Primitive::UByte => "ubyte"@,
            Primitive::Short => "short"@,
            Primitive::UShort => "ushort"@,
            Primitive::Int => "int"@,
            Primitive::UInt => "uint"@,
            Primitive::NInt => "nint"@,
            Primitive::NUInt => "nuint"@,
            Primitive::Long => "long"@,
            Primitive::ULong => "ulong"@,
            Primitive::Float32 => "float32"@,
            Primitive::Float64 => "float64"@,
            Primitive::NFloat => "nfloat"@,
        }
    }

    /// The name of the kind.
    pub fn label(self) -> (r: &'static str)
        ensures
            r@ == self.name(),
    {
        match self {
            Primitive::Void => "void",
            Primitive::SByte => "sbyte",
            Primitive::UByte => "ubyte",
            Primitive::Short => "short",
            Primitive::UShort => "ushort",
            Primitive::Int => "int",
            Primitive::UInt => "uint",
            Primitive::NInt => "nint",
            Primitive::NUInt => "nuint",
            Primitive::Long => "long",
            Primitive::ULong => "ulong",
            Primitive::Float32 => "float32",
            Primitive::Float64 => "float64",
            Primitive::NFloat => "nfloat",
        }
    }
}

impl Shape {
    /// The structural name of the type, whatever tags it is under: the name
    /// of a primitive, `struct<N>` or `union<N>` with the size in bytes,
    /// `signature` or `ptr`.
    pub open spec fn dump(self) -> Seq<char>
        decreases self,
    {
        match self {
            Shape::Primitive(p) => p.name(),
            Shape::Struct(_) => "struct<"@ + digits(self.size()) + ">"@,
            Shape::Union(_) => "union<"@ + digits(self.size()) + ">"@,
            Shape::Signature(_, _, _) => "signature"@,
            Shape::Pointer(_) => "ptr"@,
            Shape::Tagged(_, inner) => inner.dump(),
        }
    }

    /// How the type reads. A pointer reads `*mut ` and then what it points
    /// to. A signature reads `fn(`, its parameters one after the other,
    /// `) -> ` and what it returns, `()` where that is nothing. Any other
    /// type reads as its structural name.
    pub open spec fn text(self) -> Seq<char>
        decreases self, 0nat,
    {
        match self {
            Shape::Pointer(inner) => "*mut "@ + inner.text(),
            Shape::Signature(_, ret, params) => "fn("@ + params_text(params, params.len())
                + ") -> "@ + (if *ret == Shape::Primitive(Primitive::Void) {
                "()"@
            } else {
                ret.text()
            }),
            _ => self.dump(),
        }
    }
}

/// How the first `n` parameters of a signature read, one after the other.
pub open spec fn params_text(params: Seq<Slot>, n: nat) -> Seq<char>
    decreases params, n,
{
    if n == 0 || n > params.len() {
        Seq::empty()
    } else {
        params_text(params, (n - 1) as nat) + params[n - 1].ty.text()
    }
}

} // verus!
