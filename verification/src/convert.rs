//! Conversions between integer kinds.
//!
//! A conversion names the kind that the value is to have. Without an
//! overflow check the value is cut to the width of that kind: its low bits
//! stay and are read anew, with or without a sign. With the check, a value
//! that the kind cannot hold is refused.

use vstd::prelude::*;
use crate::layout::Primitive;

verus! {

/// Why a conversion gave no value.
#[derive(Clone, Copy, PartialEq, Eq, Structural, Debug)]
pub enum ConvertError {
    /// The value does not fit the kind, and the overflow check was asked for.
    Overflow,
    /// The kind is no integer kind.
    NotAnInteger,
}

impl Primitive {
    /// Whether the kind is an integer kind.
    pub open spec fn is_integer(self) -> bool {
        !(self is Void || self is Float32 || self is Float64 || self is NFloat)
    }

    /// Whether the kind is an integer kind with a sign.
    pub open spec fn is_signed(self) -> bool {
        self is SByte || self is Short || self is Int || self is NInt || self is Long
    }

    /// The number of values that the width of the kind can tell apart: two
    /// to the power of its bits.
    pub open spec fn modulus(self) -> int {
        if self.size() == 1 {
            0x100
        } else if self.size() == 2 {
            0x1_0000
        } else if self.size() == 4 {
            0x1_0000_0000
        } else {
            0x1_0000_0000_0000_0000
        }
    }

    /// The least value of the kind.
    pub open spec fn min_value(self) -> int {
        if self.is_signed() {
            -(self.modulus() / 2)
        } else {
            0
        }
    }

    /// The greatest value of the kind.
    pub open spec fn max_value(self) -> int {
        if self.is_signed() {
            self.modulus() / 2 - 1
        } else {
            self.modulus() - 1
        }
    }

    /// Whether the kind can hold the value.
    pub open spec fn holds(self, value: int) -> bool {
        self.min_value() <= value <= self.max_value()
    }

    /// Whether the kind is an integer kind.
    pub fn integer(self) -> (r: bool)
        ensures
            r == self.is_integer(),
    {
        match self {
            Primitive::Void | Primitive::Float32 | Primitive::Float64 | Primitive::NFloat => false,
            _ => true,
        }
    }

    /// Whether the kind is an integer kind with a sign.
    pub fn signed(self) -> (r: bool)
        ensures
            r == self.is_signed(),
    {
        match self {
            Primitive::SByte
            | Primitive::Short
            | Primitive::Int
            | Primitive::NInt
            | Primitive::Long => true,
            _ => false,
        }
    }

    /// The number of values that the width of the kind can tell apart.
    pub fn span(self) -> (r: i128)
        ensures
            r == self.modulus(),
    {
        let width = self.width();
        if width == 1 {
            0x100
        } else if width == 2 {
            0x1_0000
        } else if width == 4 {
            0x1_0000_0000
        } else {
            0x1_0000_0000_0000_0000
        }
    }
}

/// The value cut to the width of the kind: the one value of the kind that
/// differs from it by a multiple of the kind's modulus.
pub open spec fn truncated(kind: Primitive, value: int) -> int {
    let low = value % kind.modulus();
    if kind.is_signed() && low >= kind.modulus() / 2 {
        low - kind.modulus()
    } else {
        low
    }
}

/// What converting a value to an integer kind gives.
pub open spec fn converted(value: int, to: Primitive, overflow_check: bool) -> Result<
    int,
    ConvertError,
> {
    if !to.is_integer() {
        Err(ConvertError::NotAnInteger)
    } else if !overflow_check {
        Ok(truncated(to, value))
    } else if to.holds(value) {
        Ok(value)
    } else {
        Err(ConvertError::Overflow)
    }
}

/// Converts a value to an integer kind, as the generated code does.
pub fn convert(value: i128, to: Primitive, overflow_check: bool) -> (r: Result<i128, ConvertError>)
    ensures
        match r {
            Ok(v) => converted(value as int, to, overflow_check) == Ok::<int, ConvertError>(
                v as int,
            ),
            Err(e) => converted(value as int, to, overflow_check) == Err::<int, ConvertError>(e),
        },
{
    if !to.integer() {
        return Err(ConvertError::NotAnInteger);
    }
    let span = to.span();
    let half = span / 2;
    let (low, high) = if to.signed() {
        (-half, half - 1)
    } else {
        (0, span - 1)
    };
    if overflow_check {
        if low <= value && value <= high {
            Ok(value)
        } else {
            Err(ConvertError::Overflow)
        }
    } else {
        let cut: i128 = if value >= 0 {
            value % span
        } else {
            let below: i128 = -(value + 1);
            span - 1 - below % span
        };
        assert(cut == (value as int) % (span as int)) by {
            if value < 0 {
                let below = -(value + 1);
                let q = below / (span as int);
                let r = below % (span as int);
                vstd::arithmetic::div_mod::lemma_fundamental_div_mod(below, span as int);
                assert(value == (span as int) * (-q - 1) + (span - 1 - r)) by (nonlinear_arith)
                    requires
                        below == (span as int) * q + r,
                        below == -(value + 1),
                ;
                vstd::arithmetic::div_mod::lemma_fundamental_div_mod_converse(
                    value as int,
                    span as int,
                    -q - 1,
                    span - 1 - r,
                );
            }
        }
        if to.signed() && cut >= half {
            Ok(cut - span)
        } else {
            Ok(cut)
        }
    }
}

/// Cutting a value to the width of a kind gives a value of that kind that
/// has the same low bits: the two differ by a multiple of the modulus.
pub proof fn lemma_truncated_fits(kind: Primitive, value: int)
    requires
        kind.is_integer(),
    ensures
        kind.holds(truncated(kind, value)),
        (truncated(kind, value) - value) % kind.modulus() == 0,
{
    let m = kind.modulus();
    let low = value % m;
    vstd::arithmetic::div_mod::lemma_fundamental_div_mod(value, m);
    let q = value / m;
    assert(low - value == m * (-q)) by (nonlinear_arith)
        requires
            value == m * q + low,
    ;
    vstd::arithmetic::div_mod::lemma_mod_multiples_basic(-q, m);
    vstd::arithmetic::mul::lemma_mul_is_commutative(m, -q);
    assert(low - m - value == m * (-q - 1)) by (nonlinear_arith)
        requires
            value == m * q + low,
    ;
    vstd::arithmetic::div_mod::lemma_mod_multiples_basic(-q - 1, m);
    vstd::arithmetic::mul::lemma_mul_is_commutative(m, -q - 1);
}

/// Cutting leaves a value alone that the kind can hold.
pub proof fn lemma_truncated_keeps(kind: Primitive, value: int)
    requires
        kind.is_integer(),
        kind.holds(value),
    ensures
        truncated(kind, value) == value,
{
    let m = kind.modulus();
    if value >= 0 {
        vstd::arithmetic::div_mod::lemma_small_mod(value as nat, m as nat);
    } else {
        vstd::arithmetic::div_mod::lemma_fundamental_div_mod_converse(value, m, -1, value + m);
    }
}

/// A value of a kind survives the way up to a wider signed kind and back
/// down: widening keeps it, with or without the overflow check, and cutting
/// what was widened back to the narrower kind gives the value again.
pub proof fn lemma_round_trip(narrow: Primitive, wide: Primitive, value: int, overflow_check: bool)
    requires
        narrow.is_integer(),
        wide.is_signed(),
        narrow.size() < wide.size(),
        narrow.holds(value),
    ensures
        converted(value, wide, overflow_check) == Ok::<int, ConvertError>(value),
        converted(value, narrow, false) == Ok::<int, ConvertError>(value),
        converted(value, narrow, true) == Ok::<int, ConvertError>(value),
{
    assert(wide.holds(value));
    lemma_truncated_keeps(wide, value);
    lemma_truncated_keeps(narrow, value);
}

/// A value that the kind cannot hold is refused under the overflow check;
/// without the check it is cut to a value of the kind with the same low
/// bits, which is another value.
pub proof fn lemma_overflow_policy(kind: Primitive, value: int)
    requires
        kind.is_integer(),
        !kind.holds(value),
    ensures
        converted(value, kind, true) == Err::<int, ConvertError>(ConvertError::Overflow),
        converted(value, kind, false) == Ok::<int, ConvertError>(truncated(kind, value)),
        kind.holds(truncated(kind, value)),
        truncated(kind, value) != value,
        (truncated(kind, value) - value) % kind.modulus() == 0,
{
    lemma_truncated_fits(kind, value);
}

} // verus!
