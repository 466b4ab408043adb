//! The integer representation of the kind of a type.

use vstd::prelude::*;

verus! {

/// The kind of the type of nothing.
pub const VOID: i32 = 0;

/// The kind of the signed 8-bit integer.
pub const SBYTE: i32 = 1;

/// The kind of the unsigned 8-bit integer.
pub const UBYTE: i32 = 2;

/// The kind of the signed 16-bit integer.
pub const SHORT: i32 = 3;

/// The kind of the unsigned 16-bit integer.
pub const USHORT: i32 = 4;

/// The kind of the signed 32-bit integer.
pub const INT: i32 = 5;

/// The kind of the unsigned 32-bit integer.
pub const UINT: i32 = 6;

/// The kind of the signed integer of one machine word.
pub const NINT: i32 = 7;

/// The kind of the unsigned integer of one machine word.
pub const NUINT: i32 = 8;

/// The kind of the signed 64-bit integer.
pub const LONG: i32 = 9;

/// The kind of the unsigned 64-bit integer.
pub const ULONG: i32 = 10;

/// The kind of the 32-bit float.
pub const FLOAT32: i32 = 11;

/// The kind of the 64-bit float.
pub const FLOAT64: i32 = 12;

/// The kind of the native float.
pub const NFLOAT: i32 = 13;

/// The kind of the structs.
pub const STRUCT: i32 = 14;

/// The kind of the unions.
pub const UNION: i32 = 15;

/// The kind of the function signatures.
pub const SIGNATURE: i32 = 16;

/// The kind of the pointers.
pub const POINTER: i32 = 17;

/// The kind of a type under tag `t` is `FIRST_TAGGED + t`.
pub const FIRST_TAGGED: i32 = 32;

/// The tag of the system's `bool`.
pub const SYS_BOOL: i32 = 10009;

/// The tag of the system's `char`.
pub const SYS_CHAR: i32 = 10010;

/// The tag of the system's `signed char`.
pub const SYS_SCHAR: i32 = 10011;

/// The tag of the system's `unsigned char`.
pub const SYS_UCHAR: i32 = 10012;

/// The tag of the system's `short`.
pub const SYS_SHORT: i32 = 10013;

/// The tag of the system's `unsigned short`.
pub const SYS_USHORT: i32 = 10014;

/// The tag of the system's `int`.
pub const SYS_INT: i32 = 10015;

/// The tag of the system's `unsigned int`.
pub const SYS_UINT: i32 = 10016;

/// The tag of the system's `long`.
pub const SYS_LONG: i32 = 10017;

/// The tag of the system's `unsigned long`.
pub const SYS_ULONG: i32 = 10018;

/// The tag of the system's `long long`.
pub const SYS_LONGLONG: i32 = 10019;

/// The tag of the system's `unsigned long long`.
pub const SYS_ULONGLONG: i32 = 10020;

/// The tag of the system's `float`.
pub const SYS_FLOAT: i32 = 10021;

/// The tag of the system's `double`.
pub const SYS_DOUBLE: i32 = 10022;

/// The tag of the system's `long double`.
pub const SYS_LONG_DOUBLE: i32 = 10023;

} // verus!
