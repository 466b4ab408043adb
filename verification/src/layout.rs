//! The mathematical model of a type descriptor and of its memory layout.
//!
//! A [`Shape`] says what a type is made of. Its size, its alignment and the
//! offsets of its fields follow from the shape alone, by natural alignment:
//! every field starts at the first multiple of its own alignment that lies at
//! or after the end of the field before it.

use vstd::prelude::*;
use crate::function::Abi;
use crate::kind;

verus! {

/// The number of bytes in a machine word, which is also the size of a pointer.
pub open spec fn word_size() -> nat {
    (usize::BITS / 8) as nat
}

/// The machine word size in bytes.
pub fn word_bytes() -> (r: usize)
    ensures
        r == word_size(),
        r == 4 || r == 8,
{
    (usize::BITS / 8) as usize
}

/// The primitive kinds of value.
#[derive(Clone, Copy, PartialEq, Eq, Structural, Debug)]
pub enum Primitive {
    Void,
    SByte,
    UByte,
    Short,
    UShort,
    Int,
    UInt,
    NInt,
    NUInt,
    Long,
    ULong,
    Float32,
    Float64,
    NFloat,
}

impl Primitive {
    /// The width of a value of this kind, in bytes. These are the widths by
    /// which this library lays types out, on every machine: `Void` occupies
    /// one byte, the native integers one machine word, and the native float
    /// is stored as a 64-bit float. An engine that compiles for a machine
    /// may store a kind otherwise, most likely the native float; whoever
    /// hands types to such an engine has to see that the two agree.
    pub open spec fn size(self) -> nat {
        match self {
            Primitive::Void | Primitive::SByte | Primitive::UByte => 1,
            Primitive::Short | Primitive::UShort => 2,
            Primitive::Int | Primitive::UInt | Primitive::Float32 => 4,
            Primitive::Long | Primitive::ULong | Primitive::Float64 | Primitive::NFloat => 8,
            Primitive::NInt | Primitive::NUInt => word_size(),
        }
    }

    /// The number by which the kind is known.
    pub open spec fn code(self) -> int {
        (match self {
            Primitive::Void => kind::VOID,
            Primitive::SByte => kind::SBYTE,
            Primitive::UByte => kind::UBYTE,
            Primitive::Short => kind::SHORT,
            Primitive::UShort => kind::USHORT,
            Primitive::Int => kind::INT,
            Primitive::UInt => kind::UINT,
            Primitive::NInt => kind::NINT,
            Primitive::NUInt => kind::NUINT,
            Primitive::Long => kind::LONG,
            Primitive::ULong => kind::ULONG,
            Primitive::Float32 => kind::FLOAT32,
            Primitive::Float64 => kind::FLOAT64,
            Primitive::NFloat => kind::NFLOAT,
        }) as int
    }

    /// The number by which the kind is known.
    pub fn number(self) -> (r: i32)
        ensures
            r == self.code(),
    {
        match self {
            Primitive::Void => kind::VOID,
            Primitive::SByte => kind::SBYTE,
            Primitive::UByte => kind::UBYTE,
            Primitive::Short => kind::SHORT,
            Primitive::UShort => kind::USHORT,
            Primitive::Int => kind::INT,
            Primitive::UInt => kind::UINT,
            Primitive::NInt => kind::NINT,
            Primitive::NUInt => kind::NUINT,
            Primitive::Long => kind::LONG,
            Primitive::ULong => kind::ULONG,
            Primitive::Float32 => kind::FLOAT32,
            Primitive::Float64 => kind::FLOAT64,
            Primitive::NFloat => kind::NFLOAT,
        }
    }

    /// The width of a value of this kind, in bytes.
    pub fn width(self) -> (r: usize)
        ensures
            r == self.size(),
            1 <= r <= 8,
    {
        match self {
            Primitive::Void | Primitive::SByte | Primitive::UByte => 1,
            Primitive::Short | Primitive::UShort => 2,
            Primitive::Int | Primitive::UInt | Primitive::Float32 => 4,
            Primitive::Long | Primitive::ULong | Primitive::Float64 | Primitive::NFloat => 8,
            Primitive::NInt | Primitive::NUInt => word_bytes(),
        }
    }
}

/// What a type is made of.
pub enum Shape {
    /// A primitive value.
    Primitive(Primitive),
    /// Fields laid out one after the other.
    Struct(Seq<Slot>),
    /// Fields that share their storage.
    Union(Seq<Slot>),
    /// A function: its calling convention, what it returns and what it takes.
    Signature(Abi, Box<Shape>, Seq<Slot>),
    /// A pointer to a value of another type.
    Pointer(Box<Shape>),
    /// Another type under a tag chosen by the caller.
    Tagged(int, Box<Shape>),
}

/// One field of a struct or union, or one parameter of a signature.
pub struct Slot {
    pub ty: Shape,
    pub name: Option<Seq<char>>,
}

impl Shape {
    /// The number by which the kind of the type is known.
    pub open spec fn kind(self) -> int {
        match self {
            Shape::Primitive(p) => p.code(),
            Shape::Struct(_) => kind::STRUCT as int,
            Shape::Union(_) => kind::UNION as int,
            Shape::Signature(_, _, _) => kind::SIGNATURE as int,
            Shape::Pointer(_) => kind::POINTER as int,
            Shape::Tagged(tag, _) => kind::FIRST_TAGGED + tag,
        }
    }

    /// The size in bytes of a value of the type.
    pub open spec fn size(self) -> nat
        decreases self, 0nat,
    {
        match self {
            Shape::Primitive(p) => p.size(),
            Shape::Struct(fields) => align_up(
                struct_end(fields, fields.len()),
                max_alignment(fields, fields.len()),
            ),
            Shape::Union(fields) => align_up(
                union_extent(fields, fields.len()),
                max_alignment(fields, fields.len()),
            ),
            Shape::Signature(_, _, _) => word_size(),
            Shape::Pointer(_) => word_size(),
            Shape::Tagged(_, inner) => inner.size(),
        }
    }

    /// The alignment in bytes of a value of the type: that of a primitive is
    /// its size, that of a struct or union the largest among its fields.
    pub open spec fn alignment(self) -> nat
        decreases self, 0nat,
    {
        match self {
            Shape::Primitive(p) => p.size(),
            Shape::Struct(fields) => max_alignment(fields, fields.len()),
            Shape::Union(fields) => max_alignment(fields, fields.len()),
            Shape::Signature(_, _, _) => word_size(),
            Shape::Pointer(_) => word_size(),
            Shape::Tagged(_, inner) => inner.alignment(),
        }
    }

    /// The fields of a struct or union, in the order of construction; no other
    /// type has any.
    pub open spec fn fields(self) -> Seq<Slot> {
        match self {
            Shape::Struct(fields) => fields,
            Shape::Union(fields) => fields,
            _ => Seq::empty(),
        }
    }

    /// The parameters of a signature, in order; no other type has any.
    pub open spec fn params(self) -> Seq<Slot> {
        match self {
            Shape::Signature(_, _, params) => params,
            _ => Seq::empty(),
        }
    }

    /// The members that can carry a name: fields or parameters.
    pub open spec fn members(self) -> Seq<Slot> {
        match self {
            Shape::Struct(fields) => fields,
            Shape::Union(fields) => fields,
            Shape::Signature(_, _, params) => params,
            _ => Seq::empty(),
        }
    }

    /// The offset in bytes of field `i` from the start of a value of the type.
    pub open spec fn offset(self, i: int) -> nat {
        match self {
            Shape::Struct(fields) => field_offset(fields, i),
            _ => 0,
        }
    }

    /// What a pointer type points to; no other type points to anything.
    pub open spec fn pointee(self) -> Option<Shape> {
        match self {
            Shape::Pointer(inner) => Some(*inner),
            _ => None,
        }
    }

    /// What a signature returns; no other type returns anything.
    pub open spec fn return_type(self) -> Option<Shape> {
        match self {
            Shape::Signature(_, ret, _) => Some(*ret),
            _ => None,
        }
    }

    /// The type under the tag of a tagged type.
    pub open spec fn underlying(self) -> Option<Shape> {
        match self {
            Shape::Tagged(_, inner) => Some(*inner),
            _ => None,
        }
    }

    /// The same type with its members named in order.
    pub open spec fn with_names(self, names: Seq<Seq<char>>) -> Shape {
        match self {
            Shape::Struct(fields) => Shape::Struct(named(fields, names)),
            Shape::Union(fields) => Shape::Union(named(fields, names)),
            Shape::Signature(abi, ret, params) => Shape::Signature(abi, ret, named(params, names)),
            _ => self,
        }
    }

    /// The calling convention of a signature.
    pub open spec fn abi(self) -> Option<Abi> {
        match self {
            Shape::Signature(abi, _, _) => Some(abi),
            _ => None,
        }
    }
}

/// The larger of two numbers.
pub open spec fn max_nat(a: nat, b: nat) -> nat {
    if a >= b {
        a
    } else {
        b
    }
}

/// The least multiple of `align` that is not below `offset`.
pub open spec fn align_up(offset: nat, align: nat) -> nat
    recommends
        align > 0,
{
    if offset % align == 0 {
        offset
    } else {
        (offset + align - offset % align) as nat
    }
}

/// Where the first `n` fields of a struct end: each field is placed at the
/// first multiple of its alignment at or after the end of the one before.
pub open spec fn struct_end(fields: Seq<Slot>, n: nat) -> nat
    decreases fields, n,
{
    if n == 0 || n > fields.len() {
        0
    } else {
        let f = fields[n - 1];
        align_up(struct_end(fields, (n - 1) as nat), f.ty.alignment()) + f.ty.size()
    }
}

/// Where field `i` of a struct starts.
pub open spec fn field_offset(fields: Seq<Slot>, i: int) -> nat
    recommends
        0 <= i < fields.len(),
{
    align_up(struct_end(fields, i as nat), fields[i].ty.alignment())
}

/// The largest alignment among the first `n` fields, and at least 1.
pub open spec fn max_alignment(fields: Seq<Slot>, n: nat) -> nat
    decreases fields, n,
{
    if n == 0 || n > fields.len() {
        1
    } else {
        max_nat(max_alignment(fields, (n - 1) as nat), fields[n - 1].ty.alignment())
    }
}

/// The room that the largest of the first `n` fields of a union takes, each
/// field padded to its own alignment.
pub open spec fn union_extent(fields: Seq<Slot>, n: nat) -> nat
    decreases fields, n,
{
    if n == 0 || n > fields.len() {
        0
    } else {
        let f = fields[n - 1];
        max_nat(union_extent(fields, (n - 1) as nat), align_up(f.ty.size(), f.ty.alignment()))
    }
}

/// Members without names, one for each of the given shapes, in order.
pub open spec fn unnamed(shapes: Seq<Shape>) -> Seq<Slot> {
    Seq::new(shapes.len(), |i: int| Slot { ty: shapes[i], name: None })
}

/// The given members, each under the name at its position.
pub open spec fn named(members: Seq<Slot>, names: Seq<Seq<char>>) -> Seq<Slot> {
    Seq::new(members.len(), |i: int| Slot { ty: members[i].ty, name: Some(names[i]) })
}

/// Whether two lists of members hold the same types in the same order.
pub open spec fn same_types(a: Seq<Slot>, b: Seq<Slot>) -> bool {
    &&& a.len() == b.len()
    &&& forall|i: int| 0 <= i < a.len() ==> (#[trigger] a[i]).ty == b[i].ty
}

/// Rounds `offset` up to the next multiple of `align`, unless the result
/// would no longer fit a machine word.
pub fn checked_round_up(offset: usize, align: usize) -> (r: Option<usize>)
    requires
        align > 0,
    ensures
        match r {
            Some(v) => v == align_up(offset as nat, align as nat),
            None => align_up(offset as nat, align as nat) > usize::MAX,
        },
{
    let rem: usize = offset % align;
    if rem == 0 {
        Some(offset)
    } else {
        offset.checked_add(align - rem)
    }
}

/// Rounding up reaches a multiple of the alignment, never falls below the
/// offset, and adds less than one alignment of padding.
pub proof fn lemma_align_up(offset: nat, align: nat)
    requires
        align > 0,
    ensures
        align_up(offset, align) >= offset,
        align_up(offset, align) % align == 0,
        align_up(offset, align) - offset < align,
{
    let a = align as int;
    let r = (offset as int) % a;
    if r != 0 {
        let q = (offset as int) / a;
        vstd::arithmetic::div_mod::lemma_fundamental_div_mod(offset as int, a);
        vstd::arithmetic::div_mod::lemma_mod_multiples_basic(q + 1, a);
        vstd::arithmetic::mul::lemma_mul_is_distributive_add(a, q, 1);
        vstd::arithmetic::mul::lemma_mul_is_commutative(a, q + 1);
        assert(offset + a - r == (q + 1) * a);
    }
}

/// The largest alignment among any number of fields is at least one byte.
pub proof fn lemma_max_alignment_positive(fields: Seq<Slot>, n: nat)
    ensures
        max_alignment(fields, n) >= 1,
    decreases n,
{
    if n != 0 && n <= fields.len() {
        lemma_max_alignment_positive(fields, (n - 1) as nat);
    }
}

/// Every alignment is at least one byte.
pub proof fn lemma_alignment_positive(shape: Shape)
    ensures
        shape.alignment() >= 1,
    decreases shape,
{
    match shape {
        Shape::Primitive(_) => {},
        Shape::Struct(fields) => {
            lemma_max_alignment_positive(fields, fields.len());
        },
        Shape::Union(fields) => {
            lemma_max_alignment_positive(fields, fields.len());
        },
        Shape::Signature(_, _, _) => {},
        Shape::Pointer(_) => {},
        Shape::Tagged(_, inner) => {
            lemma_alignment_positive(*inner);
        },
    }
}

/// The end of a struct's fields only moves forward as fields are added.
pub proof fn lemma_struct_end_monotone(fields: Seq<Slot>, i: nat, n: nat)
    requires
        i <= n <= fields.len(),
    ensures
        struct_end(fields, i) <= struct_end(fields, n),
    decreases n,
{
    if i < n {
        lemma_struct_end_monotone(fields, i, (n - 1) as nat);
        let f = fields[n - 1];
        lemma_alignment_positive(f.ty);
        lemma_align_up(struct_end(fields, (n - 1) as nat), f.ty.alignment());
    }
}

/// The largest alignment only grows as fields are added, and every field's
/// alignment is below it.
pub proof fn lemma_max_alignment_bounds(fields: Seq<Slot>, i: nat, n: nat)
    requires
        i < n <= fields.len(),
    ensures
        fields[i as int].ty.alignment() <= max_alignment(fields, n),
        max_alignment(fields, n) >= 1,
    decreases n,
{
    lemma_max_alignment_positive(fields, n);
    if i + 1 < n {
        lemma_max_alignment_bounds(fields, i, (n - 1) as nat);
    }
}

/// In a struct, fields lie in the order of construction and do not overlap:
/// the offsets never decrease, every field starts at a multiple of its own
/// alignment and at or after the end of the field before it, with less than
/// one alignment of padding between the two, and all of them end within the
/// size of the struct.
pub proof fn lemma_struct_layout(fields: Seq<Slot>, i: int, j: int)
    requires
        0 <= i <= j < fields.len(),
    ensures
        field_offset(fields, i) <= field_offset(fields, j),
        field_offset(fields, j) % fields[j].ty.alignment() == 0,
        i < j ==> field_offset(fields, i) + fields[i].ty.size() <= field_offset(fields, j),
        field_offset(fields, j) - struct_end(fields, j as nat) < fields[j].ty.alignment(),
        j > 0 ==> struct_end(fields, j as nat) == field_offset(fields, j - 1)
            + fields[j - 1].ty.size(),
        field_offset(fields, j) + fields[j].ty.size() <= Shape::Struct(fields).size(),
        Shape::Struct(fields).size() % Shape::Struct(fields).alignment() == 0,
{
    let n = fields.len();
    lemma_alignment_positive(fields[j].ty);
    lemma_align_up(struct_end(fields, j as nat), fields[j].ty.alignment());
    lemma_alignment_positive(fields[i].ty);
    lemma_align_up(struct_end(fields, i as nat), fields[i].ty.alignment());
    if i < j {
        lemma_struct_end_monotone(fields, (i + 1) as nat, j as nat);
    }
    lemma_struct_end_monotone(fields, (j + 1) as nat, n);
    lemma_max_alignment_bounds(fields, j as nat, n);
    lemma_align_up(struct_end(fields, n), max_alignment(fields, n));
}

/// A struct made of the given types has one field for each of them, in the
/// order given and without a name, and the fields lie in that order: the
/// offsets never decrease, each is a multiple of the alignment of its field,
/// no field starts before the one before it ends, and every field ends
/// within the size of the struct.
pub proof fn lemma_struct_fields(shapes: Seq<Shape>, i: int, j: int)
    requires
        0 <= i <= j < shapes.len(),
    ensures
        ({
            let made = Shape::Struct(unnamed(shapes));
            &&& made.fields().len() == shapes.len()
            &&& made.fields()[i].ty == shapes[i]
            &&& made.fields()[i].name is None
            &&& made.offset(i) <= made.offset(j)
            &&& made.offset(j) % shapes[j].alignment() == 0
            &&& i < j ==> made.offset(i) + shapes[i].size() <= made.offset(j)
            &&& made.offset(j) + shapes[j].size() <= made.size()
        }),
{
    lemma_struct_layout(unnamed(shapes), i, j);
}

/// The room a union needs only grows as fields are added.
pub proof fn lemma_union_extent_monotone(fields: Seq<Slot>, i: nat, n: nat)
    requires
        i <= n <= fields.len(),
    ensures
        union_extent(fields, i) <= union_extent(fields, n),
    decreases n,
{
    if i < n {
        lemma_union_extent_monotone(fields, i, (n - 1) as nat);
    }
}

/// Names play no part in the layout: members of the same types lie at the
/// same places.
pub proof fn lemma_layout_ignores_names(a: Seq<Slot>, b: Seq<Slot>, n: nat)
    requires
        same_types(a, b),
    ensures
        struct_end(a, n) == struct_end(b, n),
        max_alignment(a, n) == max_alignment(b, n),
        union_extent(a, n) == union_extent(b, n),
    decreases n,
{
    if n != 0 && n <= a.len() {
        lemma_layout_ignores_names(a, b, (n - 1) as nat);
        assert(a[n - 1].ty == b[n - 1].ty);
    }
}

/// Naming the members of a type changes neither its size, nor its alignment,
/// nor the offset of any field.
pub proof fn lemma_names_keep_layout(shape: Shape, names: Seq<Seq<char>>)
    ensures
        shape.with_names(names).size() == shape.size(),
        shape.with_names(names).alignment() == shape.alignment(),
        shape.with_names(names).kind() == shape.kind(),
        forall|i: int|
            0 <= i < shape.fields().len() ==> #[trigger] shape.with_names(names).offset(i)
                == shape.offset(i),
{
    let members = shape.members();
    let renamed = named(members, names);
    assert(same_types(renamed, members));
    lemma_layout_ignores_names(renamed, members, members.len());
    assert forall|i: int| 0 <= i < shape.fields().len() implies #[trigger] shape.with_names(
        names,
    ).offset(i) == shape.offset(i) by {
        lemma_layout_ignores_names(renamed, members, i as nat);
    }
}

/// Once the members of a type are named, each name is found at its place:
/// member `i` carries name `i`, and if no earlier name is the same, no
/// earlier member carries it.
pub proof fn lemma_names_are_found(shape: Shape, names: Seq<Seq<char>>, i: int)
    requires
        names.len() == shape.members().len(),
        0 <= i < names.len(),
        forall|j: int| 0 <= j < i ==> names[j] != names[i],
    ensures
        shape.with_names(names).members().len() == names.len(),
        shape.with_names(names).members()[i].name == Some(names[i]),
        shape.with_names(names).members()[i].ty == shape.members()[i].ty,
        forall|j: int|
            0 <= j < i ==> (#[trigger] shape.with_names(names).members()[j]).name != Some(
                names[i],
            ),
{
}

/// Every primitive type has the width of its kind and is aligned to it: one
/// byte for the 8-bit integers and two, four and eight for the wider ones,
/// four and eight for the floats, a machine word for the native integers.
pub proof fn lemma_primitive_widths(p: Primitive)
    ensures
        Shape::Primitive(p).size() == p.size(),
        Shape::Primitive(p).alignment() == p.size(),
        p is Void || p is SByte || p is UByte ==> p.size() == 1,
        p is Short || p is UShort ==> p.size() == 2,
        p is Int || p is UInt || p is Float32 ==> p.size() == 4,
        p is Long || p is ULong || p is Float64 || p is NFloat ==> p.size() == 8,
        p is NInt || p is NUInt ==> p.size() == word_size(),
        word_size() == 4 || word_size() == 8,
{
}

} // verus!
