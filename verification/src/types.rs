//! Type descriptors: what the code generator knows of the values it handles.

use vstd::prelude::*;
use libc::c_uint;
use crate::function::Abi;
use crate::layout::{
    checked_round_up, field_offset, lemma_align_up, lemma_alignment_positive,
    lemma_layout_ignores_names, lemma_max_alignment_positive, lemma_names_keep_layout,
    lemma_struct_end_monotone, lemma_union_extent_monotone, max_alignment, named, same_types,
    struct_end, union_extent, unnamed, word_bytes, Primitive, Shape, Slot,
};
use crate::kind::{self, FIRST_TAGGED};
use crate::render::{decimal, params_text};

verus! {

/// The number by which a kind of type is known. The kind of a type under a
/// tag `t` is `FIRST_TAGGED + t`.
pub type TypeKind = i32;

/// An object that represents a native system type: a primitive, a struct, a
/// union, a pointer or a function signature. The kind, the members, the size
/// and the alignment of a type never change once it is made, and they are
/// those of its shape; only the names of its members can be set later, by
/// the owner of the type.
pub struct Type {
    node: Node,
    size: usize,
    alignment: usize,
}

enum Node {
    Primitive(Primitive),
    Struct(Vec<Member>),
    Union(Vec<Member>),
    Signature(Abi, Box<Type>, Vec<Member>),
    Pointer(Box<Type>),
    Tagged(i32, Box<Type>),
}

struct Member {
    ty: Type,
    name: Option<String>,
    offset: usize,
}

spec fn name_view(name: Option<String>) -> Option<Seq<char>> {
    match name {
        Some(s) => Some(s@),
        None => None,
    }
}

spec fn member_slots(members: Seq<Member>) -> Seq<Slot>
    decreases members,
{
    Seq::new(
        members.len(),
        |i: int|
            if 0 <= i < members.len() {
                Slot { ty: members[i].ty.shape(), name: name_view(members[i].name) }
            } else {
                arbitrary()
            },
    )
}

impl View for Type {
    type V = Shape;

    open spec fn view(&self) -> Shape {
        self.shape()
    }
}

impl Type {
    /// What the type is made of.
    pub closed spec fn shape(&self) -> Shape
        decreases self,
    {
        match self.node {
            Node::Primitive(p) => Shape::Primitive(p),
            Node::Struct(members) => Shape::Struct(member_slots(members@)),
            Node::Union(members) => Shape::Union(member_slots(members@)),
            Node::Signature(abi, ret, members) => Shape::Signature(
                abi,
                Box::new(ret.shape()),
                member_slots(members@),
            ),
            Node::Pointer(pointee) => Shape::Pointer(Box::new(pointee.shape())),
            Node::Tagged(tag, inner) => Shape::Tagged(tag as int, Box::new(inner.shape())),
        }
    }

    #[verifier::type_invariant]
    spec fn inv(&self) -> bool {
        &&& self.size == self@.size()
        &&& self.alignment == self@.alignment()
        &&& match self.node {
            Node::Struct(members) => {
                &&& members@.len() <= c_uint::MAX
                &&& forall|i: int|
                    0 <= i < members@.len() ==> (#[trigger] members@[i]).offset == field_offset(
                        member_slots(members@),
                        i,
                    )
            },
            Node::Union(members) => members@.len() <= c_uint::MAX,
            Node::Signature(_, _, members) => members@.len() <= c_uint::MAX,
            Node::Tagged(tag, _) => 0 <= tag <= i32::MAX - FIRST_TAGGED,
            _ => true,
        }
    }

    /// The descriptor of a primitive kind.
    pub fn primitive(p: Primitive) -> (r: Type)
        ensures
            r@ == Shape::Primitive(p),
    {
        let w = p.width();
        Type { node: Node::Primitive(p), size: w, alignment: w }
    }

    /// The given type under a tag that carries no payload.
    pub fn tagged(ty: TypeRef, kind: TypeKind) -> (r: Type)
        requires
            0 <= kind <= i32::MAX - FIRST_TAGGED,
        ensures
            r@ == Shape::Tagged(kind as int, Box::new(ty@)),
    {
        let size = ty.get_size();
        let alignment = ty.get_alignment();
        Type { node: Node::Tagged(kind, Box::new(ty.to_owned())), size, alignment }
    }

    /// Create a type descriptor for a structure. The fields lie in the order
    /// given, each at the first multiple of its alignment after the one
    /// before, and carry no names yet.
    pub fn new_struct(fields: &[TypeRef]) -> (r: Type)
        requires
            struct_fits(fields@),
        ensures
            r@ == Shape::Struct(unnamed(shapes(fields@))),
    {
        let plan = plan_struct(fields).unwrap();
        let members = members_of(fields, &plan.offsets);
        Type { node: Node::Struct(members), size: plan.size, alignment: plan.alignment }
    }

    /// Create a type descriptor for a union. All fields start at offset 0.
    pub fn new_union(fields: &[TypeRef]) -> (r: Type)
        requires
            union_fits(fields@),
        ensures
            r@ == Shape::Union(unnamed(shapes(fields@))),
    {
        let plan = plan_union(fields).unwrap();
        let members = members_of(fields, &plan.offsets);
        Type { node: Node::Union(members), size: plan.size, alignment: plan.alignment }
    }

    /// Create a type descriptor for a pointer to another type.
    pub fn new_pointer(pointee: TypeRef) -> (r: Type)
        ensures
            r@ == Shape::Pointer(Box::new(pointee@)),
    {
        let w = word_bytes();
        Type { node: Node::Pointer(Box::new(pointee.to_owned())), size: w, alignment: w }
    }

    /// Create a type descriptor for a function signature.
    pub fn new_signature(abi: Abi, return_type: TypeRef, params: &[TypeRef]) -> (r: Type)
        requires
            params@.len() <= c_uint::MAX,
        ensures
            r@ == Shape::Signature(abi, Box::new(return_type@), unnamed(shapes(params@))),
    {
        let w = word_bytes();
        let members = members_of(params, &Vec::new());
        Type {
            node: Node::Signature(abi, Box::new(return_type.to_owned()), members),
            size: w,
            alignment: w,
        }
    }

    /// Set the field or parameter names of this type: member `i` gets name
    /// `i`, in place of the name that it had, if it had one. The type keeps
    /// its kind, its members and its layout. What comes back is a handle to
    /// this same type, which now carries the names.
    pub fn with_names<'a>(&'a mut self, names: &[&str]) -> (r: TypeRef<'a>)
        requires
            names@.len() == old(self)@.members().len(),
        ensures
            final(self)@ == old(self)@.with_names(texts(names@)),
            r@ == final(self)@,
            final(self)@.kind() == old(self)@.kind(),
            final(self)@.size() == old(self)@.size(),
            final(self)@.alignment() == old(self)@.alignment(),
            final(self)@.members().len() == old(self)@.members().len(),
            forall|i: int|
                0 <= i < old(self)@.members().len() ==> {
                    &&& (#[trigger] final(self)@.members()[i]).ty == old(self)@.members()[i].ty
                    &&& final(self)@.members()[i].name == Some(names@[i]@)
                    &&& final(self)@.offset(i) == old(self)@.offset(i)
                },
    {
        proof {
            lemma_names_keep_layout(self@, texts(names@));
        }
        let named = TypeRef::borrow_from(&*self).named(names);
        *self = named;
        TypeRef::borrow_from(&*self)
    }

    /// Whether `new_struct` can describe a struct of these fields.
    pub fn can_make_struct(fields: &[TypeRef]) -> (b: bool)
        ensures
            b == struct_fits(fields@),
    {
        fields.len() <= c_uint::MAX as usize && plan_struct(fields).is_some()
    }

    /// Whether `new_union` can describe a union of these fields.
    pub fn can_make_union(fields: &[TypeRef]) -> (b: bool)
        ensures
            b == union_fits(fields@),
    {
        fields.len() <= c_uint::MAX as usize && plan_union(fields).is_some()
    }

    spec fn member_seq(&self) -> Seq<Member> {
        match self.node {
            Node::Struct(members) => members@,
            Node::Union(members) => members@,
            Node::Signature(_, _, members) => members@,
            _ => Seq::empty(),
        }
    }

    proof fn lemma_member_seq(&self)
        ensures
            member_slots(self.member_seq()) == self@.members(),
            self.member_seq().len() == self@.members().len(),
    {
        assert(member_slots(self.member_seq()) =~= self@.members());
    }

    fn member_list(&self) -> (r: Option<&Vec<Member>>)
        ensures
            match r {
                Some(members) => members@ == self.member_seq(),
                None => self.member_seq().len() == 0,
            },
    {
        match &self.node {
            Node::Struct(members) => Some(members),
            Node::Union(members) => Some(members),
            Node::Signature(_, _, members) => Some(members),
            _ => None,
        }
    }

    /// Gives up ownership for a handle that may also be borrowed.
    pub fn into_cow<'a>(self) -> (r: CowType<'a>)
        ensures
            r@ == self@,
            r is Owned,
    {
        CowType::Owned(self)
    }

    fn dump_text(&self) -> (r: String)
        ensures
            r@ == self@.dump(),
        decreases self,
    {
        proof {
            use_type_invariant(self);
        }
        match &self.node {
            Node::Primitive(p) => String::from_str(p.label()),
            Node::Struct(_) => {
                let mut s = String::from_str("struct<");
                s.append(decimal(self.size).as_str());
                s.append(">");
                s
            },
            Node::Union(_) => {
                let mut s = String::from_str("union<");
                s.append(decimal(self.size).as_str());
                s.append(">");
                s
            },
            Node::Signature(_, _, _) => String::from_str("signature"),
            Node::Pointer(_) => String::from_str("ptr"),
            Node::Tagged(_, inner) => inner.dump_text(),
        }
    }

    fn is_void(&self) -> (r: bool)
        ensures
            r == (self@ == Shape::Primitive(Primitive::Void)),
    {
        match &self.node {
            Node::Primitive(Primitive::Void) => true,
            _ => false,
        }
    }

    fn render(&self) -> (r: String)
        ensures
            r@ == self@.text(),
        decreases self,
    {
        match &self.node {
            Node::Pointer(pointee) => {
                let mut s = String::from_str("*mut ");
                s.append(pointee.render().as_str());
                s
            },
            Node::Signature(_, ret, members) => {
                let mut s = String::from_str("fn(");
                s.append(render_members(members).as_str());
                s.append(") -> ");
                if ret.is_void() {
                    s.append("()");
                } else {
                    s.append(ret.render().as_str());
                }
                assert(s@ =~= self@.text());
                s
            },
            _ => self.dump_text(),
        }
    }

    fn operand_kind(&self) -> (r: Primitive)
        ensures
            r == self@.operand(),
        decreases self,
    {
        match &self.node {
            Node::Primitive(p) => *p,
            Node::Struct(_) => Primitive::Void,
            Node::Union(_) => Primitive::Void,
            Node::Signature(_, _, _) => Primitive::NInt,
            Node::Pointer(_) => Primitive::NInt,
            Node::Tagged(_, inner) => inner.operand_kind(),
        }
    }

    fn same(&self, other: &Type) -> (r: bool)
        ensures
            r == (self@ == other@),
        decreases self,
    {
        match (&self.node, &other.node) {
            (Node::Primitive(p), Node::Primitive(q)) => *p == *q,
            (Node::Struct(a), Node::Struct(b)) => same_members(a, b),
            (Node::Union(a), Node::Union(b)) => same_members(a, b),
            (Node::Signature(abi, ret, a), Node::Signature(other_abi, other_ret, b)) => {
                *abi == *other_abi && ret.same(other_ret) && same_members(a, b)
            },
            (Node::Pointer(a), Node::Pointer(b)) => a.same(b),
            (Node::Tagged(tag, a), Node::Tagged(other_tag, b)) => *tag == *other_tag && a.same(b),
            _ => false,
        }
    }
}

impl Clone for Type {
    /// Makes a copy of the descriptor.
    fn clone(&self) -> (r: Type)
        ensures
            r@ == self@,
        decreases self,
    {
        proof {
            use_type_invariant(self);
        }
        let node = match &self.node {
            Node::Primitive(p) => Node::Primitive(*p),
            Node::Struct(members) => Node::Struct(clone_members(members)),
            Node::Union(members) => Node::Union(clone_members(members)),
            Node::Signature(abi, ret, members) => Node::Signature(
                *abi,
                Box::new((&**ret).clone()),
                clone_members(members),
            ),
            Node::Pointer(pointee) => Node::Pointer(Box::new((&**pointee).clone())),
            Node::Tagged(tag, inner) => Node::Tagged(*tag, Box::new((&**inner).clone())),
        };
        Type { node, size: self.size, alignment: self.alignment }
    }
}

/// A borrowed type descriptor.
#[derive(Clone, Copy)]
pub struct TypeRef<'a> {
    ty: &'a Type,
}

impl<'a> View for TypeRef<'a> {
    type V = Shape;

    open spec fn view(&self) -> Shape {
        self.shape()
    }
}

/// The shapes of the given types, in order.
pub open spec fn shapes(types: Seq<TypeRef>) -> Seq<Shape> {
    Seq::new(types.len(), |i: int| types[i]@)
}

/// Whether a struct of the given field types can be described: its fields can
/// be counted in 32 bits and its size fits a machine word.
pub open spec fn struct_fits(fields: Seq<TypeRef>) -> bool {
    &&& fields.len() <= c_uint::MAX
    &&& Shape::Struct(unnamed(shapes(fields))).size() <= usize::MAX
}

/// Whether a union of the given field types can be described.
pub open spec fn union_fits(fields: Seq<TypeRef>) -> bool {
    &&& fields.len() <= c_uint::MAX
    &&& Shape::Union(unnamed(shapes(fields))).size() <= usize::MAX
}

/// The texts of the given names, in order.
pub open spec fn texts(names: Seq<&str>) -> Seq<Seq<char>> {
    Seq::new(names.len(), |i: int| names[i]@)
}

impl<'a> TypeRef<'a> {
    /// What the type is made of.
    pub closed spec fn shape(&self) -> Shape {
        self.ty@
    }

    /// Borrows an owned descriptor.
    pub fn borrow_from(owned: &'a Type) -> (r: TypeRef<'a>)
        ensures
            r@ == owned@,
    {
        TypeRef { ty: owned }
    }

    /// Makes an owned copy of the descriptor.
    pub fn to_owned(&self) -> (r: Type)
        ensures
            r@ == self@,
    {
        self.ty.clone()
    }

    /// Get the size of this type in bytes.
    pub fn get_size(self) -> (r: usize)
        ensures
            r == self@.size(),
    {
        proof {
            use_type_invariant(self.ty);
        }
        self.ty.size
    }

    /// Get the alignment of this type in bytes.
    pub fn get_alignment(self) -> (r: usize)
        ensures
            r == self@.alignment(),
            r >= 1,
    {
        proof {
            use_type_invariant(self.ty);
            crate::layout::lemma_alignment_positive(self@);
        }
        self.ty.alignment
    }

    /// Wraps the borrowed handle.
    pub fn into_cow(self) -> (r: CowType<'a>)
        ensures
            r@ == self@,
            r is Borrowed,
    {
        CowType::Borrowed(self)
    }

    /// Get a value that indicates the kind of this type. This allows callers to
    /// quickly classify a type to determine how it should be handled further.
    pub fn get_kind(self) -> (r: TypeKind)
        ensures
            r == self@.kind(),
    {
        proof {
            use_type_invariant(self.ty);
        }
        match &self.ty.node {
            Node::Primitive(p) => p.number(),
            Node::Struct(_) => kind::STRUCT,
            Node::Union(_) => kind::UNION,
            Node::Signature(_, _, _) => kind::SIGNATURE,
            Node::Pointer(_) => kind::POINTER,
            Node::Tagged(tag, _) => FIRST_TAGGED + *tag,
        }
    }

    /// Get the type that is referred to by this pointer type.
    pub fn get_ref(self) -> (r: Option<TypeRef<'a>>)
        ensures
            match r {
                Some(t) => self@.pointee() == Some(t@),
                None => self@.pointee() is None,
            },
    {
        match &self.ty.node {
            Node::Pointer(pointee) => Some(TypeRef { ty: &**pointee }),
            _ => None,
        }
    }

    /// Get the type returned by this function type.
    pub fn get_return(self) -> (r: Option<TypeRef<'a>>)
        ensures
            match r {
                Some(t) => self@.return_type() == Some(t@),
                None => self@.return_type() is None,
            },
    {
        match &self.ty.node {
            Node::Signature(_, ret, _) => Some(TypeRef { ty: &**ret }),
            _ => None,
        }
    }

    /// Check if this is a primitive
    pub fn is_primitive(self) -> (r: bool)
        ensures
            r == (self@ is Primitive),
    {
        match &self.ty.node {
            Node::Primitive(_) => true,
            _ => false,
        }
    }

    /// Check if this is a struct
    pub fn is_struct(self) -> (r: bool)
        ensures
            r == (self@ is Struct),
    {
        match &self.ty.node {
            Node::Struct(_) => true,
            _ => false,
        }
    }

    /// Check if this is a union
    pub fn is_union(self) -> (r: bool)
        ensures
            r == (self@ is Union),
    {
        match &self.ty.node {
            Node::Union(_) => true,
            _ => false,
        }
    }

    /// Check if this is a signature
    pub fn is_signature(self) -> (r: bool)
        ensures
            r == (self@ is Signature),
    {
        match &self.ty.node {
            Node::Signature(_, _, _) => true,
            _ => false,
        }
    }

    /// Check if this is a pointer
    pub fn is_pointer(self) -> (r: bool)
        ensures
            r == (self@ is Pointer),
    {
        match &self.ty.node {
            Node::Pointer(_) => true,
            _ => false,
        }
    }

    /// Check if this is tagged
    pub fn is_tagged(self) -> (r: bool)
        ensures
            r == (self@ is Tagged),
    {
        match &self.ty.node {
            Node::Tagged(_, _) => true,
            _ => false,
        }
    }

    /// Iterator over the type's fields
    pub fn fields(self) -> (r: Fields<'a>)
        ensures
            r.owner() == self@,
            r.position() == 0,
    {
        Fields::new(self)
    }

    /// Iterator over the function signature's parameters
    pub fn params(self) -> (r: Params<'a>)
        ensures
            r.owner() == self@,
            r.position() == 0,
    {
        Params::new(self)
    }

    /// Makes a copy of this type that carries the given names, one for each
    /// member, in order. The type behind this handle is borrowed and stays as
    /// it is; to name a type itself, use `Type::with_names` on its owner.
    pub fn named(self, names: &[&str]) -> (r: Type)
        requires
            names@.len() == self@.members().len(),
        ensures
            r@ == self@.with_names(texts(names@)),
            r@.size() == self@.size(),
            r@.alignment() == self@.alignment(),
    {
        proof {
            use_type_invariant(self.ty);
            self.ty.lemma_member_seq();
            lemma_names_keep_layout(self@, texts(names@));
        }
        let ghost before = self@.members();
        let ghost after = named(before, texts(names@));
        proof {
            assert(same_types(after, before));
            assert forall|i: int| 0 <= i < before.len() implies field_offset(after, i)
                == field_offset(before, i) by {
                lemma_layout_ignores_names(after, before, i as nat);
            }
        }
        let node = match &self.ty.node {
            Node::Struct(members) => Node::Struct(rename(members, names)),
            Node::Union(members) => Node::Union(rename(members, names)),
            Node::Signature(abi, ret, members) => Node::Signature(
                *abi,
                Box::new((&**ret).clone()),
                rename(members, names),
            ),
            _ => {
                return self.ty.clone();
            },
        };
        Type { node, size: self.ty.size, alignment: self.ty.alignment }
    }

    /// Find the field or parameter of a particular name: the first one that
    /// carries it, if any does.
    pub fn get_field(self, name: &str) -> (r: Option<Field<'a>>)
        ensures
            match r {
                Some(field) => {
                    &&& field.owner() == self@
                    &&& field.position() < self@.members().len()
                    &&& self@.members()[field.position() as int].name == Some(name@)
                    &&& forall|j: int|
                        0 <= j < field.position() ==> (#[trigger] self@.members()[j]).name != Some(
                            name@,
                        )
                },
                None => forall|j: int|
                    0 <= j < self@.members().len() ==> (#[trigger] self@.members()[j]).name != Some(
                        name@,
                    ),
            },
    {
        proof {
            use_type_invariant(self.ty);
            self.ty.lemma_member_seq();
        }
        let members = match self.ty.member_list() {
            Some(members) => members,
            None => {
                return None;
            },
        };
        let wanted: String = name.to_owned();
        let mut i: usize = 0;
        while i < members.len()
            invariant
                members@ == self.ty.member_seq(),
                member_slots(members@) == self@.members(),
                members@.len() <= c_uint::MAX,
                wanted@ == name@,
                i <= members@.len(),
                forall|j: int|
                    0 <= j < i ==> (#[trigger] self@.members()[j]).name != Some(name@),
            decreases members.len() - i,
        {
            let found = match &members[i].name {
                Some(s) => *s == wanted,
                None => false,
            };
            assert(self@.members()[i as int].name == name_view(members@[i as int].name));
            if found {
                return Some(Field { index: i as c_uint, owner: self });
            }
            i += 1;
        }
        None
    }

    /// How the type reads: a pointer as `*mut` and what it points to, a
    /// signature as `fn(..) -> ..`, any other type by its structural name.
    pub fn to_string(&self) -> (r: String)
        ensures
            r@ == self@.text(),
    {
        self.ty.render()
    }

    /// The primitive kind as which a value of the type is handled.
    pub fn operand(self) -> (r: Primitive)
        ensures
            r == self@.operand(),
    {
        self.ty.operand_kind()
    }

    /// Get the calling convention of this function type.
    pub fn get_abi(self) -> (r: Option<Abi>)
        ensures
            r == self@.abi(),
    {
        match &self.ty.node {
            Node::Signature(abi, _, _) => Some(*abi),
            _ => None,
        }
    }

    /// Get the type that this type is a tagged version of.
    pub fn get_tagged_type(self) -> (r: Option<TypeRef<'a>>)
        ensures
            match r {
                Some(t) => self@.underlying() == Some(t@),
                None => self@.underlying() is None,
            },
    {
        match &self.ty.node {
            Node::Tagged(_, inner) => Some(TypeRef { ty: &**inner }),
            _ => None,
        }
    }

    /// Whether two descriptors describe the same type: the same kind, made
    /// of the same types in the same order, under the same names.
    pub fn same(self, other: TypeRef) -> (r: bool)
        ensures
            r == (self@ == other@),
    {
        self.ty.same(other.ty)
    }
}

/// A type descriptor that is either owned or borrowed.
pub enum CowType<'a> {
    Owned(Type),
    Borrowed(TypeRef<'a>),
}

impl<'a> View for CowType<'a> {
    type V = Shape;

    open spec fn view(&self) -> Shape {
        match self {
            CowType::Owned(ty) => ty@,
            CowType::Borrowed(ty) => ty@,
        }
    }
}

impl<'a> CowType<'a> {
    /// Borrows the descriptor, whoever owns it.
    pub fn get<'b>(&'b self) -> (r: TypeRef<'b>) where 'a: 'b
        ensures
            r@ == self@,
    {
        match self {
            CowType::Owned(ty) => TypeRef::borrow_from(ty),
            CowType::Borrowed(ty) => *ty,
        }
    }
}

/// A single field of a struct or union, or a parameter found by its name.
pub struct Field<'a> {
    index: c_uint,
    owner: TypeRef<'a>,
}

impl<'a> Field<'a> {
    #[verifier::type_invariant]
    spec fn inv(&self) -> bool {
        self.index < self.owner@.members().len()
    }

    /// The position of the field among the members of its type.
    pub closed spec fn position(&self) -> nat {
        self.index as nat
    }

    /// The type that the field belongs to.
    pub closed spec fn owner(&self) -> Shape {
        self.owner@
    }

    /// What the type says of the field.
    pub open spec fn slot(&self) -> Slot {
        self.owner().members()[self.position() as int]
    }

    /// The index of the field
    pub fn index(&self) -> (r: c_uint)
        ensures
            r == self.position(),
            r < self.owner().members().len(),
    {
        proof {
            use_type_invariant(self);
        }
        self.index
    }

    fn member(&self) -> (r: &'a Member)
        ensures
            r.ty@ == self.slot().ty,
            name_view(r.name) == self.slot().name,
            self.owner() is Struct ==> r.offset == self.owner().offset(self.position() as int),
    {
        proof {
            use_type_invariant(self);
            use_type_invariant(self.owner.ty);
            self.owner.ty.lemma_member_seq();
        }
        let members = self.owner.ty.member_list().unwrap();
        &members[self.index as usize]
    }

    /// Get the field's name or none if it lacks one
    pub fn get_name(&self) -> (r: Option<&'a str>)
        ensures
            match r {
                Some(s) => self.slot().name == Some(s@),
                None => self.slot().name is None,
            },
    {
        match &self.member().name {
            Some(s) => Some(s.as_str()),
            None => None,
        }
    }

    /// Get the type of the field
    pub fn get_type(&self) -> (r: Type)
        ensures
            r@ == self.slot().ty,
    {
        self.member().ty.clone()
    }

    /// Get the offset of the field
    pub fn get_offset(&self) -> (r: usize)
        ensures
            r == self.owner().offset(self.position() as int),
    {
        if self.owner.is_struct() {
            self.member().offset
        } else {
            0
        }
    }
}

/// Iterates through all the fields of a struct
pub struct Fields<'a> {
    owner: TypeRef<'a>,
    index: c_uint,
    length: c_uint,
}

impl<'a> Fields<'a> {
    #[verifier::type_invariant]
    spec fn inv(&self) -> bool {
        &&& self.index <= self.length
        &&& self.length == self.owner@.fields().len()
    }

    /// The type whose fields are handed out.
    pub closed spec fn owner(&self) -> Shape {
        self.owner@
    }

    /// How many fields have been handed out.
    pub closed spec fn position(&self) -> nat {
        self.index as nat
    }

    fn new(ty: TypeRef<'a>) -> (r: Fields<'a>)
        ensures
            r.owner() == ty@,
            r.position() == 0,
    {
        proof {
            use_type_invariant(ty.ty);
            ty.ty.lemma_member_seq();
        }
        let length: c_uint = match &ty.ty.node {
            Node::Struct(members) => members.len() as c_uint,
            Node::Union(members) => members.len() as c_uint,
            _ => 0,
        };
        Fields { owner: ty, index: 0, length }
    }

    /// Hands out the next field, in the order of construction, until each
    /// field of the type has been handed out once.
    pub fn next(&mut self) -> (r: Option<Field<'a>>)
        ensures
            final(self).owner() == old(self).owner(),
            match r {
                Some(field) => {
                    &&& old(self).position() < old(self).owner().fields().len()
                    &&& field.position() == old(self).position()
                    &&& field.owner() == old(self).owner()
                    &&& final(self).position() == old(self).position() + 1
                },
                None => {
                    &&& old(self).position() == old(self).owner().fields().len()
                    &&& final(self).position() == old(self).position()
                },
            },
    {
        proof {
            use_type_invariant(&*self);
        }
        if self.index < self.length {
            let index = self.index;
            self.index += 1;
            Some(Field { index, owner: self.owner })
        } else {
            None
        }
    }

    /// How many fields are still to come, at least.
    pub fn size_hint(&self) -> (r: (usize, Option<usize>))
        ensures
            r.0 == self.owner().fields().len() - self.position(),
            r.1 is None,
    {
        proof {
            use_type_invariant(self);
        }
        ((self.length - self.index) as usize, None)
    }

    /// Hands out all the fields that are still to come, in order.
    pub fn collect(self) -> (r: Vec<Field<'a>>)
        ensures
            r@.len() == self.owner().fields().len() - self.position(),
            forall|i: int|
                0 <= i < r@.len() ==> {
                    &&& (#[trigger] r@[i]).position() == self.position() + i
                    &&& r@[i].owner() == self.owner()
                },
    {
        proof {
            use_type_invariant(&self);
        }
        let mut out: Vec<Field<'a>> = Vec::new();
        let mut index: c_uint = self.index;
        while index < self.length
            invariant
                self.index <= index <= self.length,
                self.length == self.owner@.fields().len(),
                out@.len() == index - self.index,
                forall|i: int|
                    0 <= i < out@.len() ==> {
                        &&& (#[trigger] out@[i]).position() == self.index + i
                        &&& out@[i].owner() == self.owner()
                    },
            decreases self.length - index,
        {
            out.push(Field { index, owner: self.owner });
            index += 1;
        }
        out
    }
}

/// Iterator through all the arguments a function takes
pub struct Params<'a> {
    owner: TypeRef<'a>,
    index: c_uint,
    length: c_uint,
}

impl<'a> Params<'a> {
    #[verifier::type_invariant]
    spec fn inv(&self) -> bool {
        &&& self.index <= self.length
        &&& self.length == self.owner@.params().len()
    }

    /// The signature whose parameters are handed out.
    pub closed spec fn owner(&self) -> Shape {
        self.owner@
    }

    /// How many parameters have been handed out.
    pub closed spec fn position(&self) -> nat {
        self.index as nat
    }

    fn new(ty: TypeRef<'a>) -> (r: Params<'a>)
        ensures
            r.owner() == ty@,
            r.position() == 0,
    {
        proof {
            use_type_invariant(ty.ty);
            ty.ty.lemma_member_seq();
        }
        let length: c_uint = match &ty.ty.node {
            Node::Signature(_, _, members) => members.len() as c_uint,
            _ => 0,
        };
        Params { owner: ty, index: 0, length }
    }

    /// Hands out the type of the next parameter, in order, until each
    /// parameter of the signature has been handed out once.
    pub fn next(&mut self) -> (r: Option<Type>)
        ensures
            final(self).owner() == old(self).owner(),
            match r {
                Some(ty) => {
                    &&& old(self).position() < old(self).owner().params().len()
                    &&& ty@ == old(self).owner().params()[old(self).position() as int].ty
                    &&& final(self).position() == old(self).position() + 1
                },
                None => {
                    &&& old(self).position() == old(self).owner().params().len()
                    &&& final(self).position() == old(self).position()
                },
            },
    {
        proof {
            use_type_invariant(&*self);
            self.owner.ty.lemma_member_seq();
        }
        if self.index < self.length {
            let index = self.index;
            self.index += 1;
            let members = self.owner.ty.member_list().unwrap();
            Some(members[index as usize].ty.clone())
        } else {
            None
        }
    }

    /// How many parameters are still to come, at least.
    pub fn size_hint(&self) -> (r: (usize, Option<usize>))
        ensures
            r.0 == self.owner().params().len() - self.position(),
            r.1 is None,
    {
        proof {
            use_type_invariant(self);
        }
        ((self.length - self.index) as usize, None)
    }
}

/// A type under a tag of the caller's choosing, together with a payload that
/// the tagged type owns. The payload is released with the descriptor.
pub struct TaggedType<T> {
    ty: Type,
    data: Box<T>,
}

impl<T> View for TaggedType<T> {
    type V = Shape;

    open spec fn view(&self) -> Shape {
        self.shape()
    }
}

impl<T> TaggedType<T> where T: 'static {
    #[verifier::type_invariant]
    spec fn inv(&self) -> bool {
        self.ty@ is Tagged
    }

    /// What the tagged type is made of.
    pub closed spec fn shape(&self) -> Shape {
        self.ty@
    }

    /// The payload that the tagged type holds.
    pub closed spec fn payload(&self) -> T {
        *self.data
    }

    /// Create a new tagged type
    pub fn new(ty: TypeRef, kind: TypeKind, data: Box<T>) -> (r: TaggedType<T>)
        requires
            0 <= kind <= i32::MAX - FIRST_TAGGED,
        ensures
            r@ == Shape::Tagged(kind as int, Box::new(ty@)),
            r.payload() == *data,
    {
        TaggedType { ty: Type::tagged(ty, kind), data }
    }

    /// Get the data this is tagged to
    pub fn get_tagged_data(&self) -> (r: Option<&T>)
        ensures
            r == Some(&self.payload()),
    {
        Some(&*self.data)
    }

    /// Get the type this is tagged to
    pub fn get_tagged_type(&self) -> (r: TypeRef)
        ensures
            self@.underlying() == Some(r@),
    {
        proof {
            use_type_invariant(self);
        }
        match &self.ty.node {
            Node::Tagged(_, inner) => TypeRef { ty: &**inner },
            _ => unreached(),
        }
    }

    /// Change the data this is tagged to
    pub fn set_tagged_data(&mut self, data: Box<T>)
        ensures
            final(self)@ == old(self)@,
            final(self).payload() == *data,
    {
        proof {
            use_type_invariant(&*self);
        }
        self.data = data;
    }

    /// The tagged type as a plain descriptor.
    pub fn deref(&self) -> (r: &Type)
        ensures
            r@ == self@,
    {
        &self.ty
    }
}

struct Plan {
    offsets: Vec<usize>,
    size: usize,
    alignment: usize,
}

fn clone_members(members: &Vec<Member>) -> (r: Vec<Member>)
    ensures
        r@.len() == members@.len(),
        member_slots(r@) == member_slots(members@),
        forall|i: int| 0 <= i < r@.len() ==> (#[trigger] r@[i]).offset == members@[i].offset,
    decreases members,
{
    let mut out: Vec<Member> = Vec::new();
    let mut i: usize = 0;
    while i < members.len()
        invariant
            i <= members.len(),
            out@.len() == i,
            forall|j: int|
                0 <= j < i ==> {
                    &&& (#[trigger] out@[j]).ty@ == members@[j].ty@
                    &&& name_view(out@[j].name) == name_view(members@[j].name)
                    &&& out@[j].offset == members@[j].offset
                },
        decreases members.len() - i,
    {
        let m = &members[i];
        let name = match &m.name {
            Some(s) => Some(s.clone()),
            None => None,
        };
        out.push(Member { ty: m.ty.clone(), name, offset: m.offset });
        i += 1;
    }
    assert(member_slots(out@) =~= member_slots(members@));
    out
}

/// Lays the fields of a struct out one after the other. `None` when the
/// struct would be larger than a machine word can say.
fn plan_struct(fields: &[TypeRef]) -> (r: Option<Plan>)
    ensures
        match r {
            Some(p) => {
                &&& p.offsets@.len() == fields@.len()
                &&& forall|i: int|
                    0 <= i < fields@.len() ==> #[trigger] p.offsets@[i] == field_offset(
                        unnamed(shapes(fields@)),
                        i,
                    )
                &&& p.size == Shape::Struct(unnamed(shapes(fields@))).size()
                &&& p.alignment == Shape::Struct(unnamed(shapes(fields@))).alignment()
            },
            None => Shape::Struct(unnamed(shapes(fields@))).size() > usize::MAX,
        },
{
    let ghost slots = unnamed(shapes(fields@));
    let n = fields.len();
    let mut offsets: Vec<usize> = Vec::new();
    let mut end: usize = 0;
    let mut alignment: usize = 1;
    let mut i: usize = 0;
    while i < n
        invariant
            n == fields@.len(),
            slots == unnamed(shapes(fields@)),
            i <= n,
            end == struct_end(slots, i as nat),
            alignment == max_alignment(slots, i as nat),
            offsets@.len() == i,
            forall|j: int| 0 <= j < i ==> #[trigger] offsets@[j] == field_offset(slots, j),
        decreases n - i,
    {
        let field = fields[i];
        let field_size = field.get_size();
        let field_alignment = field.get_alignment();
        assert(slots[i as int].ty == field@);
        proof {
            lemma_struct_end_monotone(slots, (i + 1) as nat, n as nat);
            lemma_max_alignment_positive(slots, n as nat);
            lemma_align_up(struct_end(slots, n as nat), max_alignment(slots, n as nat));
        }
        let start = match checked_round_up(end, field_alignment) {
            Some(v) => v,
            None => {
                return None;
            },
        };
        end = match start.checked_add(field_size) {
            Some(v) => v,
            None => {
                return None;
            },
        };
        offsets.push(start);
        if field_alignment > alignment {
            alignment = field_alignment;
        }
        i += 1;
    }
    proof {
        lemma_max_alignment_positive(slots, n as nat);
    }
    match checked_round_up(end, alignment) {
        Some(size) => Some(Plan { offsets, size, alignment }),
        None => None,
    }
}

/// Finds the room that the fields of a union need. `None` when the union
/// would be larger than a machine word can say.
fn plan_union(fields: &[TypeRef]) -> (r: Option<Plan>)
    ensures
        match r {
            Some(p) => {
                &&& p.offsets@.len() == 0
                &&& p.size == Shape::Union(unnamed(shapes(fields@))).size()
                &&& p.alignment == Shape::Union(unnamed(shapes(fields@))).alignment()
            },
            None => Shape::Union(unnamed(shapes(fields@))).size() > usize::MAX,
        },
{
    let ghost slots = unnamed(shapes(fields@));
    let n = fields.len();
    let mut extent: usize = 0;
    let mut alignment: usize = 1;
    let mut i: usize = 0;
    while i < n
        invariant
            n == fields@.len(),
            slots == unnamed(shapes(fields@)),
            i <= n,
            extent == union_extent(slots, i as nat),
            alignment == max_alignment(slots, i as nat),
        decreases n - i,
    {
        let field = fields[i];
        let field_size = field.get_size();
        let field_alignment = field.get_alignment();
        assert(slots[i as int].ty == field@);
        proof {
            lemma_union_extent_monotone(slots, (i + 1) as nat, n as nat);
            lemma_max_alignment_positive(slots, n as nat);
            lemma_align_up(union_extent(slots, n as nat), max_alignment(slots, n as nat));
        }
        let padded = match checked_round_up(field_size, field_alignment) {
            Some(v) => v,
            None => {
                return None;
            },
        };
        if padded > extent {
            extent = padded;
        }
        if field_alignment > alignment {
            alignment = field_alignment;
        }
        i += 1;
    }
    proof {
        lemma_max_alignment_positive(slots, n as nat);
    }
    match checked_round_up(extent, alignment) {
        Some(size) => Some(Plan { offsets: Vec::new(), size, alignment }),
        None => None,
    }
}

/// Owned members for the given types, in order and without names. Member
/// `i` gets `offsets[i]` where offsets are given, and 0 where none are.
fn members_of(fields: &[TypeRef], offsets: &Vec<usize>) -> (r: Vec<Member>)
    requires
        offsets@.len() == fields@.len() || offsets@.len() == 0,
    ensures
        r@.len() == fields@.len(),
        member_slots(r@) == unnamed(shapes(fields@)),
        forall|i: int|
            0 <= i < r@.len() ==> (#[trigger] r@[i]).offset == (if offsets@.len() == 0 {
                0
            } else {
                offsets@[i]
            }),
{
    let mut members: Vec<Member> = Vec::new();
    let mut i: usize = 0;
    while i < fields.len()
        invariant
            offsets@.len() == fields@.len() || offsets@.len() == 0,
            i <= fields@.len(),
            members@.len() == i,
            forall|j: int|
                0 <= j < i ==> {
                    &&& (#[trigger] members@[j]).ty@ == fields@[j]@
                    &&& members@[j].name is None
                    &&& members@[j].offset == (if offsets@.len() == 0 {
                        0
                    } else {
                        offsets@[j]
                    })
                },
        decreases fields.len() - i,
    {
        let offset = if offsets.len() == 0 {
            0
        } else {
            offsets[i]
        };
        members.push(Member { ty: fields[i].to_owned(), name: None, offset });
        i += 1;
    }
    assert(member_slots(members@) =~= unnamed(shapes(fields@)));
    members
}

fn rename(members: &Vec<Member>, names: &[&str]) -> (r: Vec<Member>)
    requires
        names@.len() == members@.len(),
    ensures
        r@.len() == members@.len(),
        member_slots(r@) == named(member_slots(members@), texts(names@)),
        forall|i: int| 0 <= i < r@.len() ==> (#[trigger] r@[i]).offset == members@[i].offset,
{
    let mut out: Vec<Member> = Vec::new();
    let mut i: usize = 0;
    while i < members.len()
        invariant
            names@.len() == members@.len(),
            i <= members@.len(),
            out@.len() == i,
            forall|j: int|
                0 <= j < i ==> {
                    &&& (#[trigger] out@[j]).ty@ == members@[j].ty@
                    &&& name_view(out@[j].name) == Some(names@[j]@)
                    &&& out@[j].offset == members@[j].offset
                },
        decreases members.len() - i,
    {
        let m = &members[i];
        let name: String = names[i].to_owned();
        out.push(Member { ty: m.ty.clone(), name: Some(name), offset: m.offset });
        i += 1;
    }
    assert(member_slots(out@) =~= named(member_slots(members@), texts(names@)));
    out
}

fn render_members(members: &Vec<Member>) -> (r: String)
    ensures
        r@ == params_text(member_slots(members@), members@.len()),
    decreases members,
{
    let ghost slots = member_slots(members@);
    let mut s = String::new();
    let mut i: usize = 0;
    while i < members.len()
        invariant
            slots == member_slots(members@),
            i <= members@.len(),
            s@ == params_text(slots, i as nat),
        decreases members.len() - i,
    {
        let part = members[i].ty.render();
        assert(slots[i as int].ty == members@[i as int].ty@);
        s.append(part.as_str());
        i += 1;
    }
    s
}

fn same_name(a: &Option<String>, b: &Option<String>) -> (r: bool)
    ensures
        r == (name_view(*a) == name_view(*b)),
{
    match (a, b) {
        (Some(x), Some(y)) => *x == *y,
        (None, None) => true,
        _ => false,
    }
}

fn same_members(a: &Vec<Member>, b: &Vec<Member>) -> (r: bool)
    ensures
        r == (member_slots(a@) == member_slots(b@)),
    decreases a,
{
    if a.len() != b.len() {
        assert(member_slots(a@).len() != member_slots(b@).len());
        return false;
    }
    let mut i: usize = 0;
    while i < a.len()
        invariant
            a@.len() == b@.len(),
            i <= a@.len(),
            forall|k: int| 0 <= k < i ==> member_slots(a@)[k] == member_slots(b@)[k],
        decreases a.len() - i,
    {
        let same = a[i].ty.same(&b[i].ty) && same_name(&a[i].name, &b[i].name);
        if !same {
            assert(member_slots(a@)[i as int] != member_slots(b@)[i as int]);
            return false;
        }
        i += 1;
    }
    assert(member_slots(a@) =~= member_slots(b@));
    true
}

} // verus!
