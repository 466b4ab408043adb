use jit::compile::get;
use jit::consts::{
    get_float32, get_float64, get_int, get_long, get_nfloat, get_nint, get_nuint, get_sbyte,
    get_short, get_sys_bool, get_sys_char, get_sys_double, get_sys_float, get_sys_int,
    get_sys_long, get_sys_long_double, get_sys_longlong, get_sys_schar, get_sys_short,
    get_sys_uchar, get_sys_uint, get_sys_ulong, get_sys_ulonglong, get_sys_ushort, get_ubyte,
    get_uint, get_ulong, get_ushort, get_void, get_void_ptr,
};
use jit::function::Abi;
use jit::kind;
use jit::layout::{checked_round_up, word_bytes, Primitive};
use jit::render::decimal;
use jit::types::{CowType, TaggedType, Type, TypeRef};

fn word() -> usize {
    std::mem::size_of::<usize>()
}

fn size_and_alignment(ty: &Type) -> (usize, usize) {
    let r = TypeRef::borrow_from(ty);
    (r.get_size(), r.get_alignment())
}

#[test]
fn primitive_constants_have_their_native_width() {
    assert_eq!(size_and_alignment(&get_void()), (1, 1));
    assert_eq!(size_and_alignment(&get_sbyte()), (1, 1));
    assert_eq!(size_and_alignment(&get_ubyte()), (1, 1));
    assert_eq!(size_and_alignment(&get_short()), (2, 2));
    assert_eq!(size_and_alignment(&get_ushort()), (2, 2));
    assert_eq!(size_and_alignment(&get_int()), (4, 4));
    assert_eq!(size_and_alignment(&get_uint()), (4, 4));
    assert_eq!(size_and_alignment(&get_long()), (8, 8));
    assert_eq!(size_and_alignment(&get_ulong()), (8, 8));
    assert_eq!(size_and_alignment(&get_float32()), (4, 4));
    assert_eq!(size_and_alignment(&get_float64()), (8, 8));
    assert_eq!(size_and_alignment(&get_nfloat()), (8, 8));
    assert_eq!(size_and_alignment(&get_nint()), (word(), word()));
    assert_eq!(size_and_alignment(&get_nuint()), (word(), word()));
    assert_eq!(size_and_alignment(&get_void_ptr()), (word(), word()));
    assert_eq!(word_bytes(), word());
}

#[test]
fn primitive_constants_have_their_kind() {
    let kinds = [
        (get_void(), kind::VOID),
        (get_sbyte(), kind::SBYTE),
        (get_ubyte(), kind::UBYTE),
        (get_short(), kind::SHORT),
        (get_ushort(), kind::USHORT),
        (get_int(), kind::INT),
        (get_uint(), kind::UINT),
        (get_nint(), kind::NINT),
        (get_nuint(), kind::NUINT),
        (get_long(), kind::LONG),
        (get_ulong(), kind::ULONG),
        (get_float32(), kind::FLOAT32),
        (get_float64(), kind::FLOAT64),
        (get_nfloat(), kind::NFLOAT),
        (get_void_ptr(), kind::POINTER),
    ];
    for (ty, expected) in kinds.iter() {
        let r = TypeRef::borrow_from(ty);
        assert_eq!(r.get_kind(), *expected);
        assert_eq!(r.is_primitive(), *expected <= kind::NFLOAT);
        assert!(!r.is_tagged());
    }
}

#[test]
fn system_types_are_primitives_under_a_tag() {
    let cases = [
        (get_sys_bool(), kind::SYS_BOOL, 1, "ubyte"),
        (get_sys_char(), kind::SYS_CHAR, 1, "sbyte"),
        (get_sys_schar(), kind::SYS_SCHAR, 1, "sbyte"),
        (get_sys_uchar(), kind::SYS_UCHAR, 1, "ubyte"),
        (get_sys_short(), kind::SYS_SHORT, 2, "short"),
        (get_sys_ushort(), kind::SYS_USHORT, 2, "ushort"),
        (get_sys_int(), kind::SYS_INT, 4, "int"),
        (get_sys_uint(), kind::SYS_UINT, 4, "uint"),
        (get_sys_longlong(), kind::SYS_LONGLONG, 8, "long"),
        (get_sys_ulonglong(), kind::SYS_ULONGLONG, 8, "ulong"),
        (get_sys_float(), kind::SYS_FLOAT, 4, "float32"),
        (get_sys_double(), kind::SYS_DOUBLE, 8, "float64"),
        (get_sys_long_double(), kind::SYS_LONG_DOUBLE, 8, "nfloat"),
    ];
    for (ty, tag, size, name) in cases.iter() {
        let r = TypeRef::borrow_from(ty);
        assert_eq!(r.get_kind(), kind::FIRST_TAGGED + *tag);
        assert!(r.is_tagged());
        assert!(!r.is_primitive());
        assert_eq!(r.get_size(), *size);
        assert_eq!(r.get_alignment(), *size);
        assert_eq!(r.to_string(), *name);
    }
    let long = get_sys_long();
    let ulong = get_sys_ulong();
    assert_eq!(TypeRef::borrow_from(&long).get_size(), word());
    assert_eq!(TypeRef::borrow_from(&ulong).get_size(), word());
    assert_eq!(TypeRef::borrow_from(&long).get_kind(), kind::FIRST_TAGGED + kind::SYS_LONG);
    assert_eq!(TypeRef::borrow_from(&ulong).get_kind(), kind::FIRST_TAGGED + kind::SYS_ULONG);
    let expected = if word() == 8 { Primitive::Long } else { Primitive::Int };
    assert_eq!(TypeRef::borrow_from(&long).operand(), expected);
}

#[test]
fn struct_pads_to_natural_alignment() {
    let a = get_ubyte();
    let b = get_int();
    let fields = [TypeRef::borrow_from(&a), TypeRef::borrow_from(&b), TypeRef::borrow_from(&a)];
    assert!(Type::can_make_struct(&fields));
    let s = Type::new_struct(&fields);
    let r = TypeRef::borrow_from(&s);
    assert!(r.is_struct());
    assert_eq!(r.get_kind(), kind::STRUCT);
    assert_eq!(r.get_size(), 12);
    assert_eq!(r.get_alignment(), 4);
    let all = r.fields().collect();
    assert_eq!(all.len(), 3);
    assert_eq!(all[0].get_offset(), 0);
    assert_eq!(all[1].get_offset(), 4);
    assert_eq!(all[2].get_offset(), 8);
    assert_eq!(r.to_string(), "struct<12>");
}

#[test]
fn fields_come_in_the_order_of_construction() {
    let types = [get_ubyte(), get_long(), get_short(), get_ubyte(), get_int(), get_ubyte()];
    let refs: Vec<TypeRef> = types.iter().map(TypeRef::borrow_from).collect();
    let s = Type::new_struct(&refs);
    let r = TypeRef::borrow_from(&s);
    let mut it = r.fields();
    assert_eq!(it.size_hint(), (6, None));
    let mut seen = 0;
    let mut end_of_last = 0;
    let mut last_offset = 0;
    while let Some(field) = it.next() {
        assert_eq!(field.index() as usize, seen);
        let ty = field.get_type();
        let t = TypeRef::borrow_from(&ty);
        assert_eq!(t.get_kind(), refs[seen].get_kind());
        let offset = field.get_offset();
        assert!(offset >= last_offset);
        assert!(offset >= end_of_last);
        assert_eq!(offset % t.get_alignment(), 0);
        assert!(offset - end_of_last < t.get_alignment());
        assert!(field.get_name().is_none());
        last_offset = offset;
        end_of_last = offset + t.get_size();
        seen += 1;
        assert_eq!(it.size_hint(), (6 - seen, None));
    }
    assert_eq!(seen, 6);
    assert!(it.next().is_none());
    assert_eq!(r.get_size(), 32);
    assert_eq!(r.get_alignment(), 8);
    let offsets: Vec<usize> = r.fields().collect().iter().map(|f| f.get_offset()).collect();
    assert_eq!(offsets, vec![0, 8, 16, 18, 20, 24]);
}

#[test]
fn empty_struct_has_no_size() {
    let s = Type::new_struct(&[]);
    let r = TypeRef::borrow_from(&s);
    assert_eq!(r.get_size(), 0);
    assert_eq!(r.get_alignment(), 1);
    assert!(r.fields().next().is_none());
    assert_eq!(r.fields().collect().len(), 0);
    assert_eq!(r.to_string(), "struct<0>");
}

#[test]
fn struct_in_struct_keeps_its_alignment() {
    let a = get_ubyte();
    let l = get_long();
    let inner = Type::new_struct(&[TypeRef::borrow_from(&a), TypeRef::borrow_from(&l)]);
    assert_eq!(size_and_alignment(&inner), (16, 8));
    let outer = Type::new_struct(&[TypeRef::borrow_from(&a), TypeRef::borrow_from(&inner)]);
    assert_eq!(size_and_alignment(&outer), (24, 8));
    let fields = TypeRef::borrow_from(&outer).fields().collect();
    assert_eq!(fields[1].get_offset(), 8);
    let again = fields[1].get_type();
    assert!(TypeRef::borrow_from(&again).is_struct());
    assert_eq!(TypeRef::borrow_from(&again).get_size(), 16);
}

#[test]
fn union_fields_share_their_storage() {
    let a = get_ubyte();
    let b = get_int();
    let c = get_short();
    let fields = [TypeRef::borrow_from(&a), TypeRef::borrow_from(&b), TypeRef::borrow_from(&c)];
    assert!(Type::can_make_union(&fields));
    let u = Type::new_union(&fields);
    let r = TypeRef::borrow_from(&u);
    assert!(r.is_union());
    assert!(!r.is_struct());
    assert_eq!(r.get_kind(), kind::UNION);
    assert_eq!(r.get_size(), 4);
    assert_eq!(r.get_alignment(), 4);
    let all = r.fields().collect();
    assert_eq!(all.len(), 3);
    for field in all.iter() {
        assert_eq!(field.get_offset(), 0);
    }
    assert_eq!(r.to_string(), "union<4>");
    let s = Type::new_struct(&[TypeRef::borrow_from(&a), TypeRef::borrow_from(&b), TypeRef::borrow_from(&a)]);
    let l = get_long();
    let v = Type::new_union(&[TypeRef::borrow_from(&s), TypeRef::borrow_from(&l)]);
    assert_eq!(size_and_alignment(&v), (16, 8));
}

#[test]
fn pointer_knows_what_it_points_to() {
    let i = get_int();
    let p = Type::new_pointer(TypeRef::borrow_from(&i));
    let r = TypeRef::borrow_from(&p);
    assert!(r.is_pointer());
    assert_eq!(r.get_kind(), kind::POINTER);
    assert_eq!(r.get_size(), word());
    assert_eq!(r.get_alignment(), word());
    let pointee = r.get_ref().unwrap();
    assert_eq!(pointee.get_kind(), kind::INT);
    assert!(TypeRef::borrow_from(&i).get_ref().is_none());
    assert!(r.get_return().is_none());
    assert_eq!(r.to_string(), "*mut int");
    let pp = Type::new_pointer(r);
    assert_eq!(TypeRef::borrow_from(&pp).to_string(), "*mut *mut int");
    assert_eq!(r.fields().collect().len(), 0);
    assert!(r.params().next().is_none());
}

#[test]
fn signature_knows_its_return_and_parameters() {
    let v = get_void();
    let i = get_int();
    let l = get_long();
    let p = Type::new_pointer(TypeRef::borrow_from(&i));
    let params = [TypeRef::borrow_from(&p), TypeRef::borrow_from(&i)];
    let sig = Type::new_signature(Abi::CDecl, TypeRef::borrow_from(&v), &params);
    let r = TypeRef::borrow_from(&sig);
    assert!(r.is_signature());
    assert_eq!(r.get_kind(), kind::SIGNATURE);
    assert_eq!(r.get_size(), word());
    assert_eq!(r.get_alignment(), word());
    assert_eq!(r.get_return().unwrap().get_kind(), kind::VOID);
    assert!(r.get_ref().is_none());
    let mut it = r.params();
    assert_eq!(it.size_hint(), (2, None));
    let first = it.next().unwrap();
    assert!(TypeRef::borrow_from(&first).is_pointer());
    assert_eq!(it.size_hint(), (1, None));
    let second = it.next().unwrap();
    assert_eq!(TypeRef::borrow_from(&second).get_kind(), kind::INT);
    assert!(it.next().is_none());
    assert!(it.next().is_none());
    assert_eq!(r.fields().collect().len(), 0);
    assert_eq!(r.to_string(), "fn(*mut intint) -> ()");
    let returning = Type::new_signature(Abi::StdCall, TypeRef::borrow_from(&l), &[]);
    assert_eq!(TypeRef::borrow_from(&returning).to_string(), "fn() -> long");
    let to_sig = Type::new_pointer(r);
    assert_eq!(TypeRef::borrow_from(&to_sig).to_string(), "*mut fn(*mut intint) -> ()");
    let in_struct = Type::new_struct(&[r]);
    assert_eq!(TypeRef::borrow_from(&in_struct).get_size(), word());
}

#[test]
fn names_are_set_on_the_type_itself() {
    let a = get_ubyte();
    let b = get_int();
    let mut s = Type::new_struct(&[TypeRef::borrow_from(&a), TypeRef::borrow_from(&b), TypeRef::borrow_from(&a)]);
    assert!(TypeRef::borrow_from(&s).get_field("x").is_none());
    let (size, alignment) = size_and_alignment(&s);
    let offsets_before: Vec<usize> =
        TypeRef::borrow_from(&s).fields().collect().iter().map(|f| f.get_offset()).collect();
    let unnamed = s.clone();
    {
        let handle = s.with_names(&["x", "y", "z"]);
        assert_eq!(handle.get_field("y").unwrap().index(), 1);
        assert_eq!(handle.get_kind(), kind::STRUCT);
    }
    let n = TypeRef::borrow_from(&s);
    assert!(!n.same(TypeRef::borrow_from(&unnamed)));
    assert_eq!(n.get_size(), size);
    assert_eq!(n.get_alignment(), alignment);
    assert_eq!(n.get_kind(), kind::STRUCT);
    let all = n.fields().collect();
    assert_eq!(all.len(), 3);
    let names = ["x", "y", "z"];
    for (i, field) in all.iter().enumerate() {
        assert_eq!(field.get_name(), Some(names[i]));
        assert_eq!(field.get_offset(), offsets_before[i]);
        let found = n.get_field(names[i]).unwrap();
        assert_eq!(found.index() as usize, i);
        assert_eq!(found.get_offset(), offsets_before[i]);
    }
    assert_eq!(TypeRef::borrow_from(&all[1].get_type()).get_kind(), kind::INT);
    assert!(n.get_field("w").is_none());
    assert!(n.get_field("").is_none());
    s.with_names(&["p", "q", "r"]);
    let m = TypeRef::borrow_from(&s);
    assert!(m.get_field("x").is_none());
    assert_eq!(m.get_field("r").unwrap().index(), 2);
    assert_eq!(m.get_field("r").unwrap().get_offset(), 8);
    assert_eq!(m.get_size(), size);
}

#[test]
fn a_name_given_twice_is_found_at_its_first_place() {
    let a = get_ubyte();
    let b = get_int();
    let mut s = Type::new_struct(&[TypeRef::borrow_from(&a), TypeRef::borrow_from(&b), TypeRef::borrow_from(&a)]);
    s.with_names(&["x", "y", "x"]);
    let n = TypeRef::borrow_from(&s);
    let all = n.fields().collect();
    assert_eq!(all[0].get_name(), Some("x"));
    assert_eq!(all[1].get_name(), Some("y"));
    assert_eq!(all[2].get_name(), Some("x"));
    assert_eq!(n.get_field("x").unwrap().index(), 0);
    assert_eq!(n.get_field("y").unwrap().index(), 1);
}

#[test]
fn parameters_and_union_fields_carry_names_too() {
    let v = get_void();
    let i = get_int();
    let mut sig = Type::new_signature(Abi::CDecl, TypeRef::borrow_from(&v), &[TypeRef::borrow_from(&i), TypeRef::borrow_from(&i)]);
    sig.with_names(&["left", "right"]);
    let n = TypeRef::borrow_from(&sig);
    assert!(n.is_signature());
    let right = n.get_field("right").unwrap();
    assert_eq!(right.index(), 1);
    assert_eq!(right.get_name(), Some("right"));
    assert_eq!(right.get_offset(), 0);
    assert_eq!(n.get_return().unwrap().get_kind(), kind::VOID);
    assert_eq!(n.get_abi(), Some(Abi::CDecl));
    assert_eq!(n.to_string(), "fn(intint) -> ()");
    let mut u = Type::new_union(&[TypeRef::borrow_from(&i)]);
    u.with_names(&["only"]);
    assert_eq!(TypeRef::borrow_from(&u).get_field("only").unwrap().get_offset(), 0);
    let mut plain = get_int();
    plain.with_names(&[]);
    assert_eq!(TypeRef::borrow_from(&plain).get_kind(), kind::INT);
    assert!(TypeRef::borrow_from(&plain).same(TypeRef::borrow_from(&i)));
}

#[test]
fn a_named_copy_leaves_the_borrowed_type_as_it_is() {
    let a = get_ubyte();
    let b = get_int();
    let s = Type::new_struct(&[TypeRef::borrow_from(&a), TypeRef::borrow_from(&b)]);
    let r = TypeRef::borrow_from(&s);
    let copy = r.named(&["x", "y"]);
    let c = TypeRef::borrow_from(&copy);
    assert_eq!(c.get_field("y").unwrap().index(), 1);
    assert_eq!(c.get_field("y").unwrap().get_offset(), 4);
    assert_eq!(c.get_size(), r.get_size());
    assert_eq!(c.get_alignment(), r.get_alignment());
    assert!(r.get_field("y").is_none());
    assert!(r.fields().collect()[0].get_name().is_none());
}

#[test]
fn owned_and_borrowed_handles_give_the_same_type() {
    let i = get_int();
    let borrowed = TypeRef::borrow_from(&i).into_cow();
    assert!(matches!(borrowed, CowType::Borrowed(_)));
    assert_eq!(borrowed.get().get_kind(), kind::INT);
    let owned = TypeRef::borrow_from(&i).to_owned().into_cow();
    assert!(matches!(owned, CowType::Owned(_)));
    assert_eq!(owned.get().get_size(), 4);
    let copy = i.clone();
    assert_eq!(TypeRef::borrow_from(&copy).get_kind(), kind::INT);
    let s = Type::new_struct(&[TypeRef::borrow_from(&i), TypeRef::borrow_from(&i)]);
    let named = TypeRef::borrow_from(&s).named(&["a", "b"]);
    let copy = named.clone();
    let c = TypeRef::borrow_from(&copy);
    assert_eq!(c.get_size(), 8);
    assert_eq!(c.get_field("b").unwrap().get_offset(), 4);
}

#[test]
fn tagged_type_holds_its_payload() {
    let i = get_int();
    let mut tagged = TaggedType::new(TypeRef::borrow_from(&i), 7, Box::new(String::from("first")));
    assert_eq!(tagged.get_tagged_data().map(|s| s.as_str()), Some("first"));
    assert_eq!(tagged.get_tagged_type().get_kind(), kind::INT);
    let as_type = TypeRef::borrow_from(tagged.deref());
    assert!(as_type.is_tagged());
    assert_eq!(as_type.get_kind(), kind::FIRST_TAGGED + 7);
    assert_eq!(as_type.get_size(), 4);
    assert_eq!(as_type.get_alignment(), 4);
    assert_eq!(as_type.to_string(), "int");
    assert_eq!(as_type.operand(), Primitive::Int);
    tagged.set_tagged_data(Box::new(String::from("second")));
    assert_eq!(tagged.get_tagged_data().map(|s| s.as_str()), Some("second"));
    assert_eq!(tagged.get_tagged_type().get_kind(), kind::INT);
    let p = get_void_ptr();
    let tagged_pointer = Type::tagged(TypeRef::borrow_from(&p), 0);
    let r = TypeRef::borrow_from(&tagged_pointer);
    assert_eq!(r.get_kind(), kind::FIRST_TAGGED);
    assert_eq!(r.to_string(), "ptr");
    assert!(!r.is_pointer());
    assert!(r.get_ref().is_none());
    let v = get_void();
    let sig = Type::new_signature(Abi::CDecl, TypeRef::borrow_from(&v), &[]);
    let tagged_sig = Type::tagged(TypeRef::borrow_from(&sig), 1);
    assert_eq!(TypeRef::borrow_from(&tagged_sig).to_string(), "signature");
    let twice = Type::tagged(TypeRef::borrow_from(&tagged_sig), 2);
    assert_eq!(TypeRef::borrow_from(&twice).to_string(), "signature");
    assert_eq!(TypeRef::borrow_from(&twice).get_kind(), kind::FIRST_TAGGED + 2);
}

#[test]
fn host_types_have_descriptors() {
    assert_eq!(get::<()>().get().get_kind(), kind::VOID);
    assert_eq!(get::<i8>().get().get_kind(), kind::SBYTE);
    assert_eq!(get::<u8>().get().get_kind(), kind::UBYTE);
    assert_eq!(get::<i16>().get().get_kind(), kind::SHORT);
    assert_eq!(get::<u16>().get().get_kind(), kind::USHORT);
    assert_eq!(get::<i32>().get().get_kind(), kind::INT);
    assert_eq!(get::<u32>().get().get_kind(), kind::UINT);
    assert_eq!(get::<i64>().get().get_kind(), kind::LONG);
    assert_eq!(get::<u64>().get().get_kind(), kind::ULONG);
    assert_eq!(get::<isize>().get().get_kind(), kind::NINT);
    assert_eq!(get::<usize>().get().get_kind(), kind::NUINT);
    assert_eq!(get::<bool>().get().get_kind(), kind::FIRST_TAGGED + kind::SYS_BOOL);
    assert_eq!(get::<char>().get().get_kind(), kind::FIRST_TAGGED + kind::SYS_CHAR);
    assert_eq!(get::<u8>().get().get_size(), std::mem::size_of::<u8>());
    assert_eq!(get::<i16>().get().get_size(), std::mem::size_of::<i16>());
    assert_eq!(get::<u32>().get().get_size(), std::mem::size_of::<u32>());
    assert_eq!(get::<i64>().get().get_size(), std::mem::size_of::<i64>());
    assert_eq!(get::<usize>().get().get_size(), std::mem::size_of::<usize>());
}

#[test]
fn numbers_are_written_in_decimal() {
    assert_eq!(decimal(0), "0");
    assert_eq!(decimal(7), "7");
    assert_eq!(decimal(10), "10");
    assert_eq!(decimal(1234567890), "1234567890");
    assert_eq!(decimal(usize::MAX), usize::MAX.to_string());
}

#[test]
fn rounding_up_reaches_the_next_multiple() {
    assert_eq!(checked_round_up(0, 4), Some(0));
    assert_eq!(checked_round_up(1, 4), Some(4));
    assert_eq!(checked_round_up(4, 4), Some(4));
    assert_eq!(checked_round_up(5, 1), Some(5));
    assert_eq!(checked_round_up(usize::MAX, 1), Some(usize::MAX));
    assert_eq!(checked_round_up(usize::MAX, 2), None);
    assert_eq!(checked_round_up(usize::MAX - 1, 2), Some(usize::MAX - 1));
}

#[test]
fn operand_kinds_follow_the_type_under_the_tags() {
    let i = get_int();
    let s = Type::new_struct(&[TypeRef::borrow_from(&i)]);
    let p = get_void_ptr();
    assert_eq!(TypeRef::borrow_from(&i).operand(), Primitive::Int);
    assert_eq!(TypeRef::borrow_from(&s).operand(), Primitive::Void);
    assert_eq!(TypeRef::borrow_from(&p).operand(), Primitive::NInt);
    assert_eq!(TypeRef::borrow_from(&get_sys_bool()).operand(), Primitive::UByte);
    assert_eq!(Primitive::NFloat.to_working(), Primitive::Float64);
    assert_eq!(Primitive::SByte.to_working(), Primitive::Int);
    assert_eq!(Primitive::UShort.to_working(), Primitive::UInt);
    assert_eq!(jit::typing::join(Primitive::Float32, Primitive::Long), Primitive::Float32);
    assert_eq!(jit::typing::join(Primitive::Float32, Primitive::NFloat), Primitive::Float64);
    assert_eq!(jit::typing::join(Primitive::Void, Primitive::Int), Primitive::NFloat);
    assert_eq!(jit::typing::join_bits(Primitive::Float32, Primitive::Int), Primitive::Long);
    assert_eq!(jit::typing::negate(Primitive::UByte), Primitive::Int);
    assert_eq!(jit::typing::negate(Primitive::Float32), Primitive::Float32);
}

#[test]
fn same_types_are_told_from_different_ones() {
    let i = get_int();
    let u = get_uint();
    let ri = TypeRef::borrow_from(&i);
    let ru = TypeRef::borrow_from(&u);
    assert!(ri.same(ri));
    assert!(!ri.same(ru));
    let a = Type::new_struct(&[ri, ru]);
    let b = Type::new_struct(&[ri, ru]);
    let c = Type::new_struct(&[ru, ri]);
    let d = Type::new_struct(&[ri]);
    let e = Type::new_union(&[ri, ru]);
    assert!(TypeRef::borrow_from(&a).same(TypeRef::borrow_from(&b)));
    assert!(!TypeRef::borrow_from(&a).same(TypeRef::borrow_from(&c)));
    assert!(!TypeRef::borrow_from(&a).same(TypeRef::borrow_from(&d)));
    assert!(!TypeRef::borrow_from(&a).same(TypeRef::borrow_from(&e)));
    let named = TypeRef::borrow_from(&a).named(&["x", "y"]);
    let again = TypeRef::borrow_from(&b).named(&["x", "y"]);
    let other = TypeRef::borrow_from(&b).named(&["x", "z"]);
    assert!(!TypeRef::borrow_from(&named).same(TypeRef::borrow_from(&a)));
    assert!(TypeRef::borrow_from(&named).same(TypeRef::borrow_from(&again)));
    assert!(!TypeRef::borrow_from(&named).same(TypeRef::borrow_from(&other)));
    assert!(TypeRef::borrow_from(&named.clone()).same(TypeRef::borrow_from(&named)));
    let p = Type::new_pointer(ri);
    let q = Type::new_pointer(ru);
    assert!(TypeRef::borrow_from(&p).same(TypeRef::borrow_from(&Type::new_pointer(ri))));
    assert!(!TypeRef::borrow_from(&p).same(TypeRef::borrow_from(&q)));
    assert!(!TypeRef::borrow_from(&p).same(ri));
    let v = get_void();
    let rv = TypeRef::borrow_from(&v);
    let s1 = Type::new_signature(Abi::CDecl, rv, &[ri]);
    let s2 = Type::new_signature(Abi::FastCall, rv, &[ri]);
    let s3 = Type::new_signature(Abi::CDecl, ri, &[ri]);
    let s4 = Type::new_signature(Abi::CDecl, rv, &[ri]);
    assert!(TypeRef::borrow_from(&s1).same(TypeRef::borrow_from(&s4)));
    assert!(!TypeRef::borrow_from(&s1).same(TypeRef::borrow_from(&s2)));
    assert!(!TypeRef::borrow_from(&s1).same(TypeRef::borrow_from(&s3)));
    let t1 = Type::tagged(ri, 1);
    let t2 = Type::tagged(ri, 2);
    assert!(TypeRef::borrow_from(&t1).same(TypeRef::borrow_from(&Type::tagged(ri, 1))));
    assert!(!TypeRef::borrow_from(&t1).same(TypeRef::borrow_from(&t2)));
    assert!(!TypeRef::borrow_from(&t1).same(ri));
}

#[test]
fn signature_knows_its_convention_and_a_tag_what_it_is_on() {
    let v = get_void();
    let i = get_int();
    let sig = Type::new_signature(Abi::VarArg, TypeRef::borrow_from(&v), &[]);
    assert_eq!(TypeRef::borrow_from(&sig).get_abi(), Some(Abi::VarArg));
    assert_eq!(TypeRef::borrow_from(&i).get_abi(), None);
    assert!(TypeRef::borrow_from(&i).get_tagged_type().is_none());
    let tagged = Type::tagged(TypeRef::borrow_from(&sig), 3);
    let under = TypeRef::borrow_from(&tagged).get_tagged_type().unwrap();
    assert!(under.is_signature());
    assert_eq!(TypeRef::borrow_from(&tagged).get_abi(), None);
    assert_eq!(Primitive::UShort.number(), kind::USHORT);
    assert_eq!(Primitive::NFloat.width(), 8);
    assert_eq!(Primitive::Float32.label(), "float32");
}
