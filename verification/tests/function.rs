use jit::consts::{get_int, get_long, get_ubyte, get_uint, get_ulong, get_void, get_void_ptr};
use jit::context::Context;
use jit::control::Loop;
use jit::function::{
    Abi, BinaryOp, CompileError, Insn, Origin, UnaryOp, UncompiledFunction, Value,
};
use jit::label::Label;
use jit::layout::Primitive;
use jit::types::{Type, TypeRef};

fn kind_of<'s>(func: &UncompiledFunction<'s>, value: Value<'s>) -> Primitive {
    func.value_type(value).operand()
}

fn pointer_to_void_signature() -> Type {
    let void = get_void();
    let ptr = get_void_ptr();
    let params = [TypeRef::borrow_from(&ptr)];
    Type::new_signature(Abi::CDecl, TypeRef::borrow_from(&void), &params)
}

#[test]
fn new_context_has_opened_no_scope() {
    let ctx = Context::new();
    assert_eq!(ctx.scopes_opened(), 0);
}

#[test]
fn build_hands_on_what_the_callback_returns() {
    let mut ctx = Context::new();
    let n = ctx.build(|builder| builder.number() + 7);
    assert_eq!(n, 7);
    let m = ctx.build(|builder| builder.number());
    assert_eq!(m, 1);
    assert_eq!(ctx.scopes_opened(), 2);
}

#[test]
fn increment_byte_function_is_emitted_in_order() {
    let mut ctx = Context::new();
    let ubyte = get_ubyte();
    let compiled = ctx
        .build_func(pointer_to_void_signature(), |mut func: UncompiledFunction| {
            let data = func.get_param(0);
            let byte = func.insn_load_relative(data, 0, TypeRef::borrow_from(&ubyte));
            let three = func.insn_of(TypeRef::borrow_from(&ubyte), 3);
            let sum = func.insn_binary(BinaryOp::Add, byte, three);
            let cut = func.insn_convert(sum, TypeRef::borrow_from(&ubyte), false);
            func.insn_store_relative(data, 0, cut);
            func.insn_default_return();
            func
        })
        .unwrap();
    assert_eq!(compiled.len(), 6);
    assert_eq!(compiled.insn(0), Insn::LoadRelative { dest: 1, base: 0, offset: 0 });
    assert_eq!(compiled.insn(1), Insn::Constant { dest: 2, value: 3 });
    assert_eq!(compiled.insn(2), Insn::Binary { op: BinaryOp::Add, dest: 3, lhs: 1, rhs: 2 });
    assert_eq!(compiled.insn(3), Insn::Convert { dest: 4, value: 3, overflow_check: false });
    assert_eq!(compiled.insn(4), Insn::StoreRelative { base: 0, offset: 0, value: 4 });
    assert_eq!(compiled.insn(5), Insn::DefaultReturn);
    assert_eq!(compiled.value_count(), 5);
    assert!(compiled.value_type(0).is_pointer());
    assert_eq!(compiled.value_type(1).get_kind(), jit::kind::UBYTE);
    assert_eq!(compiled.value_type(3).get_kind(), jit::kind::UINT);
    assert_eq!(compiled.value_type(4).get_size(), 1);
    assert_eq!(compiled.signature().to_string(), "fn(*mut void) -> ()");
}

#[test]
fn label_placed_once_and_branched_to_often_compiles() {
    let mut ctx = Context::new();
    let int = get_int();
    let compiled = ctx
        .build_func(pointer_to_void_signature(), |mut func: UncompiledFunction| {
            let label = Label::new(&mut func);
            let zero = func.insn_of(TypeRef::borrow_from(&int), 0);
            func.insn_branch(&label);
            func.insn_branch_if_not(zero, &label);
            func.insn_label(&label);
            assert!(func.is_placed(&label));
            func.insn_branch(&label);
            func.insn_default_return();
            func
        })
        .unwrap();
    assert_eq!(compiled.label_count(), 1);
    assert_eq!(compiled.target(0), Some(3));
    assert_eq!(compiled.target(1), None);
}

#[test]
fn label_placed_twice_does_not_compile() {
    let mut ctx = Context::new();
    let r = ctx.build_func(pointer_to_void_signature(), |mut func: UncompiledFunction| {
        let first = Label::new(&mut func);
        let second = Label::new(&mut func);
        func.insn_label(&second);
        func.insn_label(&first);
        func.insn_label(&second);
        func.insn_label(&first);
        func
    });
    assert!(matches!(r, Err(CompileError::LabelPlacedTwice(1))));
}

#[test]
fn branch_to_unplaced_label_does_not_compile() {
    let mut ctx = Context::new();
    let r = ctx.build_func(pointer_to_void_signature(), |mut func: UncompiledFunction| {
        let placed = Label::new(&mut func);
        let unplaced = Label::new(&mut func);
        assert!(!func.is_placed(&unplaced));
        func.insn_label(&placed);
        func.insn_branch(&placed);
        func.insn_branch(&unplaced);
        func
    });
    assert!(matches!(r, Err(CompileError::UnplacedLabel(1))));
}

#[test]
fn unplaced_label_that_nothing_branches_to_compiles() {
    let mut ctx = Context::new();
    let r = ctx.build_func(pointer_to_void_signature(), |mut func: UncompiledFunction| {
        let _unused = Label::new(&mut func);
        func.insn_default_return();
        func
    });
    assert!(r.is_ok());
}

#[test]
fn label_placed_twice_is_reported_before_unplaced_label() {
    let mut ctx = Context::new();
    let r = ctx.build_func(pointer_to_void_signature(), |mut func: UncompiledFunction| {
        let twice = Label::new(&mut func);
        let never = Label::new(&mut func);
        func.insn_branch(&never);
        func.insn_label(&twice);
        func.insn_label(&twice);
        func
    });
    assert!(matches!(r, Err(CompileError::LabelPlacedTwice(0))));
}

#[test]
fn nested_loops_close_inside_out() {
    let mut ctx = Context::new();
    let ubyte = get_ubyte();
    let compiled = ctx
        .build_func(pointer_to_void_signature(), |mut func: UncompiledFunction| {
            let data = func.get_param(0);
            let a = Loop::new(&mut func, None);
            let a_start = a.start_label();
            let a_end = a.end_label();
            let cond_a = func.insn_load_relative(data, 0, TypeRef::borrow_from(&ubyte));
            func.insn_branch_if_not(cond_a, &a_end);
            let b = Loop::new(&mut func, Some(a));
            let b_start = b.start_label();
            let b_end = b.end_label();
            let cond_b = func.insn_load_relative(data, 1, TypeRef::borrow_from(&ubyte));
            func.insn_branch_if_not(cond_b, &b_end);
            let current = b.end(&mut func);
            let a = current.expect("closing the inner loop makes the outer loop current");
            assert_eq!(a.start_label(), a_start);
            assert_eq!(a.end_label(), a_end);
            assert_ne!(a_start, b_start);
            let current = a.end(&mut func);
            assert!(current.is_none());
            func.insn_default_return();
            func
        })
        .unwrap();
    assert_eq!(compiled.len(), 11);
    assert_eq!(compiled.insn(0), Insn::Label { label: 0 });
    assert_eq!(compiled.insn(2), Insn::BranchIfNot { value: 1, label: 1 });
    assert_eq!(compiled.insn(3), Insn::Label { label: 2 });
    assert_eq!(compiled.insn(5), Insn::BranchIfNot { value: 2, label: 3 });
    assert_eq!(compiled.insn(6), Insn::Branch { label: 2 });
    assert_eq!(compiled.insn(7), Insn::Label { label: 3 });
    assert_eq!(compiled.insn(8), Insn::Branch { label: 0 });
    assert_eq!(compiled.insn(9), Insn::Label { label: 1 });
    assert_eq!(compiled.target(0), Some(0));
    assert_eq!(compiled.target(2), Some(3));
    assert_eq!(compiled.target(3), Some(7));
    assert_eq!(compiled.target(1), Some(9));
}

#[test]
fn arithmetic_results_meet_at_the_wider_type() {
    let mut ctx = Context::new();
    let int = get_int();
    let uint = get_uint();
    let long = get_long();
    let ulong = get_ulong();
    let ubyte = get_ubyte();
    ctx.build(|mut builder| {
        let sig = pointer_to_void_signature();
        let mut func = UncompiledFunction::new(&mut builder, TypeRef::borrow_from(&sig));
        let i = func.insn_of(TypeRef::borrow_from(&int), 1);
        let u = func.insn_of(TypeRef::borrow_from(&uint), 1);
        let l = func.insn_of(TypeRef::borrow_from(&long), 1);
        let ul = func.insn_of(TypeRef::borrow_from(&ulong), 1);
        let b = func.insn_of(TypeRef::borrow_from(&ubyte), 1);
        let r = func.insn_binary(BinaryOp::Add, i, u);
        assert_eq!(kind_of(&func, r), Primitive::Int);
        let r = func.insn_binary(BinaryOp::Add, u, b);
        assert_eq!(kind_of(&func, r), Primitive::UInt);
        let r = func.insn_binary(BinaryOp::Mul, u, l);
        assert_eq!(kind_of(&func, r), Primitive::Long);
        let r = func.insn_binary(BinaryOp::Sub, ul, i);
        assert_eq!(kind_of(&func, r), Primitive::Long);
        let r = func.insn_binary(BinaryOp::Xor, ul, u);
        assert_eq!(kind_of(&func, r), Primitive::ULong);
        let r = func.insn_binary(BinaryOp::Lt, ul, ul);
        assert_eq!(kind_of(&func, r), Primitive::Int);
        let r = func.insn_binary(BinaryOp::Shl, b, ul);
        assert_eq!(kind_of(&func, r), Primitive::UInt);
        let r = func.insn_unary(UnaryOp::Neg, ul);
        assert_eq!(kind_of(&func, r), Primitive::Long);
        let r = func.insn_unary(UnaryOp::Not, u);
        assert_eq!(kind_of(&func, r), Primitive::UInt);
        let p = func.get_param(0);
        let r = func.insn_binary(BinaryOp::Add, p, b);
        let expected = if std::mem::size_of::<usize>() == 8 { Primitive::Long } else { Primitive::Int };
        assert_eq!(kind_of(&func, r), expected);
    });
}

#[test]
fn native_call_returns_what_the_signature_says() {
    let mut ctx = Context::new();
    let void = get_void();
    let ubyte = get_ubyte();
    let putchar_params = [TypeRef::borrow_from(&ubyte)];
    let putchar_sig = Type::new_signature(Abi::CDecl, TypeRef::borrow_from(&void), &putchar_params);
    let readchar_sig = Type::new_signature(Abi::CDecl, TypeRef::borrow_from(&ubyte), &[]);
    let compiled = ctx
        .build_func(pointer_to_void_signature(), |mut func: UncompiledFunction| {
            let data = func.get_param(0);
            let read = func.insn_call_native(
                Some("readchar"),
                0x1000,
                TypeRef::borrow_from(&readchar_sig),
                &[],
                true,
            );
            assert_eq!(func.value_type(read).get_kind(), jit::kind::UBYTE);
            func.insn_store_relative(data, 0, read);
            let nothing = func.insn_call_native(
                Some("putchar"),
                0x2000,
                TypeRef::borrow_from(&putchar_sig),
                &[read],
                true,
            );
            assert_eq!(func.value_type(nothing).get_kind(), jit::kind::VOID);
            func.insn_default_return();
            func
        })
        .unwrap();
    assert_eq!(compiled.insn(0), Insn::CallNative { dest: 1, call: 0 });
    assert_eq!(compiled.insn(2), Insn::CallNative { dest: 2, call: 1 });
}

#[test]
fn values_and_labels_of_another_function_are_not_owned() {
    let mut ctx = Context::new();
    let sig = pointer_to_void_signature();
    let int = get_int();
    ctx.build(|mut builder| {
        assert_eq!(builder.functions_made(), 0);
        let mut first = UncompiledFunction::new(&mut builder, TypeRef::borrow_from(&sig));
        let mut second = UncompiledFunction::new(&mut builder, TypeRef::borrow_from(&sig));
        assert_eq!(builder.functions_made(), 2);
        assert_eq!(first.made_as(), Origin { scope: 0, function: 0 });
        assert_eq!(second.made_as(), Origin { scope: 0, function: 1 });
        let of_first = first.get_param(0);
        let of_second = second.get_param(0);
        assert!(first.owns(of_first));
        assert!(second.owns(of_second));
        assert!(!first.owns(of_second));
        assert!(!second.owns(of_first));
        let made = first.insn_of(TypeRef::borrow_from(&int), 1);
        assert!(first.owns(made));
        assert!(!second.owns(made));
        let label = Label::new(&mut first);
        assert_eq!(label.made_in(), first.made_as());
        assert!(first.owns_label(&label));
        assert!(!second.owns_label(&label));
        let other = Label::new(&mut second);
        assert!(!first.owns_label(&other));
        assert_ne!(label, other);
    });
    ctx.build(|mut builder| {
        assert_eq!(builder.number(), 1);
        let func = UncompiledFunction::new(&mut builder, TypeRef::borrow_from(&sig));
        assert_eq!(func.made_as(), Origin { scope: 1, function: 0 });
    });
}

#[test]
fn function_starts_with_its_parameters_as_values() {
    let mut ctx = Context::new();
    let int = get_int();
    let long = get_long();
    let void = get_void();
    let params = [TypeRef::borrow_from(&int), TypeRef::borrow_from(&long)];
    let sig = Type::new_signature(Abi::CDecl, TypeRef::borrow_from(&void), &params);
    ctx.build(|mut builder| {
        let scope = builder.number();
        let mut func = UncompiledFunction::new(&mut builder, TypeRef::borrow_from(&sig));
        assert_eq!(func.made_as().scope, scope);
        assert_eq!(func.param_count(), 2);
        assert_eq!(func.value_count(), 2);
        assert_eq!(func.label_count(), 0);
        assert_eq!(func.len(), 0);
        assert!(func.signature().same(TypeRef::borrow_from(&sig)));
        let second = func.get_param(1);
        assert_eq!(second.number(), 1);
        assert!(func.value_type(second).same(TypeRef::borrow_from(&long)));
        let label = Label::new(&mut func);
        assert_eq!(*label.deref(), 0);
        assert_eq!(label.made_in().scope, scope);
        assert!(func.owns_label(&label));
        assert_eq!(func.reserve_label(), 1);
        assert_eq!(func.label_count(), 2);
        func.insn_store(func.get_param(0), func.get_param(0));
        assert_eq!(func.insn(0), Insn::Store { dest: 0, value: 0 });
        let compiled = func.compile().unwrap();
        assert_eq!(compiled.label_count(), 2);
        assert_eq!(compiled.target(0), None);
        assert_eq!(compiled.target(7), None);
    });
}

#[test]
fn context_keeps_what_it_compiled() {
    let mut ctx = Context::new();
    assert_eq!(ctx.function_count(), 0);
    let int = get_int();
    {
        let first = ctx
            .build_func(pointer_to_void_signature(), |mut func: UncompiledFunction| {
                func.insn_default_return();
                func
            })
            .unwrap();
        assert_eq!(first.len(), 1);
    }
    assert_eq!(ctx.function_count(), 1);
    let failed = ctx.build_func(pointer_to_void_signature(), |mut func: UncompiledFunction| {
        let label = Label::new(&mut func);
        func.insn_branch(&label);
        func
    });
    assert!(failed.is_err());
    assert_eq!(ctx.function_count(), 1);
    ctx.build_func(pointer_to_void_signature(), |mut func: UncompiledFunction| {
        func.insn_of(TypeRef::borrow_from(&int), 5);
        func.insn_default_return();
        func
    })
    .unwrap();
    assert_eq!(ctx.function_count(), 2);
    ctx.build(|mut builder| {
        let sig = pointer_to_void_signature();
        let func = UncompiledFunction::new(&mut builder, TypeRef::borrow_from(&sig));
        func.compile().unwrap().len()
    });
    assert_eq!(ctx.function_count(), 2);
    assert_eq!(ctx.scopes_opened(), 4);
    let first = ctx.function(0);
    let second = ctx.function(1);
    assert_eq!(first.len(), 1);
    assert_eq!(second.len(), 2);
    assert_eq!(second.insn(0), Insn::Constant { dest: 1, value: 5 });
}
