use jit::bracket::{build, compile, count, Host};
use jit::consts::{get_ubyte, get_void};
use jit::context::Context;
use jit::function::{Abi, BinaryOp, CompileError, Insn, UncompiledFunction};
use jit::types::{Type, TypeRef};

const HOST: Host = Host { putchar: 0x1000, readchar: 0x2000 };

#[test]
fn count_measures_a_run() {
    let code = b"+++-";
    assert_eq!(count(code, 0), 3);
    assert_eq!(count(code, 1), 2);
    assert_eq!(count(code, 2), 1);
    assert_eq!(count(code, 3), 1);
}

#[test]
fn count_stops_at_the_end_of_the_script() {
    assert_eq!(count(b">>>>", 0), 4);
    assert_eq!(count(b">", 0), 1);
}

#[test]
fn increment_by_three_loads_adds_cuts_and_stores() {
    let mut ctx = Context::new();
    let compiled = build(&mut ctx, b"+++", &HOST).unwrap();
    assert_eq!(compiled.signature().to_string(), "fn(*mut ubyte) -> ()");
    assert_eq!(compiled.len(), 6);
    assert_eq!(compiled.insn(0), Insn::Constant { dest: 1, value: 3 });
    assert_eq!(compiled.insn(1), Insn::LoadRelative { dest: 2, base: 0, offset: 0 });
    assert_eq!(compiled.insn(2), Insn::Binary { op: BinaryOp::Add, dest: 3, lhs: 2, rhs: 1 });
    assert_eq!(compiled.insn(3), Insn::Convert { dest: 4, value: 3, overflow_check: false });
    assert_eq!(compiled.insn(4), Insn::StoreRelative { base: 0, offset: 0, value: 4 });
    assert_eq!(compiled.insn(5), Insn::DefaultReturn);
    assert_eq!(compiled.value_type(1).get_kind(), jit::kind::NUINT);
    assert_eq!(compiled.value_type(2).get_kind(), jit::kind::UBYTE);
    assert_eq!(compiled.value_type(4).get_kind(), jit::kind::UBYTE);
    assert_eq!(compiled.value_type(4).get_size(), 1);
}

#[test]
fn print_and_decrement_until_zero_is_wired_as_a_loop() {
    let mut ctx = Context::new();
    let compiled = build(&mut ctx, b"[.-]", &HOST).unwrap();
    assert_eq!(compiled.len(), 13);
    assert_eq!(compiled.insn(0), Insn::Label { label: 0 });
    assert_eq!(compiled.insn(1), Insn::LoadRelative { dest: 1, base: 0, offset: 0 });
    assert_eq!(compiled.insn(2), Insn::BranchIfNot { value: 1, label: 1 });
    assert_eq!(compiled.insn(3), Insn::LoadRelative { dest: 2, base: 0, offset: 0 });
    assert_eq!(compiled.insn(4), Insn::CallNative { dest: 3, call: 0 });
    assert_eq!(compiled.insn(5), Insn::Constant { dest: 4, value: 1 });
    assert_eq!(compiled.insn(6), Insn::LoadRelative { dest: 5, base: 0, offset: 0 });
    assert_eq!(compiled.insn(7), Insn::Binary { op: BinaryOp::Sub, dest: 6, lhs: 5, rhs: 4 });
    assert_eq!(compiled.insn(8), Insn::Convert { dest: 7, value: 6, overflow_check: false });
    assert_eq!(compiled.insn(9), Insn::StoreRelative { base: 0, offset: 0, value: 7 });
    assert_eq!(compiled.insn(10), Insn::Branch { label: 0 });
    assert_eq!(compiled.insn(11), Insn::Label { label: 1 });
    assert_eq!(compiled.insn(12), Insn::DefaultReturn);
    assert_eq!(compiled.target(0), Some(0));
    assert_eq!(compiled.target(1), Some(11));
    assert_eq!(compiled.call_count(), 1);
    assert_eq!(compiled.call_target(0), 0x1000);
    assert_eq!(compiled.call_name(0), Some("putchar"));
    assert_eq!(compiled.call_args(0), &vec![2]);
    assert!(compiled.call_no_throw(0));
    assert_eq!(compiled.call_signature(0).to_string(), "fn(ubyte) -> ()");
    assert_eq!(compiled.value_type(3).get_kind(), jit::kind::VOID);
}

#[test]
fn read_stores_what_the_host_returns() {
    let mut ctx = Context::new();
    let compiled = build(&mut ctx, b",", &HOST).unwrap();
    assert_eq!(compiled.len(), 3);
    assert_eq!(compiled.insn(0), Insn::CallNative { dest: 1, call: 0 });
    assert_eq!(compiled.insn(1), Insn::StoreRelative { base: 0, offset: 0, value: 1 });
    assert_eq!(compiled.call_target(0), 0x2000);
    assert_eq!(compiled.call_name(0), Some("readchar"));
    assert_eq!(compiled.call_args(0).len(), 0);
    assert_eq!(compiled.call_signature(0).to_string(), "fn() -> ubyte");
    assert_eq!(compiled.value_type(1).get_kind(), jit::kind::UBYTE);
}

#[test]
fn moving_the_cursor_stores_into_the_parameter() {
    let mut ctx = Context::new();
    let compiled = build(&mut ctx, b">><", &HOST).unwrap();
    assert_eq!(compiled.len(), 7);
    assert_eq!(compiled.insn(0), Insn::Constant { dest: 1, value: 2 });
    assert_eq!(compiled.insn(1), Insn::Binary { op: BinaryOp::Add, dest: 2, lhs: 0, rhs: 1 });
    assert_eq!(compiled.insn(2), Insn::Store { dest: 0, value: 2 });
    assert_eq!(compiled.insn(3), Insn::Constant { dest: 3, value: 1 });
    assert_eq!(compiled.insn(4), Insn::Binary { op: BinaryOp::Sub, dest: 4, lhs: 0, rhs: 3 });
    assert_eq!(compiled.insn(5), Insn::Store { dest: 0, value: 4 });
}

#[test]
fn other_bytes_are_skipped() {
    let mut ctx = Context::new();
    let compiled = build(&mut ctx, b"hello, world", &HOST).unwrap();
    // the one comma reads a byte
    assert_eq!(compiled.len(), 3);
    let empty = build(&mut ctx, b"", &HOST).unwrap();
    assert_eq!(empty.len(), 1);
    assert_eq!(empty.insn(0), Insn::DefaultReturn);
    assert_eq!(ctx.scopes_opened(), 2);
}

#[test]
fn nested_brackets_compile() {
    let mut ctx = Context::new();
    let compiled = build(&mut ctx, b"+[>[-]<-]", &HOST).unwrap();
    assert_eq!(compiled.label_count(), 4);
    let a_start = compiled.target(0).unwrap();
    let a_end = compiled.target(1).unwrap();
    let b_start = compiled.target(2).unwrap();
    let b_end = compiled.target(3).unwrap();
    assert!(a_start < b_start && b_start < b_end && b_end < a_end);
    assert_eq!(compiled.insn(b_end - 1), Insn::Branch { label: 2 });
    assert_eq!(compiled.insn(a_end - 1), Insn::Branch { label: 0 });
}

#[test]
fn loop_left_open_does_not_compile() {
    let mut ctx = Context::new();
    let r = build(&mut ctx, b"[[-]", &HOST);
    assert!(matches!(r, Err(CompileError::UnplacedLabel(1))));
}

#[test]
fn closing_bracket_without_a_loop_is_skipped() {
    let mut ctx = Context::new();
    let compiled = build(&mut ctx, b"]+]", &HOST).unwrap();
    assert_eq!(compiled.len(), 6);
    assert_eq!(compiled.label_count(), 0);
}

#[test]
fn compile_continues_a_function_that_has_a_body() {
    let mut ctx = Context::new();
    let void = get_void();
    let ubyte = get_ubyte();
    let cursor = Type::new_pointer(TypeRef::borrow_from(&ubyte));
    let params = [TypeRef::borrow_from(&cursor)];
    let sig = Type::new_signature(Abi::CDecl, TypeRef::borrow_from(&void), &params);
    let compiled = ctx
        .build_func(sig, |mut func: UncompiledFunction| {
            compile(&mut func, b"+", &HOST);
            let before = func.len();
            compile(&mut func, b"[-]", &HOST);
            assert!(func.len() > before);
            func
        })
        .unwrap();
    assert_eq!(compiled.insn(5), Insn::DefaultReturn);
    assert_eq!(compiled.insn(6), Insn::Label { label: 0 });
}
