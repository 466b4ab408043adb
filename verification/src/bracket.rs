//! A small language of brackets, turned into the instructions of a
//! function.
//!
//! A script works on a row of byte cells through a cursor, which the
//! function gets as its first parameter. `>` and `<` move the cursor, `+` and
//! `-` change the byte under it, `.` hands that byte to the host's output
//! function and `,` stores what the host's input function returns. `[` opens
//! a loop that runs while the byte under the cursor is not zero, and `]`
//! closes the loop that was opened last. Every other byte is skipped. A run
//! of equal `>`, `<`, `+` or `-` becomes one step by its length.

use vstd::prelude::*;
use crate::consts::{get_nuint, get_ubyte, get_void};
use crate::context::Context;
use crate::control::{close_loop, open_loop, stack, Loop};
use crate::function::{
    binary_type, dangling_at, is_placed, label_fault, placed_again_at, well_labelled, Abi,
    BinaryOp,
    CallView, CompileError, CompiledFunction, Insn, Listing, UncompiledFunction, Value,
};
use crate::layout::{unnamed, Primitive, Shape};
use crate::types::{Type, TypeRef};

verus! {

/// The byte `>`.
pub const RIGHT: u8 = 62;

/// The byte `<`.
pub const LEFT: u8 = 60;

/// The byte `+`.
pub const PLUS: u8 = 43;

/// The byte `-`.
pub const MINUS: u8 = 45;

/// The byte `.`.
pub const WRITE: u8 = 46;

/// The byte `,`.
pub const READ: u8 = 44;

/// The byte `[`.
pub const OPEN: u8 = 91;

/// The byte `]`.
pub const CLOSE: u8 = 93;

/// The addresses of the two functions of the host that a script calls:
/// one writes a byte, one reads a byte. Both only ever return.
pub struct Host {
    pub putchar: usize,
    pub readchar: usize,
}

/// The state of the work on a script: the function so far, and the labels of the
/// loops that are open, outermost first.
pub struct Assembly {
    pub listing: Listing,
    pub open: Seq<(u64, u64)>,
}

/// The type of a cell.
pub open spec fn cell() -> Shape {
    Shape::Primitive(Primitive::UByte)
}

/// The type of a count.
pub open spec fn amount() -> Shape {
    Shape::Primitive(Primitive::NUInt)
}

/// The signature of the host's output function.
pub open spec fn putchar_signature() -> Shape {
    Shape::Signature(
        Abi::CDecl,
        Box::new(Shape::Primitive(Primitive::Void)),
        unnamed(seq![cell()]),
    )
}

/// The signature of the host's input function.
pub open spec fn readchar_signature() -> Shape {
    Shape::Signature(Abi::CDecl, Box::new(cell()), unnamed(Seq::<Shape>::empty()))
}

/// How many equal bytes stand in a row from a position on.
pub open spec fn run_length(code: Seq<u8>, at: int) -> nat
    decreases code.len() - at,
{
    if at < 0 || at >= code.len() {
        0
    } else if at + 1 < code.len() && code[at + 1] == code[at] {
        1 + run_length(code, at + 1)
    } else {
        1
    }
}

/// A run has at least one byte and ends within the script.
pub proof fn lemma_run_bounds(code: Seq<u8>, at: int)
    requires
        0 <= at < code.len(),
    ensures
        1 <= run_length(code, at),
        at + run_length(code, at) <= code.len(),
    decreases code.len() - at,
{
    if at + 1 < code.len() && code[at + 1] == code[at] {
        lemma_run_bounds(code, at + 1);
    }
}

/// Whether a run of the byte becomes one step.
pub open spec fn is_counted(op: u8) -> bool {
    op == RIGHT || op == LEFT || op == PLUS || op == MINUS
}

/// The function after the cursor has been moved by `count` cells.
pub open spec fn moved(l: Listing, op: BinaryOp, count: int) -> Listing {
    let n = l.values.len() as usize;
    l.define(amount()).emit(Insn::Constant { dest: n, value: count as i64 }).define(
        binary_type(op, l.values[0], amount()),
    ).emit(Insn::Binary { op, dest: (n + 1) as usize, lhs: 0, rhs: n }).emit(
        Insn::Store { dest: 0, value: (n + 1) as usize },
    )
}

/// The function after the byte under the cursor has been changed by `count`.
pub open spec fn changed(l: Listing, op: BinaryOp, count: int) -> Listing {
    let n = l.values.len() as usize;
    l.define(amount()).emit(Insn::Constant { dest: n, value: count as i64 }).define(cell()).emit(
        Insn::LoadRelative { dest: (n + 1) as usize, base: 0, offset: 0 },
    ).define(binary_type(op, cell(), amount())).emit(
        Insn::Binary { op, dest: (n + 2) as usize, lhs: (n + 1) as usize, rhs: n },
    ).define(cell()).emit(
        Insn::Convert { dest: (n + 3) as usize, value: (n + 2) as usize, overflow_check: false },
    ).emit(Insn::StoreRelative { base: 0, offset: 0, value: (n + 3) as usize })
}

/// The function after the byte under the cursor has been written out.
pub open spec fn written(l: Listing, host: Host) -> Listing {
    let n = l.values.len() as usize;
    l.define(cell()).emit(Insn::LoadRelative { dest: n, base: 0, offset: 0 }).bind(
        CallView {
            name: Some("putchar"@),
            target: host.putchar,
            signature: putchar_signature(),
            args: seq![n],
            no_throw: true,
        },
    ).define(Shape::Primitive(Primitive::Void)).emit(
        Insn::CallNative { dest: (n + 1) as usize, call: l.calls.len() as usize },
    )
}

/// The function after a byte has been read in and stored under the cursor.
pub open spec fn read(l: Listing, host: Host) -> Listing {
    let n = l.values.len() as usize;
    l.bind(
        CallView {
            name: Some("readchar"@),
            target: host.readchar,
            signature: readchar_signature(),
            args: Seq::empty(),
            no_throw: true,
        },
    ).define(cell()).emit(Insn::CallNative { dest: n, call: l.calls.len() as usize }).emit(
        Insn::StoreRelative { base: 0, offset: 0, value: n },
    )
}

/// The function after a loop has been opened: its start is placed, and
/// control leaves for its end if the byte under the cursor is zero.
pub open spec fn entered(l: Listing) -> Listing {
    let n = l.values.len() as usize;
    open_loop(l).define(cell()).emit(Insn::LoadRelative { dest: n, base: 0, offset: 0 }).emit(
        Insn::BranchIfNot { value: n, label: (l.labels + 1) as u64 },
    )
}

/// The state after a step by `count`, for the bytes that are counted.
pub open spec fn counted(t: Assembly, op: u8, count: int) -> Assembly {
    Assembly {
        listing: if op == RIGHT {
            moved(t.listing, BinaryOp::Add, count)
        } else if op == LEFT {
            moved(t.listing, BinaryOp::Sub, count)
        } else if op == PLUS {
            changed(t.listing, BinaryOp::Add, count)
        } else {
            changed(t.listing, BinaryOp::Sub, count)
        },
        open: t.open,
    }
}

/// The state after one byte that is not counted.
pub open spec fn single(t: Assembly, op: u8, host: Host) -> Assembly {
    if op == WRITE {
        Assembly { listing: written(t.listing, host), open: t.open }
    } else if op == READ {
        Assembly { listing: read(t.listing, host), open: t.open }
    } else if op == OPEN {
        Assembly {
            listing: entered(t.listing),
            open: t.open.push((t.listing.labels as u64, (t.listing.labels + 1) as u64)),
        }
    } else if op == CLOSE && t.open.len() > 0 {
        Assembly {
            listing: close_loop(t.listing, t.open.last().0, t.open.last().1),
            open: t.open.drop_last(),
        }
    } else {
        t
    }
}

/// The state after the script from a position on.
pub open spec fn assembled_from(t: Assembly, code: Seq<u8>, at: int, host: Host) -> Assembly
    decreases code.len() - at,
{
    if at < 0 || at >= code.len() {
        t
    } else if is_counted(code[at]) {
        let count = run_length(code, at);
        proof {
            lemma_run_bounds(code, at);
        }
        assembled_from(counted(t, code[at], count as int), code, at + count, host)
    } else {
        assembled_from(single(t, code[at], host), code, at + 1, host)
    }
}

/// The function that a script is turned into, given the function before:
/// the steps of the script, and then a return.
pub open spec fn assembled(l: Listing, code: Seq<u8>, host: Host) -> Assembly {
    let t = assembled_from(Assembly { listing: l, open: Seq::empty() }, code, 0, host);
    Assembly { listing: t.listing.emit(Insn::DefaultReturn), open: t.open }
}

/// Counts the bytes that stand in a row from a position on and equal the
/// byte at that position.
pub fn count(code: &[u8], at: usize) -> (r: usize)
    requires
        at < code@.len(),
    ensures
        r == run_length(code@, at as int),
        1 <= r,
        at + r <= code@.len(),
        forall|k: int| at <= k < at + r ==> code@[k] == code@[at as int],
        at + r < code@.len() ==> code@[at + r] != code@[at as int],
{
    let curr = code[at];
    let mut end: usize = at + 1;
    while end < code.len() && code[end] == curr
        invariant
            at < end <= code@.len(),
            curr == code@[at as int],
            forall|k: int| at <= k < end ==> code@[k] == curr,
        decreases code.len() - end,
    {
        end += 1;
    }
    proof {
        lemma_run_length(code@, at as int, end as int);
    }
    end - at
}

/// A run ends where the bytes stop being equal.
pub proof fn lemma_run_length(code: Seq<u8>, at: int, end: int)
    requires
        0 <= at < end <= code.len(),
        forall|k: int| at <= k < end ==> code[k] == code[at],
        end < code.len() ==> code[end] != code[at],
    ensures
        run_length(code, at) == end - at,
    decreases end - at,
{
    if at + 1 < end {
        lemma_run_length(code, at + 1, end);
    }
}


fn emit_move(func: &mut UncompiledFunction, op: BinaryOp, count: usize)
    requires
        old(func)@.signature.params().len() >= 1,
        count <= i64::MAX,
    ensures
        final(func)@ == moved(old(func)@, op, count as int),
        final(func)@.well_formed(),
        final(func).origin() == old(func).origin(),
{
    let nuint = get_nuint();
    let data = func.get_param(0);
    let step = func.insn_of(TypeRef::borrow_from(&nuint), count as i64);
    let target = func.insn_binary(op, data, step);
    func.insn_store(data, target);
}

fn emit_change(func: &mut UncompiledFunction, op: BinaryOp, count: usize)
    requires
        old(func)@.signature.params().len() >= 1,
        count <= i64::MAX,
    ensures
        final(func)@ == changed(old(func)@, op, count as int),
        final(func)@.well_formed(),
        final(func).origin() == old(func).origin(),
{
    let nuint = get_nuint();
    let ubyte = get_ubyte();
    let data = func.get_param(0);
    let step = func.insn_of(TypeRef::borrow_from(&nuint), count as i64);
    let before = func.insn_load_relative(data, 0, TypeRef::borrow_from(&ubyte));
    let after = func.insn_binary(op, before, step);
    let cut = func.insn_convert(after, TypeRef::borrow_from(&ubyte), false);
    func.insn_store_relative(data, 0, cut);
}

fn emit_write(func: &mut UncompiledFunction, host: &Host)
    requires
        old(func)@.signature.params().len() >= 1,
    ensures
        final(func)@ == written(old(func)@, *host),
        final(func)@.well_formed(),
        final(func).origin() == old(func).origin(),
{
    let ubyte = get_ubyte();
    let void = get_void();
    let mut params: Vec<TypeRef> = Vec::new();
    params.push(TypeRef::borrow_from(&ubyte));
    assert(unnamed(crate::types::shapes(params@)) =~= unnamed(seq![cell()]));
    let signature = Type::new_signature(
        Abi::CDecl,
        TypeRef::borrow_from(&void),
        params.as_slice(),
    );
    let data = func.get_param(0);
    let value = func.insn_load_relative(data, 0, TypeRef::borrow_from(&ubyte));
    let mut args: Vec<Value> = Vec::new();
    args.push(value);
    assert(crate::function::indices(args@) =~= seq![value.index()]);
    func.insn_call_native(
        Some("putchar"),
        host.putchar,
        TypeRef::borrow_from(&signature),
        args.as_slice(),
        true,
    );
}

fn emit_read(func: &mut UncompiledFunction, host: &Host)
    requires
        old(func)@.signature.params().len() >= 1,
    ensures
        final(func)@ == read(old(func)@, *host),
        final(func)@.well_formed(),
        final(func).origin() == old(func).origin(),
{
    let ubyte = get_ubyte();
    let params: Vec<TypeRef> = Vec::new();
    assert(unnamed(crate::types::shapes(params@)) =~= unnamed(Seq::<Shape>::empty()));
    let signature = Type::new_signature(
        Abi::CDecl,
        TypeRef::borrow_from(&ubyte),
        params.as_slice(),
    );
    let data = func.get_param(0);
    let args: Vec<Value> = Vec::new();
    assert(crate::function::indices(args@) =~= Seq::<usize>::empty());
    let value = func.insn_call_native(
        Some("readchar"),
        host.readchar,
        TypeRef::borrow_from(&signature),
        args.as_slice(),
        true,
    );
    func.insn_store_relative(data, 0, value);
}

fn enter<'s>(func: &mut UncompiledFunction<'s>, current: Option<Loop<'s>>) -> (r: Loop<'s>)
    requires
        old(func)@.signature.params().len() >= 1,
        old(func)@.labels + 2 <= usize::MAX,
        match current {
            Some(outer) => outer.in_scope(old(func).origin()),
            None => true,
        },
    ensures
        final(func)@ == entered(old(func)@),
        final(func)@.well_formed(),
        final(func).origin() == old(func).origin(),
        r.in_scope(old(func).origin()),
        r.chain() == stack(current).push(
            (old(func)@.labels as u64, (old(func)@.labels + 1) as u64),
        ),
{
    let ubyte = get_ubyte();
    let data = func.get_param(0);
    let inner = Loop::new(func, current);
    let value = func.insn_load_relative(data, 0, TypeRef::borrow_from(&ubyte));
    func.insn_branch_if_not(value, &inner.end_label());
    proof {
        inner.lemma_chain();
    }
    inner
}

/// Whether every label of the open loops is one of the first `labels`.
pub open spec fn within(open: Seq<(u64, u64)>, labels: nat) -> bool {
    forall|k: int| 0 <= k < open.len() ==> (#[trigger] open[k]).0 < labels && open[k].1 < labels
}

/// Turns a script into the body of a function whose first parameter is
/// the cursor, and ends the body with a return. A loop that the script opens
/// and does not close stays open: its end is placed nowhere.
pub fn compile(func: &mut UncompiledFunction, code: &[u8], host: &Host)
    requires
        old(func)@.signature.params().len() >= 1,
        old(func)@.labels + 2 * code@.len() <= usize::MAX,
        code@.len() <= i64::MAX,
    ensures
        final(func)@ == assembled(old(func)@, code@, *host).listing,
        final(func)@.well_formed(),
        final(func).origin() == old(func).origin(),
{
    let ghost start = Assembly { listing: func@, open: Seq::empty() };
    let ghost scope = func.origin();
    let mut current: Option<Loop> = None;
    let mut at: usize = 0;
    while at < code.len()
        invariant
            at <= code@.len(),
            code@.len() <= i64::MAX,
            func.origin() == scope,
            func@.signature.params().len() >= 1,
            func@.labels + 2 * (code@.len() - at) <= usize::MAX,
            match current {
                Some(inner) => inner.in_scope(scope),
                None => true,
            },
            within(stack(current), func@.labels),
            assembled_from(
                Assembly { listing: func@, open: stack(current) },
                code@,
                at as int,
                *host,
            ) == assembled_from(start, code@, 0, *host),
        decreases code.len() - at,
    {
        let op = code[at];
        let ghost before = Assembly { listing: func@, open: stack(current) };
        if op == RIGHT || op == LEFT || op == PLUS || op == MINUS {
            let run = count(code, at);
            if op == RIGHT {
                emit_move(func, BinaryOp::Add, run);
            } else if op == LEFT {
                emit_move(func, BinaryOp::Sub, run);
            } else if op == PLUS {
                emit_change(func, BinaryOp::Add, run);
            } else {
                emit_change(func, BinaryOp::Sub, run);
            }
            assert(Assembly { listing: func@, open: stack(current) } == counted(
                before,
                op,
                run as int,
            ));
            at = at + run;
        } else {
            if op == WRITE {
                emit_write(func, host);
            } else if op == READ {
                emit_read(func, host);
            } else if op == OPEN {
                let inner = enter(func, current);
                current = Some(inner);
            } else if op == CLOSE {
                match current {
                    Some(inner) => {
                        proof {
                            inner.lemma_chain();
                            inner.lemma_in_scope(scope);
                            let own = (inner.entry().index(), inner.exit().index());
                            assert(stack(Some(inner)).last() == own);
                            assert(stack(Some(inner)).drop_last() =~= stack(inner.parent()));
                            assert forall|k: int|
                                0 <= k < stack(inner.parent()).len() implies (#[trigger] stack(
                                inner.parent(),
                            )[k]).0 < func@.labels && stack(inner.parent())[k].1
                                < func@.labels by {
                                assert(stack(Some(inner))[k] == stack(inner.parent())[k]);
                            }
                        }
                        current = inner.end(func);
                    },
                    None => {
                        current = None;
                    },
                }
            }
            assert(Assembly { listing: func@, open: stack(current) } == single(
                before,
                op,
                *host,
            ));
            at = at + 1;
        }
    }
    func.insn_default_return();
}


/// Whether some instruction branches to the label.
pub open spec fn branched_to(insns: Seq<Insn>, label: u64) -> bool {
    exists|j: int| 0 <= j < insns.len() && (#[trigger] insns[j]).target() == Some(label)
}

/// Whether the label is the end of a loop that is open.
pub open spec fn is_open_end(open: Seq<(u64, u64)>, label: u64) -> bool {
    exists|k: int| 0 <= k < open.len() && (#[trigger] open[k]).1 == label
}

/// What holds of the labels while a script is worked on: every label that
/// the instructions name is reserved; none is placed twice; of each loop
/// that is open the start is placed and the end is not, though something
/// branches to it; the open loops have different ends; and a branch goes
/// to a label that is placed nowhere only if that is the end of an open
/// loop.
pub open spec fn sound(insns: Seq<Insn>, labels: nat, open: Seq<(u64, u64)>) -> bool {
    &&& forall|j: int|
        0 <= j < insns.len() ==> ((#[trigger] insns[j]).label() matches Some(label) ==> label
            < labels)
    &&& forall|j: int| !placed_again_at(insns, j)
    &&& forall|k: int|
        0 <= k < open.len() ==> {
            &&& (#[trigger] open[k]).0 < labels
            &&& open[k].1 < labels
            &&& is_placed(insns, open[k].0)
            &&& !is_placed(insns, open[k].1)
            &&& branched_to(insns, open[k].1)
        }
    &&& forall|a: int, b: int| 0 <= a < b < open.len() ==> open[a].1 != open[b].1
    &&& forall|j: int| #[trigger]
        dangling_at(insns, j) ==> is_open_end(open, insns[j].target()->0)
}

proof fn lemma_push_facts(insns: Seq<Insn>, x: Insn)
    ensures
        forall|label: u64|
            is_placed(insns, label) ==> #[trigger] is_placed(insns.push(x), label),
        forall|label: u64| #[trigger]
            is_placed(insns.push(x), label) ==> is_placed(insns, label) || x == (Insn::Label {
                label,
            }),
        forall|label: u64|
            branched_to(insns, label) ==> #[trigger] branched_to(insns.push(x), label),
        forall|j: int|
            0 <= j < insns.len() && #[trigger] placed_again_at(insns.push(x), j)
                ==> placed_again_at(insns, j),
{
    let after = insns.push(x);
    assert forall|label: u64| is_placed(insns, label) implies #[trigger] is_placed(
        after,
        label,
    ) by {
        let i = choose|i: int| 0 <= i < insns.len() && insns[i] == (Insn::Label { label });
        assert(after[i] == (Insn::Label { label }));
    }
    assert forall|label: u64| #[trigger] is_placed(after, label) implies is_placed(insns, label)
        || x == (Insn::Label { label }) by {
        let i = choose|i: int| 0 <= i < after.len() && after[i] == (Insn::Label { label });
        if i < insns.len() {
            assert(insns[i] == (Insn::Label { label }));
        }
    }
    assert forall|label: u64| branched_to(insns, label) implies #[trigger] branched_to(
        after,
        label,
    ) by {
        let j = choose|j: int| 0 <= j < insns.len() && (#[trigger] insns[j]).target() == Some(label);
        assert(after[j].target() == Some(label));
    }
    assert forall|j: int|
        0 <= j < insns.len() && #[trigger] placed_again_at(after, j) implies placed_again_at(
        insns,
        j,
    ) by {
        let i = choose|i: int| 0 <= i < j && after[i] == after[j];
        assert(insns[i] == insns[j]);
    }
}

/// An instruction that names no label leaves the labels as they are.
pub proof fn lemma_push_plain(insns: Seq<Insn>, labels: nat, open: Seq<(u64, u64)>, x: Insn)
    requires
        sound(insns, labels, open),
        x.label() is None,
    ensures
        sound(insns.push(x), labels, open),
{
    let after = insns.push(x);
    lemma_push_facts(insns, x);
    assert forall|j: int| #[trigger] dangling_at(after, j) implies is_open_end(
        open,
        after[j].target()->0,
    ) by {
        assert(dangling_at(insns, j));
    }
    assert forall|j: int| !placed_again_at(after, j) by {
        if placed_again_at(after, j) {
            assert(placed_again_at(insns, j));
        }
    }
}

/// A branch to a label that is placed leaves the labels as they are.
pub proof fn lemma_push_branch(insns: Seq<Insn>, labels: nat, open: Seq<(u64, u64)>, x: Insn)
    requires
        sound(insns, labels, open),
        x.target() matches Some(label) && label < labels && is_placed(insns, label),
    ensures
        sound(insns.push(x), labels, open),
{
    let after = insns.push(x);
    lemma_push_facts(insns, x);
    assert forall|j: int| #[trigger] dangling_at(after, j) implies is_open_end(
        open,
        after[j].target()->0,
    ) by {
        if j < insns.len() {
            assert(dangling_at(insns, j));
        }
    }
    assert forall|j: int| !placed_again_at(after, j) by {
        if placed_again_at(after, j) {
            assert(placed_again_at(insns, j));
        }
    }
}

/// Placing a label that is placed nowhere and is the end of no open loop
/// keeps the open loops as they are.
pub proof fn lemma_push_label(insns: Seq<Insn>, labels: nat, open: Seq<(u64, u64)>, label: u64)
    requires
        sound(insns, labels, open),
        label < labels,
        !is_placed(insns, label),
        !is_open_end(open, label),
    ensures
        sound(insns.push(Insn::Label { label }), labels, open),
        is_placed(insns.push(Insn::Label { label }), label),
{
    let x = Insn::Label { label };
    let after = insns.push(x);
    lemma_push_facts(insns, x);
    assert(after[insns.len() as int] == x);
    assert forall|j: int| #[trigger] dangling_at(after, j) implies is_open_end(
        open,
        after[j].target()->0,
    ) by {
        assert(dangling_at(insns, j));
    }
    assert forall|j: int| !placed_again_at(after, j) by {
        if placed_again_at(after, j) {
            if j < insns.len() {
                assert(placed_again_at(insns, j));
            } else {
                let i = choose|i: int| 0 <= i < j && after[i] == after[j];
                assert(insns[i] == x);
            }
        }
    }
    assert forall|k: int| 0 <= k < open.len() implies !is_placed(after, (#[trigger] open[k]).1) by {
        assert(open[k].1 != label);
    }
}

/// A branch to a label that is reserved, placed nowhere and the end of no
/// open loop opens a loop that ends at that label, if the start of the loop
/// is placed.
pub proof fn lemma_push_entry(
    insns: Seq<Insn>,
    labels: nat,
    open: Seq<(u64, u64)>,
    x: Insn,
    start: u64,
    end: u64,
)
    requires
        sound(insns, labels, open),
        x.target() == Some(end),
        start < labels,
        end < labels,
        is_placed(insns, start),
        !is_placed(insns, end),
        !is_open_end(open, end),
    ensures
        sound(insns.push(x), labels, open.push((start, end))),
{
    let after = insns.push(x);
    let wider = open.push((start, end));
    lemma_push_facts(insns, x);
    assert(after[insns.len() as int].target() == Some(end));
    assert forall|j: int| #[trigger] dangling_at(after, j) implies is_open_end(
        wider,
        after[j].target()->0,
    ) by {
        if j < insns.len() {
            assert(dangling_at(insns, j));
            let k = choose|k: int| 0 <= k < open.len() && (#[trigger] open[k]).1 == insns[j].target()->0;
            assert(wider[k] == open[k]);
        } else {
            assert(wider[open.len() as int].1 == end);
        }
    }
    assert forall|j: int| !placed_again_at(after, j) by {
        if placed_again_at(after, j) {
            assert(placed_again_at(insns, j));
        }
    }
    assert forall|a: int, b: int| 0 <= a < b < wider.len() implies wider[a].1 != wider[b].1 by {
        if b == open.len() {
            assert(open[a].1 != end);
        }
    }
}

/// Placing the end of the innermost open loop closes that loop.
pub proof fn lemma_push_exit(insns: Seq<Insn>, labels: nat, open: Seq<(u64, u64)>)
    requires
        sound(insns, labels, open),
        open.len() > 0,
    ensures
        sound(insns.push(Insn::Label { label: open.last().1 }), labels, open.drop_last()),
{
    let label = open.last().1;
    let x = Insn::Label { label };
    let after = insns.push(x);
    let fewer = open.drop_last();
    lemma_push_facts(insns, x);
    assert(open[open.len() - 1].1 == label);
    assert forall|j: int| #[trigger] dangling_at(after, j) implies is_open_end(
        fewer,
        after[j].target()->0,
    ) by {
        let other = after[j].target()->0;
        assert(after[insns.len() as int] == x);
        assert(dangling_at(insns, j));
        let k = choose|k: int| 0 <= k < open.len() && (#[trigger] open[k]).1 == other;
        if k == open.len() - 1 {
            assert(is_placed(after, label));
        }
        assert(fewer[k] == open[k]);
    }
    assert forall|j: int| !placed_again_at(after, j) by {
        if placed_again_at(after, j) {
            if j < insns.len() {
                assert(placed_again_at(insns, j));
            } else {
                let i = choose|i: int| 0 <= i < j && after[i] == after[j];
                assert(insns[i] == x);
            }
        }
    }
    assert forall|k: int| 0 <= k < fewer.len() implies {
        &&& (#[trigger] fewer[k]).0 < labels
        &&& fewer[k].1 < labels
        &&& is_placed(after, fewer[k].0)
        &&& !is_placed(after, fewer[k].1)
        &&& branched_to(after, fewer[k].1)
    } by {
        assert(fewer[k] == open[k]);
        assert(open[k].1 != label);
    }
    assert forall|a: int, b: int| 0 <= a < b < fewer.len() implies fewer[a].1 != fewer[b].1 by {
        assert(fewer[a] == open[a] && fewer[b] == open[b]);
    }
}


/// Reserving more labels leaves the labels that there are as they are.
pub proof fn lemma_reserve_more(insns: Seq<Insn>, labels: nat, open: Seq<(u64, u64)>, more: nat)
    requires
        sound(insns, labels, open),
    ensures
        sound(insns, labels + more, open),
{
}

/// A counted step keeps the labels sound.
pub proof fn lemma_counted_sound(t: Assembly, op: u8, count: int)
    requires
        sound(t.listing.insns, t.listing.labels, t.open),
    ensures
        sound(
            counted(t, op, count).listing.insns,
            counted(t, op, count).listing.labels,
            counted(t, op, count).open,
        ),
        counted(t, op, count).listing.labels == t.listing.labels,
        counted(t, op, count).open == t.open,
{
    let l = t.listing;
    let n = l.values.len() as usize;
    let labels = l.labels;
    let i0 = l.insns;
    let binary = if op == RIGHT || op == PLUS {
        BinaryOp::Add
    } else {
        BinaryOp::Sub
    };
    let x1 = Insn::Constant { dest: n, value: count as i64 };
    let i1 = i0.push(x1);
    lemma_push_plain(i0, labels, t.open, x1);
    if op == RIGHT || op == LEFT {
        let x2 = Insn::Binary { op: binary, dest: (n + 1) as usize, lhs: 0, rhs: n };
        let i2 = i1.push(x2);
        lemma_push_plain(i1, labels, t.open, x2);
        let x3 = Insn::Store { dest: 0, value: (n + 1) as usize };
        lemma_push_plain(i2, labels, t.open, x3);
        assert(counted(t, op, count).listing.insns == i2.push(x3));
    } else {
        let x2 = Insn::LoadRelative { dest: (n + 1) as usize, base: 0, offset: 0 };
        let i2 = i1.push(x2);
        lemma_push_plain(i1, labels, t.open, x2);
        let x3 = Insn::Binary {
            op: binary,
            dest: (n + 2) as usize,
            lhs: (n + 1) as usize,
            rhs: n,
        };
        let i3 = i2.push(x3);
        lemma_push_plain(i2, labels, t.open, x3);
        let x4 = Insn::Convert {
            dest: (n + 3) as usize,
            value: (n + 2) as usize,
            overflow_check: false,
        };
        let i4 = i3.push(x4);
        lemma_push_plain(i3, labels, t.open, x4);
        let x5 = Insn::StoreRelative { base: 0, offset: 0, value: (n + 3) as usize };
        lemma_push_plain(i4, labels, t.open, x5);
        assert(counted(t, op, count).listing.insns == i4.push(x5));
    }
}

/// A single step keeps the labels sound; `[` reserves two labels and opens
/// a loop, `]` closes the innermost open loop, if there is one.
pub proof fn lemma_single_sound(t: Assembly, op: u8, host: Host)
    requires
        sound(t.listing.insns, t.listing.labels, t.open),
        t.listing.labels + 1 <= u64::MAX,
    ensures
        sound(
            single(t, op, host).listing.insns,
            single(t, op, host).listing.labels,
            single(t, op, host).open,
        ),
        single(t, op, host).listing.labels == t.listing.labels + (if op == OPEN {
            2nat
        } else {
            0nat
        }),
        single(t, op, host).open.len() == (if op == OPEN {
            t.open.len() + 1
        } else if op == CLOSE && t.open.len() > 0 {
            (t.open.len() - 1) as nat
        } else {
            t.open.len()
        }),
{
    let l = t.listing;
    let n = l.values.len() as usize;
    let labels = l.labels;
    let i0 = l.insns;
    if op == WRITE {
        let x1 = Insn::LoadRelative { dest: n, base: 0, offset: 0 };
        let i1 = i0.push(x1);
        lemma_push_plain(i0, labels, t.open, x1);
        let x2 = Insn::CallNative { dest: (n + 1) as usize, call: l.calls.len() as usize };
        lemma_push_plain(i1, labels, t.open, x2);
        assert(single(t, op, host).listing.insns == i1.push(x2));
    } else if op == READ {
        let x1 = Insn::CallNative { dest: n, call: l.calls.len() as usize };
        let i1 = i0.push(x1);
        lemma_push_plain(i0, labels, t.open, x1);
        let x2 = Insn::StoreRelative { base: 0, offset: 0, value: n };
        lemma_push_plain(i1, labels, t.open, x2);
        assert(single(t, op, host).listing.insns == i1.push(x2));
    } else if op == OPEN {
        let start = labels as u64;
        let end = (labels + 1) as u64;
        lemma_reserve_more(i0, labels, t.open, 2);
        assert(!is_placed(i0, start)) by {
            if is_placed(i0, start) {
                let i = choose|i: int| 0 <= i < i0.len() && i0[i] == (Insn::Label { label: start });
                assert(i0[i].label() == Some(start));
            }
        }
        assert(!is_placed(i0, end)) by {
            if is_placed(i0, end) {
                let i = choose|i: int| 0 <= i < i0.len() && i0[i] == (Insn::Label { label: end });
                assert(i0[i].label() == Some(end));
            }
        }
        assert(!is_open_end(t.open, start));
        assert(!is_open_end(t.open, end));
        let x1 = Insn::Label { label: start };
        let i1 = i0.push(x1);
        lemma_push_label(i0, labels + 2, t.open, start);
        lemma_push_facts(i0, x1);
        let x2 = Insn::LoadRelative { dest: n, base: 0, offset: 0 };
        let i2 = i1.push(x2);
        lemma_push_plain(i1, labels + 2, t.open, x2);
        lemma_push_facts(i1, x2);
        let x3 = Insn::BranchIfNot { value: n, label: end };
        lemma_push_entry(i2, labels + 2, t.open, x3, start, end);
        assert(single(t, op, host).listing.insns == i2.push(x3));
    } else if op == CLOSE && t.open.len() > 0 {
        let x1 = Insn::Branch { label: t.open.last().0 };
        let i1 = i0.push(x1);
        assert(t.open[t.open.len() - 1].0 < labels);
        lemma_push_branch(i0, labels, t.open, x1);
        lemma_push_exit(i1, labels, t.open);
        assert(single(t, op, host).listing.insns == i1.push(Insn::Label { label: t.open.last().1 }));
    }
}

/// How many loops are open after the script from a position on, if `depth`
/// loops are open before: `[` opens one, and `]` closes one if one is open.
pub open spec fn unclosed(code: Seq<u8>, at: int, depth: nat) -> nat
    decreases code.len() - at,
{
    if at < 0 || at >= code.len() {
        depth
    } else if code[at] == OPEN {
        unclosed(code, at + 1, depth + 1)
    } else if code[at] == CLOSE && depth > 0 {
        unclosed(code, at + 1, (depth - 1) as nat)
    } else {
        unclosed(code, at + 1, depth)
    }
}

/// Bytes that are no brackets open and close nothing.
pub proof fn lemma_unclosed_skips(code: Seq<u8>, at: int, end: int, depth: nat)
    requires
        0 <= at <= end <= code.len(),
        forall|k: int| at <= k < end ==> code[k] != OPEN && code[k] != CLOSE,
    ensures
        unclosed(code, at, depth) == unclosed(code, end, depth),
    decreases end - at,
{
    if at < end {
        lemma_unclosed_skips(code, at + 1, end, depth);
    }
}

/// All the bytes of a run equal the first.
pub proof fn lemma_run_is_uniform(code: Seq<u8>, at: int, k: int)
    requires
        0 <= at <= k < at + run_length(code, at),
        at < code.len(),
    ensures
        code[k] == code[at],
    decreases k - at,
{
    if k > at {
        lemma_run_bounds(code, at);
        lemma_run_is_uniform(code, at + 1, k);
    }
}

/// Working through a script keeps the labels sound, and leaves as many loops
/// open as the script leaves brackets unclosed.
pub proof fn lemma_assembly_sound(t: Assembly, code: Seq<u8>, at: int, host: Host)
    requires
        0 <= at <= code.len(),
        sound(t.listing.insns, t.listing.labels, t.open),
        t.listing.labels + 2 * (code.len() - at) <= u64::MAX,
    ensures
        ({
            let r = assembled_from(t, code, at, host);
            &&& sound(r.listing.insns, r.listing.labels, r.open)
            &&& r.open.len() == unclosed(code, at, t.open.len())
        }),
    decreases code.len() - at,
{
    if at < code.len() {
        let op = code[at];
        if is_counted(op) {
            let count = run_length(code, at);
            lemma_run_bounds(code, at);
            lemma_counted_sound(t, op, count as int);
            lemma_assembly_sound(counted(t, op, count as int), code, at + count, host);
            assert forall|k: int| at <= k < at + count implies code[k] != OPEN && code[k] != CLOSE by {
                lemma_run_is_uniform(code, at, k);
            }
            lemma_unclosed_skips(code, at, at + count, t.open.len());
        } else {
            lemma_single_sound(t, op, host);
            lemma_assembly_sound(single(t, op, host), code, at + 1, host);
        }
    }
}

/// A script compiles exactly if it closes every loop that it opens. The
/// script is turned into a function whose labels are in order so far,
/// such as one with no instruction yet; the labels of the function that
/// comes out are in order if and only if no bracket is left unclosed. No
/// script places a label twice: all that can be wrong is a loop left open,
/// whose end is branched to and placed nowhere.
pub proof fn lemma_closed_scripts_compile(l: Listing, code: Seq<u8>, host: Host)
    requires
        sound(l.insns, l.labels, Seq::empty()),
        l.labels + 2 * code.len() <= u64::MAX,
    ensures
        well_labelled(assembled(l, code, host).listing.insns) <==> unclosed(code, 0, 0) == 0,
        assembled(l, code, host).open.len() == unclosed(code, 0, 0),
        forall|j: int| !placed_again_at(assembled(l, code, host).listing.insns, j),
        forall|error: CompileError|
            label_fault(assembled(l, code, host).listing.insns, error)
                ==> error is UnplacedLabel,
{
    let start = Assembly { listing: l, open: Seq::empty() };
    lemma_assembly_sound(start, code, 0, host);
    let t = assembled_from(start, code, 0, host);
    let insns = t.listing.insns;
    let done = insns.push(Insn::DefaultReturn);
    lemma_push_plain(insns, t.listing.labels, t.open, Insn::DefaultReturn);
    assert(assembled(l, code, host).listing.insns == done);
    if t.open.len() == 0 {
        assert forall|j: int| !dangling_at(done, j) by {
            if dangling_at(done, j) {
                assert(is_open_end(t.open, done[j].target()->0));
            }
        }
    } else {
        let end = t.open[0].1;
        assert(branched_to(done, end));
        let j = choose|j: int| 0 <= j < done.len() && (#[trigger] done[j]).target() == Some(end);
        assert(dangling_at(done, j));
    }
}

/// A function with no instruction has its labels in order.
pub proof fn lemma_empty_is_sound(labels: nat)
    ensures
        sound(Seq::<Insn>::empty(), labels, Seq::<(u64, u64)>::empty()),
{
}


/// The signature of the function that a script is turned into: it takes
/// the cursor, a pointer to a cell, and returns nothing.
pub open spec fn script_signature() -> Shape {
    Shape::Signature(
        Abi::CDecl,
        Box::new(Shape::Primitive(Primitive::Void)),
        unnamed(seq![Shape::Pointer(Box::new(cell()))]),
    )
}

/// The function that a script is turned into.
pub open spec fn script(code: Seq<u8>, host: Host) -> Listing {
    assembled(Listing::empty(script_signature()), code, host).listing
}

/// Builds and compiles, in a build scope of its own, the function that a
/// script is turned into. The context keeps the compiled function and lends
/// it out. This succeeds if and only if the script closes every loop that
/// it opens. Where it fails, the error names the end label
/// of a loop left open: the one that the first branch to such a label goes
/// to.
pub fn build<'c>(ctx: &'c mut Context, code: &[u8], host: &Host) -> (r: Result<
    &'c CompiledFunction,
    CompileError,
>)
    requires
        old(ctx).scopes() < u64::MAX,
        2 * code@.len() <= usize::MAX,
        code@.len() <= i64::MAX,
    ensures
        final(ctx).scopes() == old(ctx).scopes() + 1,
        match r {
            Ok(compiled) => final(ctx).functions() == old(ctx).functions().push(*compiled),
            Err(_) => final(ctx).functions() == old(ctx).functions(),
        },
        r is Ok <==> unclosed(code@, 0, 0) == 0,
        r matches Ok(compiled) ==> compiled@ == script(code@, *host),
        r matches Err(error) ==> error is UnplacedLabel && label_fault(
            script(code@, *host).insns,
            error,
        ),
{
    let ubyte = get_ubyte();
    let void = get_void();
    let cursor = Type::new_pointer(TypeRef::borrow_from(&ubyte));
    let mut params: Vec<TypeRef> = Vec::new();
    params.push(TypeRef::borrow_from(&cursor));
    assert(unnamed(crate::types::shapes(params@)) =~= unnamed(
        seq![Shape::Pointer(Box::new(cell()))],
    ));
    let signature = Type::new_signature(
        Abi::CDecl,
        TypeRef::borrow_from(&void),
        params.as_slice(),
    );
    assert(signature@ == script_signature());
    assert(script_signature().params().len() == 1);
    let r = ctx.build_func(
        signature,
        (|func: UncompiledFunction| -> (full: UncompiledFunction)
            requires
                func@ == Listing::empty(script_signature()),
            ensures
                full@ == script(code@, *host),
            {
                let mut func = func;
                compile(&mut func, code, host);
                func
            }),
    );
    proof {
        lemma_empty_is_sound(0);
        lemma_closed_scripts_compile(Listing::empty(script_signature()), code@, *host);
    }
    r
}

} // verus!
