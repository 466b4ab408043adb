//! The instruction-level representation of a function under construction,
//! and the step that compiles it.
//!
//! A function is assembled by appending instructions. Every instruction that
//! computes something hands back a [`Value`], a typed operand that later
//! instructions of the same function may use. Branches name a label, which
//! need not be placed yet: where a label stands is settled when the function
//! is compiled.

use vstd::prelude::*;
use std::marker::PhantomData;
use crate::context::Builder;
use crate::label::Label;
use crate::layout::{Primitive, Shape};
use crate::types::{Type, TypeRef};
use crate::typing::{join, join_bits, meet, meet_bits, negate, negated};

verus! {

/// The calling convention of a function signature.
#[derive(Clone, Copy, PartialEq, Eq, Structural, Debug)]
pub enum Abi {
    /// The native C convention of the platform.
    CDecl,
    /// The native C convention, with a variable argument list.
    VarArg,
    /// The callee pops its arguments.
    StdCall,
    /// The callee pops its arguments; the first two words travel in registers.
    FastCall,
}

/// An operation on two operands.
#[derive(Clone, Copy, PartialEq, Eq, Structural, Debug)]
pub enum BinaryOp {
    Add,
    Sub,
    Mul,
    Div,
    Rem,
    And,
    Or,
    Xor,
    Shl,
    Shr,
    Eq,
    Ne,
    Lt,
    Le,
    Gt,
    Ge,
}

/// An operation on one operand.
#[derive(Clone, Copy, PartialEq, Eq, Structural, Debug)]
pub enum UnaryOp {
    Neg,
    Not,
}

/// One instruction. Operands and results are named by their number in the
/// function's table of values, labels by their number in the function.
#[allow(inconsistent_fields)]
#[derive(Clone, Copy, PartialEq, Eq, Structural, Debug)]
pub enum Insn {
    /// `dest` is the constant `value`, of the type of `dest`.
    Constant { dest: usize, value: i64 },
    /// `dest` is `lhs op rhs`.
    Binary { op: BinaryOp, dest: usize, lhs: usize, rhs: usize },
    /// `dest` is `op value`.
    Unary { op: UnaryOp, dest: usize, value: usize },
    /// `dest` is what lies `offset` bytes after the address in `base`, read
    /// as a value of the type of `dest`.
    LoadRelative { dest: usize, base: usize, offset: isize },
    /// `dest` becomes `value`.
    Store { dest: usize, value: usize },
    /// `value` is written `offset` bytes after the address in `base`.
    StoreRelative { base: usize, offset: isize, value: usize },
    /// `dest` is `value` converted to the type of `dest`.
    Convert { dest: usize, value: usize, overflow_check: bool },
    /// Control goes to where `label` stands.
    Branch { label: u64 },
    /// Control goes to where `label` stands if `value` is zero.
    BranchIfNot { value: usize, label: u64 },
    /// `label` stands here.
    Label { label: u64 },
    /// `dest` is what the call numbered `call` returns.
    CallNative { dest: usize, call: usize },
    /// The function returns, with the zero of its return type.
    DefaultReturn,
}

impl Insn {
    /// The label that the instruction branches to, if it is a branch.
    pub open spec fn target(self) -> Option<u64> {
        match self {
            Insn::Branch { label } => Some(label),
            Insn::BranchIfNot { label, .. } => Some(label),
            _ => None,
        }
    }

    /// The label that the instruction names, if any.
    pub open spec fn label(self) -> Option<u64> {
        match self {
            Insn::Branch { label } => Some(label),
            Insn::BranchIfNot { label, .. } => Some(label),
            Insn::Label { label } => Some(label),
            _ => None,
        }
    }

    /// The value that the instruction defines, if any.
    pub open spec fn dest(self) -> Option<usize> {
        match self {
            Insn::Constant { dest, .. } => Some(dest),
            Insn::Binary { dest, .. } => Some(dest),
            Insn::Unary { dest, .. } => Some(dest),
            Insn::LoadRelative { dest, .. } => Some(dest),
            Insn::Convert { dest, .. } => Some(dest),
            Insn::CallNative { dest, .. } => Some(dest),
            _ => None,
        }
    }

    /// Whether every value, label and call that the instruction names is one
    /// of the first `values`, `labels` and `calls`.
    pub open spec fn in_range(self, values: nat, labels: nat, calls: nat) -> bool {
        match self {
            Insn::Constant { dest, .. } => dest < values,
            Insn::Binary { dest, lhs, rhs, .. } => dest < values && lhs < values && rhs < values,
            Insn::Unary { dest, value, .. } => dest < values && value < values,
            Insn::LoadRelative { dest, base, .. } => dest < values && base < values,
            Insn::Store { dest, value } => dest < values && value < values,
            Insn::StoreRelative { base, value, .. } => base < values && value < values,
            Insn::Convert { dest, value, .. } => dest < values && value < values,
            Insn::Branch { label } => label < labels,
            Insn::BranchIfNot { value, label } => value < values && label < labels,
            Insn::Label { label } => label < labels,
            Insn::CallNative { dest, call } => dest < values && call < calls,
            Insn::DefaultReturn => true,
        }
    }
}

/// A call of a function of the host, as the generated code will make it. The
/// host function must stay alive for as long as the compiled code does.
pub struct CallView {
    /// A name for the callee, for the reader of a listing.
    pub name: Option<Seq<char>>,
    /// The address of the callee.
    pub target: usize,
    /// The signature under which the callee is called.
    pub signature: Shape,
    /// The values handed to the callee, in order.
    pub args: Seq<usize>,
    /// Whether the caller has stated that the callee only ever returns.
    pub no_throw: bool,
}

/// What a function consists of: the mathematical model of a function under
/// construction and of a compiled one.
pub struct Listing {
    /// The signature of the function.
    pub signature: Shape,
    /// The type of each value; the first ones are the parameters.
    pub values: Seq<Shape>,
    /// The instructions, in the order in which they were emitted.
    pub insns: Seq<Insn>,
    /// How many labels have been reserved.
    pub labels: nat,
    /// The calls of host functions.
    pub calls: Seq<CallView>,
}

impl Listing {
    /// A function of the given signature with no instruction yet: its values
    /// are its parameters.
    pub open spec fn empty(signature: Shape) -> Listing {
        Listing {
            signature,
            values: Seq::new(signature.params().len(), |i: int| signature.params()[i].ty),
            insns: Seq::empty(),
            labels: 0,
            calls: Seq::empty(),
        }
    }

    /// Whether the first values are the parameters, and every instruction
    /// and call names only values, labels and calls that the function has.
    pub open spec fn well_formed(self) -> bool {
        &&& self.signature.params().len() <= self.values.len()
        &&& forall|i: int|
            0 <= i < self.signature.params().len() ==> self.values[i]
                == (#[trigger] self.signature.params()[i]).ty
        &&& forall|i: int|
            0 <= i < self.insns.len() ==> (#[trigger] self.insns[i]).in_range(
                self.values.len(),
                self.labels,
                self.calls.len(),
            )
        &&& forall|c: int, a: int|
            0 <= c < self.calls.len() && 0 <= a < self.calls[c].args.len() ==> (
            #[trigger] self.calls[c].args[a]) < self.values.len()
    }

    /// The same function with one more instruction at its end.
    pub open spec fn emit(self, insn: Insn) -> Listing {
        Listing { insns: self.insns.push(insn), ..self }
    }

    /// The same function with one more label reserved.
    pub open spec fn reserve(self) -> Listing {
        Listing { labels: self.labels + 1, ..self }
    }

    /// The same function with one more call of a host function.
    pub open spec fn bind(self, call: CallView) -> Listing {
        Listing { calls: self.calls.push(call), ..self }
    }

    /// The same function with one more value, of the given type.
    pub open spec fn define(self, ty: Shape) -> Listing {
        Listing { values: self.values.push(ty), ..self }
    }
}

/// Which function something was made by: the number of its build scope on
/// its context, and its number among the functions of that scope.
#[derive(Clone, Copy, PartialEq, Eq, Structural, Debug)]
pub struct Origin {
    pub scope: u64,
    pub function: u64,
}

/// A typed operand: the result of an instruction, or a parameter. A value
/// belongs to the function that made it and must be used with no other; it
/// records which function that is. A value cannot leave the build scope in
/// which it was made.
#[derive(Clone, Copy, PartialEq, Eq, Debug)]
pub struct Value<'s> {
    origin: Origin,
    index: usize,
    brand: PhantomData<&'s mut &'s ()>,
}

impl<'s> Value<'s> {
    /// The function that made the value.
    pub closed spec fn origin(self) -> Origin {
        self.origin
    }

    /// The number of the value in its function.
    pub closed spec fn index(self) -> usize {
        self.index
    }

    /// The number of the value in its function.
    pub fn number(self) -> (r: usize)
        ensures
            r == self.index(),
    {
        self.index
    }
}

/// The numbers of the given values, in order.
pub open spec fn indices(values: Seq<Value>) -> Seq<usize> {
    Seq::new(values.len(), |i: int| values[i].index())
}

/// The type of the result of an operation on two operands of the given
/// types. A comparison gives a 32-bit integer; a shift goes by the type of
/// what is shifted.
pub open spec fn binary_type(op: BinaryOp, lhs: Shape, rhs: Shape) -> Shape {
    Shape::Primitive(
        match op {
            BinaryOp::Add | BinaryOp::Sub | BinaryOp::Mul | BinaryOp::Div | BinaryOp::Rem => meet(
                lhs.operand(),
                rhs.operand(),
            ),
            BinaryOp::And | BinaryOp::Or | BinaryOp::Xor => meet_bits(
                lhs.operand(),
                rhs.operand(),
            ),
            BinaryOp::Shl | BinaryOp::Shr => meet_bits(lhs.operand(), lhs.operand()),
            BinaryOp::Eq
            | BinaryOp::Ne
            | BinaryOp::Lt
            | BinaryOp::Le
            | BinaryOp::Gt
            | BinaryOp::Ge => Primitive::Int,
        },
    )
}

/// The type of the result of an operation on one operand of the given type.
pub open spec fn unary_type(op: UnaryOp, value: Shape) -> Shape {
    Shape::Primitive(
        match op {
            UnaryOp::Neg => negated(value.operand()),
            UnaryOp::Not => meet_bits(value.operand(), value.operand()),
        },
    )
}

/// What a call under the given signature returns: nothing where the
/// signature says nothing.
pub open spec fn returned(signature: Shape) -> Shape {
    match signature.return_type() {
        Some(ty) => ty,
        None => Shape::Primitive(Primitive::Void),
    }
}

/// What compiling a function can fail on.
#[derive(Clone, Copy, PartialEq, Eq, Structural, Debug)]
pub enum CompileError {
    /// A branch goes to a label that is placed nowhere.
    UnplacedLabel(u64),
    /// A label is placed at more than one position.
    LabelPlacedTwice(u64),
}

/// Whether instruction `j` places a label that an earlier instruction has
/// placed already.
pub open spec fn placed_again_at(insns: Seq<Insn>, j: int) -> bool {
    &&& 0 <= j < insns.len()
    &&& insns[j] is Label
    &&& exists|i: int| 0 <= i < j && insns[i] == insns[j]
}

/// Whether some instruction places the label.
pub open spec fn is_placed(insns: Seq<Insn>, label: u64) -> bool {
    exists|i: int| 0 <= i < insns.len() && insns[i] == (Insn::Label { label })
}

/// Whether instruction `j` branches to a label that is placed nowhere.
pub open spec fn dangling_at(insns: Seq<Insn>, j: int) -> bool {
    &&& 0 <= j < insns.len()
    &&& insns[j].target() matches Some(label)
    &&& !is_placed(insns, label)
}

/// Whether the labels of a function are in order: none is placed twice, and
/// every one that is branched to is placed.
pub open spec fn well_labelled(insns: Seq<Insn>) -> bool {
    &&& forall|j: int| !placed_again_at(insns, j)
    &&& forall|j: int| !dangling_at(insns, j)
}

/// Whether `error` is what is wrong with the labels of a function. A label
/// placed twice is reported before a label placed nowhere; of several labels
/// at fault, the one whose faulty instruction comes first is named.
pub open spec fn label_fault(insns: Seq<Insn>, error: CompileError) -> bool {
    match error {
        CompileError::LabelPlacedTwice(label) => exists|j: int|
            {
                &&& #[trigger] placed_again_at(insns, j)
                &&& insns[j] == (Insn::Label { label })
                &&& forall|k: int| 0 <= k < j ==> !placed_again_at(insns, k)
            },
        CompileError::UnplacedLabel(label) => {
            &&& forall|j: int| !placed_again_at(insns, j)
            &&& exists|j: int|
                {
                    &&& #[trigger] dangling_at(insns, j)
                    &&& insns[j].target() == Some(label)
                    &&& forall|k: int| 0 <= k < j ==> !dangling_at(insns, k)
                }
        },
    }
}

/// How many instructions place the label.
pub open spec fn placements(insns: Seq<Insn>, label: u64) -> nat
    decreases insns.len(),
{
    if insns.len() == 0 {
        0
    } else {
        placements(insns.drop_last(), label) + if insns.last() == (Insn::Label { label }) {
            1nat
        } else {
            0nat
        }
    }
}

struct Call {
    name: Option<String>,
    target: usize,
    signature: Type,
    args: Vec<usize>,
    no_throw: bool,
}

spec fn type_shapes(types: Seq<Type>) -> Seq<Shape> {
    Seq::new(types.len(), |i: int| types[i]@)
}

spec fn call_view(call: Call) -> CallView {
    CallView {
        name: match call.name {
            Some(s) => Some(s@),
            None => None,
        },
        target: call.target,
        signature: call.signature@,
        args: call.args@,
        no_throw: call.no_throw,
    }
}

spec fn call_views(calls: Seq<Call>) -> Seq<CallView> {
    Seq::new(calls.len(), |i: int| call_view(calls[i]))
}

/// A function under construction, bound to one build scope of a context. It
/// cannot leave that scope, and neither can its values and labels.
pub struct UncompiledFunction<'s> {
    origin: Origin,
    signature: Type,
    values: Vec<Type>,
    insns: Vec<Insn>,
    labels: usize,
    calls: Vec<Call>,
    brand: PhantomData<&'s mut &'s ()>,
}

impl<'s> View for UncompiledFunction<'s> {
    type V = Listing;

    open spec fn view(&self) -> Listing {
        self.listing()
    }
}

/// Whether `after` is `before` with one more value of type `ty`, which is
/// `value`, and with `insn` at its end, which defines that value.
pub open spec fn defines(
    before: &UncompiledFunction,
    after: &UncompiledFunction,
    value: Value,
    ty: Shape,
    insn: Insn,
) -> bool {
    &&& after@ == before@.define(ty).emit(insn)
    &&& after.origin() == before.origin()
    &&& after.has(value)
    &&& value.index() == before@.values.len()
    &&& insn.dest() == Some(value.index())
    &&& after@.well_formed()
}

/// Whether `after` is `before` with `insn` at its end.
pub open spec fn appends(before: &UncompiledFunction, after: &UncompiledFunction, insn: Insn) -> bool {
    &&& after@ == before@.emit(insn)
    &&& after.origin() == before.origin()
    &&& after@.well_formed()
}

impl<'s> UncompiledFunction<'s> {
    #[verifier::type_invariant]
    spec fn inv(&self) -> bool {
        self.listing().well_formed()
    }

    /// What the function consists of so far.
    pub closed spec fn listing(&self) -> Listing {
        Listing {
            signature: self.signature@,
            values: type_shapes(self.values@),
            insns: self.insns@,
            labels: self.labels as nat,
            calls: call_views(self.calls@),
        }
    }

    /// Which function this is: the number of its build scope, and its number
    /// among the functions of that scope.
    pub closed spec fn origin(&self) -> Origin {
        self.origin
    }

    /// Whether the value is one of this function: the value records this
    /// function as the one that made it, and its number is that of one of the
    /// function's values.
    pub open spec fn has(&self, value: Value) -> bool {
        value.origin() == self.origin() && value.index() < self@.values.len()
    }

    /// Whether all the values are values of this function.
    pub open spec fn has_all(&self, values: Seq<Value>) -> bool {
        forall|i: int| 0 <= i < values.len() ==> self.has(#[trigger] values[i])
    }

    /// Whether the value is one of this function.
    pub fn owns(&self, value: Value) -> (r: bool)
        ensures
            r == self.has(value),
    {
        value.origin.scope == self.origin.scope && value.origin.function == self.origin.function
            && value.index < self.values.len()
    }

    /// The type of a value of this function.
    pub fn value_type(&self, value: Value<'s>) -> (r: TypeRef)
        requires
            self.has(value),
        ensures
            r@ == self@.values[value.index() as int],
    {
        TypeRef::borrow_from(&self.values[value.index])
    }

    /// The signature of the function.
    pub fn signature(&self) -> (r: TypeRef)
        ensures
            r@ == self@.signature,
    {
        TypeRef::borrow_from(&self.signature)
    }

    /// How many instructions have been emitted.
    pub fn len(&self) -> (r: usize)
        ensures
            r == self@.insns.len(),
            self@.well_formed(),
    {
        proof {
            use_type_invariant(self);
        }
        self.insns.len()
    }

    /// How many labels have been reserved.
    pub fn label_count(&self) -> (r: usize)
        ensures
            r == self@.labels,
    {
        self.labels
    }

    /// How many values the function has.
    pub fn value_count(&self) -> (r: usize)
        ensures
            r == self@.values.len(),
    {
        self.values.len()
    }

    /// The instruction at a position.
    pub fn insn(&self, position: usize) -> (r: Insn)
        requires
            position < self@.insns.len(),
        ensures
            r == self@.insns[position as int],
    {
        self.insns[position]
    }

    /// A function with nothing in it, to stand in while another is rebuilt.
    fn blank() -> (r: UncompiledFunction<'s>)
        ensures
            r@ == Listing::empty(Shape::Primitive(Primitive::Void)),
            r.origin() == (Origin { scope: 0, function: 0 }),
    {
        let values: Vec<Type> = Vec::new();
        let calls: Vec<Call> = Vec::new();
        assert(type_shapes(values@) =~= Listing::empty(
            Shape::Primitive(Primitive::Void),
        ).values);
        assert(call_views(calls@) =~= Seq::<CallView>::empty());
        UncompiledFunction {
            origin: Origin { scope: 0, function: 0 },
            signature: Type::primitive(Primitive::Void),
            values,
            insns: Vec::new(),
            labels: 0,
            calls,
            brand: PhantomData,
        }
    }

    fn define(&mut self, ty: Type) -> (r: Value<'s>)
        ensures
            final(self)@ == old(self)@.define(ty@),
            final(self)@.well_formed(),
            final(self).origin() == old(self).origin(),
            r.index() == old(self)@.values.len(),
            r.origin() == old(self).origin(),
    {
        let mut taken = Self::blank();
        core::mem::swap(self, &mut taken);
        proof {
            use_type_invariant(&taken);
        }
        let UncompiledFunction { origin, signature, mut values, insns, labels, calls, brand } = taken;
        let index = values.len();
        values.push(ty);
        assert(type_shapes(values@) =~= type_shapes(old(self).values@).push(ty@));
        *self = UncompiledFunction { origin, signature, values, insns, labels, calls, brand };
        Value { origin, index, brand: PhantomData }
    }

    fn emit(&mut self, insn: Insn)
        requires
            insn.in_range(old(self)@.values.len(), old(self)@.labels, old(self)@.calls.len()),
        ensures
            final(self)@ == old(self)@.emit(insn),
            final(self)@.well_formed(),
            final(self).origin() == old(self).origin(),
    {
        let mut taken = Self::blank();
        core::mem::swap(self, &mut taken);
        proof {
            use_type_invariant(&taken);
        }
        let UncompiledFunction { origin, signature, values, mut insns, labels, calls, brand } = taken;
        insns.push(insn);
        *self = UncompiledFunction { origin, signature, values, insns, labels, calls, brand };
    }

    /// Create a new function of the given signature in a build scope. Its
    /// first values are its parameters.
    pub fn new(builder: &mut Builder<'s>, signature: TypeRef) -> (r: UncompiledFunction<'s>)
        requires
            old(builder).made() < u64::MAX,
        ensures
            r@ == Listing::empty(signature@),
            r.origin() == (Origin { scope: old(builder).scope(), function: old(builder).made() }),
            r@.well_formed(),
            final(builder).scope() == old(builder).scope(),
            final(builder).made() == old(builder).made() + 1,
    {
        let origin = builder.next_origin();
        let mut values: Vec<Type> = Vec::new();
        let mut params = signature.params();
        loop
            invariant
                params.owner() == signature@,
                params.position() <= signature@.params().len(),
                values@.len() == params.position(),
                forall|i: int|
                    0 <= i < values@.len() ==> (#[trigger] values@[i])@
                        == signature@.params()[i].ty,
            ensures
                values@.len() == signature@.params().len(),
            decreases signature@.params().len() - params.position(),
        {
            match params.next() {
                Some(ty) => {
                    values.push(ty);
                },
                None => {
                    break ;
                },
            }
        }
        assert(type_shapes(values@) =~= Listing::empty(signature@).values);
        assert(call_views(Seq::<Call>::empty()) =~= Seq::<CallView>::empty());
        UncompiledFunction {
            origin,
            signature: signature.to_owned(),
            values,
            insns: Vec::new(),
            labels: 0,
            calls: Vec::new(),
            brand: PhantomData,
        }
    }

    /// The value of a parameter of the function.
    pub fn get_param(&self, index: usize) -> (r: Value<'s>)
        requires
            index < self@.signature.params().len(),
        ensures
            self.has(r),
            r.index() == index,
            self@.values[index as int] == self@.signature.params()[index as int].ty,
    {
        proof {
            use_type_invariant(self);
        }
        Value { origin: self.origin, index, brand: PhantomData }
    }

    /// How many parameters the function has.
    pub fn param_count(&self) -> (r: usize)
        ensures
            r == self@.signature.params().len(),
    {
        self.signature().params().size_hint().0
    }

    /// Emits a constant of the given type.
    pub fn insn_of(&mut self, ty: TypeRef, value: i64) -> (r: Value<'s>)
        ensures
            defines(
                old(self),
                final(self),
                r,
                ty@,
                Insn::Constant { dest: r.index(), value },
            ),
    {
        let r = self.define(ty.to_owned());
        self.emit(Insn::Constant { dest: r.index, value });
        r
    }

    /// Emits an operation on two values.
    pub fn insn_binary(&mut self, op: BinaryOp, lhs: Value<'s>, rhs: Value<'s>) -> (r: Value<'s>)
        requires
            old(self).has(lhs),
            old(self).has(rhs),
        ensures
            defines(
                old(self),
                final(self),
                r,
                binary_type(
                    op,
                    old(self)@.values[lhs.index() as int],
                    old(self)@.values[rhs.index() as int],
                ),
                Insn::Binary { op, dest: r.index(), lhs: lhs.index(), rhs: rhs.index() },
            ),
    {
        let a = self.value_type(lhs).operand();
        let b = self.value_type(rhs).operand();
        let kind = match op {
            BinaryOp::Add | BinaryOp::Sub | BinaryOp::Mul | BinaryOp::Div | BinaryOp::Rem => join(
                a,
                b,
            ),
            BinaryOp::And | BinaryOp::Or | BinaryOp::Xor => join_bits(a, b),
            BinaryOp::Shl | BinaryOp::Shr => join_bits(a, a),
            BinaryOp::Eq
            | BinaryOp::Ne
            | BinaryOp::Lt
            | BinaryOp::Le
            | BinaryOp::Gt
            | BinaryOp::Ge => Primitive::Int,
        };
        let r = self.define(Type::primitive(kind));
        self.emit(Insn::Binary { op, dest: r.index, lhs: lhs.index, rhs: rhs.index });
        r
    }

    /// Emits an operation on one value.
    pub fn insn_unary(&mut self, op: UnaryOp, value: Value<'s>) -> (r: Value<'s>)
        requires
            old(self).has(value),
        ensures
            defines(
                old(self),
                final(self),
                r,
                unary_type(op, old(self)@.values[value.index() as int]),
                Insn::Unary { op, dest: r.index(), value: value.index() },
            ),
    {
        let a = self.value_type(value).operand();
        let kind = match op {
            UnaryOp::Neg => negate(a),
            UnaryOp::Not => join_bits(a, a),
        };
        let r = self.define(Type::primitive(kind));
        self.emit(Insn::Unary { op, dest: r.index, value: value.index });
        r
    }

    /// Emits a read of a value of the given type at a byte offset from the
    /// address in `base`.
    pub fn insn_load_relative(&mut self, base: Value<'s>, offset: isize, ty: TypeRef) -> (
        r: Value<'s>
    )
        requires
            old(self).has(base),
        ensures
            defines(
                old(self),
                final(self),
                r,
                ty@,
                Insn::LoadRelative { dest: r.index(), base: base.index(), offset },
            ),
    {
        let r = self.define(ty.to_owned());
        self.emit(Insn::LoadRelative { dest: r.index, base: base.index, offset });
        r
    }

    /// Emits the assignment of `value` to `dest`.
    pub fn insn_store(&mut self, dest: Value<'s>, value: Value<'s>)
        requires
            old(self).has(dest),
            old(self).has(value),
        ensures
            appends(
                old(self),
                final(self),
                Insn::Store { dest: dest.index(), value: value.index() },
            ),
    {
        self.emit(Insn::Store { dest: dest.index, value: value.index });
    }

    /// Emits a write of `value` at a byte offset from the address in `base`.
    pub fn insn_store_relative(&mut self, base: Value<'s>, offset: isize, value: Value<'s>)
        requires
            old(self).has(base),
            old(self).has(value),
        ensures
            appends(
                old(self),
                final(self),
                Insn::StoreRelative { base: base.index(), offset, value: value.index() },
            ),
    {
        self.emit(Insn::StoreRelative { base: base.index, offset, value: value.index });
    }

    /// Emits the conversion of a value to the given type. With
    /// `overflow_check`, the generated code fails where the value does not
    /// fit the type; without, the value is cut to the width of the type.
    pub fn insn_convert(&mut self, value: Value<'s>, ty: TypeRef, overflow_check: bool) -> (
        r: Value<'s>
    )
        requires
            old(self).has(value),
        ensures
            defines(
                old(self),
                final(self),
                r,
                ty@,
                Insn::Convert { dest: r.index(), value: value.index(), overflow_check },
            ),
    {
        let r = self.define(ty.to_owned());
        self.emit(Insn::Convert { dest: r.index, value: value.index, overflow_check });
        r
    }

    /// Emits a return of the zero of the function's return type.
    pub fn insn_default_return(&mut self)
        ensures
            appends(old(self), final(self), Insn::DefaultReturn),
    {
        self.emit(Insn::DefaultReturn);
    }

    /// Whether the label is one of this function: the label records this
    /// function as the one in which it was reserved, and its number is that
    /// of one of the function's labels.
    pub open spec fn has_label(&self, label: Label) -> bool {
        label.origin() == self.origin() && label.index() < self@.labels
    }

    /// Which function this is.
    pub fn made_as(&self) -> (r: Origin)
        ensures
            r == self.origin(),
    {
        self.origin
    }

    /// Whether the label is one of this function.
    pub fn owns_label(&self, label: &Label) -> (r: bool)
        ensures
            r == self.has_label(*label),
    {
        let origin = label.made_in();
        origin.scope == self.origin.scope && origin.function == self.origin.function
            && *label.deref() < self.labels as u64
    }

    /// Reserves a label, to be placed later, and gives its number.
    pub fn reserve_label(&mut self) -> (r: u64)
        requires
            old(self)@.labels < usize::MAX,
        ensures
            final(self)@ == old(self)@.reserve(),
            final(self)@.well_formed(),
            final(self).origin() == old(self).origin(),
            r == old(self)@.labels,
    {
        proof {
            use_type_invariant(&*self);
        }
        let index = self.labels;
        self.labels = index + 1;
        index as u64
    }

    /// Emits an unconditional branch to a label.
    pub fn insn_branch(&mut self, label: &Label<'s>)
        requires
            old(self).has_label(*label),
        ensures
            appends(old(self), final(self), Insn::Branch { label: label.index() }),
    {
        self.emit(Insn::Branch { label: *label.deref() });
    }

    /// Emits a branch to a label that is taken if the value is zero.
    pub fn insn_branch_if_not(&mut self, value: Value<'s>, label: &Label<'s>)
        requires
            old(self).has(value),
            old(self).has_label(*label),
        ensures
            appends(
                old(self),
                final(self),
                Insn::BranchIfNot { value: value.index(), label: label.index() },
            ),
    {
        self.emit(Insn::BranchIfNot { value: value.index, label: *label.deref() });
    }

    /// Places a label at the current position.
    pub fn insn_label(&mut self, label: &Label<'s>)
        requires
            old(self).has_label(*label),
        ensures
            appends(old(self), final(self), Insn::Label { label: label.index() }),
    {
        self.emit(Insn::Label { label: *label.deref() });
    }

    /// Whether the label has been placed.
    pub fn is_placed(&self, label: &Label<'s>) -> (r: bool)
        ensures
            r == is_placed(self@.insns, label.index()),
    {
        let wanted = Insn::Label { label: *label.deref() };
        let mut i: usize = 0;
        while i < self.insns.len()
            invariant
                i <= self.insns@.len(),
                wanted == (Insn::Label { label: label.index() }),
                forall|k: int| 0 <= k < i ==> self.insns@[k] != wanted,
            decreases self.insns.len() - i,
        {
            if self.insns[i] == wanted {
                return true;
            }
            i += 1;
        }
        false
    }

    /// Binds a function of the host and emits a call of it. `target` is the
    /// address of the host function, which must stay alive for as long as
    /// the compiled code does; `no_throw` states that the host function only
    /// ever returns. The result is of the type that the signature returns,
    /// and of the type of nothing where it returns nothing.
    pub fn insn_call_native(
        &mut self,
        name: Option<&str>,
        target: usize,
        signature: TypeRef,
        args: &[Value<'s>],
        no_throw: bool,
    ) -> (r: Value<'s>)
        requires
            old(self).has_all(args@),
        ensures
            final(self)@ == old(self)@.bind(
                CallView {
                    name: match name {
                        Some(s) => Some(s@),
                        None => None,
                    },
                    target,
                    signature: signature@,
                    args: indices(args@),
                    no_throw,
                },
            ).define(returned(signature@)).emit(
                Insn::CallNative { dest: r.index(), call: old(self)@.calls.len() as usize },
            ),
            final(self)@.well_formed(),
            final(self).origin() == old(self).origin(),
            final(self).has(r),
            r.index() == old(self)@.values.len(),
    {
        let mut numbers: Vec<usize> = Vec::new();
        let mut i: usize = 0;
        while i < args.len()
            invariant
                i <= args@.len(),
                numbers@.len() == i,
                old(self).has_all(args@),
                forall|k: int| 0 <= k < i ==> numbers@[k] == args@[k].index(),
            decreases args.len() - i,
        {
            assert(old(self).has(args@[i as int]));
            numbers.push(args[i].index);
            i += 1;
        }
        assert(numbers@ =~= indices(args@));
        let result_type = match signature.get_return() {
            Some(ty) => ty.to_owned(),
            None => Type::primitive(Primitive::Void),
        };
        let call = Call {
            name: match name {
                Some(s) => Some(s.to_owned()),
                None => None,
            },
            target,
            signature: signature.to_owned(),
            args: numbers,
            no_throw,
        };
        let number = self.bind(call);
        let r = self.define(result_type);
        self.emit(Insn::CallNative { dest: r.index, call: number });
        r
    }

    fn bind(&mut self, call: Call) -> (r: usize)
        requires
            forall|a: int|
                0 <= a < call.args@.len() ==> (#[trigger] call.args@[a]) < old(
                    self,
                )@.values.len(),
        ensures
            final(self)@ == old(self)@.bind(call_view(call)),
            final(self).origin() == old(self).origin(),
            r == old(self)@.calls.len(),
    {
        let mut taken = Self::blank();
        core::mem::swap(self, &mut taken);
        proof {
            use_type_invariant(&taken);
        }
        let UncompiledFunction { origin, signature, values, insns, labels, mut calls, brand } = taken;
        let number = calls.len();
        calls.push(call);
        assert(call_views(calls@) =~= call_views(old(self).calls@).push(call_view(call)));
        *self = UncompiledFunction { origin, signature, values, insns, labels, calls, brand };
        number
    }

    /// Compiles the function: settles where each label stands. This is the
    /// end of the function's construction. It succeeds if and only if no
    /// label is placed twice and every label that is branched to is placed.
    pub fn compile(self) -> (r: Result<CompiledFunction, CompileError>)
        ensures
            compiles_to(&self, r),
    {
        proof {
            use_type_invariant(&self);
        }
        let ghost insns = self.insns@;
        let ghost labels = self.labels as nat;
        let mut targets: Vec<Option<usize>> = Vec::new();
        let mut l: usize = 0;
        while l < self.labels
            invariant
                l <= self.labels,
                targets@.len() == l,
                forall|k: int| 0 <= k < l ==> targets@[k] is None,
            decreases self.labels - l,
        {
            targets.push(None);
            l += 1;
        }
        let mut j: usize = 0;
        while j < self.insns.len()
            invariant
                insns == self.insns@,
                labels == self.labels as nat,
                self.listing().well_formed(),
                j <= insns.len(),
                targets@.len() == labels,
                forall|k: int| 0 <= k < j ==> !placed_again_at(insns, k),
                forall|l: int|
                    0 <= l < labels ==> match #[trigger] targets@[l] {
                        Some(position) => position < j && insns[position as int] == (Insn::Label {
                            label: l as u64,
                        }),
                        None => forall|i: int|
                            0 <= i < j ==> insns[i] != (Insn::Label { label: l as u64 }),
                    },
            decreases self.insns.len() - j,
        {
            let insn = self.insns[j];
            assert(self.listing().insns[j as int] == insn);
            assert(insn.in_range(
                self.listing().values.len(),
                self.listing().labels,
                self.listing().calls.len(),
            ));
            match insn {
                Insn::Label { label } => {
                    let slot = label as usize;
                    match targets[slot] {
                        Some(position) => {
                            assert(placed_again_at(insns, j as int));
                            return Err(CompileError::LabelPlacedTwice(label));
                        },
                        None => {
                            targets.set(slot, Some(j));
                        },
                    }
                },
                _ => {},
            }
            j += 1;
        }
        assert forall|k: int| !placed_again_at(insns, k) by {}
        assert forall|l: int| 0 <= l < labels implies match #[trigger] targets@[l] {
            Some(position) => position < insns.len() && insns[position as int] == (Insn::Label {
                label: l as u64,
            }),
            None => !is_placed(insns, l as u64),
        } by {}
        let mut j: usize = 0;
        while j < self.insns.len()
            invariant
                insns == self.insns@,
                labels == self.labels as nat,
                self.listing().well_formed(),
                j <= insns.len(),
                resolves(insns, labels, targets@),
                forall|k: int| !placed_again_at(insns, k),
                forall|k: int| 0 <= k < j ==> !dangling_at(insns, k),
            decreases self.insns.len() - j,
        {
            let insn = self.insns[j];
            assert(self.listing().insns[j as int] == insn);
            assert(insn.in_range(
                self.listing().values.len(),
                self.listing().labels,
                self.listing().calls.len(),
            ));
            let target = match insn {
                Insn::Branch { label } => Some(label),
                Insn::BranchIfNot { label, .. } => Some(label),
                _ => None,
            };
            match target {
                Some(label) => {
                    if targets[label as usize].is_none() {
                        assert(dangling_at(insns, j as int));
                        return Err(CompileError::UnplacedLabel(label));
                    }
                    assert(targets@[label as int] is Some);
                    assert(is_placed(insns, label));
                },
                None => {},
            }
            j += 1;
        }
        assert forall|k: int| !dangling_at(insns, k) by {}
        Ok(
            CompiledFunction {
                origin: self.origin,
                signature: self.signature,
                values: self.values,
                insns: self.insns,
                labels: self.labels,
                calls: self.calls,
                targets,
            },
        )
    }
}

/// A compiled function: the instructions of a function that can no longer
/// change, with every label that is branched to settled at one position.
pub struct CompiledFunction {
    origin: Origin,
    signature: Type,
    values: Vec<Type>,
    insns: Vec<Insn>,
    labels: usize,
    calls: Vec<Call>,
    targets: Vec<Option<usize>>,
}

impl View for CompiledFunction {
    type V = Listing;

    open spec fn view(&self) -> Listing {
        self.listing()
    }
}

/// Whether `targets` says of each label where it stands.
pub open spec fn resolves(insns: Seq<Insn>, labels: nat, targets: Seq<Option<usize>>) -> bool {
    &&& targets.len() == labels
    &&& forall|l: int|
        0 <= l < labels ==> match #[trigger] targets[l] {
            Some(position) => position < insns.len() && insns[position as int] == (Insn::Label {
                label: l as u64,
            }),
            None => !is_placed(insns, l as u64),
        }
}

/// Whether `r` is what compiling `f` gives: the same function, if its labels
/// are in order, and else what is wrong with them.
pub open spec fn compiles_to(
    f: &UncompiledFunction,
    r: Result<CompiledFunction, CompileError>,
) -> bool {
    match r {
        Ok(c) => well_labelled(f@.insns) && c@ == f@ && c.origin() == f.origin(),
        Err(e) => label_fault(f@.insns, e),
    }
}

impl CompiledFunction {
    #[verifier::type_invariant]
    spec fn inv(&self) -> bool {
        &&& self.listing().well_formed()
        &&& well_labelled(self.insns@)
        &&& resolves(self.insns@, self.labels as nat, self.targets@)
    }

    /// What the function consists of.
    pub closed spec fn listing(&self) -> Listing {
        Listing {
            signature: self.signature@,
            values: type_shapes(self.values@),
            insns: self.insns@,
            labels: self.labels as nat,
            calls: call_views(self.calls@),
        }
    }

    /// Which function this was while it was built.
    pub closed spec fn origin(&self) -> Origin {
        self.origin
    }

    /// The signature of the function.
    pub fn signature(&self) -> (r: TypeRef)
        ensures
            r@ == self@.signature,
    {
        TypeRef::borrow_from(&self.signature)
    }

    /// How many instructions the function has.
    pub fn len(&self) -> (r: usize)
        ensures
            r == self@.insns.len(),
            self@.well_formed(),
            well_labelled(self@.insns),
    {
        proof {
            use_type_invariant(self);
        }
        self.insns.len()
    }

    /// The instruction at a position.
    pub fn insn(&self, position: usize) -> (r: Insn)
        requires
            position < self@.insns.len(),
        ensures
            r == self@.insns[position as int],
            r.in_range(self@.values.len(), self@.labels, self@.calls.len()),
    {
        proof {
            use_type_invariant(self);
        }
        self.insns[position]
    }

    /// How many values the function has.
    pub fn value_count(&self) -> (r: usize)
        ensures
            r == self@.values.len(),
    {
        self.values.len()
    }

    /// The type of the value of a given number.
    pub fn value_type(&self, index: usize) -> (r: TypeRef)
        requires
            index < self@.values.len(),
        ensures
            r@ == self@.values[index as int],
    {
        TypeRef::borrow_from(&self.values[index])
    }

    /// How many labels the function has.
    pub fn label_count(&self) -> (r: usize)
        ensures
            r == self@.labels,
    {
        self.labels
    }

    /// Where a label stands: the position of the one instruction that
    /// places it, if any does.
    pub fn target(&self, label: u64) -> (r: Option<usize>)
        ensures
            match r {
                Some(position) => {
                    &&& position < self@.insns.len()
                    &&& self@.insns[position as int] == (Insn::Label { label })
                    &&& forall|i: int|
                        0 <= i < self@.insns.len() && i != position ==> self@.insns[i] != (
                        Insn::Label { label })
                },
                None => !is_placed(self@.insns, label),
            },
    {
        proof {
            use_type_invariant(self);
        }
        if label < self.labels as u64 {
            let r = self.targets[label as usize];
            proof {
                if let Some(position) = r {
                    assert forall|i: int|
                        0 <= i < self@.insns.len() && i != position implies self@.insns[i] != (
                    Insn::Label { label }) by {
                        if self@.insns[i] == (Insn::Label { label }) {
                            if i < position {
                                assert(placed_again_at(self@.insns, position as int));
                            } else {
                                assert(placed_again_at(self@.insns, i));
                            }
                        }
                    }
                }
            }
            r
        } else {
            assert forall|i: int| 0 <= i < self@.insns.len() implies self@.insns[i] != (
            Insn::Label { label }) by {
                assert(self@.insns[i].in_range(
                    self@.values.len(),
                    self@.labels,
                    self@.calls.len(),
                ));
            }
            None
        }
    }

    /// How many calls of host functions the function makes.
    pub fn call_count(&self) -> (r: usize)
        ensures
            r == self@.calls.len(),
    {
        self.calls.len()
    }

    /// The address of the host function of a call.
    pub fn call_target(&self, call: usize) -> (r: usize)
        requires
            call < self@.calls.len(),
        ensures
            r == self@.calls[call as int].target,
    {
        self.calls[call].target
    }

    /// The signature under which a call is made.
    pub fn call_signature(&self, call: usize) -> (r: TypeRef)
        requires
            call < self@.calls.len(),
        ensures
            r@ == self@.calls[call as int].signature,
    {
        TypeRef::borrow_from(&self.calls[call].signature)
    }

    /// The numbers of the values that a call hands to the host function.
    pub fn call_args(&self, call: usize) -> (r: &Vec<usize>)
        requires
            call < self@.calls.len(),
        ensures
            r@ == self@.calls[call as int].args,
            forall|a: int| 0 <= a < r@.len() ==> r@[a] < self@.values.len(),
    {
        proof {
            use_type_invariant(self);
            assert forall|a: int| 0 <= a < self.calls@[call as int].args@.len() implies self.calls@[call as int].args@[a]
                < self@.values.len() by {
                assert(self@.calls[call as int].args[a] < self@.values.len());
            }
        }
        &self.calls[call].args
    }

    /// The name under which the host function of a call was bound.
    pub fn call_name(&self, call: usize) -> (r: Option<&str>)
        requires
            call < self@.calls.len(),
        ensures
            match r {
                Some(s) => self@.calls[call as int].name == Some(s@),
                None => self@.calls[call as int].name is None,
            },
    {
        match &self.calls[call].name {
            Some(s) => Some(s.as_str()),
            None => None,
        }
    }

    /// Whether the host function of a call was bound as one that only ever
    /// returns.
    pub fn call_no_throw(&self, call: usize) -> (r: bool)
        requires
            call < self@.calls.len(),
        ensures
            r == self@.calls[call as int].no_throw,
    {
        self.calls[call].no_throw
    }
}

/// A label is placed at least once exactly if some instruction places it,
/// and more than once exactly if two instructions do.
pub proof fn lemma_placements(insns: Seq<Insn>, label: u64)
    ensures
        placements(insns, label) >= 1 <==> is_placed(insns, label),
        placements(insns, label) >= 2 <==> exists|i: int, j: int|
            0 <= i < j < insns.len() && insns[i] == (Insn::Label { label }) && insns[j] == (
            Insn::Label { label }),
    decreases insns.len(),
{
    let place = Insn::Label { label };
    if insns.len() > 0 {
        let front = insns.drop_last();
        let last = insns.len() - 1;
        lemma_placements(front, label);
        assert(forall|i: int| 0 <= i < front.len() ==> front[i] == insns[i]);
        if is_placed(front, label) {
            let i = choose|i: int| 0 <= i < front.len() && front[i] == place;
            assert(insns[i] == place);
            if insns[last] == place {
                assert(0 <= i < last < insns.len() && insns[i] == place && insns[last] == place);
            }
        }
        if placements(front, label) >= 2 {
            let (i, j) = choose|i: int, j: int|
                0 <= i < j < front.len() && front[i] == place && front[j] == place;
            assert(0 <= i < j < insns.len() && insns[i] == place && insns[j] == place);
        }
        if is_placed(insns, label) {
            let i = choose|i: int| 0 <= i < insns.len() && insns[i] == place;
            if i < last {
                assert(front[i] == place);
            }
        }
        if exists|i: int, j: int| 0 <= i < j < insns.len() && insns[i] == place && insns[j] == place {
            let (i, j) = choose|i: int, j: int|
                0 <= i < j < insns.len() && insns[i] == place && insns[j] == place;
            assert(front[i] == place);
            if j < last {
                assert(front[j] == place);
                assert(0 <= i < j < front.len() && front[i] == place && front[j] == place);
            }
        }
    }
}

/// If each label that the instructions name is placed exactly once, however
/// often it is branched to, the labels are in order.
pub proof fn lemma_placed_once_is_well_labelled(insns: Seq<Insn>)
    requires
        forall|i: int, label: u64|
            0 <= i < insns.len() && (#[trigger] insns[i]).label() == Some(label) ==> #[trigger] placements(
                insns,
                label,
            ) == 1,
    ensures
        well_labelled(insns),
{
    assert forall|j: int| !placed_again_at(insns, j) by {
        if placed_again_at(insns, j) {
            let label = insns[j]->Label_label;
            let i = choose|i: int| 0 <= i < j && insns[i] == insns[j];
            assert(insns[j].label() == Some(label));
            assert(placements(insns, label) == 1);
            lemma_placements(insns, label);
            assert(0 <= i < j < insns.len() && insns[i] == (Insn::Label { label }) && insns[j] == (
            Insn::Label { label }));
        }
    }
    assert forall|j: int| !dangling_at(insns, j) by {
        if dangling_at(insns, j) {
            let label = insns[j].target()->0;
            assert(insns[j].label() == Some(label));
            assert(placements(insns, label) == 1);
            lemma_placements(insns, label);
        }
    }
}

/// A label that is placed twice, or that is branched to and placed nowhere,
/// puts the labels out of order.
pub proof fn lemma_misplaced_is_not_well_labelled(insns: Seq<Insn>, label: u64)
    requires
        placements(insns, label) >= 2 || (placements(insns, label) == 0 && exists|j: int|
            0 <= j < insns.len() && (#[trigger] insns[j]).target() == Some(label)),
    ensures
        !well_labelled(insns),
{
    lemma_placements(insns, label);
    if placements(insns, label) >= 2 {
        let (i, j) = choose|i: int, j: int|
            0 <= i < j < insns.len() && insns[i] == (Insn::Label { label }) && insns[j] == (
            Insn::Label { label });
        assert(placed_again_at(insns, j));
    } else {
        let j = choose|j: int|
            0 <= j < insns.len() && (#[trigger] insns[j]).target() == Some(label);
        assert(dangling_at(insns, j));
    }
}

/// Compiling succeeds if the labels of the function are in order, and fails
/// if they are not.
pub proof fn lemma_compiles_iff_well_labelled(
    f: &UncompiledFunction,
    r: Result<CompiledFunction, CompileError>,
)
    requires
        compiles_to(f, r),
    ensures
        r is Ok <==> well_labelled(f@.insns),
{
}

} // verus!
