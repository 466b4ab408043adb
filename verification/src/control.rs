//! Structured loops, made of two labels each.

use vstd::prelude::*;
use crate::function::{Insn, Listing, Origin, UncompiledFunction};
use crate::label::Label;

verus! {

/// A loop that is open in a function under construction: the label at its
/// entry, which is placed when the loop is opened, the label at its exit,
/// which is placed when the loop is closed, and the loop around it, if any.
pub struct Loop<'s> {
    start: Label<'s>,
    end: Label<'s>,
    parent: Option<Box<Loop<'s>>>,
}

/// A function after a loop has been opened at its end: two more labels are
/// reserved, and the first of them is placed.
pub open spec fn open_loop(before: Listing) -> Listing {
    before.reserve().reserve().emit(Insn::Label { label: before.labels as u64 })
}

/// A function after the loop of the two given labels has been closed at its
/// end: control goes back to the start, and the end is placed.
pub open spec fn close_loop(before: Listing, start: u64, end: u64) -> Listing {
    before.emit(Insn::Branch { label: start }).emit(Insn::Label { label: end })
}

/// The labels of the loops that are open, outermost first.
pub open spec fn stack(current: Option<Loop>) -> Seq<(u64, u64)> {
    match current {
        Some(inner) => inner.chain(),
        None => Seq::empty(),
    }
}

/// Whether `after` is `before` with more at its end: the instructions of
/// `before` are the first of `after`, and no label is lost.
pub open spec fn continues(before: Listing, after: Listing) -> bool {
    &&& before.insns.len() <= after.insns.len()
    &&& after.insns.subrange(0, before.insns.len() as int) == before.insns
    &&& before.labels <= after.labels
}

impl<'s> Loop<'s> {
    /// The label at the entry of the loop.
    pub closed spec fn entry(&self) -> Label {
        self.start
    }

    /// The label at the exit of the loop.
    pub closed spec fn exit(&self) -> Label {
        self.end
    }

    /// The loop around this one.
    pub closed spec fn parent(&self) -> Option<Loop> {
        match self.parent {
            Some(outer) => Some(*outer),
            None => None,
        }
    }

    /// The labels of this loop and of the loops around it, outermost first:
    /// for each loop the number of its start label and of its end label.
    pub closed spec fn chain(&self) -> Seq<(u64, u64)>
        decreases self,
    {
        match self.parent {
            Some(outer) => outer.chain().push((self.start.index(), self.end.index())),
            None => seq![(self.start.index(), self.end.index())],
        }
    }

    /// The chain of a loop is that of the loop around it, and then its own
    /// two labels.
    pub proof fn lemma_chain(&self)
        ensures
            self.chain() == stack(self.parent()).push((self.entry().index(), self.exit().index())),
            self.chain().len() > 0,
    {
        match self.parent {
            Some(outer) => {},
            None => {
                assert(self.chain() =~= Seq::<(u64, u64)>::empty().push(
                    (self.start.index(), self.end.index()),
                ));
            },
        }
    }

    /// Whether the labels of the loop, and of all the loops around it, were
    /// reserved in the given function.
    pub closed spec fn in_scope(&self, origin: Origin) -> bool
        decreases self,
    {
        &&& self.start.origin() == origin
        &&& self.end.origin() == origin
        &&& match self.parent {
            Some(outer) => outer.in_scope(origin),
            None => true,
        }
    }

    /// What belonging to a function says of a loop and of the loop around it.
    pub proof fn lemma_in_scope(&self, origin: Origin)
        ensures
            self.in_scope(origin) <==> {
                &&& self.entry().origin() == origin
                &&& self.exit().origin() == origin
                &&& match self.parent() {
                    Some(outer) => outer.in_scope(origin),
                    None => true,
                }
            },
    {
    }

    /// Opens a loop at the current position, inside the loop that is
    /// current, if any: reserves its two labels and places the first.
    pub fn new(func: &mut UncompiledFunction<'s>, current_loop: Option<Loop<'s>>) -> (
        r: Loop<'s>
    )
        requires
            old(func)@.labels + 2 <= usize::MAX,
        ensures
            final(func)@ == open_loop(old(func)@),
            final(func)@.well_formed(),
            final(func).origin() == old(func).origin(),
            final(func).has_label(r.entry()),
            final(func).has_label(r.exit()),
            r.entry().index() == old(func)@.labels,
            r.exit().index() == old(func)@.labels + 1,
            r.parent() == current_loop,
            (match current_loop {
                Some(outer) => outer.in_scope(old(func).origin()),
                None => true,
            }) ==> r.in_scope(old(func).origin()),
    {
        let start = Label::new(func);
        let end = Label::new(func);
        func.insn_label(&start);
        Loop {
            start,
            end,
            parent: match current_loop {
                Some(outer) => Some(Box::new(outer)),
                None => None,
            },
        }
    }

    /// Closes the loop at the current position: emits the branch back to its
    /// start and places its end. The loop around it is current again.
    pub fn end(self, func: &mut UncompiledFunction<'s>) -> (r: Option<Loop<'s>>)
        requires
            old(func).has_label(self.entry()),
            old(func).has_label(self.exit()),
        ensures
            final(func)@ == close_loop(old(func)@, self.entry().index(), self.exit().index()),
            final(func)@.well_formed(),
            final(func).origin() == old(func).origin(),
            r == self.parent(),
    {
        func.insn_branch(&self.start);
        func.insn_label(&self.end);
        match self.parent {
            Some(outer) => Some(*outer),
            None => None,
        }
    }

    /// The label at the entry of the loop.
    pub fn start_label(&self) -> (r: Label<'s>)
        ensures
            r == self.entry(),
    {
        self.start
    }

    /// The label at the exit of the loop.
    pub fn end_label(&self) -> (r: Label<'s>)
        ensures
            r == self.exit(),
    {
        self.end
    }
}

/// Loops nest. Open a loop A, emit anything, open a loop B, emit anything,
/// close B, emit anything, close A. Then the four labels are different
/// labels; the code reads, in this order: A's start, B's start, the branch
/// back to B's start, B's end, the branch back to A's start, A's end; and so
/// all of B lies strictly inside the body of A.
pub proof fn lemma_loops_nest(
    l0: Listing,
    l1: Listing,
    l2: Listing,
    l3: Listing,
    l4: Listing,
    l5: Listing,
    l6: Listing,
    l7: Listing,
)
    requires
        l0.labels + 1 <= u64::MAX,
        l2.labels + 1 <= u64::MAX,
        l1 == open_loop(l0),
        continues(l1, l2),
        l3 == open_loop(l2),
        continues(l3, l4),
        l5 == close_loop(l4, l2.labels as u64, (l2.labels + 1) as u64),
        continues(l5, l6),
        l7 == close_loop(l6, l0.labels as u64, (l0.labels + 1) as u64),
    ensures
        ({
            let a_start = l0.labels as u64;
            let a_end = (l0.labels + 1) as u64;
            let b_start = l2.labels as u64;
            let b_end = (l2.labels + 1) as u64;
            let at_a_start = l0.insns.len() as int;
            let at_b_start = l2.insns.len() as int;
            let at_b_back = l4.insns.len() as int;
            let at_a_back = l6.insns.len() as int;
            &&& a_start < a_end < b_start < b_end
            &&& at_a_start < at_b_start < at_b_back < at_b_back + 1 < at_a_back < at_a_back + 1
                < l7.insns.len()
            &&& l7.insns[at_a_start] == Insn::Label { label: a_start }
            &&& l7.insns[at_b_start] == Insn::Label { label: b_start }
            &&& l7.insns[at_b_back] == Insn::Branch { label: b_start }
            &&& l7.insns[at_b_back + 1] == Insn::Label { label: b_end }
            &&& l7.insns[at_a_back] == Insn::Branch { label: a_start }
            &&& l7.insns[at_a_back + 1] == Insn::Label { label: a_end }
        }),
{
    let n1 = l1.insns.len() as int;
    let n3 = l3.insns.len() as int;
    let n5 = l5.insns.len() as int;
    assert(l2.insns.subrange(0, n1)[n1 - 1] == l2.insns[n1 - 1]);
    assert(l4.insns.subrange(0, n3)[n3 - 1] == l4.insns[n3 - 1]);
    assert(l4.insns.subrange(0, n3)[n1 - 1] == l4.insns[n1 - 1]);
    assert(l3.insns[n1 - 1] == l2.insns[n1 - 1]);
    assert(l6.insns.subrange(0, n5)[n5 - 1] == l6.insns[n5 - 1]);
    assert(l6.insns.subrange(0, n5)[n5 - 2] == l6.insns[n5 - 2]);
    assert(l6.insns.subrange(0, n5)[n3 - 1] == l6.insns[n3 - 1]);
    assert(l6.insns.subrange(0, n5)[n1 - 1] == l6.insns[n1 - 1]);
    assert(l5.insns[n3 - 1] == l4.insns[n3 - 1]);
    assert(l5.insns[n1 - 1] == l4.insns[n1 - 1]);
}

/// Emitting an instruction, defining a value, reserving a label and binding
/// a call each continue a function, and so does any number of them in turn.
pub proof fn lemma_continues(a: Listing, b: Listing, c: Listing)
    ensures
        continues(a, a),
        continues(a, b) && continues(b, c) ==> continues(a, c),
        forall|insn: Insn| continues(a, #[trigger] a.emit(insn)),
        forall|ty: crate::layout::Shape| continues(a, #[trigger] a.define(ty)),
        forall|call: crate::function::CallView| continues(a, #[trigger] a.bind(call)),
        continues(a, a.reserve()),
{
    assert(a.insns.subrange(0, a.insns.len() as int) =~= a.insns);
    assert forall|insn: Insn| continues(a, #[trigger] a.emit(insn)) by {
        assert(a.emit(insn).insns.subrange(0, a.insns.len() as int) =~= a.insns);
    }
    if continues(a, b) && continues(b, c) {
        assert(c.insns.subrange(0, a.insns.len() as int) =~= b.insns.subrange(
            0,
            a.insns.len() as int,
        )) by {
            assert(c.insns.subrange(0, b.insns.len() as int) == b.insns);
            assert forall|i: int| 0 <= i < a.insns.len() implies c.insns[i] == b.insns[i] by {
                assert(c.insns.subrange(0, b.insns.len() as int)[i] == c.insns[i]);
            }
        }
    }
}

} // verus!
