//! Labels: places in the code of a function that branches can go to.

use vstd::prelude::*;
use std::marker::PhantomData;
use crate::function::{Origin, UncompiledFunction};

verus! {

/// A label in the code that can be branched to in instructions. A label is
/// reserved first and placed later, once; branches may name it before and
/// after it is placed. A label records in which function it was reserved,
/// and cannot leave the build scope of that function.
#[derive(Clone, Copy, PartialEq, Eq, Debug)]
pub struct Label<'s> {
    origin: Origin,
    index: u64,
    brand: PhantomData<&'s mut &'s ()>,
}

impl<'s> Label<'s> {
    /// The function in which the label was reserved.
    pub closed spec fn origin(self) -> Origin {
        self.origin
    }

    /// The number of the label in its function.
    pub closed spec fn index(self) -> u64 {
        self.index
    }

    /// Create a new label
    pub fn new(func: &mut UncompiledFunction<'s>) -> (r: Label<'s>)
        requires
            old(func)@.labels < usize::MAX,
        ensures
            final(func)@ == old(func)@.reserve(),
            final(func)@.well_formed(),
            final(func).origin() == old(func).origin(),
            final(func).has_label(r),
            r.index() == old(func)@.labels,
    {
        let origin = func.made_as();
        let index = func.reserve_label();
        Label { origin, index, brand: PhantomData }
    }

    /// The number of the label in its function.
    pub fn deref(&self) -> (r: &u64)
        ensures
            *r == self.index(),
    {
        &self.index
    }

    /// The function in which the label was reserved.
    pub fn made_in(&self) -> (r: Origin)
        ensures
            r == self.origin(),
    {
        self.origin
    }
}

} // verus!
