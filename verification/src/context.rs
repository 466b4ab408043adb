//! The context that functions are built in, and its build scopes.
//!
//! Instructions are only ever emitted inside a build scope. A scope is
//! entered by handing a callback to the context, which the context holds
//! exclusively until the callback is done: no second scope can be open on
//! the same context, and what a scope builds cannot be seen half-built.

use vstd::prelude::*;
use std::marker::PhantomData;
use std::rc::Rc;
use crate::function::{
    compiles_to, CompileError, CompiledFunction, Listing, Origin, UncompiledFunction,
};
use crate::types::{Type, TypeRef};

verus! {

/// Holds all of the functions you have built and compiled through it. There
/// can be multiple contexts, but normally there is only one. The compiled
/// functions of a context live as long as the context does, and are handed
/// out on loan. A context numbers its build scopes, so that what was made
/// in one scope can be told from what was made in another.
pub struct Context {
    scopes: u64,
    functions: Vec<CompiledFunction>,
}

/// A context that is in the build phase while generating IR. A builder is
/// handed to the callback of a build scope and ends with it: neither the
/// builder nor anything made through it can leave the callback. A builder
/// stays on the thread of its build scope: it can neither be sent to another
/// thread nor be shared with one.
pub struct Builder<'s> {
    scope: u64,
    made: u64,
    brand: PhantomData<&'s mut &'s ()>,
    thread_bound: PhantomData<Rc<()>>,
}

impl<'s> Builder<'s> {
    /// The number of the build scope.
    pub closed spec fn scope(&self) -> u64 {
        self.scope
    }

    /// How many functions have been made in the build scope.
    pub closed spec fn made(&self) -> u64 {
        self.made
    }

    /// The builder of the build scope of a given number, before any
    /// function is made.
    pub closed spec fn of(scope: u64) -> Builder<'s> {
        Builder { scope, made: 0, brand: PhantomData, thread_bound: PhantomData }
    }

    /// What `of` gives: a builder of that scope that has made no function.
    pub proof fn lemma_of(scope: u64)
        ensures
            Self::of(scope).scope() == scope,
            Self::of(scope).made() == 0,
    {
    }

    /// The number of the build scope.
    pub fn number(&self) -> (r: u64)
        ensures
            r == self.scope(),
    {
        self.scope
    }

    /// How many functions have been made in the build scope.
    pub fn functions_made(&self) -> (r: u64)
        ensures
            r == self.made(),
    {
        self.made
    }

    /// Counts one more function, and says which one it is.
    pub(crate) fn next_origin(&mut self) -> (r: Origin)
        requires
            old(self).made() < u64::MAX,
        ensures
            r == (Origin { scope: old(self).scope(), function: old(self).made() }),
            final(self).scope() == old(self).scope(),
            final(self).made() == old(self).made() + 1,
    {
        let function = self.made;
        self.made = function + 1;
        Origin { scope: self.scope, function }
    }
}

impl Context {
    /// How many build scopes have been opened on the context.
    pub closed spec fn scopes(&self) -> u64 {
        self.scopes
    }

    /// The compiled functions that the context owns, in the order in which
    /// they were compiled.
    pub closed spec fn functions(&self) -> Seq<CompiledFunction> {
        self.functions@
    }

    /// Create a new JIT Context
    pub fn new() -> (r: Context)
        ensures
            r.scopes() == 0,
            r.functions().len() == 0,
    {
        Context { scopes: 0, functions: Vec::new() }
    }

    /// How many compiled functions the context owns.
    pub fn function_count(&self) -> (r: usize)
        ensures
            r == self.functions().len(),
    {
        self.functions.len()
    }

    /// Lends one of the compiled functions that the context owns.
    pub fn function(&self, index: usize) -> (r: &CompiledFunction)
        requires
            index < self.functions().len(),
        ensures
            *r == self.functions()[index as int],
    {
        &self.functions[index]
    }

    /// How many build scopes have been opened on the context.
    pub fn scopes_opened(&self) -> (r: u64)
        ensures
            r == self.scopes(),
    {
        self.scopes
    }

    /// Lock the context so you can safely generate IR. The callback gets the
    /// builder of a new build scope, and what it returns is handed on. The
    /// context is held exclusively until the callback is done, and what is
    /// built in the scope, functions, values and labels, cannot be part of
    /// what the callback returns.
    pub fn build<R, F: FnOnce(Builder) -> R>(&mut self, cb: F) -> (r: R)
        requires
            old(self).scopes() < u64::MAX,
            call_requires(cb, (Builder::of(old(self).scopes()),)),
        ensures
            final(self).scopes() == old(self).scopes() + 1,
            final(self).functions() == old(self).functions(),
            call_ensures(cb, (Builder::of(old(self).scopes()),), r),
    {
        let builder = Builder {
            scope: self.scopes,
            made: 0,
            brand: PhantomData,
            thread_bound: PhantomData,
        };
        self.scopes = self.scopes + 1;
        cb(builder)
    }

    /// Lock the context so you can safely generate IR in a new function on the context which is
    /// compiled for you. The callback gets the new function, with no
    /// instruction in it, and hands it back with its body; the function is
    /// then compiled. Nothing of the function can be seen before that. The
    /// context keeps the compiled function and lends it out; where the
    /// function does not compile, the context keeps nothing of it.
    pub fn build_func<F: FnOnce(UncompiledFunction) -> UncompiledFunction>(
        &mut self,
        signature: Type,
        cb: F,
    ) -> (r: Result<&CompiledFunction, CompileError>)
        requires
            old(self).scopes() < u64::MAX,
            forall|f: UncompiledFunction|
                f@ == Listing::empty(signature@) && f.origin() == (Origin {
                    scope: old(self).scopes(),
                    function: 0,
                }) ==> call_requires(cb, (f,)),
        ensures
            final(self).scopes() == old(self).scopes() + 1,
            exists|empty: UncompiledFunction, full: UncompiledFunction|
                {
                    &&& empty@ == Listing::empty(signature@)
                    &&& empty.origin() == (Origin { scope: old(self).scopes(), function: 0 })
                    &&& call_ensures(cb, (empty,), full)
                    &&& compiles_to(&full, owned(r))
                },
            match r {
                Ok(compiled) => final(self).functions() == old(self).functions().push(*compiled),
                Err(_) => final(self).functions() == old(self).functions(),
            },
    {
        let mut builder = Builder {
            scope: self.scopes,
            made: 0,
            brand: PhantomData,
            thread_bound: PhantomData,
        };
        self.scopes = self.scopes + 1;
        let empty = UncompiledFunction::new(&mut builder, TypeRef::borrow_from(&signature));
        let ghost before = empty;
        let full = cb(empty);
        match full.compile() {
            Ok(compiled) => {
                let ghost outcome = Ok::<CompiledFunction, CompileError>(compiled);
                assert(call_ensures(cb, (before,), full) && compiles_to(&full, outcome));
                let index = self.functions.len();
                self.functions.push(compiled);
                Ok(&self.functions[index])
            },
            Err(error) => {
                let ghost outcome = Err::<CompiledFunction, CompileError>(error);
                assert(call_ensures(cb, (before,), full) && compiles_to(&full, outcome));
                Err(error)
            },
        }
    }
}

/// What a loan of a compiled function stands for: the compiled function
/// itself, or the error.
pub open spec fn owned(r: Result<&CompiledFunction, CompileError>) -> Result<
    CompiledFunction,
    CompileError,
> {
    match r {
        Ok(compiled) => Ok(*compiled),
        Err(error) => Err(error),
    }
}

} // verus!
