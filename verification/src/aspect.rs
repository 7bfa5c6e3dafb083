//! The aspect pipeline: a chain of items around a core step, sharing one
//! context that can be canceled.

use std::marker::PhantomData;
use vstd::prelude::*;

use crate::error::{message_error, PipelineError, PipelineResult};

verus! {

/// The context that travels through a pipeline.
///
/// `current` is the user's data; the context also records whether the run was
/// canceled. Once canceled, no further item of a pipeline is entered.
pub struct AspectContext<T> {
    pub current: T,
    continued: Option<()>,
}

/// What a context offers to the items of a pipeline.
pub trait IContext: Sized {
    /// Whether the run has been canceled.
    spec fn spec_canceled(&self) -> bool;

    /// Fails exactly when the run has been canceled; changes nothing.
    fn check_canceled(&mut self) -> (r: PipelineResult<()>)
        ensures
            *final(self) == *old(self),
            r is Ok <==> !old(self).spec_canceled(),
            r matches Err(e) ==> e is Any,
    ;

    /// Cancels the run.
    fn set_canceled(&mut self)
        ensures
            final(self).spec_canceled(),
    ;
}

impl<T> AspectContext<T> {
    /// The user's data in this context.
    pub closed spec fn data(&self) -> T {
        self.current
    }

    /// Whether this context has been canceled.
    pub closed spec fn is_canceled(&self) -> bool {
        self.continued is None
    }

    /// A fresh, running context around `data`.
    pub fn new(data: T) -> (r: Self)
        ensures
            r.data() == data,
            !r.is_canceled(),
    {
        AspectContext { current: data, continued: Some(()) }
    }

    /// The user's data.
    pub fn current(&self) -> (r: &T)
        ensures
            *r == self.data(),
    {
        &self.current
    }

    /// The user's data, for change in place; the cancellation stays as it
    /// is.
    pub fn current_mut(&mut self) -> (r: &mut T)
        ensures
            *r == old(self).data(),
            final(self).data() == *final(r),
            final(self).is_canceled() == old(self).is_canceled(),
    {
        &mut self.current
    }

    /// Whether this context has been canceled.
    pub fn canceled(&self) -> (r: bool)
        ensures
            r == self.is_canceled(),
    {
        self.continued.is_none()
    }
}

impl<T: Clone> Clone for AspectContext<T> {
    /// A copy of the context: its data cloned, and canceled exactly when the
    /// original is.
    fn clone(&self) -> (r: Self)
        ensures
            cloned::<T>(self.data(), r.data()),
            r.is_canceled() == self.is_canceled(),
    {
        AspectContext { current: self.current.clone(), continued: self.continued }
    }
}

impl<T> IContext for AspectContext<T> {
    open spec fn spec_canceled(&self) -> bool {
        self.is_canceled()
    }

    fn check_canceled(&mut self) -> (r: PipelineResult<()>) {
        match self.continued {
            Some(()) => Ok(()),
            None => Err(PipelineError::Any(message_error("canceled"))),
        }
    }

    fn set_canceled(&mut self)
        ensures
            final(self).data() == old(self).data(),
    {
        self.continued = None;
    }
}

/// The core step that ends a pipeline and does nothing.
pub struct EmptyTask<T> {
    _pt: PhantomData<T>,
}

impl<T> EmptyTask<T> {
    /// The empty step.
    pub fn new() -> Self {
        EmptyTask { _pt: PhantomData }
    }

    /// Running the empty step succeeds and leaves the context as it was.
    pub fn invoke_next(&self, context: &mut AspectContext<T>) -> (r: PipelineResult<()>)
        ensures
            r is Ok,
            *final(context) == *old(context),
    {
        Ok(())
    }
}

impl<T> Clone for EmptyTask<T> {
    fn clone(&self) -> Self {
        EmptyTask { _pt: PhantomData }
    }
}

/// A chain of items `I` around a core step `E`.
///
/// The items run outermost first in the order in which they were added: items
/// added `1, 2, 3` run as `Z1(Z2(Z3(end)))`. Before an item is entered the
/// context is checked for cancellation; the core step is entered without that
/// check.
#[derive(Clone)]
pub struct Pipeline<I, E> {
    end: E,
    /// The items, outermost first.
    stack: Vec<I>,
}

impl<I, E> Pipeline<I, E> {
    /// The items in the order in which a run enters them.
    pub closed spec fn chain(&self) -> Seq<I> {
        self.stack@
    }

    /// The core step at the end of the chain.
    pub closed spec fn core_step(&self) -> E {
        self.end
    }

    /// A pipeline with no items around `inner`.
    pub fn new(inner: E) -> (r: Self)
        ensures
            r.chain() == Seq::<I>::empty(),
            r.core_step() == inner,
    {
        Pipeline { end: inner, stack: Vec::new() }
    }

    /// Adds an item; it runs after, and inside of, every item added before.
    pub fn use_raw_item(&mut self, next: I)
        ensures
            final(self).chain() == old(self).chain().push(next),
            final(self).core_step() == old(self).core_step(),
    {
        self.stack.push(next);
    }

    /// Adds an item; it runs after, and inside of, every item added before.
    pub fn use_item(&mut self, next: I)
        ensures
            final(self).chain() == old(self).chain().push(next),
            final(self).core_step() == old(self).core_step(),
    {
        self.stack.push(next);
    }

    /// The items, in the order in which a run enters them, for change in
    /// place; the list itself cannot grow or shrink through it.
    pub fn children_as_mut(&mut self) -> (r: &mut [I])
        ensures
            r@ == old(self).chain(),
            final(r)@ == final(self).chain(),
            final(self).core_step() == old(self).core_step(),
    {
        self.stack.as_mut_slice()
    }

    /// The item at `depth`, for change in place.
    pub fn item_at_mut(&mut self, depth: usize) -> (r: &mut I)
        requires
            depth < old(self).chain().len(),
        ensures
            *r == old(self).chain()[depth as int],
            final(self).chain() == old(self).chain().update(depth as int, *final(r)),
            final(self).core_step() == old(self).core_step(),
    {
        &mut self.stack[depth]
    }

    /// The number of items.
    pub fn len(&self) -> (r: usize)
        ensures
            r == self.chain().len(),
    {
        self.stack.len()
    }

    /// The core step.
    pub fn end(&self) -> (r: &E)
        ensures
            *r == self.core_step(),
    {
        &self.end
    }

    /// The item at `depth` in the chain, if there is one.
    pub fn item_at(&self, depth: usize) -> (r: Option<&I>)
        ensures
            depth < self.chain().len() ==> r == Some(&self.chain()[depth as int]),
            depth >= self.chain().len() ==> r is None,
    {
        if depth < self.stack.len() {
            Some(&self.stack[depth])
        } else {
            None
        }
    }

    /// Enters the layer at `depth` of a run: the item there, after the
    /// cancellation check, or `None` for the core step, which is entered
    /// without the check.
    pub fn enter<T>(&self, depth: usize, context: &mut AspectContext<T>) -> (r: PipelineResult<
        Option<&I>,
    >)
        requires
            depth <= self.chain().len(),
        ensures
            *final(context) == *old(context),
            depth == self.chain().len() ==> r == Ok::<Option<&I>, PipelineError>(None),
            depth < self.chain().len() && !old(context).is_canceled() ==> r == Ok::<
                Option<&I>,
                PipelineError,
            >(Some(&self.chain()[depth as int])),
            depth < self.chain().len() && old(context).is_canceled() ==> (r matches Err(e)
                && e is Any),
    {
        if depth < self.stack.len() {
            match context.check_canceled() {
                Ok(()) => Ok(Some(&self.stack[depth])),
                Err(e) => Err(e),
            }
        } else {
            Ok(None)
        }
    }
}

} // verus!
