//! The interceptor pipeline: a chain of interceptors around a core
//! controller, run on fresh copies so that no state is kept in them.

use vstd::prelude::*;

verus! {

/// The context that travels through an interceptor pipeline.
pub struct Context<T> {
    pub current: T,
}

/// A chain of interceptors `I` around a core controller `E`.
///
/// The interceptors run outermost first in the order in which they were
/// added. Every run works on copies of the interceptors and of the core, so an
/// interceptor cannot keep state from one run to the next.
#[derive(Clone)]
pub struct Pipeline<I, E> {
    end: E,
    /// The interceptors, outermost first.
    stack: Vec<I>,
}

impl<I, E> Pipeline<I, E> {
    /// The interceptors in the order in which a run enters them.
    pub closed spec fn chain(&self) -> Seq<I> {
        self.stack@
    }

    /// The core controller at the end of the chain.
    pub closed spec fn core_step(&self) -> E {
        self.end
    }

    /// A pipeline with no interceptors around `inner`.
    pub fn new(inner: E) -> (r: Self)
        ensures
            r.chain() == Seq::<I>::empty(),
            r.core_step() == inner,
    {
        Pipeline { end: inner, stack: Vec::new() }
    }

    /// Adds an interceptor; it runs after, and inside of, every interceptor
    /// added before.
    pub fn use_interceptor(&mut self, next: I)
        ensures
            final(self).chain() == old(self).chain().push(next),
            final(self).core_step() == old(self).core_step(),
    {
        self.stack.push(next);
    }

    /// The number of interceptors.
    pub fn len(&self) -> (r: usize)
        ensures
            r == self.chain().len(),
    {
        self.stack.len()
    }

    /// The interceptor at `depth` in the chain, if there is one.
    pub fn item_at(&self, depth: usize) -> (r: Option<&I>)
        ensures
            depth < self.chain().len() ==> r == Some(&self.chain()[depth as int]),
            depth >= self.chain().len() ==> r is None,
    {
        if depth < self.stack.len() {
            Some(&self.stack[depth])
        } else {
            None
        }
    }

    /// The core controller.
    pub fn end(&self) -> (r: &E)
        ensures
            *r == self.core_step(),
    {
        &self.end
    }
}

impl<I: Clone, E: Clone> Pipeline<I, E> {
    /// The copies that one run works on: each interceptor cloned, in chain
    /// order, and the core controller cloned.
    pub fn snapshot(&self) -> (r: (Vec<I>, E))
        ensures
            r.0@.len() == self.chain().len(),
            forall|i: int| 0 <= i < self.chain().len() ==> cloned::<I>(self.chain()[i], #[trigger] r.0@[i]),
            cloned::<E>(self.core_step(), r.1),
    {
        (self.stack.clone(), self.end.clone())
    }

    /// Whether `copies` are what one run works on: a clone of each
    /// interceptor, innermost first and outermost last, and a clone of the
    /// core controller.
    pub open spec fn run_copies(&self, copies: (Seq<I>, E)) -> bool {
        &&& copies.0.len() == self.chain().len()
        &&& forall|i: int|
            0 <= i < self.chain().len() ==> cloned::<I>(
                self.chain()[self.chain().len() - 1 - i],
                #[trigger] copies.0[i],
            )
        &&& cloned::<E>(self.core_step(), copies.1)
    }

    /// The copies that one run works on, in the order in which a run wraps
    /// them around the core: the innermost interceptor first, the outermost
    /// last; and the core controller cloned.
    pub fn snapshot_inside_out(&self) -> (r: (Vec<I>, E))
        ensures
            self.run_copies((r.0@, r.1)),
    {
        let n = self.stack.len();
        let mut items: Vec<I> = Vec::new();
        let mut k: usize = n;
        while k > 0
            invariant
                n == self.stack@.len(),
                k <= n,
                items@.len() == n - k,
                forall|i: int|
                    0 <= i < n - k ==> cloned::<I>(self.stack@[n - 1 - i], #[trigger] items@[i]),
            decreases k,
        {
            k = k - 1;
            let item = self.stack[k].clone();
            items.push(item);
        }
        (items, self.end.clone())
    }
}

/// Where cloning gives an exact copy, every run of a pipeline starts from the
/// same state: the copies of any two runs are equal, namely the interceptors
/// innermost first and the core controller. No run changes the pipeline, so
/// nothing one run did reaches the next but through the context.
pub proof fn law_runs_start_alike<I: Clone, E: Clone>(
    p: Pipeline<I, E>,
    a: (Seq<I>, E),
    b: (Seq<I>, E),
)
    requires
        p.run_copies(a),
        p.run_copies(b),
        forall|x: I, y: I| #[trigger] cloned::<I>(x, y) ==> x == y,
        forall|x: E, y: E| #[trigger] cloned::<E>(x, y) ==> x == y,
    ensures
        a == b,
        a.0 == p.chain().reverse(),
        a.1 == p.core_step(),
{
    assert(a.0 =~= p.chain().reverse()) by {
        assert forall|i: int| 0 <= i < a.0.len() implies a.0[i] == p.chain().reverse()[i] by {
            assert(cloned::<I>(p.chain()[p.chain().len() - 1 - i], a.0[i]));
        }
    }
    assert(b.0 =~= p.chain().reverse()) by {
        assert forall|i: int| 0 <= i < b.0.len() implies b.0[i] == p.chain().reverse()[i] by {
            assert(cloned::<I>(p.chain()[p.chain().len() - 1 - i], b.0[i]));
        }
    }
}

} // verus!
