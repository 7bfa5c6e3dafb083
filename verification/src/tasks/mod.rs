//! Tasks and the ways to combine them:
//! 1. in sequence ([`sequence::SequenceTask`]),
//! 2. in parallel branches ([`parallel::ParallelTask`]),
//! 3. as a fallback chain ([`fallback::Fallback`]),
//! each task under a strategy of retries, rollback and caught errors.

pub mod fallback;
pub mod parallel;
pub mod run;
pub mod sequence;
pub mod text;

pub use fallback::{Fallback, FallbackRun, IFallback};
pub use parallel::{ParallelTask, ParallelTaskEx};
pub use run::{FlowRun, TaskAction, TaskEvent};
pub use sequence::SequenceTask;

use vstd::prelude::*;

use crate::aspect::Pipeline;
use crate::error::{PipelineError, PipelineResult};

verus! {

/// User data that parallel branches can bring back into the main context.
pub trait IContext: Sized {
    /// The data after `other` was merged into `self`, as each type defines it.
    spec fn merged(self, other: Self) -> Self;

    /// Merges the data of `other` into `self`.
    fn merge(&mut self, other: &Self)
        ensures
            *final(self) == old(self).merged(*other),
    ;
}

/// How a task is run: whether its error is caught, how often it is retried,
/// and how long to wait before each retry.
pub struct StrategyBuilder<D> {
    catch: bool,
    retry: Option<u32>,
    retry_delay: Option<D>,
}

impl<D> Default for StrategyBuilder<D> {
    /// No caught errors, no retries.
    fn default() -> (r: Self)
        ensures
            r == Self::default_strategy(),
            !r.catches(),
            r.retries() is None,
            r.delay() is None,
    {
        StrategyBuilder { catch: false, retry: None, retry_delay: None }
    }
}

impl<D> StrategyBuilder<D> {
    /// Whether an error of the task is caught.
    pub closed spec fn catches(&self) -> bool {
        self.catch
    }

    /// The number of retries, if it was set.
    pub closed spec fn retries(&self) -> Option<u32> {
        self.retry
    }

    /// The delay before each retry, if it was set.
    pub closed spec fn delay(&self) -> Option<D> {
        self.retry_delay
    }

    /// The default strategy: no caught errors, no retries.
    pub closed spec fn default_strategy() -> Self {
        StrategyBuilder { catch: false, retry: None, retry_delay: None }
    }

    /// The task that `build` makes of `task` under this strategy: an unset
    /// retry count means no retry.
    pub closed spec fn spec_build<K>(self, task: K) -> StrategicTask<K, D> {
        StrategicTask {
            inner: task,
            catch: self.catch,
            retry: match self.retry {
                Some(n) => n,
                None => 0,
            },
            retry_delay: self.retry_delay,
        }
    }

    /// What the default strategy holds: no caught errors, no retries, no
    /// delay.
    pub proof fn lemma_default_strategy()
        ensures
            !Self::default_strategy().catches(),
            Self::default_strategy().retries() is None,
            Self::default_strategy().delay() is None,
    {
    }

    /// What a task built under this strategy holds: the task itself, and the
    /// strategy's settings, an unset retry count as no retry.
    pub proof fn lemma_build<K>(self, task: K)
        ensures
            self.spec_build(task).task() == task,
            self.spec_build(task).catches() == self.catches(),
            self.spec_build(task).retries() == (match self.retries() {
                Some(n) => n,
                None => 0,
            }),
            self.spec_build(task).delay() == self.delay(),
    {
    }

    /// Catches the error of the task: the flow goes on after it fails.
    ///
    /// Rollback does not depend on this: a failed task is rolled back whether
    /// or not its error is caught.
    pub fn catch(&mut self) -> (r: &mut Self)
        ensures
            r.catches(),
            r.retries() == old(self).retries(),
            r.delay() == old(self).delay(),
            *final(self) == *final(r),
    {
        self.catch = true;
        self
    }

    /// Retries the task up to `retry` times, waiting `retry_delay(k)`
    /// milliseconds before retry `k` (counted from 0).
    pub fn retry(&mut self, retry: u32, retry_delay: D) -> (r: &mut Self)
        ensures
            r.catches() == old(self).catches(),
            r.retries() == Some(retry),
            r.delay() == Some(retry_delay),
            *final(self) == *final(r),
    {
        self.retry = Some(retry);
        self.retry_delay = Some(retry_delay);
        self
    }

    /// The task `task` under this strategy.
    pub fn build<K>(self, task: K) -> (r: StrategicTask<K, D>)
        ensures
            r == self.spec_build(task),
            r.task() == task,
            r.catches() == self.catches(),
            r.retries() == (match self.retries() {
                Some(n) => n,
                None => 0,
            }),
            r.delay() == self.delay(),
    {
        StrategicTask {
            inner: task,
            catch: self.catch,
            retry: match self.retry {
                Some(n) => n,
                None => 0,
            },
            retry_delay: self.retry_delay,
        }
    }
}

/// A task `K` under a strategy; `D` computes the delay before a retry.
#[derive(Clone)]
pub struct StrategicTask<K, D> {
    inner: K,
    catch: bool,
    retry: u32,
    retry_delay: Option<D>,
}

impl<K, D> StrategicTask<K, D> {
    /// The task that runs under the strategy.
    pub closed spec fn task(&self) -> K {
        self.inner
    }

    /// Whether an error of the task is caught.
    pub closed spec fn catches(&self) -> bool {
        self.catch
    }

    /// How many times a failed task is retried.
    pub closed spec fn retries(&self) -> u32 {
        self.retry
    }

    /// The delay before each retry; none means no wait.
    pub closed spec fn delay(&self) -> Option<D> {
        self.retry_delay
    }

    /// The task that runs under the strategy, for change in place.
    pub fn child_as_mut(&mut self) -> (r: &mut K)
        ensures
            *r == old(self).task(),
            final(self).task() == *final(r),
            final(self).catches() == old(self).catches(),
            final(self).retries() == old(self).retries(),
            final(self).delay() == old(self).delay(),
    {
        &mut self.inner
    }

    /// The task that runs under the strategy.
    pub fn inner(&self) -> (r: &K)
        ensures
            *r == self.task(),
    {
        &self.inner
    }

    /// Whether an error of the task is caught.
    pub fn catch_errors(&self) -> (r: bool)
        ensures
            r == self.catches(),
    {
        self.catch
    }

    /// How many times a failed task is retried.
    pub fn retry_count(&self) -> (r: u32)
        ensures
            r == self.retries(),
    {
        self.retry
    }

    /// The strategy as text: `catch: <catch>, retry: <retry>`.
    pub fn describe(&self) -> (r: String)
        ensures
            r@ == text::strategy_text(self.catches(), self.retries()),
    {
        text::strategy_description(self.catch, self.retry)
    }

    /// The delay before each retry; none means no wait.
    pub fn retry_delay(&self) -> (r: Option<&D>)
        ensures
            match self.delay() {
                Some(d) => r == Some(&d),
                None => r is None,
            },
    {
        match &self.retry_delay {
            Some(d) => Some(d),
            None => None,
        }
    }
}

/// The core step at the end of a task flow: nothing, or a task of its own.
#[derive(Clone)]
pub enum FlowEnd<K, D> {
    Empty,
    Task(StrategicTask<K, D>),
}

/// The children that a flow lets its user reach and change in place; the
/// list of children itself cannot change through it.
pub trait IChildrenFlow<Task>: Sized {
    /// The children, in the order in which they run.
    spec fn children(&self) -> Seq<Task>;

    /// The child at `index`, for change in place, or `None` past the last
    /// child.
    fn child_at_mut(&mut self, index: usize) -> (r: Option<&mut Task>)
        ensures
            index < old(self).children().len() ==> (r matches Some(c) && *c == old(
                self,
            ).children()[index as int] && final(self).children() == old(self).children().update(
                index as int,
                *final(c),
            )),
            index >= old(self).children().len() ==> (r is None && *final(self) == *old(self)),
    ;
}

/// A flow to which tasks can be appended, each under a strategy.
pub trait IStrategicTaskFlow<K, D>: Sized {
    /// The tasks of the flow, in the order in which they run.
    spec fn flow_tasks(&self) -> Seq<StrategicTask<K, D>>;

    /// Appends `next` under the strategy `builder`.
    fn then_builder(&mut self, next: K, builder: StrategyBuilder<D>) -> (r: PipelineResult<
        &mut Self,
    >)
        ensures
            r matches Ok(s) && s.flow_tasks() == old(self).flow_tasks().push(
                builder.spec_build(next),
            ) && *final(self) == *final(s),
    ;

    /// Appends `next` under the default strategy.
    fn then(&mut self, next: K) -> (r: PipelineResult<&mut Self>)
        ensures
            r matches Ok(s) && s.flow_tasks() == old(self).flow_tasks().push(
                StrategyBuilder::<D>::default_strategy().spec_build(next),
            ) && *final(self) == *final(s),
    {
        let b = StrategyBuilder::default();
        match self.then_builder(next, b) {
            Ok(_) => {},
            Err(e) => {
                return Err(e);
            },
        }
        Ok(self)
    }

    /// Appends `next` under the strategy that `builder_creator` sets up,
    /// starting from the default strategy.
    fn then_builder_f<BT: Fn(&mut StrategyBuilder<D>)>(
        &mut self,
        next: K,
        builder_creator: BT,
    ) -> (r: PipelineResult<&mut Self>)
        requires
            forall|b: &mut StrategyBuilder<D>| call_requires(builder_creator, (b,)),
        ensures
            r matches Ok(s) && (exists|m: &mut StrategyBuilder<D>|
                #[trigger] call_ensures(builder_creator, (m,), ()) && *m
                    == StrategyBuilder::<D>::default_strategy() && s.flow_tasks() == old(
                    self,
                ).flow_tasks().push((*final(m)).spec_build(next))) && *final(self) == *final(s),
    {
        let mut b = StrategyBuilder::default();
        builder_creator(&mut b);
        match self.then_builder(next, b) {
            Ok(_) => {},
            Err(e) => {
                return Err(e);
            },
        }
        Ok(self)
    }
}

/// A sequence of tasks, each under its strategy, run one inside the next,
/// around a core step.
#[derive(Clone)]
pub struct StrategicTaskFlow<K, D> {
    inner: Pipeline<StrategicTask<K, D>, FlowEnd<K, D>>,
}

impl<K, D> StrategicTaskFlow<K, D> {
    /// The tasks of the flow, in the order in which they run.
    pub closed spec fn tasks(&self) -> Seq<StrategicTask<K, D>> {
        self.inner.chain()
    }

    /// The core step of the flow, run after all its tasks.
    pub closed spec fn end_step(&self) -> FlowEnd<K, D> {
        self.inner.core_step()
    }

    /// A flow whose core step is `inner` under the strategy that `builder`
    /// sets up, starting from the default strategy.
    pub fn new_builder<BT: Fn(&mut StrategyBuilder<D>)>(inner: K, builder: BT) -> (r: Self)
        requires
            forall|b: &mut StrategyBuilder<D>| call_requires(builder, (b,)),
        ensures
            r.tasks() == Seq::<StrategicTask<K, D>>::empty(),
            exists|m: &mut StrategyBuilder<D>|
                #[trigger] call_ensures(builder, (m,), ()) && *m
                    == StrategyBuilder::<D>::default_strategy() && r.end_step() == FlowEnd::Task(
                    (*final(m)).spec_build(inner),
                ),
    {
        let mut b = StrategyBuilder::default();
        builder(&mut b);
        let end = b.build(inner);
        StrategicTaskFlow { inner: Pipeline::new(FlowEnd::Task(end)) }
    }

    /// A flow whose core step is `inner` under the default strategy.
    pub fn new(inner: K) -> (r: Self)
        ensures
            r.tasks() == Seq::<StrategicTask<K, D>>::empty(),
            r.end_step() == FlowEnd::Task(StrategyBuilder::<D>::default_strategy().spec_build(inner)),
    {
        let b = StrategyBuilder::default();
        let end = b.build(inner);
        StrategicTaskFlow { inner: Pipeline::new(FlowEnd::Task(end)) }
    }

    /// A flow with no tasks and an empty core step.
    pub fn simple() -> (r: Self)
        ensures
            r.tasks() == Seq::<StrategicTask<K, D>>::empty(),
            r.end_step() == FlowEnd::<K, D>::Empty,
    {
        StrategicTaskFlow { inner: Pipeline::new(FlowEnd::Empty) }
    }

    /// The core step of the flow.
    pub fn end(&self) -> (r: &FlowEnd<K, D>)
        ensures
            *r == self.end_step(),
    {
        self.inner.end()
    }

    /// The tasks of the flow, in the order in which they run, for change in
    /// place; the list itself cannot grow, shrink or be reordered through it,
    /// and the core step stays as it is.
    pub fn children_as_mut(&mut self) -> (r: &mut [StrategicTask<K, D>])
        ensures
            r@ == old(self).tasks(),
            final(r)@ == final(self).tasks(),
            final(self).end_step() == old(self).end_step(),
    {
        self.inner.children_as_mut()
    }

    /// The number of tasks, not counting the core step.
    pub fn len(&self) -> (r: usize)
        ensures
            r == self.tasks().len(),
    {
        self.inner.len()
    }

    /// The task at `index`: one of the flow's tasks, or, at `index` equal to
    /// their number, the core step if it is a task.
    pub fn task_at(&self, index: usize) -> (r: Option<&StrategicTask<K, D>>)
        ensures
            index < self.tasks().len() ==> r == Some(&self.tasks()[index as int]),
            index == self.tasks().len() ==> match self.end_step() {
                FlowEnd::Task(t) => r == Some(&t),
                FlowEnd::Empty => r is None,
            },
            index > self.tasks().len() ==> r is None,
    {
        match self.inner.item_at(index) {
            Some(t) => Some(t),
            None => {
                if index == self.inner.len() {
                    match self.inner.end() {
                        FlowEnd::Task(t) => Some(t),
                        FlowEnd::Empty => None,
                    }
                } else {
                    None
                }
            },
        }
    }
}

impl<K, D> IChildrenFlow<StrategicTask<K, D>> for StrategicTaskFlow<K, D> {
    open spec fn children(&self) -> Seq<StrategicTask<K, D>> {
        self.tasks()
    }

    fn child_at_mut(&mut self, index: usize) -> (r: Option<&mut StrategicTask<K, D>>)
        ensures
            final(self).end_step() == old(self).end_step(),
    {
        if index < self.inner.len() {
            let r = self.inner.item_at_mut(index);
            assert(*r == old(self).children()[index as int]);
            Some(r)
        } else {
            assert(*self == *old(self));
            None
        }
    }
}

impl<K, D> IStrategicTaskFlow<K, D> for StrategicTaskFlow<K, D> {
    open spec fn flow_tasks(&self) -> Seq<StrategicTask<K, D>> {
        self.tasks()
    }

    fn then_builder(&mut self, next: K, builder: StrategyBuilder<D>) -> (r: PipelineResult<
        &mut Self,
    >)
        ensures
            r matches Ok(s) && s.end_step() == old(self).end_step(),
    {
        let ghost built = builder.spec_build(next);
        let task = builder.build(next);
        self.inner.use_raw_item(task);
        assert(self.flow_tasks() == old(self).flow_tasks().push(built));
        Ok(self)
    }
}

} // verus!
