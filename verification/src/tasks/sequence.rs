//! A sequence of tasks, run one after the other.

use vstd::prelude::*;

use crate::error::PipelineResult;
use crate::tasks::{
    FlowEnd, IChildrenFlow, IStrategicTaskFlow, StrategicTask, StrategicTaskFlow, StrategyBuilder,
};

verus! {

/// A sequence of tasks, each under its strategy, run one after the other.
#[derive(Clone)]
pub struct SequenceTask<K, D> {
    tasks: StrategicTaskFlow<K, D>,
}

impl<K, D> SequenceTask<K, D> {
    /// The flow that runs the sequence.
    pub closed spec fn spec_flow(&self) -> StrategicTaskFlow<K, D> {
        self.tasks
    }

    /// An empty sequence.
    pub fn new() -> (r: Self)
        ensures
            r.spec_flow().tasks() == Seq::<StrategicTask<K, D>>::empty(),
            r.spec_flow().end_step() == FlowEnd::<K, D>::Empty,
    {
        SequenceTask { tasks: StrategicTaskFlow::simple() }
    }

    /// The tasks of the sequence, in order, for change in place; the list
    /// itself cannot grow, shrink or be reordered through it.
    pub fn children_as_mut(&mut self) -> (r: &mut [StrategicTask<K, D>])
        ensures
            r@ == old(self).spec_flow().tasks(),
            final(r)@ == final(self).spec_flow().tasks(),
            final(self).spec_flow().end_step() == old(self).spec_flow().end_step(),
    {
        self.tasks.children_as_mut()
    }

    /// The flow that runs the sequence.
    pub fn flow(&self) -> (r: &StrategicTaskFlow<K, D>)
        ensures
            *r == self.spec_flow(),
    {
        &self.tasks
    }
}

impl<K, D> IChildrenFlow<StrategicTask<K, D>> for SequenceTask<K, D> {
    open spec fn children(&self) -> Seq<StrategicTask<K, D>> {
        self.spec_flow().tasks()
    }

    fn child_at_mut(&mut self, index: usize) -> (r: Option<&mut StrategicTask<K, D>>)
        ensures
            final(self).spec_flow().end_step() == old(self).spec_flow().end_step(),
    {
        self.tasks.child_at_mut(index)
    }
}

impl<K, D> IStrategicTaskFlow<K, D> for SequenceTask<K, D> {
    open spec fn flow_tasks(&self) -> Seq<StrategicTask<K, D>> {
        self.spec_flow().tasks()
    }

    fn then_builder(&mut self, next: K, builder: StrategyBuilder<D>) -> (r: PipelineResult<
        &mut Self,
    >)
        ensures
            r matches Ok(s) && s.spec_flow().end_step() == old(self).spec_flow().end_step(),
    {
        match self.tasks.then_builder(next, builder) {
            Ok(_) => {},
            Err(e) => {
                return Err(e);
            },
        }
        Ok(self)
    }
}

} // verus!
