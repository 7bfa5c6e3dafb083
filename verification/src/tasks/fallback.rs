//! A fallback chain: each task is a stand-in for the one before it.

use vstd::prelude::*;

use crate::aspect::{EmptyTask, Pipeline};
use crate::error::{PipelineError, PipelineResult};
use crate::tasks::{TaskAction, TaskEvent};

verus! {

/// A chain to which fallback tasks can be appended.
pub trait IFallback<K>: Sized {
    /// The tasks of the chain, in the order in which they are tried.
    spec fn fallback_tasks(&self) -> Seq<K>;

    /// Appends `next`, tried when every task before it failed.
    fn then(&mut self, next: K) -> (r: PipelineResult<&mut Self>)
        ensures
            r matches Ok(s) && s.fallback_tasks() == old(self).fallback_tasks().push(next)
                && *final(self) == *final(s),
    ;
}

/// A task of a fallback chain: when it fails, the rest of the chain runs.
#[derive(Clone)]
struct FallbackTask<K> {
    inner: K,
}

/// A fallback chain over tasks `K` and context data `C`.
///
/// The tasks are tried in order until one succeeds; the chain succeeds when a
/// task succeeds and also when every task failed. Before each task the
/// context is checked for cancellation, and a canceled run ends with that
/// error.
#[derive(Clone)]
pub struct Fallback<K, C> {
    tasks: Pipeline<FallbackTask<K>, EmptyTask<C>>,
}

impl<K, C> Fallback<K, C> {
    /// The tasks of the chain, in the order in which they are tried.
    pub closed spec fn spec_tasks(&self) -> Seq<K> {
        self.tasks.chain().map_values(|t: FallbackTask<K>| t.inner)
    }

    /// An empty chain.
    pub fn new() -> (r: Self)
        ensures
            r.spec_tasks() == Seq::<K>::empty(),
    {
        let r = Fallback { tasks: Pipeline::new(EmptyTask::new()) };
        assert(r.spec_tasks() =~= Seq::<K>::empty());
        r
    }

    /// The number of tasks.
    pub fn len(&self) -> (r: usize)
        ensures
            r == self.spec_tasks().len(),
    {
        self.tasks.len()
    }

    /// The task at `index`, if there is one.
    pub fn task_at(&self, index: usize) -> (r: Option<&K>)
        ensures
            index < self.spec_tasks().len() ==> r == Some(&self.spec_tasks()[index as int]),
            index >= self.spec_tasks().len() ==> r is None,
    {
        match self.tasks.item_at(index) {
            Some(t) => Some(&t.inner),
            None => None,
        }
    }
}

impl<K, C> IFallback<K> for Fallback<K, C> {
    open spec fn fallback_tasks(&self) -> Seq<K> {
        self.spec_tasks()
    }

    fn then(&mut self, next: K) -> (r: PipelineResult<&mut Self>) {
        self.tasks.use_raw_item(FallbackTask { inner: next });
        assert(self.spec_tasks() =~= old(self).spec_tasks().push(next));
        Ok(self)
    }
}

/// Where a run of a fallback chain stands.
#[derive(PartialEq, Eq, Structural, Clone, Copy)]
pub enum FallbackPhase {
    /// Waiting for the cancellation check before the task at hand.
    Entering,
    /// Waiting for the task at hand.
    Invoking,
    /// The run is over.
    Done,
}

/// The state of a run of a fallback chain, as the contracts see it.
pub struct FallbackState {
    /// The number of tasks in the chain.
    pub len: nat,
    /// The task at hand.
    pub position: nat,
    pub phase: FallbackPhase,
}

impl FallbackState {
    /// Whether `event` answers the action that this state waits for.
    pub open spec fn expects(self, event: TaskEvent) -> bool {
        match self.phase {
            FallbackPhase::Entering => event is Entered,
            FallbackPhase::Invoking => event is Invoked,
            FallbackPhase::Done => false,
        }
    }

    /// What holds of every state that a run reaches.
    pub open spec fn inv(self) -> bool {
        self.phase != FallbackPhase::Done ==> self.position < self.len
    }

    /// The chain moves on to the task at `position`, or, past the last task,
    /// to its empty end, which succeeds.
    pub open spec fn try_from(len: nat, position: nat) -> (FallbackState, TaskAction) {
        if position < len {
            (
                FallbackState { len, position, phase: FallbackPhase::Entering },
                TaskAction::Enter(position as usize),
            )
        } else {
            (
                FallbackState { len, position, phase: FallbackPhase::Done },
                TaskAction::Finish(Ok(())),
            )
        }
    }

    /// One step of the run: the state after `event`, and what to do next.
    pub open spec fn step(self, event: TaskEvent) -> (FallbackState, TaskAction) {
        match event {
            TaskEvent::Entered(r) => match r {
                Ok(()) => (
                    FallbackState { phase: FallbackPhase::Invoking, ..self },
                    TaskAction::Invoke(self.position as usize),
                ),
                Err(e) => (
                    FallbackState { phase: FallbackPhase::Done, ..self },
                    TaskAction::Finish(Err(e)),
                ),
            },
            TaskEvent::Invoked(r) => match r {
                Ok(()) => (
                    FallbackState { phase: FallbackPhase::Done, ..self },
                    TaskAction::Finish(Ok(())),
                ),
                Err(_) => FallbackState::try_from(self.len, self.position + 1),
            },
            _ => (self, TaskAction::Finish(Ok(()))),
        }
    }
}

/// A run of a fallback chain.
pub struct FallbackRun {
    len: usize,
    position: usize,
    phase: FallbackPhase,
}

impl View for FallbackRun {
    type V = FallbackState;

    closed spec fn view(&self) -> FallbackState {
        FallbackState { len: self.len as nat, position: self.position as nat, phase: self.phase }
    }
}

impl FallbackRun {
    /// Whether this run is in a state that a run can reach.
    pub open spec fn wf(&self) -> bool {
        self@.inv()
    }

    /// Starts a run of `fallback`: the run, and the first thing to do.
    pub fn start<K, C>(fallback: &Fallback<K, C>) -> (r: (FallbackRun, TaskAction))
        ensures
            r.0.wf(),
            (r.0@, r.1) == FallbackState::try_from(fallback.spec_tasks().len(), 0),
    {
        let len = fallback.len();
        FallbackRun::try_from(len, 0)
    }

    fn try_from(len: usize, position: usize) -> (r: (FallbackRun, TaskAction))
        ensures
            r.0.wf(),
            (r.0@, r.1) == FallbackState::try_from(len as nat, position as nat),
    {
        if position < len {
            (FallbackRun { len, position, phase: FallbackPhase::Entering }, TaskAction::Enter(position))
        } else {
            (FallbackRun { len, position, phase: FallbackPhase::Done }, TaskAction::Finish(Ok(())))
        }
    }

    /// Whether `event` answers the action that this run waits for.
    pub fn expects(&self, event: &TaskEvent) -> (r: bool)
        ensures
            r == self@.expects(*event),
    {
        let entered = matches!(event, TaskEvent::Entered(_));
        let invoked = matches!(event, TaskEvent::Invoked(_));
        match self.phase {
            FallbackPhase::Entering => entered,
            FallbackPhase::Invoking => invoked,
            FallbackPhase::Done => false,
        }
    }

    /// Reports `event`, the outcome of the last action; returns what to do
    /// next.
    pub fn step(&mut self, event: TaskEvent) -> (a: TaskAction)
        requires
            old(self).wf(),
            old(self)@.expects(event),
        ensures
            final(self).wf(),
            (final(self)@, a) == old(self)@.step(event),
    {
        match event {
            TaskEvent::Entered(r) => match r {
                Ok(()) => {
                    self.phase = FallbackPhase::Invoking;
                    TaskAction::Invoke(self.position)
                },
                Err(e) => {
                    self.phase = FallbackPhase::Done;
                    TaskAction::Finish(Err(e))
                },
            },
            TaskEvent::Invoked(r) => match r {
                Ok(()) => {
                    self.phase = FallbackPhase::Done;
                    TaskAction::Finish(Ok(()))
                },
                Err(_) => {
                    let (next, a) = FallbackRun::try_from(self.len, self.position + 1);
                    *self = next;
                    a
                },
            },
            _ => TaskAction::Finish(Ok(())),
        }
    }
}

/// A bound on the steps left to a run of a fallback chain.
pub open spec fn fallback_measure(s: FallbackState) -> nat {
    match s.phase {
        FallbackPhase::Done => 0,
        FallbackPhase::Entering => (2 * (s.len - s.position) + 1) as nat,
        FallbackPhase::Invoking => (2 * (s.len - s.position)) as nat,
    }
}

/// A run of a fallback chain ends: every step lowers a bound on the steps
/// left, and a run that is over waits for nothing.
pub proof fn law_fallback_run_ends(s: FallbackState, event: TaskEvent)
    requires
        s.inv(),
        s.expects(event),
    ensures
        fallback_measure(s.step(event).0) < fallback_measure(s),
        s.step(event).0.inv(),
{
}

/// A fallback chain fails only when the cancellation check before a task
/// fails, and then with that check's error.
pub proof fn law_fallback_fails_only_when_canceled(s: FallbackState, event: TaskEvent, e: PipelineError)
    requires
        s.inv(),
        s.expects(event),
        s.step(event).1 == TaskAction::Finish(Err(e)),
    ensures
        s.phase == FallbackPhase::Entering,
        event == TaskEvent::Entered(Err(e)),
{
}

/// The first task that succeeds ends the chain with success; a task that
/// fails hands over to the next one, and when none is left the chain
/// succeeds.
pub proof fn law_fallback_order(s: FallbackState, e: PipelineError)
    requires
        s.inv(),
        s.phase == FallbackPhase::Invoking,
    ensures
        s.step(TaskEvent::Invoked(Ok(()))).1 == TaskAction::Finish(Ok(())),
        s.position + 1 < s.len ==> s.step(TaskEvent::Invoked(Err(e))).1 == TaskAction::Enter(
            (s.position + 1) as usize,
        ),
        s.position + 1 >= s.len ==> s.step(TaskEvent::Invoked(Err(e))).1 == TaskAction::Finish(
            Ok(()),
        ),
{
}

/// Every task of a chain is reached through the cancellation check: moving
/// to a task, the first one included, asks for that check and waits for it.
pub proof fn law_fallback_checks_before_each_task(len: nat, position: nat)
    requires
        position < len,
    ensures
        FallbackState::try_from(len, position).1 == TaskAction::Enter(position as usize),
        FallbackState::try_from(len, position).0 == (FallbackState {
            len,
            position,
            phase: FallbackPhase::Entering,
        }),
        len > 0 ==> FallbackState::try_from(len, 0).1 == TaskAction::Enter(0),
{
}

/// A task of a chain runs only right after the context passed the
/// cancellation check before it.
pub proof fn law_fallback_invoke_follows_check(s: FallbackState, event: TaskEvent, i: usize)
    requires
        s.inv(),
        s.expects(event),
        s.step(event).1 == TaskAction::Invoke(i),
    ensures
        s.phase == FallbackPhase::Entering,
        (event matches TaskEvent::Entered(r) && r is Ok),
        i == s.position as usize,
{
    match event {
        TaskEvent::Entered(r) => match r {
            Ok(()) => {},
            Err(_) => {},
        },
        TaskEvent::Invoked(r) => match r {
            Ok(()) => {},
            Err(_) => {},
        },
        _ => {},
    }
}

} // verus!
