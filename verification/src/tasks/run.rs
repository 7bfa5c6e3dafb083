//! The decisions of a task flow run, as a state machine.
//!
//! A flow's tasks run one inside the next: task `i` runs, then the rest of
//! the flow, and the result of the rest comes back to task `i`. The machine
//! below says, after each piece of outside work, what to do next; the caller
//! does that work (it may await) and reports back.

use vstd::prelude::*;

use crate::error::{PipelineError, PipelineResult};
use crate::tasks::{FlowEnd, StrategicTask, StrategicTaskFlow};

verus! {

/// What the caller of a run is to do next.
#[derive(Debug)]
pub enum TaskAction {
    /// Check the context for cancellation before task `i`; report `Entered`
    /// with the result of the check.
    Enter(usize),
    /// Run task `i`; report `Invoked` with its result.
    Invoke(usize),
    /// Roll task `i` back after its attempt failed, with that attempt's error
    /// (`FlowRun::pending_error`); report `RolledBack`.
    Rollback(usize),
    /// Wait as long as the delay of task `i` says for retry `k` (counted from
    /// 0); report `Delayed`.
    Delay(usize, u32),
    /// Roll task `i` back, without an error, because a later step failed;
    /// report `RolledBack`.
    RollbackDownstream(usize),
    /// The run is over, with this result.
    Finish(PipelineResult<()>),
}

/// What the caller of a run reports back.
#[derive(Debug)]
pub enum TaskEvent {
    Entered(PipelineResult<()>),
    Invoked(PipelineResult<()>),
    RolledBack,
    Delayed,
}

/// Where a run stands.
#[derive(PartialEq, Eq, Structural, Clone, Copy, Debug)]
pub enum FlowPhase {
    /// Waiting for the cancellation check before the current task.
    Entering,
    /// Waiting for an attempt of the current task.
    Invoking,
    /// Waiting for the rollback after a failed attempt of the current task.
    RollingBack,
    /// Waiting for the delay before a retry of the current task.
    Delaying,
    /// Waiting for the rollback of a task that a later failure reached.
    RollingBackDownstream,
    /// The run is over.
    Done,
}

/// The state of a run, as the contracts see it.
pub struct FlowState {
    /// `(catch, retry)` of each task of the flow, in order.
    pub strategies: Seq<(bool, u32)>,
    /// `(catch, retry)` of the core step, if it is a task.
    pub end: Option<(bool, u32)>,
    /// The task at hand: its index, or the number of tasks for the core step.
    pub depth: nat,
    /// For each task that finished its own attempts and waits for the rest of
    /// the flow, outermost first: whether it has been rolled back.
    pub waiting: Seq<bool>,
    pub phase: FlowPhase,
    /// Retries left to the task at hand.
    pub retry_left: u32,
    /// Retries of the task at hand so far.
    pub attempt: u32,
    /// Whether the task at hand has been rolled back.
    pub rolled_back: bool,
    /// The error of the last failed attempt of the task at hand, or, while a
    /// later failure is rolled back, that failure's error.
    pub error: Option<PipelineError>,
}

impl FlowState {
    /// The number of tasks, not counting the core step.
    pub open spec fn len(self) -> nat {
        self.strategies.len()
    }

    /// The strategy of task `i`, the core step at `i` equal to the number of
    /// tasks.
    pub open spec fn strategy(self, i: nat) -> (bool, u32) {
        if i < self.len() {
            self.strategies[i as int]
        } else {
            match self.end {
                Some(s) => s,
                None => (false, 0),
            }
        }
    }

    /// Whether `event` answers the action that this state waits for.
    pub open spec fn expects(self, event: TaskEvent) -> bool {
        match self.phase {
            FlowPhase::Entering => event is Entered,
            FlowPhase::Invoking => event is Invoked,
            FlowPhase::RollingBack => event is RolledBack,
            FlowPhase::Delaying => event is Delayed,
            FlowPhase::RollingBackDownstream => event is RolledBack,
            FlowPhase::Done => false,
        }
    }

    /// What holds of every state that a run reaches.
    pub open spec fn inv(self) -> bool {
        &&& self.depth == self.waiting.len()
        &&& self.depth <= self.len()
        &&& self.phase == FlowPhase::Entering ==> self.depth < self.len()
        &&& (self.phase == FlowPhase::Invoking || self.phase == FlowPhase::RollingBack
            || self.phase == FlowPhase::Delaying) ==> {
            &&& (self.depth == self.len() ==> self.end is Some)
            &&& self.attempt + self.retry_left == self.strategy(self.depth).1
            &&& (self.phase == FlowPhase::Delaying ==> self.retry_left > 0 && self.rolled_back)
            &&& (self.phase != FlowPhase::Delaying ==> self.rolled_back == (self.attempt > 0))
            &&& (self.phase == FlowPhase::RollingBack ==> self.error is Some)
        }
        &&& self.phase == FlowPhase::RollingBackDownstream ==> self.error is Some
        &&& self.phase == FlowPhase::Done ==> self.depth == 0
    }

    /// The task at hand starts its first attempt.
    pub open spec fn start_task(self) -> (FlowState, TaskAction) {
        (
            FlowState {
                phase: FlowPhase::Invoking,
                retry_left: self.strategy(self.depth).1,
                attempt: 0,
                rolled_back: false,
                error: None,
                ..self
            },
            TaskAction::Invoke(self.depth as usize),
        )
    }

    /// The result `outcome` travels back out through the waiting tasks; each
    /// one it reaches with an error, and that was not rolled back yet, is
    /// rolled back now.
    pub open spec fn unwind(self, outcome: PipelineResult<()>) -> (FlowState, TaskAction)
        decreases self.waiting.len(),
    {
        if self.waiting.len() == 0 {
            (
                FlowState { phase: FlowPhase::Done, error: None, depth: 0, ..self },
                TaskAction::Finish(outcome),
            )
        } else {
            let j = (self.waiting.len() - 1) as nat;
            let rolled = self.waiting[j as int];
            let popped = FlowState { waiting: self.waiting.drop_last(), depth: j, ..self };
            match outcome {
                Err(e) => if !rolled {
                    (
                        FlowState {
                            phase: FlowPhase::RollingBackDownstream,
                            error: Some(e),
                            ..popped
                        },
                        TaskAction::RollbackDownstream(j as usize),
                    )
                } else {
                    popped.unwind(outcome)
                },
                Ok(()) => popped.unwind(outcome),
            }
        }
    }

    /// The run moves on to the step at `depth`: a task of the flow, which is
    /// entered after the cancellation check, or the core step.
    pub open spec fn enter_next(self) -> (FlowState, TaskAction) {
        if self.depth < self.len() {
            (
                FlowState { phase: FlowPhase::Entering, error: None, ..self },
                TaskAction::Enter(self.depth as usize),
            )
        } else {
            match self.end {
                Some(_) => self.start_task(),
                None => FlowState { error: None, ..self }.unwind(Ok(())),
            }
        }
    }

    /// The task at hand has made its last attempt; `error` holds that
    /// attempt's error, if it failed. An error that the task does not catch
    /// goes back out; otherwise the rest of the flow runs.
    pub open spec fn conclude_task(self) -> (FlowState, TaskAction) {
        let catch = self.strategy(self.depth).0;
        match self.error {
            Some(e) => if !catch {
                FlowState { error: None, ..self }.unwind(Err(e))
            } else {
                self.go_on()
            },
            None => self.go_on(),
        }
    }

    /// After a task of the flow, the rest of the flow runs; after the core
    /// step, the result goes back out.
    pub open spec fn go_on(self) -> (FlowState, TaskAction) {
        if self.depth < self.len() {
            FlowState {
                waiting: self.waiting.push(self.rolled_back),
                depth: self.depth + 1,
                error: None,
                ..self
            }.enter_next()
        } else {
            FlowState { error: None, ..self }.unwind(Ok(()))
        }
    }

    /// One step of the run: the state after `event`, and what to do next.
    pub open spec fn step(self, event: TaskEvent) -> (FlowState, TaskAction) {
        match event {
            TaskEvent::Entered(r) => match r {
                Ok(()) => self.start_task(),
                Err(e) => self.unwind(Err(e)),
            },
            TaskEvent::Invoked(r) => match r {
                Ok(()) => FlowState { error: None, ..self }.conclude_task(),
                Err(e) => (
                    FlowState { phase: FlowPhase::RollingBack, error: Some(e), ..self },
                    TaskAction::Rollback(self.depth as usize),
                ),
            },
            TaskEvent::RolledBack => if self.phase == FlowPhase::RollingBack {
                let rolled = FlowState { rolled_back: true, ..self };
                if self.retry_left == 0 {
                    rolled.conclude_task()
                } else {
                    (
                        FlowState { phase: FlowPhase::Delaying, ..rolled },
                        TaskAction::Delay(self.depth as usize, self.attempt),
                    )
                }
            } else {
                match self.error {
                    Some(e) => FlowState { error: None, ..self }.unwind(Err(e)),
                    None => FlowState { error: None, ..self }.unwind(Ok(())),
                }
            },
            TaskEvent::Delayed => (
                FlowState {
                    phase: FlowPhase::Invoking,
                    retry_left: (self.retry_left - 1) as u32,
                    attempt: (self.attempt + 1) as u32,
                    ..self
                },
                TaskAction::Invoke(self.depth as usize),
            ),
        }
    }

    /// The state in which a run of a flow with these strategies starts, and
    /// its first action.
    pub open spec fn initial(strategies: Seq<(bool, u32)>, end: Option<(bool, u32)>) -> (
        FlowState,
        TaskAction,
    ) {
        FlowState {
            strategies,
            end,
            depth: 0,
            waiting: Seq::empty(),
            phase: FlowPhase::Entering,
            retry_left: 0,
            attempt: 0,
            rolled_back: false,
            error: None,
        }.enter_next()
    }
}

/// `(catch, retry)` of a task.
pub open spec fn strategy_of<K, D>(t: StrategicTask<K, D>) -> (bool, u32) {
    (t.catches(), t.retries())
}

/// `(catch, retry)` of each task of a flow, in order.
pub open spec fn flow_strategies<K, D>(flow: StrategicTaskFlow<K, D>) -> Seq<(bool, u32)> {
    flow.tasks().map_values(|t: StrategicTask<K, D>| strategy_of(t))
}

/// `(catch, retry)` of the core step of a flow, if it is a task.
pub open spec fn end_strategy<K, D>(flow: StrategicTaskFlow<K, D>) -> Option<(bool, u32)> {
    match flow.end_step() {
        FlowEnd::Task(t) => Some(strategy_of(t)),
        FlowEnd::Empty => None,
    }
}

/// A run of a task flow.
pub struct FlowRun {
    strategies: Vec<(bool, u32)>,
    end: Option<(bool, u32)>,
    depth: usize,
    waiting: Vec<bool>,
    phase: FlowPhase,
    retry_left: u32,
    attempt: u32,
    rolled_back: bool,
    error: Option<PipelineError>,
}

impl View for FlowRun {
    type V = FlowState;

    closed spec fn view(&self) -> FlowState {
        FlowState {
            strategies: self.strategies@,
            end: self.end,
            depth: self.depth as nat,
            waiting: self.waiting@,
            phase: self.phase,
            retry_left: self.retry_left,
            attempt: self.attempt,
            rolled_back: self.rolled_back,
            error: self.error,
        }
    }
}

impl FlowRun {
    /// Whether this run is in a state that a run can reach.
    pub open spec fn wf(&self) -> bool {
        self@.inv()
    }

    fn strategy(&self, i: usize) -> (r: (bool, u32))
        requires
            i <= self@.len(),
        ensures
            r == self@.strategy(i as nat),
    {
        if i < self.strategies.len() {
            self.strategies[i]
        } else {
            match self.end {
                Some(s) => s,
                None => (false, 0),
            }
        }
    }

    fn start_task(&mut self) -> (a: TaskAction)
        requires
            old(self).depth <= old(self)@.len(),
        ensures
            (final(self)@, a) == old(self)@.start_task(),
    {
        self.phase = FlowPhase::Invoking;
        self.retry_left = self.strategy(self.depth).1;
        self.attempt = 0;
        self.rolled_back = false;
        self.error = None;
        TaskAction::Invoke(self.depth)
    }

    fn unwind(&mut self, outcome: PipelineResult<()>) -> (a: TaskAction)
        requires
            old(self).depth == old(self).waiting@.len(),
        ensures
            (final(self)@, a) == old(self)@.unwind(outcome),
    {
        let ghost goal = old(self)@.unwind(outcome);
        loop
            invariant
                self.depth == self.waiting@.len(),
                self@.unwind(outcome) == goal,
                goal == old(self)@.unwind(outcome),
            decreases self.waiting@.len(),
        {
            let ghost prev = self@;
            match self.waiting.pop() {
                None => {
                    self.phase = FlowPhase::Done;
                    self.error = None;
                    self.depth = 0;
                    return TaskAction::Finish(outcome);
                },
                Some(rolled) => {
                    self.depth = self.waiting.len();
                    assert(self@ == FlowState {
                        waiting: prev.waiting.drop_last(),
                        depth: (prev.waiting.len() - 1) as nat,
                        ..prev
                    });
                    assert(rolled == prev.waiting[prev.waiting.len() - 1]);
                    if !rolled && outcome.is_err() {
                        match outcome {
                            Err(e) => {
                                self.phase = FlowPhase::RollingBackDownstream;
                                self.error = Some(e);
                                return TaskAction::RollbackDownstream(self.depth);
                            },
                            Ok(()) => {},
                        }
                    }
                },
            }
        }
    }

    fn enter_next(&mut self) -> (a: TaskAction)
        requires
            old(self).depth == old(self).waiting@.len(),
            old(self).depth <= old(self)@.len(),
        ensures
            (final(self)@, a) == old(self)@.enter_next(),
    {
        if self.depth < self.strategies.len() {
            self.phase = FlowPhase::Entering;
            self.error = None;
            TaskAction::Enter(self.depth)
        } else {
            match self.end {
                Some(_) => self.start_task(),
                None => {
                    self.error = None;
                    self.unwind(Ok(()))
                },
            }
        }
    }

    fn go_on(&mut self) -> (a: TaskAction)
        requires
            old(self).depth == old(self).waiting@.len(),
            old(self).depth <= old(self)@.len(),
        ensures
            (final(self)@, a) == old(self)@.go_on(),
    {
        if self.depth < self.strategies.len() {
            self.waiting.push(self.rolled_back);
            self.depth = self.depth + 1;
            self.error = None;
            self.enter_next()
        } else {
            self.error = None;
            self.unwind(Ok(()))
        }
    }

    fn conclude_task(&mut self) -> (a: TaskAction)
        requires
            old(self).depth == old(self).waiting@.len(),
            old(self).depth <= old(self)@.len(),
        ensures
            (final(self)@, a) == old(self)@.conclude_task(),
    {
        let catch = self.strategy(self.depth).0;
        if !catch && self.error.is_some() {
            match self.error.take() {
                Some(e) => self.unwind(Err(e)),
                None => self.go_on(),
            }
        } else {
            self.go_on()
        }
    }

    /// Starts a run of `flow`: the run, and the first thing to do.
    pub fn start<K, D>(flow: &StrategicTaskFlow<K, D>) -> (r: (FlowRun, TaskAction))
        ensures
            r.0.wf(),
            (r.0@, r.1) == FlowState::initial(flow_strategies(*flow), end_strategy(*flow)),
    {
        let n = flow.len();
        let mut strategies: Vec<(bool, u32)> = Vec::new();
        let mut i: usize = 0;
        while i < n
            invariant
                n == flow.tasks().len(),
                i <= n,
                strategies@ == flow_strategies(*flow).take(i as int),
            decreases n - i,
        {
            match flow.task_at(i) {
                Some(t) => {
                    strategies.push((t.catch_errors(), t.retry_count()));
                },
                None => {},
            }
            proof {
                assert(flow_strategies(*flow).take(i + 1) == flow_strategies(*flow).take(
                    i as int,
                ).push(flow_strategies(*flow)[i as int]));
            }
            i = i + 1;
        }
        assert(flow_strategies(*flow).take(n as int) == flow_strategies(*flow));
        let end = match flow.task_at(n) {
            Some(t) => Some((t.catch_errors(), t.retry_count())),
            None => None,
        };
        let mut run = FlowRun {
            strategies,
            end,
            depth: 0,
            waiting: Vec::new(),
            phase: FlowPhase::Entering,
            retry_left: 0,
            attempt: 0,
            rolled_back: false,
            error: None,
        };
        let a = run.enter_next();
        proof {
            lemma_initial_inv(flow_strategies(*flow), end_strategy(*flow));
        }
        (run, a)
    }

    /// Whether `event` answers the action that this run waits for.
    pub fn expects(&self, event: &TaskEvent) -> (r: bool)
        ensures
            r == self@.expects(*event),
    {
        let entered = matches!(event, TaskEvent::Entered(_));
        let invoked = matches!(event, TaskEvent::Invoked(_));
        let rolled_back = matches!(event, TaskEvent::RolledBack);
        let delayed = matches!(event, TaskEvent::Delayed);
        match self.phase {
            FlowPhase::Entering => entered,
            FlowPhase::Invoking => invoked,
            FlowPhase::RollingBack => rolled_back,
            FlowPhase::Delaying => delayed,
            FlowPhase::RollingBackDownstream => rolled_back,
            FlowPhase::Done => false,
        }
    }

    /// Whether the run is over.
    pub fn is_done(&self) -> (r: bool)
        ensures
            r == (self@.phase == FlowPhase::Done),
    {
        self.phase == FlowPhase::Done
    }

    /// The error that a `Rollback` hands to the task: that of the failed
    /// attempt. A `RollbackDownstream` hands none.
    pub fn pending_error(&self) -> (r: Option<&PipelineError>)
        ensures
            self@.phase == FlowPhase::RollingBack ==> match self@.error {
                Some(e) => r == Some(&e),
                None => r is None,
            },
            self@.phase != FlowPhase::RollingBack ==> r is None,
    {
        if self.phase == FlowPhase::RollingBack {
            match &self.error {
                Some(e) => Some(e),
                None => None,
            }
        } else {
            None
        }
    }

    /// Reports `event`, the outcome of the last action; returns what to do
    /// next.
    pub fn step(&mut self, event: TaskEvent) -> (a: TaskAction)
        requires
            old(self).wf(),
            old(self)@.expects(event),
        ensures
            final(self).wf(),
            (final(self)@, a) == old(self)@.step(event),
    {
        proof {
            lemma_step_inv(self@, event);
        }
        match event {
            TaskEvent::Entered(r) => match r {
                Ok(()) => self.start_task(),
                Err(e) => self.unwind(Err(e)),
            },
            TaskEvent::Invoked(r) => match r {
                Ok(()) => {
                    self.error = None;
                    self.conclude_task()
                },
                Err(e) => {
                    self.phase = FlowPhase::RollingBack;
                    self.error = Some(e);
                    TaskAction::Rollback(self.depth)
                },
            },
            TaskEvent::RolledBack => {
                if self.phase == FlowPhase::RollingBack {
                    self.rolled_back = true;
                    if self.retry_left == 0 {
                        self.conclude_task()
                    } else {
                        self.phase = FlowPhase::Delaying;
                        TaskAction::Delay(self.depth, self.attempt)
                    }
                } else {
                    match self.error.take() {
                        Some(e) => self.unwind(Err(e)),
                        None => self.unwind(Ok(())),
                    }
                }
            },
            TaskEvent::Delayed => {
                self.phase = FlowPhase::Invoking;
                self.retry_left = self.retry_left - 1;
                self.attempt = self.attempt + 1;
                TaskAction::Invoke(self.depth)
            },
        }
    }
}

/// Unwinding always reaches a state that a run can reach.
proof fn lemma_unwind_inv(s: FlowState, outcome: PipelineResult<()>)
    requires
        s.depth == s.waiting.len(),
        s.depth <= s.len(),
    ensures
        s.unwind(outcome).0.inv(),
    decreases s.waiting.len(),
{
    if s.waiting.len() > 0 {
        let j = (s.waiting.len() - 1) as nat;
        let popped = FlowState { waiting: s.waiting.drop_last(), depth: j, ..s };
        lemma_unwind_inv(popped, outcome);
    }
}

proof fn lemma_enter_next_inv(s: FlowState)
    requires
        s.depth == s.waiting.len(),
        s.depth <= s.len(),
    ensures
        s.enter_next().0.inv(),
{
    if s.depth >= s.len() {
        if s.end is None {
            lemma_unwind_inv(FlowState { error: None, ..s }, Ok(()));
        }
    }
}

proof fn lemma_conclude_inv(s: FlowState)
    requires
        s.depth == s.waiting.len(),
        s.depth <= s.len(),
    ensures
        s.conclude_task().0.inv(),
        s.go_on().0.inv(),
{
    if s.depth < s.len() {
        let t = FlowState {
            waiting: s.waiting.push(s.rolled_back),
            depth: s.depth + 1,
            error: None,
            ..s
        };
        lemma_enter_next_inv(t);
    } else {
        lemma_unwind_inv(FlowState { error: None, ..s }, Ok(()));
    }
    match s.error {
        Some(e) => lemma_unwind_inv(FlowState { error: None, ..s }, Err(e)),
        None => {},
    }
}

/// A run starts in a state that a run can reach.
proof fn lemma_initial_inv(strategies: Seq<(bool, u32)>, end: Option<(bool, u32)>)
    ensures
        FlowState::initial(strategies, end).0.inv(),
{
    let s = FlowState {
        strategies,
        end,
        depth: 0,
        waiting: Seq::empty(),
        phase: FlowPhase::Entering,
        retry_left: 0,
        attempt: 0,
        rolled_back: false,
        error: None,
    };
    lemma_enter_next_inv(s);
}

/// Every step keeps what holds of every state that a run reaches.
pub proof fn lemma_step_inv(s: FlowState, event: TaskEvent)
    requires
        s.inv(),
        s.expects(event),
    ensures
        s.step(event).0.inv(),
{
    match event {
        TaskEvent::Entered(r) => match r {
            Ok(()) => {},
            Err(e) => lemma_unwind_inv(s, Err(e)),
        },
        TaskEvent::Invoked(r) => match r {
            Ok(()) => lemma_conclude_inv(FlowState { error: None, ..s }),
            Err(e) => {},
        },
        TaskEvent::RolledBack => {
            if s.phase == FlowPhase::RollingBack {
                lemma_conclude_inv(FlowState { rolled_back: true, ..s });
            } else {
                match s.error {
                    Some(e) => lemma_unwind_inv(FlowState { error: None, ..s }, Err(e)),
                    None => lemma_unwind_inv(FlowState { error: None, ..s }, Ok(())),
                }
            }
        },
        TaskEvent::Delayed => {},
    }
}

/// The steps left to a task with strategy `st`, from its cancellation check
/// to its last rollback.
pub open spec fn task_cost(st: (bool, u32)) -> nat {
    (3 * st.1 + 3) as nat
}

/// The steps left, on the way in, to the tasks from `i` on and the core step.
pub open spec fn cost_from(strategies: Seq<(bool, u32)>, end: Option<(bool, u32)>, i: nat) -> nat
    decreases strategies.len() - i,
{
    if i < strategies.len() {
        task_cost(strategies[i as int]) + cost_from(strategies, end, i + 1)
    } else {
        match end {
            Some(st) => (3 * st.1 + 2) as nat,
            None => 0,
        }
    }
}

/// The steps left, on the way in, to the tasks after the one at hand.
pub open spec fn cost_after(s: FlowState) -> nat {
    if s.depth < s.len() {
        cost_from(s.strategies, s.end, s.depth + 1)
    } else {
        0
    }
}

/// A bound on the steps left to a run.
pub open spec fn measure(s: FlowState) -> nat {
    let forward: nat = match s.phase {
        FlowPhase::Entering => cost_from(s.strategies, s.end, s.depth),
        FlowPhase::Invoking => (3 * s.retry_left + 2 + cost_after(s)) as nat,
        FlowPhase::RollingBack => (3 * s.retry_left + 1 + cost_after(s)) as nat,
        FlowPhase::Delaying => (3 * s.retry_left + cost_after(s)) as nat,
        _ => 0,
    };
    if s.phase == FlowPhase::Done {
        0
    } else {
        2 * forward + s.waiting.len() + 1
    }
}

proof fn lemma_unwind_measure(s: FlowState, outcome: PipelineResult<()>)
    requires
        s.depth == s.waiting.len(),
    ensures
        measure(s.unwind(outcome).0) <= s.waiting.len(),
        s.unwind(outcome).0.strategies == s.strategies,
        s.unwind(outcome).0.end == s.end,
    decreases s.waiting.len(),
{
    if s.waiting.len() > 0 {
        let j = (s.waiting.len() - 1) as nat;
        let popped = FlowState { waiting: s.waiting.drop_last(), depth: j, ..s };
        lemma_unwind_measure(popped, outcome);
    }
}

proof fn lemma_go_on_measure(s: FlowState)
    requires
        s.depth == s.waiting.len(),
        s.depth <= s.len(),
    ensures
        measure(s.go_on().0) <= 2 * cost_after(s) + s.waiting.len() + 2,
{
    if s.depth < s.len() {
        let t = FlowState {
            waiting: s.waiting.push(s.rolled_back),
            depth: s.depth + 1,
            error: None,
            ..s
        };
        if t.depth < t.len() {

        } else {
            match t.end {
                Some(_) => {
                    assert(cost_from(s.strategies, s.end, s.depth + 1) == 3 * t.strategy(t.depth).1
                        + 2);
                },
                None => {
                    lemma_unwind_measure(FlowState { error: None, ..t }, Ok(()));
                },
            }
        }
    } else {
        lemma_unwind_measure(FlowState { error: None, ..s }, Ok(()));
    }
}

/// A run ends: every step lowers a bound on the steps left, and a run that
/// is over waits for nothing.
pub proof fn law_run_ends(s: FlowState, event: TaskEvent)
    requires
        s.inv(),
        s.expects(event),
    ensures
        measure(s.step(event).0) < measure(s),
        s.step(event).0.phase == FlowPhase::Done ==> !s.step(event).0.expects(event),
{
    match event {
        TaskEvent::Entered(r) => match r {
            Ok(()) => {
                assert(cost_from(s.strategies, s.end, s.depth) == task_cost(
                    s.strategies[s.depth as int],
                ) + cost_from(s.strategies, s.end, s.depth + 1));
            },
            Err(e) => lemma_unwind_measure(s, Err(e)),
        },
        TaskEvent::Invoked(r) => match r {
            Ok(()) => {
                lemma_go_on_measure(FlowState { error: None, ..s });
            },
            Err(e) => {},
        },
        TaskEvent::RolledBack => {
            if s.phase == FlowPhase::RollingBack {
                let rolled = FlowState { rolled_back: true, ..s };
                if s.retry_left == 0 {
                    lemma_go_on_measure(rolled);
                    match rolled.error {
                        Some(e) => lemma_unwind_measure(FlowState { error: None, ..rolled }, Err(e)),
                        None => {},
                    }
                }
            } else {
                match s.error {
                    Some(e) => lemma_unwind_measure(FlowState { error: None, ..s }, Err(e)),
                    None => lemma_unwind_measure(FlowState { error: None, ..s }, Ok(())),
                }
            }
        },
        TaskEvent::Delayed => {},
    }
}

/// A failed attempt is followed by the rollback of its task, with its error,
/// whether or not the task catches errors.
pub proof fn law_failed_attempt_is_rolled_back(s: FlowState, e: PipelineError)
    requires
        s.inv(),
        s.phase == FlowPhase::Invoking,
    ensures
        s.step(TaskEvent::Invoked(Err(e))).1 == TaskAction::Rollback(s.depth as usize),
        s.step(TaskEvent::Invoked(Err(e))).0.phase == FlowPhase::RollingBack,
        s.step(TaskEvent::Invoked(Err(e))).0.error == Some(e),
{
}

/// A task is tried at most `1 + retry` times; retry `k` waits for delay `k`,
/// and only a task with retries left waits.
pub proof fn law_retries_are_bounded(s: FlowState)
    requires
        s.inv(),
        s.phase == FlowPhase::RollingBack,
    ensures
        s.attempt <= s.strategy(s.depth).1,
        s.retry_left > 0 ==> s.step(TaskEvent::RolledBack).1 == TaskAction::Delay(
            s.depth as usize,
            s.attempt,
        ) && s.attempt < s.strategy(s.depth).1,
        s.retry_left == 0 ==> s.attempt == s.strategy(s.depth).1 && !(s.step(
            TaskEvent::RolledBack,
        ).1 is Delay),
{
    if s.retry_left == 0 {
        let rolled = FlowState { rolled_back: true, ..s };
        lemma_concluded_action(rolled);
    }
}

/// What can follow the last attempt of a task: the next task is entered, the
/// core step starts, or the result goes back out; the task is never tried
/// again.
proof fn lemma_concluded_action(s: FlowState)
    requires
        s.depth == s.waiting.len(),
        s.depth <= s.len(),
    ensures
        ({
            let a = s.conclude_task().1;
            ||| a == TaskAction::Enter((s.depth + 1) as usize)
            ||| (a == TaskAction::Invoke((s.depth + 1) as usize) && s.depth + 1 == s.len())
            ||| a is RollbackDownstream
            ||| a is Finish
        }),
        ({
            let a = s.go_on().1;
            ||| a == TaskAction::Enter((s.depth + 1) as usize)
            ||| (a == TaskAction::Invoke((s.depth + 1) as usize) && s.depth + 1 == s.len())
            ||| a is RollbackDownstream
            ||| a is Finish
        }),
{
    lemma_unwind_action(FlowState { error: None, ..s }, Ok(()));
    match s.error {
        Some(e) => lemma_unwind_action(FlowState { error: None, ..s }, Err(e)),
        None => {},
    }
    if s.depth < s.len() {
        let t = FlowState {
            waiting: s.waiting.push(s.rolled_back),
            depth: s.depth + 1,
            error: None,
            ..s
        };
        lemma_unwind_action(FlowState { error: None, ..t }, Ok(()));
    }
}

proof fn lemma_unwind_action(s: FlowState, outcome: PipelineResult<()>)
    ensures
        s.unwind(outcome).1 is RollbackDownstream || s.unwind(outcome).1 is Finish,
    decreases s.waiting.len(),
{
    if s.waiting.len() > 0 {
        let j = (s.waiting.len() - 1) as nat;
        let popped = FlowState { waiting: s.waiting.drop_last(), depth: j, ..s };
        lemma_unwind_action(popped, outcome);
    }
}

/// After a successful attempt the task is not tried again: the next task is
/// entered, or else the core step starts, or else the run succeeds.
pub proof fn law_success_ends_attempts(s: FlowState)
    requires
        s.inv(),
        s.phase == FlowPhase::Invoking,
    ensures
        ({
            let (t, a) = s.step(TaskEvent::Invoked(Ok(())));
            &&& s.depth + 1 < s.len() ==> a == TaskAction::Enter((s.depth + 1) as usize)
                && t.waiting == s.waiting.push(s.rolled_back)
            &&& (s.depth + 1 == s.len() && s.end is Some) ==> a == TaskAction::Invoke(
                (s.depth + 1) as usize,
            ) && t.waiting == s.waiting.push(s.rolled_back)
            &&& (s.depth + 1 == s.len() && s.end is None) ==> a == TaskAction::Finish(Ok(()))
            &&& s.depth == s.len() ==> a == TaskAction::Finish(Ok(()))
        }),
{
    let t = FlowState { error: None, ..s };
    lemma_unwind_ok(FlowState { error: None, ..t });
    if t.depth < t.len() {
        let u = FlowState {
            waiting: t.waiting.push(t.rolled_back),
            depth: t.depth + 1,
            error: None,
            ..t
        };
        lemma_unwind_ok(FlowState { error: None, ..u });
    }
}

/// A success goes back out through the waiting tasks without rolling any of
/// them back.
pub proof fn lemma_unwind_ok(s: FlowState)
    ensures
        s.unwind(Ok(())).1 == TaskAction::Finish(Ok(())),
        s.unwind(Ok(())).0.phase == FlowPhase::Done,
    decreases s.waiting.len(),
{
    if s.waiting.len() > 0 {
        let j = (s.waiting.len() - 1) as nat;
        let popped = FlowState { waiting: s.waiting.drop_last(), depth: j, ..s };
        lemma_unwind_ok(popped);
    }
}

/// An error goes back out through the waiting tasks: the innermost one that
/// was not rolled back yet is rolled back next, with no error handed to it,
/// and the run keeps the error; when every waiting task was rolled back, the
/// run ends with the error.
pub proof fn law_failure_rolls_back_waiting_tasks(s: FlowState, e: PipelineError)
    requires
        s.depth == s.waiting.len(),
    ensures
        (exists|j: int| 0 <= j < s.waiting.len() && !s.waiting[j]) ==> ({
            let (t, a) = s.unwind(Err(e));
            let j = t.depth as int;
            &&& a == TaskAction::RollbackDownstream(j as usize)
            &&& 0 <= j < s.waiting.len()
            &&& !s.waiting[j]
            &&& forall|k: int| j < k < s.waiting.len() ==> s.waiting[k]
            &&& t.waiting == s.waiting.take(j)
            &&& t.phase == FlowPhase::RollingBackDownstream
            &&& t.error == Some(e)
        }),
        (forall|j: int| 0 <= j < s.waiting.len() ==> s.waiting[j]) ==> s.unwind(Err(e)).1
            == TaskAction::Finish(Err(e)),
    decreases s.waiting.len(),
{
    if s.waiting.len() > 0 {
        let j = (s.waiting.len() - 1) as nat;
        let popped = FlowState { waiting: s.waiting.drop_last(), depth: j, ..s };
        law_failure_rolls_back_waiting_tasks(popped, e);
        if s.waiting[j as int] {
            if exists|i: int| 0 <= i < s.waiting.len() && !s.waiting[i] {
                let i = choose|i: int| 0 <= i < s.waiting.len() && !s.waiting[i];
                assert(i < j);
                assert(popped.waiting[i] == s.waiting[i]);
                let (t, a) = popped.unwind(Err(e));
                let jj = t.depth as int;
                assert(t.waiting == popped.waiting.take(jj));
                assert(popped.waiting.take(jj) =~= s.waiting.take(jj));
                assert forall|k: int| jj < k < s.waiting.len() implies s.waiting[k] by {
                    if k < j {
                        assert(popped.waiting[k] == s.waiting[k]);
                    }
                }
                assert(!s.waiting[jj]) by {
                    assert(popped.waiting[jj] == s.waiting[jj]);
                }
            } else {
                assert forall|k: int| 0 <= k < popped.waiting.len() implies popped.waiting[k] by {
                    assert(popped.waiting[k] == s.waiting[k]);
                }
            }
        } else {
            assert(s.waiting.drop_last() =~= s.waiting.take(j as int));
        }
    }
}

/// A task whose last attempt failed and that does not catch errors ends the
/// flow's way in: no later task is entered, and its error goes back out.
pub proof fn law_uncaught_failure_stops_flow(s: FlowState, e: PipelineError)
    requires
        s.inv(),
        s.phase == FlowPhase::RollingBack,
        s.retry_left == 0,
        !s.strategy(s.depth).0,
        s.error == Some(e),
    ensures
        s.step(TaskEvent::RolledBack) == (FlowState { error: None, rolled_back: true, ..s }).unwind(
            Err(e),
        ),
{
}

/// A task whose last attempt failed but that catches errors lets the flow go
/// on: it waits, marked as rolled back, for the rest of the flow.
pub proof fn law_caught_failure_goes_on(s: FlowState)
    requires
        s.inv(),
        s.phase == FlowPhase::RollingBack,
        s.retry_left == 0,
        s.strategy(s.depth).0,
        s.depth < s.len(),
    ensures
        s.step(TaskEvent::RolledBack) == (FlowState {
            waiting: s.waiting.push(true),
            depth: s.depth + 1,
            error: None,
            rolled_back: true,
            ..s
        }).enter_next(),
{
}

/// A task of the flow starts its first attempt only right after the context
/// passed the cancellation check before it.
pub proof fn law_check_before_entering(s: FlowState, event: TaskEvent)
    requires
        s.inv(),
        s.expects(event),
        (s.step(event).1 is Invoke),
        s.step(event).0.attempt == 0,
        s.step(event).0.depth < s.len(),
    ensures
        s.phase == FlowPhase::Entering,
        (event matches TaskEvent::Entered(r) && r is Ok),
{
    match event {
        TaskEvent::Invoked(r) => match r {
            Ok(()) => {
                lemma_go_on_depth(FlowState { error: None, ..s });
            },
            Err(_) => {},
        },
        TaskEvent::RolledBack => {
            if s.phase == FlowPhase::RollingBack {
                let rolled = FlowState { rolled_back: true, ..s };
                if s.retry_left == 0 {
                    lemma_concluded_action(rolled);
                    lemma_go_on_depth(rolled);
                }
            } else {
                match s.error {
                    Some(e) => lemma_unwind_action(FlowState { error: None, ..s }, Err(e)),
                    None => lemma_unwind_action(FlowState { error: None, ..s }, Ok(())),
                }
            }
        },
        TaskEvent::Entered(r) => match r {
            Ok(()) => {},
            Err(e) => lemma_unwind_action(s, Err(e)),
        },
        TaskEvent::Delayed => {},
    }
}

/// While a later failure is rolled back, each rolled-back task hands the
/// error on to the tasks before it: the next one rolled back is the innermost
/// waiting task that was not rolled back yet, and the run ends with the error
/// only once every waiting task has been rolled back.
pub proof fn law_rollback_reaches_every_waiting_task(s: FlowState, e: PipelineError)
    requires
        s.inv(),
        s.phase == FlowPhase::RollingBackDownstream,
        s.error == Some(e),
    ensures
        ({
            let (t, a) = s.step(TaskEvent::RolledBack);
            &&& (exists|j: int| 0 <= j < s.waiting.len() && !s.waiting[j]) ==> ({
                let j = t.depth as int;
                &&& a == TaskAction::RollbackDownstream(j as usize)
                &&& 0 <= j < s.waiting.len()
                &&& !s.waiting[j]
                &&& forall|k: int| j < k < s.waiting.len() ==> s.waiting[k]
                &&& t.waiting == s.waiting.take(j)
                &&& t.phase == FlowPhase::RollingBackDownstream
                &&& t.error == Some(e)
            })
            &&& (forall|j: int| 0 <= j < s.waiting.len() ==> s.waiting[j]) ==> (a
                == TaskAction::Finish(Err(e)) && t.phase == FlowPhase::Done)
        }),
{
    let u = FlowState { error: None, ..s };
    law_failure_rolls_back_waiting_tasks(u, e);
    if forall|j: int| 0 <= j < u.waiting.len() ==> u.waiting[j] {
        lemma_unwind_err_done(u, e);
    }
}

/// When every waiting task has been rolled back, an error ends the run.
proof fn lemma_unwind_err_done(s: FlowState, e: PipelineError)
    requires
        forall|j: int| 0 <= j < s.waiting.len() ==> s.waiting[j],
    ensures
        s.unwind(Err(e)).0.phase == FlowPhase::Done,
    decreases s.waiting.len(),
{
    if s.waiting.len() > 0 {
        let j = (s.waiting.len() - 1) as nat;
        let popped = FlowState { waiting: s.waiting.drop_last(), depth: j, ..s };
        assert(s.waiting[j as int]);
        assert forall|k: int| 0 <= k < popped.waiting.len() implies popped.waiting[k] by {
            assert(popped.waiting[k] == s.waiting[k]);
        }
        lemma_unwind_err_done(popped, e);
    }
}

/// A run starts with the cancellation check before the first task; a flow
/// with no tasks starts its core step at once, or, with no core task,
/// succeeds at once.
pub proof fn law_run_starts_with_check(strategies: Seq<(bool, u32)>, end: Option<(bool, u32)>)
    ensures
        ({
            let (t, a) = FlowState::initial(strategies, end);
            &&& t.inv()
            &&& strategies.len() > 0 ==> a == TaskAction::Enter(0) && t.phase
                == FlowPhase::Entering && t.depth == 0
            &&& (strategies.len() == 0 && end is Some) ==> a == TaskAction::Invoke(0) && t.attempt
                == 0
            &&& (strategies.len() == 0 && end is None) ==> a == TaskAction::Finish(Ok(()))
        }),
{
}

/// A core step that catches errors and whose last attempt failed still lets
/// the flow succeed: the run ends at once with success, and no waiting task
/// is rolled back.
pub proof fn law_caught_core_failure_succeeds(s: FlowState)
    requires
        s.inv(),
        s.phase == FlowPhase::RollingBack,
        s.retry_left == 0,
        s.depth == s.len(),
        s.strategy(s.depth).0,
    ensures
        s.step(TaskEvent::RolledBack).1 == TaskAction::Finish(Ok(())),
        s.step(TaskEvent::RolledBack).0.phase == FlowPhase::Done,
{
    let rolled = FlowState { rolled_back: true, error: None, ..s };
    lemma_unwind_ok(rolled);
}

/// Where an `Invoke` that follows the last attempt of a task leads: to the
/// core step.
proof fn lemma_go_on_depth(s: FlowState)
    requires
        s.depth == s.waiting.len(),
        s.depth <= s.len(),
    ensures
        s.conclude_task().1 is Invoke ==> s.conclude_task().0.depth == s.len(),
        s.go_on().1 is Invoke ==> s.go_on().0.depth == s.len(),
{
    lemma_unwind_action(FlowState { error: None, ..s }, Ok(()));
    match s.error {
        Some(e) => lemma_unwind_action(FlowState { error: None, ..s }, Err(e)),
        None => {},
    }
    if s.depth < s.len() {
        let t = FlowState {
            waiting: s.waiting.push(s.rolled_back),
            depth: s.depth + 1,
            error: None,
            ..s
        };
        lemma_unwind_action(FlowState { error: None, ..t }, Ok(()));
    }
}

} // verus!
