use std::collections::HashMap;

use pipeline::aspect::{AspectContext, IContext};
use pipeline::error::{PipelineError, PipelineResult};
use pipeline::tasks::{
    FlowEnd, FlowRun, IChildrenFlow, IStrategicTaskFlow, SequenceTask, StrategicTaskFlow,
    StrategyBuilder, TaskAction, TaskEvent,
};

type Delay = fn(u32) -> u64;

#[derive(Debug, Clone)]
struct Data {
    tag: String,
}

/// A scripted task: it fails its first `failures` attempts, may set the tag
/// and may cancel the run.
#[derive(Clone)]
struct Job {
    name: &'static str,
    failures: u32,
    tag: Option<&'static str>,
    cancels: bool,
}

fn job(name: &'static str) -> Job {
    Job { name, failures: 0, tag: None, cancels: false }
}

fn failing(name: &'static str, failures: u32) -> Job {
    Job { name, failures, tag: None, cancels: false }
}

#[derive(Default)]
struct World {
    log: Vec<String>,
    attempts: HashMap<&'static str, u32>,
    delays: Vec<u64>,
}

impl Job {
    fn invoke(&self, context: &mut AspectContext<Data>, world: &mut World) -> PipelineResult<()> {
        let n = world.attempts.entry(self.name).or_insert(0);
        *n += 1;
        world.log.push(format!("invoke {}", self.name));
        if let Some(tag) = self.tag {
            context.current_mut().tag = tag.to_owned();
        }
        if self.cancels {
            context.set_canceled();
        }
        if *n <= self.failures {
            Err(PipelineError::Any(anyhow::Error::msg(format!("{} failed", self.name))))
        } else {
            Ok(())
        }
    }
}

fn describe(e: Option<&PipelineError>) -> String {
    match e {
        None => "none".to_owned(),
        Some(PipelineError::Any(e)) => e.to_string(),
        Some(PipelineError::Aggregated(v)) => format!("{} errors", v.len()),
    }
}

/// Drives a run of `flow` to its end, doing what each action asks.
fn run_flow(
    flow: &StrategicTaskFlow<Job, Delay>,
    context: &mut AspectContext<Data>,
    world: &mut World,
) -> PipelineResult<()> {
    let (mut run, mut action) = FlowRun::start(flow);
    loop {
        let event = match action {
            TaskAction::Enter(i) => {
                world.log.push(format!("enter {}", i));
                TaskEvent::Entered(context.check_canceled())
            }
            TaskAction::Invoke(i) => {
                let task = flow.task_at(i).unwrap();
                TaskEvent::Invoked(task.inner().invoke(context, world))
            }
            TaskAction::Rollback(i) => {
                let task = flow.task_at(i).unwrap();
                world.log.push(format!("rollback {} ({})", task.inner().name, describe(run.pending_error())));
                TaskEvent::RolledBack
            }
            TaskAction::Delay(i, k) => {
                let task = flow.task_at(i).unwrap();
                let delay = task.retry_delay().map_or(0, |d| d(k));
                world.delays.push(delay);
                TaskEvent::Delayed
            }
            TaskAction::RollbackDownstream(i) => {
                let task = flow.task_at(i).unwrap();
                world.log.push(format!("rollback {} (none)", task.inner().name));
                TaskEvent::RolledBack
            }
            TaskAction::Finish(result) => {
                assert!(run.is_done());
                return result;
            }
        };
        assert!(run.expects(&event));
        action = run.step(event);
    }
}

fn context() -> AspectContext<Data> {
    AspectContext::new(Data { tag: "".to_owned() })
}

fn plain() -> StrategyBuilder<Delay> {
    StrategyBuilder::default()
}

#[test]
fn tasks_run_in_order() {
    let mut flow: StrategicTaskFlow<Job, Delay> = StrategicTaskFlow::simple();
    flow.then_builder(job("a"), plain()).unwrap();
    flow.then_builder(job("b"), plain()).unwrap();
    let mut world = World::default();
    let mut ctx = context();
    assert!(run_flow(&flow, &mut ctx, &mut world).is_ok());
    assert_eq!(world.log, vec!["enter 0", "invoke a", "enter 1", "invoke b"]);
}

#[test]
fn empty_flow_succeeds_at_once() {
    let flow: StrategicTaskFlow<Job, Delay> = StrategicTaskFlow::simple();
    let (run, action) = FlowRun::start(&flow);
    assert!(matches!(action, TaskAction::Finish(Ok(()))));
    assert!(run.is_done());
    assert!(!run.expects(&TaskEvent::Delayed));
}

#[test]
fn failed_attempt_is_retried_after_rollback_and_delay() {
    let mut flow: StrategicTaskFlow<Job, Delay> = StrategicTaskFlow::simple();
    let mut b = plain();
    b.retry(2, |k| ((k + 1) * 10) as u64);
    flow.then_builder(failing("a", 1), b).unwrap();
    let mut world = World::default();
    let mut ctx = context();
    assert!(run_flow(&flow, &mut ctx, &mut world).is_ok());
    assert_eq!(
        world.log,
        vec!["enter 0", "invoke a", "rollback a (a failed)", "invoke a"]
    );
    assert_eq!(world.delays, vec![10]);
}

#[test]
fn exhausted_retries_stop_the_flow_and_roll_back_earlier_tasks() {
    let mut flow: StrategicTaskFlow<Job, Delay> = StrategicTaskFlow::simple();
    flow.then_builder(job("a"), plain()).unwrap();
    let mut b = plain();
    b.retry(2, |k| (k * 100) as u64);
    flow.then_builder(failing("b", 10), b).unwrap();
    flow.then_builder(job("c"), plain()).unwrap();
    let mut world = World::default();
    let mut ctx = context();
    let result = run_flow(&flow, &mut ctx, &mut world);
    assert_eq!(describe(result.as_ref().err()), "b failed");
    assert_eq!(world.attempts.get("b"), Some(&3));
    assert_eq!(world.delays, vec![0, 100]);
    assert_eq!(
        world.log,
        vec![
            "enter 0",
            "invoke a",
            "enter 1",
            "invoke b",
            "rollback b (b failed)",
            "invoke b",
            "rollback b (b failed)",
            "invoke b",
            "rollback b (b failed)",
            "rollback a (none)",
        ]
    );
    assert!(world.attempts.get("c").is_none());
}

#[test]
fn caught_failure_lets_the_flow_go_on() {
    let mut flow: StrategicTaskFlow<Job, Delay> = StrategicTaskFlow::simple();
    flow.then_builder(job("a"), plain()).unwrap();
    let mut b = plain();
    b.catch();
    flow.then_builder(failing("b", 1), b).unwrap();
    flow.then_builder(failing("c", 1), plain()).unwrap();
    let mut world = World::default();
    let mut ctx = context();
    let result = run_flow(&flow, &mut ctx, &mut world);
    assert_eq!(describe(result.as_ref().err()), "c failed");
    // b was rolled back after its own failure, so c's failure does not roll
    // it back again; a was not rolled back yet, so it is.
    assert_eq!(
        world.log,
        vec![
            "enter 0",
            "invoke a",
            "enter 1",
            "invoke b",
            "rollback b (b failed)",
            "enter 2",
            "invoke c",
            "rollback c (c failed)",
            "rollback a (none)",
        ]
    );
}

#[test]
fn caught_failure_alone_succeeds() {
    let mut flow: StrategicTaskFlow<Job, Delay> = StrategicTaskFlow::simple();
    let mut b = plain();
    b.catch();
    flow.then_builder(failing("b", 5), b).unwrap();
    let mut world = World::default();
    let mut ctx = context();
    assert!(run_flow(&flow, &mut ctx, &mut world).is_ok());
    assert_eq!(world.log, vec!["enter 0", "invoke b", "rollback b (b failed)"]);
}

#[test]
fn cancellation_stops_before_the_next_task() {
    let mut flow: StrategicTaskFlow<Job, Delay> = StrategicTaskFlow::simple();
    flow.then_builder(Job { name: "a", failures: 0, tag: None, cancels: true }, plain()).unwrap();
    flow.then_builder(job("b"), plain()).unwrap();
    let mut world = World::default();
    let mut ctx = context();
    let result = run_flow(&flow, &mut ctx, &mut world);
    assert_eq!(describe(result.as_ref().err()), "canceled");
    assert_eq!(world.log, vec!["enter 0", "invoke a", "enter 1", "rollback a (none)"]);
}

#[test]
fn core_task_runs_after_the_tasks_without_a_check() {
    let mut flow: StrategicTaskFlow<Job, Delay> = StrategicTaskFlow::new(Job {
        name: "core",
        failures: 0,
        tag: Some("core"),
        cancels: false,
    });
    assert!(matches!(flow.end(), FlowEnd::Task(_)));
    flow.then_builder(job("a"), plain()).unwrap();
    let mut world = World::default();
    let mut ctx = context();
    assert!(run_flow(&flow, &mut ctx, &mut world).is_ok());
    assert_eq!(world.log, vec!["enter 0", "invoke a", "invoke core"]);
    assert_eq!(ctx.current().tag, "core");
}

#[test]
fn failing_core_task_rolls_back_the_tasks() {
    let flow0: StrategicTaskFlow<Job, Delay> = StrategicTaskFlow::new_builder(failing("core", 9), |b: &mut StrategyBuilder<Delay>| {
        b.retry(1, |_| 5);
    });
    let mut flow = flow0.clone();
    flow.then_builder(job("a"), plain()).unwrap();
    let mut world = World::default();
    let mut ctx = context();
    let result = run_flow(&flow, &mut ctx, &mut world);
    assert_eq!(describe(result.as_ref().err()), "core failed");
    assert_eq!(
        world.log,
        vec![
            "enter 0",
            "invoke a",
            "invoke core",
            "rollback core (core failed)",
            "invoke core",
            "rollback core (core failed)",
            "rollback a (none)",
        ]
    );
    assert_eq!(world.delays, vec![5]);
}

#[test]
fn strategy_builder_defaults_and_settings() {
    let mut flow: StrategicTaskFlow<Job, Delay> = StrategicTaskFlow::simple();
    flow.then_builder(job("a"), plain()).unwrap();
    let mut b = plain();
    b.catch().retry(3, |k| k as u64);
    flow.then_builder(job("b"), b).unwrap();
    flow.then_builder_f(job("c"), |b: &mut StrategyBuilder<Delay>| {
        b.retry(1, |_| 7);
    })
    .unwrap();
    let a = flow.task_at(0).unwrap();
    assert!(!a.catch_errors());
    assert_eq!(a.retry_count(), 0);
    assert!(a.retry_delay().is_none());
    let b = flow.task_at(1).unwrap();
    assert!(b.catch_errors());
    assert_eq!(b.retry_count(), 3);
    assert_eq!(b.retry_delay().map(|d| d(4)), Some(4));
    let c = flow.task_at(2).unwrap();
    assert!(!c.catch_errors());
    assert_eq!(c.retry_count(), 1);
    assert_eq!(c.retry_delay().map(|d| d(0)), Some(7));
    assert_eq!(flow.len(), 3);
    assert!(flow.task_at(3).is_none());
}

#[test]
fn children_of_a_flow_can_be_changed_in_place() {
    let mut seq: SequenceTask<Job, Delay> = SequenceTask::new();
    seq.then_builder(job("a"), plain()).unwrap();
    seq.then_builder(job("b"), plain()).unwrap();
    seq.child_at_mut(1).unwrap().child_as_mut().name = "z";
    assert_eq!(seq.flow().task_at(1).unwrap().inner().name, "z");
    assert!(seq.child_at_mut(2).is_none());
    let mut world = World::default();
    let mut ctx = context();
    assert!(run_flow(seq.flow(), &mut ctx, &mut world).is_ok());
    assert_eq!(world.log, vec!["enter 0", "invoke a", "enter 1", "invoke z"]);
}

#[test]
fn strategy_text_matches_the_debug_format() {
    let mut flow: StrategicTaskFlow<Job, Delay> = StrategicTaskFlow::simple();
    flow.then_builder(job("a"), plain()).unwrap();
    let mut b = plain();
    b.catch().retry(3, |_| 0);
    flow.then_builder(job("b"), b).unwrap();
    let mut c = plain();
    c.retry(u32::MAX, |_| 0);
    flow.then_builder(job("c"), c).unwrap();
    assert_eq!(flow.task_at(0).unwrap().describe(), "catch: false, retry: 0");
    assert_eq!(flow.task_at(1).unwrap().describe(), "catch: true, retry: 3");
    assert_eq!(flow.task_at(2).unwrap().describe(), "catch: false, retry: 4294967295");
    assert_eq!(pipeline::tasks::text::decimal_text(120), "120");
    assert_eq!(pipeline::tasks::text::decimal_text(7), "7");
}

#[test]
fn default_strategy_catches_nothing_and_never_retries() {
    let built = plain().build(job("x"));
    assert!(!built.catch_errors());
    assert_eq!(built.retry_count(), 0);
    assert!(built.retry_delay().is_none());
    assert_eq!(built.inner().name, "x");
}

#[test]
fn builder_closure_sets_the_strategy() {
    let mut flow: StrategicTaskFlow<Job, Delay> = StrategicTaskFlow::simple();
    flow.then_builder(job("a"), plain()).unwrap();
    flow.then_builder_f(job("b"), |b: &mut StrategyBuilder<Delay>| {
        b.retry(2, |_| 0);
    })
    .unwrap();
    assert_eq!(flow.len(), 2);
    assert_eq!(flow.child_at_mut(0).unwrap().describe(), "catch: false, retry: 0");
    assert_eq!(flow.child_at_mut(1).unwrap().describe(), "catch: false, retry: 2");
    assert_eq!(flow.child_at_mut(1).unwrap().inner().name, "b");
    assert!(flow.child_at_mut(2).is_none());
    let core = StrategicTaskFlow::new_builder(job("core"), |b: &mut StrategyBuilder<Delay>| {
        b.catch();
    });
    match core.end() {
        FlowEnd::Task(t) => assert_eq!(t.describe(), "catch: true, retry: 0"),
        FlowEnd::Empty => panic!("the core step is a task"),
    }
    assert_eq!(core.len(), 0);
}

#[test]
fn children_as_mut_changes_tasks_in_place() {
    let mut seq: SequenceTask<Job, Delay> = SequenceTask::new();
    seq.then_builder(job("a"), plain()).unwrap();
    seq.then_builder(job("b"), plain()).unwrap();
    {
        let children = seq.children_as_mut();
        assert_eq!(children.len(), 2);
        children[0].child_as_mut().name = "x";
    }
    assert_eq!(seq.flow().task_at(0).unwrap().inner().name, "x");
    assert_eq!(seq.flow().len(), 2);
    let mut flow: StrategicTaskFlow<Job, Delay> = StrategicTaskFlow::new(job("core"));
    flow.then_builder(job("t"), plain()).unwrap();
    assert_eq!(flow.children_as_mut().len(), 1);
}
