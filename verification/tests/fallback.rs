use pipeline::aspect::{AspectContext, IContext};
use pipeline::error::{PipelineError, PipelineResult};
use pipeline::tasks::{Fallback, FallbackRun, IFallback, TaskAction, TaskEvent};

#[derive(Debug, Clone)]
struct Data {
    tag: String,
}

/// A stand-in: it succeeds or fails, and may cancel the run.
#[derive(Clone)]
struct Standin {
    name: &'static str,
    works: bool,
    cancels: bool,
}

fn works(name: &'static str) -> Standin {
    Standin { name, works: true, cancels: false }
}

fn fails(name: &'static str) -> Standin {
    Standin { name, works: false, cancels: false }
}

fn run(
    fallback: &Fallback<Standin, Data>,
    context: &mut AspectContext<Data>,
    log: &mut Vec<&'static str>,
) -> PipelineResult<()> {
    let (mut run, mut action) = FallbackRun::start(fallback);
    loop {
        let event = match action {
            TaskAction::Enter(_) => TaskEvent::Entered(context.check_canceled()),
            TaskAction::Invoke(i) => {
                let task = fallback.task_at(i).unwrap();
                log.push(task.name);
                context.current_mut().tag = task.name.to_owned();
                if task.cancels {
                    context.set_canceled();
                }
                if task.works {
                    TaskEvent::Invoked(Ok(()))
                } else {
                    TaskEvent::Invoked(Err(PipelineError::Any(anyhow::Error::msg("no"))))
                }
            }
            TaskAction::Finish(result) => return result,
            _ => panic!("a fallback chain neither rolls back nor waits"),
        };
        assert!(run.expects(&event));
        action = run.step(event);
    }
}

fn context() -> AspectContext<Data> {
    AspectContext::new(Data { tag: "".to_owned() })
}

#[test]
fn first_success_ends_the_chain() {
    let mut f: Fallback<Standin, Data> = Fallback::new();
    f.then(fails("a")).unwrap().then(works("b")).unwrap().then(works("c")).unwrap();
    let mut log = Vec::new();
    let mut ctx = context();
    assert!(run(&f, &mut ctx, &mut log).is_ok());
    assert_eq!(log, vec!["a", "b"]);
    assert_eq!(ctx.current().tag, "b");
}

#[test]
fn chain_where_every_task_fails_still_succeeds() {
    let mut f: Fallback<Standin, Data> = Fallback::new();
    f.then(fails("a")).unwrap();
    f.then(fails("b")).unwrap();
    let mut log = Vec::new();
    assert!(run(&f, &mut context(), &mut log).is_ok());
    assert_eq!(log, vec!["a", "b"]);
    assert_eq!(f.len(), 2);
    assert!(f.task_at(2).is_none());
}

#[test]
fn empty_chain_succeeds() {
    let f: Fallback<Standin, Data> = Fallback::new();
    let mut log = Vec::new();
    assert!(run(&f, &mut context(), &mut log).is_ok());
    assert!(log.is_empty());
}

#[test]
fn canceled_chain_fails_with_the_check() {
    let mut f: Fallback<Standin, Data> = Fallback::new();
    f.then(Standin { name: "a", works: false, cancels: true }).unwrap();
    f.then(works("b")).unwrap();
    let mut log = Vec::new();
    let result = run(&f, &mut context(), &mut log);
    match result {
        Err(PipelineError::Any(e)) => assert_eq!(e.to_string(), "canceled"),
        _ => panic!("the check fails"),
    }
    assert_eq!(log, vec!["a"]);
}
