use pipeline::aspect::{AspectContext, EmptyTask, IContext, Pipeline};
use pipeline::error::{PipelineError, PipelineResult};

#[derive(Debug, Clone)]
struct Data {
    tag: String,
}

/// An item of the test pipelines: it logs its start and end around the rest
/// of the chain, and the item named "c" sets the tag on its way out.
#[derive(Clone)]
struct Task {
    name: &'static str,
}

/// Runs the chain from `depth` on, the way the pipeline nests its items.
fn run(
    line: &Pipeline<Task, EmptyTask<Data>>,
    depth: usize,
    context: &mut AspectContext<Data>,
    log: &mut Vec<String>,
) -> PipelineResult<()> {
    match line.enter(depth, context)? {
        None => line.end().invoke_next(context),
        Some(task) => {
            let task = task.clone();
            log.push(format!("start {}", task.name));
            run(line, depth + 1, context, log)?;
            if task.name == "c" {
                context.current_mut().tag = "c".to_owned();
            }
            log.push(format!("end {}", task.name));
            Ok(())
        }
    }
}

#[test]
fn lib_test() {
    let mut context = AspectContext::new(Data { tag: "".to_owned() });
    let mut line = Pipeline::new(EmptyTask::new());
    line.use_raw_item(Task { name: "a" });
    line.use_raw_item(Task { name: "b" });
    line.use_raw_item(Task { name: "c" });

    let mut log = Vec::new();
    let _ = run(&line, 0, &mut context, &mut log);

    assert_eq!(context.current().tag, "c".to_owned());
}

#[test]
fn items_nest_in_the_order_they_were_added() {
    let mut context = AspectContext::new(Data { tag: "".to_owned() });
    let mut line = Pipeline::new(EmptyTask::new());
    line.use_item(Task { name: "a" });
    line.use_item(Task { name: "b" });
    line.use_raw_item(Task { name: "c" });
    let mut log = Vec::new();
    assert!(run(&line, 0, &mut context, &mut log).is_ok());
    assert_eq!(
        log,
        vec!["start a", "start b", "start c", "end c", "end b", "end a"]
    );
    let names: Vec<&str> = line.children_as_mut().iter().map(|t| t.name).collect();
    assert_eq!(names, vec!["a", "b", "c"]);
    assert_eq!(line.len(), 3);
    assert_eq!(line.item_at(1).map(|t| t.name), Some("b"));
    assert!(line.item_at(3).is_none());
}

#[test]
fn canceled_context_enters_no_item() {
    let mut context = AspectContext::new(Data { tag: "".to_owned() });
    assert!(!context.canceled());
    assert!(context.check_canceled().is_ok());
    context.set_canceled();
    assert!(context.canceled());
    let err = context.check_canceled();
    assert!(matches!(err, Err(PipelineError::Any(_))));
    if let Err(PipelineError::Any(e)) = err {
        assert_eq!(e.to_string(), "canceled");
    }

    let mut line = Pipeline::new(EmptyTask::new());
    line.use_item(Task { name: "a" });
    let mut log = Vec::new();
    assert!(run(&line, 0, &mut context, &mut log).is_err());
    assert!(log.is_empty());
    // The core step is entered without the check.
    assert!(matches!(line.enter(1, &mut context), Ok(None)));
}

#[test]
fn empty_pipeline_runs_its_core_step() {
    let mut context = AspectContext::new(Data { tag: "x".to_owned() });
    let line: Pipeline<Task, EmptyTask<Data>> = Pipeline::new(EmptyTask::new());
    assert_eq!(line.len(), 0);
    let mut log = Vec::new();
    assert!(run(&line, 0, &mut context, &mut log).is_ok());
    assert_eq!(context.current().tag, "x");
}

#[test]
fn children_can_be_changed_in_place() {
    let mut line = Pipeline::new(EmptyTask::<Data>::new());
    line.use_item(Task { name: "a" });
    line.use_item(Task { name: "b" });
    line.children_as_mut()[1].name = "z";
    assert_eq!(line.item_at(1).map(|t| t.name), Some("z"));
    line.item_at_mut(0).name = "y";
    assert_eq!(line.item_at(0).map(|t| t.name), Some("y"));
}

#[test]
fn anyhow_error_converts() {
    let e: PipelineError = anyhow::Error::msg("boom").into();
    match e {
        PipelineError::Any(inner) => assert_eq!(inner.to_string(), "boom"),
        PipelineError::Aggregated(_) => panic!("wrong variant"),
    }
}

#[test]
fn clone_keeps_data_and_cancellation() {
    let mut context = AspectContext::new(Data { tag: "t".to_owned() });
    let copy = context.clone();
    assert!(!copy.canceled());
    assert_eq!(copy.current().tag, "t");
    context.set_canceled();
    let mut copy = context.clone();
    assert!(copy.canceled());
    assert!(copy.check_canceled().is_err());
    assert_eq!(copy.current().tag, "t");
}
