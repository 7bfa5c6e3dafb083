use pipeline::interceptor::{Context, Pipeline};

#[derive(Debug)]
struct Data {
    tag: String,
}

/// An interceptor of the test pipelines: it counts its runs, logs its start
/// and end around the rest of the chain, and the one named "c" sets the tag
/// on its way out.
#[derive(Clone)]
struct Task {
    name: &'static str,
    runs: u32,
}

#[derive(Clone)]
struct Core {
    runs: u32,
}

/// Runs one copy of the chain, the way the pipeline nests its interceptors.
fn run(items: &mut [Task], end: &mut Core, context: &mut Context<Data>, log: &mut Vec<String>) {
    match items.split_first_mut() {
        None => {
            end.runs += 1;
        }
        Some((first, rest)) => {
            first.runs += 1;
            log.push(format!("start {}", first.name));
            run(rest, end, context, log);
            if first.name == "c" {
                context.current.tag = "c".to_owned();
            }
            log.push(format!("end {}", first.name));
        }
    }
}

fn invoke(line: &Pipeline<Task, Core>, context: &mut Context<Data>, log: &mut Vec<String>) {
    let (mut items, mut end) = line.snapshot();
    run(&mut items, &mut end, context, log);
}

#[test]
fn lib_test_interceptor() {
    let mut context = Context {
        current: Data { tag: "".to_owned() },
    };
    let mut line = Pipeline::new(Core { runs: 0 });
    line.use_interceptor(Task { name: "a", runs: 0 });
    line.use_interceptor(Task { name: "b", runs: 0 });
    line.use_interceptor(Task { name: "c", runs: 0 });

    let mut log = Vec::new();
    invoke(&line, &mut context, &mut log);

    assert_eq!(context.current.tag, "c".to_owned());
    assert_eq!(
        log,
        vec!["start a", "start b", "start c", "end c", "end b", "end a"]
    );
}

#[test]
fn interceptors_keep_no_state_between_runs() {
    let mut context = Context {
        current: Data { tag: "".to_owned() },
    };
    let mut line = Pipeline::new(Core { runs: 0 });
    line.use_interceptor(Task { name: "a", runs: 0 });
    let mut log = Vec::new();
    invoke(&line, &mut context, &mut log);
    invoke(&line, &mut context, &mut log);
    assert_eq!(line.item_at(0).map(|t| t.runs), Some(0));
    assert_eq!(line.end().runs, 0);
    assert_eq!(line.len(), 1);
    assert!(line.item_at(1).is_none());
    assert_eq!(log, vec!["start a", "end a", "start a", "end a"]);
}

#[test]
fn inside_out_copies_start_with_the_innermost() {
    let mut line = Pipeline::new(Core { runs: 0 });
    line.use_interceptor(Task { name: "a", runs: 0 });
    line.use_interceptor(Task { name: "b", runs: 0 });
    line.use_interceptor(Task { name: "c", runs: 0 });
    let (items, end) = line.snapshot_inside_out();
    let names: Vec<&str> = items.iter().map(|t| t.name).collect();
    assert_eq!(names, vec!["c", "b", "a"]);
    assert_eq!(end.runs, 0);
}

#[test]
fn runs_start_from_equal_copies() {
    let mut line: Pipeline<u32, u32> = Pipeline::new(9);
    line.use_interceptor(1);
    line.use_interceptor(2);
    line.use_interceptor(3);
    let first = line.snapshot_inside_out();
    let second = line.snapshot_inside_out();
    assert_eq!(first, second);
    assert_eq!(first, (vec![3, 2, 1], 9));
}
