use devflow::tasks::{Task, TaskError, TaskIndex, TaskStep};

fn argv(parts: &[&str]) -> Vec<String> {
    parts.iter().map(|p| p.to_string()).collect()
}

fn command(parts: &[&str]) -> TaskStep {
    TaskStep::Command(argv(parts))
}

fn reference(name: &str) -> TaskStep {
    TaskStep::TaskRef(name.to_string())
}

fn task(name: &str, steps: Vec<TaskStep>, allow_fail: bool) -> Task {
    Task { name: name.to_string(), steps, allow_fail }
}

fn ci_index() -> TaskIndex {
    let mut index = TaskIndex::new();
    index.insert(
        "lint".to_string(),
        task("lint", vec![command(&["cargo", "clippy"])], false),
    );
    index.insert(
        "test".to_string(),
        task("test", vec![command(&["cargo", "test"])], false),
    );
    index.insert(
        "ci".to_string(),
        task("ci", vec![reference("lint"), reference("test")], false),
    );
    index
}

#[test]
fn flatten_inlines_references_in_order() {
    let index = ci_index();
    let commands = index.flatten("ci").unwrap();
    assert_eq!(commands.len(), 2);
    assert_eq!(commands[0].origin, "lint");
    assert_eq!(commands[0].argv, argv(&["cargo", "clippy"]));
    assert!(!commands[0].allow_fail);
    assert_eq!(commands[1].origin, "test");
    assert_eq!(commands[1].argv, argv(&["cargo", "test"]));
    assert!(!commands[1].allow_fail);
}

#[test]
fn flatten_is_deterministic() {
    let index = ci_index();
    let first = index.flatten("ci").unwrap();
    let second = index.flatten("ci").unwrap();
    assert_eq!(first.len(), second.len());
    for (a, b) in first.iter().zip(second.iter()) {
        assert_eq!(a.origin, b.origin);
        assert_eq!(a.argv, b.argv);
        assert_eq!(a.allow_fail, b.allow_fail);
    }
}

#[test]
fn flatten_reports_cycle_path() {
    let mut index = TaskIndex::new();
    index.insert("a".to_string(), task("a", vec![reference("b")], false));
    index.insert("b".to_string(), task("b", vec![reference("a")], false));
    match index.flatten("a") {
        Err(TaskError::CycleDetected { path }) => {
            assert_eq!(path, argv(&["a", "b", "a"]));
        }
        other => panic!("expected a cycle error, got {:?}", other),
    }
}

#[test]
fn flatten_reports_direct_self_cycle() {
    let mut index = TaskIndex::new();
    index.insert("loop".to_string(), task("loop", vec![reference("loop")], false));
    match index.flatten("loop") {
        Err(TaskError::CycleDetected { path }) => {
            assert_eq!(path, argv(&["loop", "loop"]));
        }
        other => panic!("expected a cycle error, got {:?}", other),
    }
}

#[test]
fn cycle_path_starts_at_the_repeated_name() {
    // The root is not part of the cycle: the path begins at the first
    // occurrence of the re-entered task, not at the flattened root.
    let mut index = TaskIndex::new();
    index.insert("r".to_string(), task("r", vec![reference("a")], false));
    index.insert("a".to_string(), task("a", vec![reference("a")], false));
    match index.flatten("r") {
        Err(TaskError::CycleDetected { path }) => {
            assert_eq!(path, argv(&["a", "a"]));
        }
        other => panic!("expected a cycle error, got {:?}", other),
    }
}

#[test]
fn flatten_unknown_task_is_an_error() {
    let index = ci_index();
    match index.flatten("deploy") {
        Err(TaskError::UnknownTask { name }) => assert_eq!(name, "deploy"),
        other => panic!("expected an unknown-task error, got {:?}", other),
    }
}

#[test]
fn flatten_rejects_empty_command() {
    let mut index = TaskIndex::new();
    index.insert("bad".to_string(), task("bad", vec![command(&[])], false));
    match index.flatten("bad") {
        Err(TaskError::EmptyCommand { task }) => assert_eq!(task, "bad"),
        other => panic!("expected an empty-command error, got {:?}", other),
    }
}

#[test]
fn allow_fail_is_inherited_along_references() {
    let mut index = TaskIndex::new();
    index.insert(
        "b".to_string(),
        task("b", vec![command(&["cargo", "test"])], false),
    );
    index.insert("a".to_string(), task("a", vec![reference("b")], true));
    let commands = index.flatten("a").unwrap();
    assert_eq!(commands.len(), 1);
    assert_eq!(commands[0].origin, "b");
    assert!(commands[0].allow_fail);

    // Flattened directly, b's own commands do not allow failure.
    let direct = index.flatten("b").unwrap();
    assert!(!direct[0].allow_fail);
}

#[test]
fn empty_task_flattens_to_no_commands() {
    let mut index = TaskIndex::new();
    index.insert("noop".to_string(), task("noop", vec![], false));
    let commands = index.flatten("noop").unwrap();
    assert!(commands.is_empty());
}

#[test]
fn index_lookup_and_names() {
    let index = ci_index();
    assert!(!index.is_empty());
    assert_eq!(index.len(), 3);
    assert_eq!(index.task_names(), argv(&["lint", "test", "ci"]));
    assert!(index.get("lint").is_some());
    assert!(index.get("missing").is_none());

    let mut replaced = ci_index();
    replaced.insert(
        "lint".to_string(),
        task("lint", vec![command(&["cargo", "fmt"])], true),
    );
    assert_eq!(replaced.len(), 3);
    let lint = replaced.get("lint").unwrap();
    assert!(lint.allow_fail);
}

#[test]
fn error_messages_render_like_the_runner_reports() {
    let cycle = TaskError::CycleDetected { path: argv(&["a", "b", "a"]) };
    assert_eq!(cycle.message(), "task recursion detected: a -> b -> a");
    let unknown = TaskError::UnknownTask { name: "deploy".to_string() };
    assert_eq!(unknown.message(), "unknown task `deploy`");
    let empty = TaskError::EmptyCommand { task: "bad".to_string() };
    assert_eq!(empty.message(), "task `bad` contains an empty command");
}
