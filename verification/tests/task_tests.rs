use e2e_yaml::step::Step;
use e2e_yaml::task::{Task, TaskError, TaskErrorKind, Tasks};
use indexmap::IndexMap;

fn run(id: &str) -> Step {
    Step::TaskRun { id: id.to_string(), args: None }
}

fn task(steps: Vec<Step>) -> Task {
    Task { arg_names: None, steps }
}

fn tasks(entries: Vec<(&str, Vec<Step>)>) -> Tasks {
    let mut m: IndexMap<String, Task> = IndexMap::new();
    for (id, steps) in entries {
        m.insert(id.to_string(), task(steps));
    }
    Tasks(m)
}

fn circular(path: &[&str]) -> Option<TaskError> {
    Some(TaskError {
        kind: TaskErrorKind::CircularDependenciesDetected(
            path.iter().map(|x| x.to_string()).collect(),
        ),
    })
}

#[test]
fn test_detect_mutual_dependencies() {
    let tasks: Tasks = tasks(vec![("x", vec![run("y")]), ("y", vec![run("x")])]);
    let res = tasks.detect_circular_dependencies().err();
    assert_eq!(
        Some(TaskError {
            kind: TaskErrorKind::CircularDependenciesDetected(vec![
                "x".to_string(),
                "y".to_string(),
                "x".to_string(),
            ])
        }),
        res
    );
}

#[test]
fn test_detect_cycle_dependencies() {
    let tasks: Tasks = tasks(vec![
        ("t1", vec![run("t2")]),
        ("t2", vec![run("t3")]),
        ("t3", vec![run("t1")]),
    ]);
    let res = tasks.detect_circular_dependencies().err();
    assert_eq!(
        Some(TaskError {
            kind: TaskErrorKind::CircularDependenciesDetected(vec![
                "t1".to_string(),
                "t2".to_string(),
                "t3".to_string(),
                "t1".to_string(),
            ])
        }),
        res
    );
}

#[test]
fn test_detect_cycle_dependencies2() {
    let tasks: Tasks = tasks(vec![
        ("t1", vec![run("t2")]),
        ("t2", vec![run("t1")]),
        ("t3", vec![run("t1")]),
    ]);
    let res = tasks.detect_circular_dependencies().err();
    assert_eq!(
        Some(TaskError {
            kind: TaskErrorKind::CircularDependenciesDetected(vec![
                "t1".to_string(),
                "t2".to_string(),
                "t1".to_string(),
            ])
        }),
        res
    );
}

#[test]
fn test_no_circular_dependencies() {
    let tasks: Tasks = tasks(vec![
        ("t1", vec![run("t2")]),
        ("t2", vec![Step::Goto("localhost".to_string())]),
    ]);
    let res = tasks.detect_circular_dependencies();
    assert!(res.is_ok());
}

#[test]
fn test_task_not_found() {
    let tasks: Tasks = tasks(vec![("t1", vec![run("t2")])]);
    let res = tasks.detect_circular_dependencies().err();
    assert_eq!(
        Some(TaskError {
            kind: TaskErrorKind::TaskNotFound("t2".to_string())
        }),
        res
    );
}

#[test]
fn test_self_cycle() {
    let tasks: Tasks = tasks(vec![("t1", vec![run("t1")])]);
    let res = tasks.detect_circular_dependencies().err();
    let expected_path = vec!["t1".to_string(), "t1".to_string()];
    assert_eq!(
        Some(TaskError {
            kind: TaskErrorKind::CircularDependenciesDetected(expected_path)
        }),
        res
    );
}

#[test]
fn test_empty_registry_passes() {
    assert_eq!(tasks(vec![]).detect_circular_dependencies(), Ok(()));
}

#[test]
fn test_cycle_away_from_the_root() {
    // The path starts where the walk started, not where the cycle closes.
    let tasks = tasks(vec![
        ("r", vec![run("a")]),
        ("a", vec![run("b")]),
        ("b", vec![run("a")]),
    ]);
    assert_eq!(
        tasks.detect_circular_dependencies().err(),
        circular(&["r", "a", "b", "a"])
    );
}

#[test]
fn test_task_met_twice_without_a_cycle() {
    // A task leaves the path when the tasks that it runs are done: to come
    // to a task by two ways, or to run it twice, is no cycle.
    let diamond = tasks(vec![
        ("a", vec![run("b"), run("c")]),
        ("b", vec![run("d")]),
        ("c", vec![run("d")]),
        ("d", vec![Step::AcceptAlert]),
    ]);
    assert_eq!(diamond.detect_circular_dependencies(), Ok(()));
    let twice = tasks(vec![("a", vec![run("b"), run("b")]), ("b", vec![])]);
    assert_eq!(twice.detect_circular_dependencies(), Ok(()));
}

#[test]
fn test_diamond_passes() {
    let tasks = tasks(vec![
        ("t1", vec![run("t2"), run("t3")]),
        ("t2", vec![run("t4")]),
        ("t3", vec![run("t4")]),
        ("t4", vec![Step::Goto("localhost".to_string())]),
    ]);
    assert_eq!(tasks.detect_circular_dependencies(), Ok(()));
}

#[test]
fn test_path_holds_the_chain_only() {
    // `b` was walked and left before the walk came to `c`.
    let tasks = tasks(vec![
        ("a", vec![run("b"), run("c")]),
        ("b", vec![]),
        ("c", vec![run("c")]),
    ]);
    assert_eq!(
        tasks.detect_circular_dependencies().err(),
        circular(&["a", "c", "c"])
    );
}

#[test]
fn test_cycle_below_a_diamond() {
    let tasks = tasks(vec![
        ("a", vec![run("b"), run("c")]),
        ("b", vec![run("d")]),
        ("c", vec![run("d"), run("e")]),
        ("d", vec![]),
        ("e", vec![run("c")]),
    ]);
    assert_eq!(
        tasks.detect_circular_dependencies().err(),
        circular(&["a", "c", "e", "c"])
    );
}

#[test]
fn test_walks_share_nothing() {
    // Each entry starts a walk of its own: `c` is passed by the walks from
    // `a` and from `b`.
    let tasks = tasks(vec![
        ("a", vec![run("c")]),
        ("b", vec![run("c")]),
        ("c", vec![Step::AcceptAlert]),
    ]);
    assert_eq!(tasks.detect_circular_dependencies(), Ok(()));
}

#[test]
fn test_missing_task_comes_before_a_later_cycle() {
    let tasks = tasks(vec![
        ("a", vec![run("nowhere"), run("a")]),
    ]);
    assert_eq!(
        tasks.detect_circular_dependencies().err(),
        Some(TaskError { kind: TaskErrorKind::TaskNotFound("nowhere".to_string()) })
    );
}

#[test]
fn test_dependencies_are_walked_in_step_order() {
    // The first failure in depth-first order is told: what `b` lacks comes
    // before what `c` lacks, and before the cycle of `d`.
    let tasks = tasks(vec![
        ("a", vec![run("b"), Step::AcceptAlert, run("c"), run("d")]),
        ("b", vec![run("m1")]),
        ("c", vec![run("m2")]),
        ("d", vec![run("d")]),
    ]);
    assert_eq!(
        tasks.detect_circular_dependencies().err(),
        Some(TaskError { kind: TaskErrorKind::TaskNotFound("m1".to_string()) })
    );
}

#[test]
fn test_roots_are_taken_in_registry_order() {
    let tasks = tasks(vec![
        ("fine", vec![Step::AcceptAlert]),
        ("x", vec![run("y")]),
        ("y", vec![run("x")]),
    ]);
    assert_eq!(
        tasks.detect_circular_dependencies().err(),
        circular(&["x", "y", "x"])
    );
}

#[test]
fn test_list_dependencies() {
    let t = task(vec![
        Step::Goto("x".to_string()),
        run("b"),
        Step::AcceptAlert,
        run("a"),
        run("b"),
    ]);
    assert_eq!(t.list_dependencies(), Some(vec!["b", "a", "b"]));
    assert_eq!(task(vec![Step::AcceptAlert]).list_dependencies(), None);
    assert_eq!(task(vec![]).list_dependencies(), None);
}

#[test]
fn test_expand_args_login() {
    let login = Task {
        arg_names: Some(vec!["name".to_string(), "password".to_string()]),
        steps: vec![
            Step::SendKeys { selector: "#name".to_string(), value: "{name}".to_string() },
            Step::SendKeys { selector: "#pw".to_string(), value: "{password}".to_string() },
            Step::Goto("{other}/{name}".to_string()),
        ],
    };
    let steps = login.expand_args(Some(&["admin", "secret"]));
    assert_eq!(
        steps,
        vec![
            Step::SendKeys { selector: "#name".to_string(), value: "admin".to_string() },
            Step::SendKeys { selector: "#pw".to_string(), value: "secret".to_string() },
            Step::Goto("{other}/admin".to_string()),
        ]
    );
}

#[test]
fn test_expand_args_binds_in_order() {
    // The value of an earlier parameter is open to a later one.
    let t = Task {
        arg_names: Some(vec!["a".to_string(), "b".to_string()]),
        steps: vec![Step::Click("{a}".to_string())],
    };
    assert_eq!(
        t.expand_args(Some(&["{b}", "x"])),
        vec![Step::Click("x".to_string())]
    );
}

#[test]
fn test_expand_args_without_parameters() {
    let t = task(vec![Step::Click("{a}".to_string()), run("x")]);
    assert_eq!(t.expand_args(None), vec![Step::Click("{a}".to_string()), run("x")]);
    assert_eq!(
        t.expand_args(Some(&["ignored"])),
        vec![Step::Click("{a}".to_string()), run("x")]
    );
    let empty = Task { arg_names: Some(vec![]), steps: vec![Step::AcceptAlert] };
    assert_eq!(empty.expand_args(Some(&[])), vec![Step::AcceptAlert]);
}

#[test]
fn test_tasks_get() {
    let tasks = tasks(vec![("a", vec![Step::AcceptAlert]), ("b", vec![])]);
    assert_eq!(tasks.get("a"), Some(&task(vec![Step::AcceptAlert])));
    assert_eq!(tasks.get("b"), Some(&task(vec![])));
    assert_eq!(tasks.get("c"), None);
}

#[test]
fn test_task_error_messages() {
    let e = TaskError {
        kind: TaskErrorKind::CircularDependenciesDetected(vec![
            "t1".to_string(),
            "t2".to_string(),
            "t1".to_string(),
        ]),
    };
    assert_eq!(e.message(), "circular dependencies detected. t1 -> t2 -> t1\n");
    let e = TaskError { kind: TaskErrorKind::CircularDependenciesDetected(vec![]) };
    assert_eq!(e.message(), "circular dependencies detected. \n");
    let e = TaskError { kind: TaskErrorKind::TaskNotFound("t2".to_string()) };
    assert_eq!(e.message(), "task with id 't2' not found  in configuration\n");
}
