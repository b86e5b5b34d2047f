use bjobs::runner::exit_status;
use bjobs::service::{
    hello, kill, logs, remove, restart, run, running_tasks_count, socket_removed, start_task,
    stop, tasks, watch, State, WatchAction,
};
use bjobs::task::{Task, TaskStatus};

fn task(name: &str, cmd: &str) -> Task {
    Task { name: name.to_string(), shell: None, cmd: cmd.to_string(), start_dir: None }
}

#[test]
fn hello_answers_hello() {
    let state = State::new();
    assert_eq!(hello(&state), "Hello");
}

#[test]
fn run_then_tasks_lists_not_started() {
    let mut state = State::new();
    assert_eq!(run(&mut state, task("t", "true")), Ok(()));
    let listed = tasks(&state);
    assert_eq!(listed.len(), 1);
    assert_eq!(listed.entries[0].task.name, "t");
    assert_eq!(listed.entries[0].state.status, TaskStatus::NotStartedYet);
    assert!(start_task(&mut state, &"t".to_string(), 41));
    let listed = tasks(&state);
    assert_eq!(listed.entries[0].state.status, TaskStatus::Running { child: None });
    assert_eq!(state.tasks.entries[0].state.status, TaskStatus::Running { child: Some(41) });
}

#[test]
fn run_then_remove_drops_the_name() {
    let mut state = State::new();
    run(&mut state, task("a", "true")).unwrap();
    run(&mut state, task("b", "true")).unwrap();
    assert_eq!(remove(&mut state, "a".to_string()), Ok(None));
    let listed = tasks(&state);
    assert_eq!(listed.len(), 1);
    assert_eq!(listed.entries[0].task.name, "b");
    assert_eq!(remove(&mut state, "a".to_string()), Err("Provided task was not found".to_string()));
}

#[test]
fn remove_running_task_returns_its_group() {
    let mut state = State::new();
    run(&mut state, task("a", "sleep 60")).unwrap();
    assert!(start_task(&mut state, &"a".to_string(), 77));
    assert_eq!(remove(&mut state, "a".to_string()), Ok(Some(77)));
    assert!(tasks(&state).is_empty());
}

#[test]
fn duplicate_name_is_refused() {
    let mut state = State::new();
    assert_eq!(run(&mut state, task("d", "true")), Ok(()));
    assert_eq!(
        run(&mut state, task("d", "true")),
        Err("A task with this name already exists!".to_string())
    );
    assert_eq!(tasks(&state).len(), 1);
}

#[test]
fn echo_task_records_one_line_and_succeeds() {
    let mut state = State::new();
    run(&mut state, task("e", "echo hi")).unwrap();
    let name = "e".to_string();
    assert!(start_task(&mut state, &name, 10));
    assert!(state.tasks.push_line(&name, 10, "[2024-01-05 00:00:00.000000000] hi".to_string()));
    assert!(state.tasks.finish(&name, 10, exit_status(true, Some(0))));
    let lines = logs(&state, name.clone()).unwrap();
    assert_eq!(lines.len(), 1);
    assert!(lines[0].ends_with("hi"));
    assert_eq!(state.tasks.entries[0].state.status, TaskStatus::Success);
}

#[test]
fn failure_code_is_kept() {
    let mut state = State::new();
    run(&mut state, task("f", "sh -c 'exit 7'")).unwrap();
    let name = "f".to_string();
    assert!(start_task(&mut state, &name, 11));
    assert!(state.tasks.finish(&name, 11, exit_status(false, Some(7))));
    assert_eq!(state.tasks.entries[0].state.status, TaskStatus::Failed { code: Some(7) });
    assert_eq!(running_tasks_count(&state), 0);
}

#[test]
fn kill_long_runner() {
    let mut state = State::new();
    run(&mut state, task("s", "sleep 60")).unwrap();
    let name = "s".to_string();
    assert!(start_task(&mut state, &name, 1234));
    assert_eq!(running_tasks_count(&state), 1);
    assert_eq!(kill(&state, name.clone()), Ok(1234));
    assert!(state.tasks.finish(&name, 1234, exit_status(false, None)));
    assert_eq!(state.tasks.entries[0].state.status, TaskStatus::Failed { code: None });
    assert_eq!(running_tasks_count(&state), 0);
}

#[test]
fn kill_errors() {
    let mut state = State::new();
    assert_eq!(kill(&state, "x".to_string()), Err("Provided task does not exist".to_string()));
    run(&mut state, task("x", "true")).unwrap();
    assert_eq!(kill(&state, "x".to_string()), Err("Provided task is not running".to_string()));
}

#[test]
fn logs_of_unknown_task() {
    let state = State::new();
    assert_eq!(logs(&state, "nope".to_string()), Err("Provided task was not found".to_string()));
}

#[test]
fn output_frozen_once_terminal() {
    let mut state = State::new();
    run(&mut state, task("o", "true")).unwrap();
    let name = "o".to_string();
    assert!(!state.tasks.push_line(&name, 5, "early".to_string()));
    assert!(start_task(&mut state, &name, 5));
    assert!(state.tasks.push_line(&name, 5, "one".to_string()));
    assert!(state.tasks.push_line(&name, 5, "two".to_string()));
    assert!(state.tasks.finish(&name, 5, exit_status(true, None)));
    assert!(!state.tasks.push_line(&name, 5, "late".to_string()));
    assert!(!state.tasks.finish(&name, 5, exit_status(false, Some(1))));
    assert!(!state.tasks.runner_failed(&name, Some(5), "boom".to_string()));
    assert_eq!(logs(&state, name).unwrap(), vec!["one".to_string(), "two".to_string()]);
    assert_eq!(state.tasks.entries[0].state.status, TaskStatus::Success);
}

#[test]
fn runner_failure_before_spawn() {
    let mut state = State::new();
    run(&mut state, task("r", "true")).unwrap();
    let name = "r".to_string();
    assert!(!state.tasks.runner_failed(&name, Some(3), "x".to_string()));
    assert!(state.tasks.runner_failed(&name, None, "spawn failed".to_string()));
    assert_eq!(
        state.tasks.entries[0].state.status,
        TaskStatus::RunnerFailed { message: "spawn failed".to_string() }
    );
    assert_eq!(state.tasks.check(false), vec!["r".to_string()]);
}

#[test]
fn restart_registers_afresh() {
    let mut state = State::new();
    run(&mut state, task("a", "true")).unwrap();
    run(&mut state, task("b", "true")).unwrap();
    let name = "a".to_string();
    assert!(start_task(&mut state, &name, 9));
    assert!(state.tasks.push_line(&name, 9, "x".to_string()));
    assert_eq!(restart(&mut state, name.clone()), Ok(Some(9)));
    assert_eq!(state.tasks.entries[1].task.name, "a");
    assert_eq!(state.tasks.entries[1].state.status, TaskStatus::NotStartedYet);
    assert!(state.tasks.entries[1].state.output.is_empty());
    assert!(!state.tasks.finish(&name, 9, exit_status(false, None)));
    assert_eq!(restart(&mut state, "zz".to_string()), Err("Provided task was not found".to_string()));
}

#[test]
fn check_reports_failures_and_optionally_successes() {
    let mut state = State::new();
    for (n, pid) in [("ok", 1u32), ("bad", 2), ("pending", 3)] {
        run(&mut state, task(n, "true")).unwrap();
        assert!(start_task(&mut state, &n.to_string(), pid));
    }
    state.tasks.finish(&"ok".to_string(), 1, exit_status(true, None));
    state.tasks.finish(&"bad".to_string(), 2, exit_status(false, Some(2)));
    assert_eq!(state.tasks.check(false), vec!["bad".to_string()]);
    assert_eq!(state.tasks.check(true), vec!["ok".to_string(), "bad".to_string()]);
}

#[test]
fn graceful_shutdown_unlinks_before_acknowledging() {
    let mut state = State::new();
    run(&mut state, task("a", "sleep 5")).unwrap();
    let name = "a".to_string();
    assert!(start_task(&mut state, &name, 50));
    assert_eq!(watch(&mut state), WatchAction::Wait);
    stop(&mut state);
    assert!(state.exit);
    assert_eq!(watch(&mut state), WatchAction::KillAll(vec![50]));
    assert!(state.exiting);
    assert!(!start_task(&mut state, &name, 51));
    assert_eq!(watch(&mut state), WatchAction::Wait);
    assert!(state.exit);
    assert!(state.tasks.finish(&name, 50, exit_status(false, None)));
    assert_eq!(watch(&mut state), WatchAction::UnlinkSocket);
    assert!(state.exit);
    socket_removed(&mut state);
    assert_eq!(watch(&mut state), WatchAction::Exit);
    assert!(!state.exit);
    assert!(!state.socket_present);
}
