use bjobs::cmd::{logs_update, pager_command, plan_run, RunArgs, RunPlan};
use bjobs::runner::exit_status;
use bjobs::service::{run, start_task, State};
use bjobs::task::Task;

fn args(name: &str, cmd: &str) -> RunArgs {
    RunArgs {
        name: name.to_string(),
        cmd: cmd.to_string(),
        using: None,
        start_dir: Some("/tmp".to_string()),
        ignore_identicals: false,
        restart_if_finished: false,
        silent: false,
    }
}

#[test]
fn run_args_make_a_task() {
    let t = args("d", "true").task();
    assert_eq!(t.name, "d");
    assert_eq!(t.cmd, "true");
    assert_eq!(t.shell, None);
    assert_eq!(t.start_dir, Some("/tmp".to_string()));
}

#[test]
fn duplicate_is_ignored_when_identical() {
    let mut state = State::new();
    let t: Task = args("d", "true").task();
    run(&mut state, t.clone()).unwrap();
    assert_eq!(plan_run(&state.tasks, &args("n", "true").task(), false, false), RunPlan::Register);
    assert_eq!(plan_run(&state.tasks, &t, false, false), RunPlan::Duplicate);
    assert_eq!(plan_run(&state.tasks, &t, true, false), RunPlan::Nothing);
    assert_eq!(plan_run(&state.tasks, &args("d", "false").task(), true, false), RunPlan::Duplicate);
    assert_eq!(plan_run(&state.tasks, &t, true, true), RunPlan::Nothing);
    let name = "d".to_string();
    assert!(start_task(&mut state, &name, 3));
    state.tasks.finish(&name, 3, exit_status(false, Some(1)));
    assert_eq!(plan_run(&state.tasks, &t, true, true), RunPlan::Restart { failed: true });
}

#[test]
fn pager_defaults_to_less_with_options() {
    let (p, a) = pager_command(&None, &None, false);
    assert_eq!(p, "less");
    assert_eq!(a, vec!["-R".to_string(), "-F".to_string()]);
    let (p, a) = pager_command(&None, &None, true);
    assert_eq!(p, "less");
    assert!(a.is_empty());
    let (p, a) = pager_command(&None, &Some("more".to_string()), false);
    assert_eq!(p, "more");
    assert!(a.is_empty());
    let (p, _) = pager_command(&Some("most".to_string()), &Some("more".to_string()), false);
    assert_eq!(p, "most");
}

#[test]
fn logs_updates() {
    assert_eq!(logs_update("abc", "abc"), None);
    assert_eq!(logs_update("ab", "abcd"), Some("cd".to_string()));
    assert_eq!(logs_update("", "x"), Some("x".to_string()));
    assert_eq!(logs_update("xy", "ab"), Some("ab".to_string()));
}
