use bjobs::runner::{command_line, default_shell_cmd, exit_status, split_on_spaces};
use bjobs::task::{Task, TaskStatus};

#[test]
fn default_shell_is_sh() {
    assert_eq!(default_shell_cmd(), "/bin/sh -c");
}

#[test]
fn command_line_uses_default_shell() {
    let t = Task { name: "e".into(), shell: None, cmd: "echo hi".into(), start_dir: None };
    assert_eq!(command_line(&t), vec!["/bin/sh", "-c", "echo hi"]);
}

#[test]
fn command_line_splits_custom_shell_on_spaces() {
    let t = Task { name: "e".into(), shell: Some("bash  -lc".into()), cmd: "a b".into(), start_dir: None };
    assert_eq!(command_line(&t), vec!["bash", "", "-lc", "a b"]);
}

#[test]
fn split_matches_str_split() {
    for s in ["", " ", "a", "a b", " a  b ", "/bin/sh -c"] {
        let expected: Vec<String> = s.split(' ').map(|p| p.to_string()).collect();
        assert_eq!(split_on_spaces(s), expected);
    }
}

#[test]
fn exit_statuses() {
    assert_eq!(exit_status(true, Some(0)), TaskStatus::Success);
    assert_eq!(exit_status(false, Some(7)), TaskStatus::Failed { code: Some(7) });
    assert_eq!(exit_status(false, None), TaskStatus::Failed { code: None });
}
