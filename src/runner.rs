use vstd::prelude::*;
use crate::task::{Task, TaskStatus, StatusModel, lines_view};

verus! {

/// `/bin/sh -c`, the interpreter invocation of a task that names none.
pub open spec fn default_shell() -> Seq<char> {
    seq!['/', 'b', 'i', 'n', '/', 's', 'h', ' ', '-', 'c']
}

/// The pieces of `s` between ASCII spaces, as `str::split(' ')` gives them:
/// adjacent spaces give empty pieces, and the empty string gives one empty piece.
pub open spec fn split_spaces(s: Seq<char>) -> Seq<Seq<char>>
    decreases s.len(),
{
    if s.len() == 0 {
        seq![Seq::<char>::empty()]
    } else {
        let before = split_spaces(s.drop_last());
        if s.last() == ' ' {
            before.push(Seq::<char>::empty())
        } else {
            before.update(before.len() - 1, before.last().push(s.last()))
        }
    }
}

/// The argument vector of a task's child: its shell split on spaces, then
/// the command as one last argument, unquoted.
pub open spec fn command_line_of(task: crate::task::TaskModel) -> Seq<Seq<char>> {
    let shell = match task.shell {
        Some(s) => s,
        None => default_shell(),
    };
    split_spaces(shell).push(task.cmd)
}

pub fn default_shell_cmd() -> (r: String)
    ensures
        r@ == default_shell(),
{
    proof {
        reveal_strlit("/bin/sh -c");
    }
    let r = String::from_str("/bin/sh -c");
    assert(r@ =~= default_shell());
    r
}

/// Splits `s` on every ASCII space.
pub fn split_on_spaces(s: &str) -> (r: Vec<String>)
    ensures
        lines_view(r@) == split_spaces(s@),
{
    let n = s.unicode_len();
    let mut pieces: Vec<String> = Vec::new();
    let mut start: usize = 0;
    let mut i: usize = 0;
    proof {
        assert(s@.subrange(0, 0) =~= Seq::<char>::empty());
        assert(lines_view(pieces@).push(Seq::<char>::empty()) =~= seq![Seq::<char>::empty()]);
    }
    while i < n
        invariant
            n == s@.len(),
            start <= i <= n,
            split_spaces(s@.subrange(0, i as int)) == lines_view(pieces@).push(
                s@.subrange(start as int, i as int),
            ),
        decreases n - i,
    {
        let c = s.get_char(i);
        proof {
            assert(s@.subrange(0, i + 1).drop_last() =~= s@.subrange(0, i as int));
            assert(s@.subrange(0, i + 1).last() == c);
        }
        if c == ' ' {
            let piece = String::from_str(s.substring_char(start, i));
            let ghost before = pieces@;
            pieces.push(piece);
            proof {
                assert(lines_view(pieces@) =~= lines_view(before).push(piece@));
            }
            start = i + 1;
            i = i + 1;
            assert(s@.subrange(start as int, i as int) =~= Seq::<char>::empty());
        } else {
            proof {
                assert(s@.subrange(start as int, i + 1) =~= s@.subrange(
                    start as int,
                    i as int,
                ).push(c));
            }
            i = i + 1;
        }
    }
    let last = String::from_str(s.substring_char(start, n));
    let ghost before = pieces@;
    pieces.push(last);
    proof {
        assert(s@.subrange(0, n as int) =~= s@);
        assert(lines_view(pieces@) =~= lines_view(before).push(last@));
    }
    pieces
}

/// The program and arguments to spawn for `task`.
pub fn command_line(task: &Task) -> (r: Vec<String>)
    ensures
        lines_view(r@) == command_line_of(task@),
{
    let shell = match &task.shell {
        Some(s) => s.clone(),
        None => default_shell_cmd(),
    };
    let mut argv = split_on_spaces(shell.as_str());
    let cmd = task.cmd.clone();
    let ghost before = argv@;
    argv.push(cmd);
    proof {
        assert(lines_view(argv@) =~= lines_view(before).push(cmd@));
    }
    argv
}

/// The terminal status of a child that exited: `success` as the OS reported
/// it, `code` its exit code, none where a signal ended it.
pub fn exit_status(success: bool, code: Option<i32>) -> (r: TaskStatus)
    ensures
        success ==> r@ == StatusModel::Success,
        !success ==> r@ == (StatusModel::Failed { code }),
        r@.terminal(),
{
    if success {
        TaskStatus::Success
    } else {
        TaskStatus::Failed { code }
    }
}

} // verus!
