use vstd::prelude::*;
use crate::service::{Tasks, EntryModel, has_name, index_of, names_unique};
use crate::task::{Task, TaskModel, copy_opt_string, opt_view};

verus! {

/// The command line: global flags and the action asked for.
#[derive(Clone, Debug)]
pub struct Cmd {
    pub verbose: bool,
    pub custom_data_dir: Option<String>,
    pub action: Action,
}

#[derive(Clone, Debug)]
pub enum Action {
    List,
    Check(CheckArgs),
    Run(RunArgs),
    Kill(KillArgs),
    Restart(RestartArgs),
    Remove(RemoveArgs),
    Start(DaemonStartArgs),
    Status,
    Stop,
    Logs(LogsArgs),
}

#[derive(Clone, Copy, Debug, PartialEq, Eq)]
pub struct CheckArgs {
    pub succeeded: bool,
    pub silent: bool,
}

#[derive(Clone, Debug)]
pub struct RunArgs {
    pub name: String,
    pub cmd: String,
    pub using: Option<String>,
    pub start_dir: Option<String>,
    pub ignore_identicals: bool,
    pub restart_if_finished: bool,
    pub silent: bool,
}

#[derive(Clone, Debug)]
pub struct KillArgs {
    pub name: String,
}

#[derive(Clone, Debug)]
pub struct RestartArgs {
    pub name: String,
}

#[derive(Clone, Debug)]
pub struct RemoveArgs {
    pub name: String,
}

#[derive(Clone, Debug)]
pub struct LogsArgs {
    pub task_name: Option<String>,
    pub follow: bool,
    pub pager: Option<String>,
    pub no_less_options: bool,
}

#[derive(Clone, Copy, Debug, PartialEq, Eq)]
pub struct DaemonStartArgs {
    pub ignore_started: bool,
}

impl RunArgs {
    /// The task these arguments describe.
    pub fn task(&self) -> (r: Task)
        ensures
            r@ == (TaskModel {
                name: self.name@,
                shell: opt_view(self.using),
                cmd: self.cmd@,
                start_dir: opt_view(self.start_dir),
            }),
    {
        Task {
            name: self.name.clone(),
            shell: copy_opt_string(&self.using),
            cmd: self.cmd.clone(),
            start_dir: copy_opt_string(&self.start_dir),
        }
    }
}

/// What the client does for `run`, given the tasks the daemon holds.
#[derive(Clone, Copy, Debug, PartialEq, Eq)]
pub enum RunPlan {
    /// No task has this name: register it.
    Register,
    /// An identical task exists and identicals are ignored: do nothing.
    Nothing,
    /// An identical task finished and is to be restarted; `failed` tells
    /// whether it had failed.
    Restart { failed: bool },
    /// Another task has this name: refuse.
    Duplicate,
}

pub open spec fn identical(a: TaskModel, b: TaskModel) -> bool {
    a.shell == b.shell && a.cmd == b.cmd
}

pub open spec fn run_plan_of(
    tasks: Seq<EntryModel>,
    task: TaskModel,
    ignore_identicals: bool,
    restart_if_finished: bool,
) -> RunPlan {
    if !has_name(tasks, task.name) {
        RunPlan::Register
    } else {
        let e = tasks[index_of(tasks, task.name)];
        if identical(e.task, task) && ignore_identicals {
            if restart_if_finished && e.state.status.terminal() {
                RunPlan::Restart { failed: e.state.status.failure() }
            } else {
                RunPlan::Nothing
            }
        } else {
            RunPlan::Duplicate
        }
    }
}

fn same_opt_string(a: &Option<String>, b: &Option<String>) -> (r: bool)
    ensures
        r == (opt_view(*a) == opt_view(*b)),
{
    match (a, b) {
        (Some(x), Some(y)) => *x == *y,
        (None, None) => true,
        _ => false,
    }
}

/// Decides what `run` does: a new name is registered; an existing name is
/// refused unless identicals are ignored and the existing task has the same
/// shell and command, in which case nothing happens, or it is restarted where
/// it finished and restarting finished tasks was asked for.
pub fn plan_run(tasks: &Tasks, task: &Task, ignore_identicals: bool, restart_if_finished: bool) -> (r: RunPlan)
    requires
        names_unique(tasks@),
    ensures
        r == run_plan_of(tasks@, task@, ignore_identicals, restart_if_finished),
{
    match tasks.find(&task.name) {
        None => RunPlan::Register,
        Some(i) => {
            proof {
                crate::service::lemma_index_of(tasks@, i as int);
            }
            let existing = &tasks.entries[i];
            if same_opt_string(&existing.task.shell, &task.shell) && existing.task.cmd == task.cmd
                && ignore_identicals {
                let status = existing.state.status.clone_without_child_id();
                if restart_if_finished && status.is_completed() {
                    RunPlan::Restart { failed: status.is_failure() }
                } else {
                    RunPlan::Nothing
                }
            } else {
                RunPlan::Duplicate
            }
        },
    }
}

pub open spec fn less() -> Seq<char> {
    seq!['l', 'e', 's', 's']
}

/// The pager program: the one asked for, else the environment's, else `less`.
pub open spec fn pager_program(asked: Option<Seq<char>>, env: Option<Seq<char>>) -> Seq<char> {
    match asked {
        Some(p) => p,
        None => match env {
            Some(p) => p,
            None => less(),
        },
    }
}

/// The pager to run on the logs and its arguments: `less` is given `-R`
/// (keep colours) and `-F` (quit when the text fits) unless told otherwise.
pub fn pager_command(asked: &Option<String>, env: &Option<String>, no_less_options: bool) -> (r: (
    String,
    Vec<String>,
))
    ensures
        r.0@ == pager_program(opt_view(*asked), opt_view(*env)),
        (r.0@ == less() && !no_less_options) ==> r.1@.len() == 2 && r.1@[0]@ == seq!['-', 'R']
            && r.1@[1]@ == seq!['-', 'F'],
        !(r.0@ == less() && !no_less_options) ==> r.1@.len() == 0,
{
    proof {
        reveal_strlit("less");
        reveal_strlit("-R");
        reveal_strlit("-F");
    }
    let program = match asked {
        Some(p) => p.clone(),
        None => match env {
            Some(p) => p.clone(),
            None => String::from_str("less"),
        },
    };
    let mut args: Vec<String> = Vec::new();
    let less_name = String::from_str("less");
    assert(less_name@ =~= less());
    if program == less_name && !no_less_options {
        let r_flag = String::from_str("-R");
        let f_flag = String::from_str("-F");
        assert(r_flag@ =~= seq!['-', 'R']);
        assert(f_flag@ =~= seq!['-', 'F']);
        args.push(r_flag);
        args.push(f_flag);
    }
    (program, args)
}

/// The text to hand a pager that has shown `shown` of the logs, which now
/// read `current`: nothing when they did not change, what was appended when
/// they grew, and the whole text otherwise.
pub fn logs_update(shown: &str, current: &str) -> (r: Option<String>)
    ensures
        current@ == shown@ ==> r is None,
        current@ != shown@ && shown@.is_prefix_of(current@) ==> (r matches Some(t) && t@
            == current@.subrange(shown@.len() as int, current@.len() as int)),
        !shown@.is_prefix_of(current@) ==> (r matches Some(t) && t@ == current@),
{
    let n = shown.unicode_len();
    let m = current.unicode_len();
    if n > m {
        return Some(String::from_str(current));
    }
    let mut i: usize = 0;
    while i < n
        invariant
            n == shown@.len(),
            m == current@.len(),
            n <= m,
            i <= n,
            forall|j: int| 0 <= j < i ==> shown@[j] == current@[j],
        decreases n - i,
    {
        if shown.get_char(i) != current.get_char(i) {
            return Some(String::from_str(current));
        }
        i = i + 1;
    }
    if n == m {
        assert(current@ =~= shown@);
        None
    } else {
        let rest = String::from_str(current.substring_char(n, m));
        assert(shown@.is_prefix_of(current@));
        Some(rest)
    }
}

} // verus!
