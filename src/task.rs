use vstd::prelude::*;

verus! {

/// The character sequence of an optional string.
pub open spec fn opt_view(o: Option<String>) -> Option<Seq<char>> {
    match o {
        Some(s) => Some(s@),
        None => None,
    }
}

/// The character sequences of a list of strings.
pub open spec fn lines_view(v: Seq<String>) -> Seq<Seq<char>> {
    v.map_values(|l: String| l@)
}

pub fn copy_opt_string(o: &Option<String>) -> (r: Option<String>)
    ensures
        opt_view(r) == opt_view(*o),
{
    match o {
        Some(s) => Some(s.clone()),
        None => None,
    }
}

pub fn copy_lines(v: &Vec<String>) -> (r: Vec<String>)
    ensures
        lines_view(r@) == lines_view(v@),
{
    let mut r: Vec<String> = Vec::new();
    let mut i: usize = 0;
    while i < v.len()
        invariant
            i <= v.len(),
            r@.len() == i,
            forall|j: int| 0 <= j < i ==> #[trigger] r@[j]@ == v@[j]@,
        decreases v.len() - i,
    {
        r.push(v[i].clone());
        i = i + 1;
    }
    assert(lines_view(r@) =~= lines_view(v@));
    r
}

/// A named shell command registered with the daemon. Immutable once created.
#[derive(Clone, Debug)]
pub struct Task {
    pub name: String,
    pub shell: Option<String>,
    pub cmd: String,
    pub start_dir: Option<String>,
}

pub struct TaskModel {
    pub name: Seq<char>,
    pub shell: Option<Seq<char>>,
    pub cmd: Seq<char>,
    pub start_dir: Option<Seq<char>>,
}

impl View for Task {
    type V = TaskModel;

    open spec fn view(&self) -> TaskModel {
        TaskModel {
            name: self.name@,
            shell: opt_view(self.shell),
            cmd: self.cmd@,
            start_dir: opt_view(self.start_dir),
        }
    }
}

impl Task {
    pub fn duplicate(&self) -> (r: Task)
        ensures
            r@ == self@,
    {
        Task {
            name: self.name.clone(),
            shell: copy_opt_string(&self.shell),
            cmd: self.cmd.clone(),
            start_dir: copy_opt_string(&self.start_dir),
        }
    }
}

/// Lifecycle of a task. `Running` carries the id of the child's process group
/// while the daemon holds it; a copy handed to a client carries none.
#[derive(Clone, Debug, PartialEq, Eq)]
pub enum TaskStatus {
    NotStartedYet,
    Running { child: Option<u32> },
    Success,
    Failed { code: Option<i32> },
    RunnerFailed { message: String },
}

pub enum StatusModel {
    NotStartedYet,
    Running { child: Option<u32> },
    Success,
    Failed { code: Option<i32> },
    RunnerFailed { message: Seq<char> },
}

impl View for TaskStatus {
    type V = StatusModel;

    open spec fn view(&self) -> StatusModel {
        match self {
            TaskStatus::NotStartedYet => StatusModel::NotStartedYet,
            TaskStatus::Running { child } => StatusModel::Running { child: *child },
            TaskStatus::Success => StatusModel::Success,
            TaskStatus::Failed { code } => StatusModel::Failed { code: *code },
            TaskStatus::RunnerFailed { message } => StatusModel::RunnerFailed { message: message@ },
        }
    }
}

impl StatusModel {
    /// `Success`, `Failed` and `RunnerFailed` are terminal.
    pub open spec fn terminal(self) -> bool {
        match self {
            StatusModel::NotStartedYet | StatusModel::Running { .. } => false,
            _ => true,
        }
    }

    pub open spec fn failure(self) -> bool {
        self is Failed || self is RunnerFailed
    }

    /// The child handle is present exactly while the task runs.
    pub open spec fn child_wf(self) -> bool {
        match self {
            StatusModel::Running { child } => child is Some,
            _ => true,
        }
    }

    /// The same status with the child handle elided.
    pub open spec fn without_child(self) -> StatusModel {
        match self {
            StatusModel::Running { .. } => StatusModel::Running { child: None },
            other => other,
        }
    }
}

impl TaskStatus {
    pub fn clone_without_child_id(&self) -> (r: TaskStatus)
        ensures
            r@ == self@.without_child(),
    {
        match self {
            TaskStatus::NotStartedYet => TaskStatus::NotStartedYet,
            TaskStatus::Running { child: _ } => TaskStatus::Running { child: None },
            TaskStatus::Success => TaskStatus::Success,
            TaskStatus::Failed { code } => TaskStatus::Failed { code: *code },
            TaskStatus::RunnerFailed { message } => TaskStatus::RunnerFailed {
                message: message.clone(),
            },
        }
    }

    pub fn is_completed(&self) -> (r: bool)
        ensures
            r == self@.terminal(),
    {
        match self {
            TaskStatus::NotStartedYet | TaskStatus::Running { child: _ } => false,
            TaskStatus::Success | TaskStatus::Failed { code: _ } | TaskStatus::RunnerFailed {
                message: _,
            } => true,
        }
    }

    pub fn is_failure(&self) -> (r: bool)
        ensures
            r == self@.failure(),
    {
        match self {
            TaskStatus::NotStartedYet | TaskStatus::Running { child: _ } | TaskStatus::Success => {
                false
            },
            TaskStatus::Failed { code: _ } | TaskStatus::RunnerFailed { message: _ } => true,
        }
    }

    /// The process group to signal, while the task runs.
    pub fn get_child(&self) -> (r: Option<u32>)
        ensures
            r == (match self@ {
                StatusModel::Running { child } => child,
                _ => None,
            }),
    {
        match self {
            TaskStatus::Running { child } => *child,
            _ => None,
        }
    }
}

/// Mutable runtime data of a task: its status and its timestamped output.
#[derive(Clone, Debug)]
pub struct TaskState {
    pub status: TaskStatus,
    pub output: Vec<String>,
}

pub struct StateModel {
    pub status: StatusModel,
    pub output: Seq<Seq<char>>,
}

impl View for TaskState {
    type V = StateModel;

    open spec fn view(&self) -> StateModel {
        StateModel { status: self.status@, output: lines_view(self.output@) }
    }
}

/// How a task's runtime data may change in one step: output only grows while
/// the task runs, and a terminal task changes no more.
pub open spec fn output_law(before: StateModel, after: StateModel) -> bool {
    &&& (before.status is Running ==> before.output.is_prefix_of(after.output))
    &&& (before.status.terminal() ==> after == before)
    &&& (!(before.status is Running) && !(after.status is Running) ==> after.output
        == before.output)
}

impl TaskState {
    pub fn new() -> (r: TaskState)
        ensures
            r@.status == StatusModel::NotStartedYet,
            r@.output == Seq::<Seq<char>>::empty(),
    {
        TaskState { status: TaskStatus::NotStartedYet, output: Vec::new() }
    }

    pub open spec fn wf(&self) -> bool {
        self@.status.child_wf()
    }

    pub fn duplicate(&self) -> (r: TaskState)
        ensures
            r@ == self@,
    {
        let status = match &self.status {
            TaskStatus::NotStartedYet => TaskStatus::NotStartedYet,
            TaskStatus::Running { child } => TaskStatus::Running { child: *child },
            TaskStatus::Success => TaskStatus::Success,
            TaskStatus::Failed { code } => TaskStatus::Failed { code: *code },
            TaskStatus::RunnerFailed { message } => TaskStatus::RunnerFailed {
                message: message.clone(),
            },
        };
        let output = copy_lines(&self.output);
        TaskState { status, output }
    }

    /// A copy as clients see it: the child handle elided.
    pub fn snapshot(&self) -> (r: TaskState)
        ensures
            r@.status == self@.status.without_child(),
            r@.output == self@.output,
    {
        TaskState { status: self.status.clone_without_child_id(), output: copy_lines(&self.output) }
    }

    /// The runner has spawned the task's process group `child`.
    pub fn start(&mut self, child: u32) -> (started: bool)
        requires
            old(self).wf(),
        ensures
            started == (old(self)@.status is NotStartedYet),
            started ==> final(self)@ == (StateModel {
                status: StatusModel::Running { child: Some(child) },
                output: old(self)@.output,
            }),
            !started ==> final(self)@ == old(self)@,
            final(self).wf(),
            output_law(old(self)@, final(self)@),
    {
        match self.status {
            TaskStatus::NotStartedYet => {
                self.status = TaskStatus::Running { child: Some(child) };
                true
            },
            _ => false,
        }
    }

    /// One line of the child's merged output, already prefixed.
    pub fn push_line(&mut self, line: String) -> (pushed: bool)
        requires
            old(self).wf(),
        ensures
            pushed == (old(self)@.status is Running),
            pushed ==> final(self)@ == (StateModel {
                status: old(self)@.status,
                output: old(self)@.output.push(line@),
            }),
            !pushed ==> final(self)@ == old(self)@,
            final(self).wf(),
            output_law(old(self)@, final(self)@),
    {
        if let TaskStatus::Running { child: _ } = self.status {
            self.output.push(line);
            proof {
                assert(lines_view(self.output@) =~= lines_view(old(self).output@).push(line@));
            }
            true
        } else {
            false
        }
    }

    /// The runner is done: a running task takes the terminal status `end`.
    pub fn finish(&mut self, end: TaskStatus) -> (finished: bool)
        requires
            old(self).wf(),
            end@.terminal(),
        ensures
            finished == (old(self)@.status is Running),
            finished ==> final(self)@ == (StateModel { status: end@, output: old(self)@.output }),
            !finished ==> final(self)@ == old(self)@,
            final(self).wf(),
            output_law(old(self)@, final(self)@),
    {
        if let TaskStatus::Running { child: _ } = self.status {
            self.status = end;
            true
        } else {
            false
        }
    }

    /// The runner could not run the task at all; a task that has not yet
    /// reached a terminal status records why.
    pub fn runner_failed(&mut self, message: String) -> (recorded: bool)
        requires
            old(self).wf(),
        ensures
            recorded == !old(self)@.status.terminal(),
            recorded ==> final(self)@ == (StateModel {
                status: StatusModel::RunnerFailed { message: message@ },
                output: old(self)@.output,
            }),
            !recorded ==> final(self)@ == old(self)@,
            final(self).wf(),
            output_law(old(self)@, final(self)@),
    {
        if self.status.is_completed() {
            false
        } else {
            self.status = TaskStatus::RunnerFailed { message };
            true
        }
    }
}

/// A task together with its runtime data.
#[derive(Clone, Debug)]
pub struct TaskWrapper {
    pub task: Task,
    pub state: TaskState,
}

impl TaskWrapper {
    pub fn new(task: Task) -> (r: TaskWrapper)
        ensures
            r.task@ == task@,
            r.state@.status == StatusModel::NotStartedYet,
            r.state@.output == Seq::<Seq<char>>::empty(),
            r.state.wf(),
    {
        TaskWrapper { task, state: TaskState::new() }
    }
}

} // verus!
