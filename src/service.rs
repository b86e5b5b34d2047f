use vstd::prelude::*;
use crate::task::{
    Task, TaskModel, TaskState, TaskStatus, TaskWrapper, StateModel, StatusModel, copy_lines,
    lines_view, output_law,
};

verus! {

/// What a registry entry holds, as values.
pub struct EntryModel {
    pub task: TaskModel,
    pub state: StateModel,
}

pub open spec fn entry_of(w: TaskWrapper) -> EntryModel {
    EntryModel { task: w.task@, state: w.state@ }
}

pub open spec fn has_name(s: Seq<EntryModel>, name: Seq<char>) -> bool {
    exists|i: int| 0 <= i < s.len() && #[trigger] s[i].task.name == name
}

pub open spec fn names_unique(s: Seq<EntryModel>) -> bool {
    forall|i: int, j: int|
        0 <= i < s.len() && 0 <= j < s.len() && i != j ==> #[trigger] s[i].task.name
            != #[trigger] s[j].task.name
}

/// The position of the entry named `name`, where there is one.
pub open spec fn index_of(s: Seq<EntryModel>, name: Seq<char>) -> int {
    choose|i: int| 0 <= i < s.len() && #[trigger] s[i].task.name == name
}

/// The status of the entry named `name`, where there is one.
pub open spec fn status_of(s: Seq<EntryModel>, name: Seq<char>) -> StatusModel {
    s[index_of(s, name)].state.status
}

pub open spec fn with_state(e: EntryModel, st: StateModel) -> EntryModel {
    EntryModel { task: e.task, state: st }
}

pub proof fn lemma_index_of(s: Seq<EntryModel>, i: int)
    requires
        names_unique(s),
        0 <= i < s.len(),
    ensures
        has_name(s, s[i].task.name),
        index_of(s, s[i].task.name) == i,
{
    let name = s[i].task.name;
    assert(has_name(s, name));
    let j = index_of(s, name);
    assert(0 <= j < s.len() && s[j].task.name == name);
}

/// One runtime record per name, and a child handle exactly on running tasks.
pub open spec fn entries_wf(s: Seq<EntryModel>) -> bool {
    &&& names_unique(s)
    &&& forall|i: int| 0 <= i < s.len() ==> (#[trigger] s[i]).state.status.child_wf()
}

/// The number of entries whose status is not terminal.
pub open spec fn active_count(s: Seq<EntryModel>) -> nat
    decreases s.len(),
{
    if s.len() == 0 {
        0
    } else {
        active_count(s.drop_last()) + if s.last().state.status.terminal() {
            0nat
        } else {
            1nat
        }
    }
}

pub open spec fn any_running(s: Seq<EntryModel>) -> bool {
    exists|i: int| 0 <= i < s.len() && (#[trigger] s[i]).state.status is Running
}

/// The process groups of the running entries, in registry order.
pub open spec fn running_children(s: Seq<EntryModel>) -> Seq<u32>
    decreases s.len(),
{
    if s.len() == 0 {
        Seq::empty()
    } else {
        let before = running_children(s.drop_last());
        match s.last().state.status {
            StatusModel::Running { child: Some(c) } => before.push(c),
            _ => before,
        }
    }
}

/// A task is reported by `check`: always when it failed, and when it
/// succeeded if `succeeded` is asked for.
pub open spec fn reported(status: StatusModel, succeeded: bool) -> bool {
    status.failure() || (succeeded && status is Success)
}

/// The names of the reported tasks, in registry order.
pub open spec fn reported_names(s: Seq<EntryModel>, succeeded: bool) -> Seq<Seq<char>>
    decreases s.len(),
{
    if s.len() == 0 {
        Seq::empty()
    } else {
        let before = reported_names(s.drop_last(), succeeded);
        if reported(s.last().state.status, succeeded) {
            before.push(s.last().task.name)
        } else {
            before
        }
    }
}

/// An entry as clients see it: the child handle elided.
pub open spec fn client_view(e: EntryModel) -> EntryModel {
    EntryModel {
        task: e.task,
        state: StateModel { status: e.state.status.without_child(), output: e.state.output },
    }
}

pub open spec fn snapshot_of(s: Seq<EntryModel>) -> Seq<EntryModel> {
    s.map_values(|e: EntryModel| client_view(e))
}

/// The registry after `task` is registered.
pub open spec fn registered(s: Seq<EntryModel>, task: TaskModel) -> Seq<EntryModel> {
    s.push(
        EntryModel {
            task,
            state: StateModel { status: StatusModel::NotStartedYet, output: Seq::empty() },
        },
    )
}

/// The registry: every task by unique name, in the order of registration.
#[derive(Clone, Debug)]
pub struct Tasks {
    pub entries: Vec<TaskWrapper>,
}

impl View for Tasks {
    type V = Seq<EntryModel>;

    open spec fn view(&self) -> Seq<EntryModel> {
        self.entries@.map_values(|w: TaskWrapper| entry_of(w))
    }
}

impl Tasks {
    pub open spec fn wf(&self) -> bool {
        entries_wf(self@)
    }

    pub fn new() -> (r: Tasks)
        ensures
            r@ == Seq::<EntryModel>::empty(),
            r.wf(),
    {
        let r = Tasks { entries: Vec::new() };
        assert(r@ =~= Seq::<EntryModel>::empty());
        r
    }

    pub fn len(&self) -> (r: usize)
        ensures
            r == self@.len(),
    {
        self.entries.len()
    }

    pub fn is_empty(&self) -> (r: bool)
        ensures
            r == (self@.len() == 0),
    {
        self.entries.len() == 0
    }

    /// The position of the entry named `name`.
    pub fn find(&self, name: &String) -> (r: Option<usize>)
        ensures
            r is None <==> !has_name(self@, name@),
            r matches Some(i) ==> i < self@.len() && self@[i as int].task.name == name@,
    {
        let mut i: usize = 0;
        while i < self.entries.len()
            invariant
                i <= self.entries.len(),
                forall|j: int| 0 <= j < i ==> self@[j].task.name != name@,
            decreases self.entries.len() - i,
        {
            if self.entries[i].task.name == *name {
                assert(self@[i as int].task.name == name@);
                return Some(i);
            }
            i = i + 1;
        }
        None
    }

    /// Whether no two entries share a name.
    pub fn has_unique_names(&self) -> (r: bool)
        ensures
            r == names_unique(self@),
    {
        let mut i: usize = 0;
        while i < self.entries.len()
            invariant
                i <= self.entries.len(),
                forall|a: int, b: int|
                    0 <= a < i && 0 <= b < self@.len() && a != b ==> #[trigger] self@[a].task.name
                        != #[trigger] self@[b].task.name,
            decreases self.entries.len() - i,
        {
            let mut j: usize = 0;
            while j < self.entries.len()
                invariant
                    i < self.entries.len(),
                    j <= self.entries.len(),
                    forall|b: int|
                        0 <= b < j && b != i ==> self@[i as int].task.name
                            != #[trigger] self@[b].task.name,
                decreases self.entries.len() - j,
            {
                if j != i && self.entries[j].task.name == self.entries[i].task.name {
                    assert(self@[j as int].task.name == self@[i as int].task.name);
                    return false;
                }
                j = j + 1;
            }
            i = i + 1;
        }
        true
    }

    /// Appends a fresh entry for `task`, whose name is not registered yet.
    pub fn insert_new(&mut self, task: Task)
        requires
            old(self).wf(),
            !has_name(old(self)@, task@.name),
        ensures
            final(self)@ == old(self)@.push(
                EntryModel {
                    task: task@,
                    state: StateModel {
                        status: StatusModel::NotStartedYet,
                        output: Seq::empty(),
                    },
                },
            ),
            final(self).wf(),
    {
        let w = TaskWrapper::new(task);
        let ghost before = self@;
        self.entries.push(w);
        proof {
            assert(self@ =~= before.push(entry_of(w)));
            assert(before.len() < self@.len());
            assert(forall|i: int| 0 <= i < before.len() ==> self@[i] == before[i]);
        }
    }

    /// Drops the entry at `i`.
    pub fn remove_at(&mut self, i: usize) -> (r: TaskWrapper)
        requires
            old(self).wf(),
            i < old(self)@.len(),
        ensures
            entry_of(r) == old(self)@[i as int],
            final(self)@ == old(self)@.remove(i as int),
            final(self).wf(),
    {
        let ghost before = self@;
        let r = self.entries.remove(i);
        proof {
            assert(self@ =~= before.remove(i as int));
            assert forall|a: int, b: int|
                0 <= a < self@.len() && 0 <= b < self@.len() && a != b implies #[trigger] self@[a].task.name
                    != #[trigger] self@[b].task.name by {
                let a2 = if a < i { a } else { a + 1 };
                let b2 = if b < i { b } else { b + 1 };
                assert(self@[a] == before[a2]);
                assert(self@[b] == before[b2]);
            }
            assert forall|a: int| 0 <= a < self@.len() implies (#[trigger] self@[a]).state.status.child_wf() by {
                let a2 = if a < i { a } else { a + 1 };
                assert(self@[a] == before[a2]);
            }
        }
        r
    }

    /// Replaces the runtime data of the entry at `i`, leaving every other
    /// entry as it was.
    fn update_state(&mut self, i: usize, new_state: TaskState)
        requires
            old(self).wf(),
            i < old(self)@.len(),
            new_state.wf(),
        ensures
            final(self)@ == old(self)@.update(
                i as int,
                EntryModel { task: old(self)@[i as int].task, state: new_state@ },
            ),
            final(self).wf(),
    {
        let ghost before = self@;
        let task = self.entries[i].task.duplicate();
        self.entries.set(i, TaskWrapper { task, state: new_state });
        proof {
            assert(self@ =~= before.update(
                i as int,
                EntryModel { task: before[i as int].task, state: new_state@ },
            ));
            assert forall|a: int, b: int|
                0 <= a < self@.len() && 0 <= b < self@.len() && a != b implies #[trigger] self@[a].task.name
                    != #[trigger] self@[b].task.name by {
                assert(self@[a].task.name == before[a].task.name);
                assert(self@[b].task.name == before[b].task.name);
            }
        }
    }

    /// The runner of `name` spawned the process group `child`: an entry not
    /// yet started becomes running. Nothing else changes.
    pub fn start(&mut self, name: &String, child: u32) -> (started: bool)
        requires
            old(self).wf(),
        ensures
            final(self).wf(),
            started == (has_name(old(self)@, name@) && old(self)@[index_of(
                old(self)@,
                name@,
            )].state.status is NotStartedYet),
            started ==> final(self)@ == old(self)@.update(
                index_of(old(self)@, name@),
                with_state(
                    old(self)@[index_of(old(self)@, name@)],
                    StateModel {
                        status: StatusModel::Running { child: Some(child) },
                        output: old(self)@[index_of(old(self)@, name@)].state.output,
                    },
                ),
            ),
            !started ==> final(self)@ == old(self)@,
            final(self)@.len() == old(self)@.len(),
            forall|k: int|
                0 <= k < old(self)@.len() ==> output_law(
                    #[trigger] old(self)@[k].state,
                    final(self)@[k].state,
                ),
    {
        match self.find(name) {
            None => false,
            Some(i) => {
                proof {
                    lemma_index_of(self@, i as int);
                }
                let mut st = self.entries[i].state.duplicate();
                if st.start(child) {
                    self.update_state(i, st);
                    true
                } else {
                    false
                }
            },
        }
    }

    /// A line read from the merged output of `name`'s process group `child`
    /// is appended while that child runs. Nothing else changes.
    pub fn push_line(&mut self, name: &String, child: u32, line: String) -> (pushed: bool)
        requires
            old(self).wf(),
        ensures
            final(self).wf(),
            pushed == (has_name(old(self)@, name@) && old(self)@[index_of(
                old(self)@,
                name@,
            )].state.status == StatusModel::Running { child: Some(child) }),
            pushed ==> final(self)@ == old(self)@.update(
                index_of(old(self)@, name@),
                with_state(
                    old(self)@[index_of(old(self)@, name@)],
                    StateModel {
                        status: old(self)@[index_of(old(self)@, name@)].state.status,
                        output: old(self)@[index_of(old(self)@, name@)].state.output.push(line@),
                    },
                ),
            ),
            !pushed ==> final(self)@ == old(self)@,
            final(self)@.len() == old(self)@.len(),
            forall|k: int|
                0 <= k < old(self)@.len() ==> output_law(
                    #[trigger] old(self)@[k].state,
                    final(self)@[k].state,
                ),
    {
        match self.find(name) {
            None => false,
            Some(i) => {
                proof {
                    lemma_index_of(self@, i as int);
                }
                if self.entries[i].state.status.get_child() == Some(child) {
                    let mut st = self.entries[i].state.duplicate();
                    st.push_line(line);
                    self.update_state(i, st);
                    true
                } else {
                    false
                }
            },
        }
    }

    /// The process group `child` of `name` ended: the entry takes the
    /// terminal status `end`. Nothing else changes.
    pub fn finish(&mut self, name: &String, child: u32, end: TaskStatus) -> (finished: bool)
        requires
            old(self).wf(),
            end@.terminal(),
        ensures
            final(self).wf(),
            finished == (has_name(old(self)@, name@) && old(self)@[index_of(
                old(self)@,
                name@,
            )].state.status == StatusModel::Running { child: Some(child) }),
            finished ==> final(self)@ == old(self)@.update(
                index_of(old(self)@, name@),
                with_state(
                    old(self)@[index_of(old(self)@, name@)],
                    StateModel {
                        status: end@,
                        output: old(self)@[index_of(old(self)@, name@)].state.output,
                    },
                ),
            ),
            !finished ==> final(self)@ == old(self)@,
            final(self)@.len() == old(self)@.len(),
            forall|k: int|
                0 <= k < old(self)@.len() ==> output_law(
                    #[trigger] old(self)@[k].state,
                    final(self)@[k].state,
                ),
    {
        match self.find(name) {
            None => false,
            Some(i) => {
                proof {
                    lemma_index_of(self@, i as int);
                }
                if self.entries[i].state.status.get_child() == Some(child) {
                    let mut st = self.entries[i].state.duplicate();
                    st.finish(end);
                    self.update_state(i, st);
                    true
                } else {
                    false
                }
            },
        }
    }

    /// The runner of `name` failed: before it spawned anything (`child` is
    /// none) or while its process group `child` ran. The entry records
    /// `message` where it is in that stage. Nothing else changes.
    pub fn runner_failed(&mut self, name: &String, child: Option<u32>, message: String) -> (recorded: bool)
        requires
            old(self).wf(),
        ensures
            final(self).wf(),
            recorded == (has_name(old(self)@, name@) && old(self)@[index_of(
                old(self)@,
                name@,
            )].state.status == match child {
                Some(c) => StatusModel::Running { child: Some(c) },
                None => StatusModel::NotStartedYet,
            }),
            recorded ==> final(self)@ == old(self)@.update(
                index_of(old(self)@, name@),
                with_state(
                    old(self)@[index_of(old(self)@, name@)],
                    StateModel {
                        status: StatusModel::RunnerFailed { message: message@ },
                        output: old(self)@[index_of(old(self)@, name@)].state.output,
                    },
                ),
            ),
            !recorded ==> final(self)@ == old(self)@,
            final(self)@.len() == old(self)@.len(),
            forall|k: int|
                0 <= k < old(self)@.len() ==> output_law(
                    #[trigger] old(self)@[k].state,
                    final(self)@[k].state,
                ),
    {
        match self.find(name) {
            None => false,
            Some(i) => {
                proof {
                    lemma_index_of(self@, i as int);
                }
                let stage_matches = match child {
                    Some(c) => self.entries[i].state.status.get_child() == Some(c),
                    None => match self.entries[i].state.status {
                        TaskStatus::NotStartedYet => true,
                        _ => false,
                    },
                };
                if stage_matches {
                    let mut st = self.entries[i].state.duplicate();
                    st.runner_failed(message);
                    self.update_state(i, st);
                    true
                } else {
                    false
                }
            },
        }
    }

    /// A copy of the registry as clients see it: child handles elided.
    pub fn snapshot(&self) -> (r: Tasks)
        ensures
            r@ == snapshot_of(self@),
    {
        let mut entries: Vec<TaskWrapper> = Vec::new();
        let mut i: usize = 0;
        while i < self.entries.len()
            invariant
                i <= self.entries.len(),
                entries@.len() == i,
                forall|j: int|
                    0 <= j < i ==> #[trigger] entry_of(entries@[j]) == (EntryModel {
                        task: self@[j].task,
                        state: StateModel {
                            status: self@[j].state.status.without_child(),
                            output: self@[j].state.output,
                        },
                    }),
            decreases self.entries.len() - i,
        {
            let w = TaskWrapper {
                task: self.entries[i].task.duplicate(),
                state: self.entries[i].state.snapshot(),
            };
            entries.push(w);
            i = i + 1;
        }
        let r = Tasks { entries };
        assert forall|j: int| 0 <= j < self@.len() implies #[trigger] r@[j] == snapshot_of(
            self@,
        )[j] by {
            assert(r@[j] == entry_of(r.entries@[j]));
        }
        assert(r@ =~= snapshot_of(self@));
        r
    }

    /// How many tasks have not reached a terminal status.
    pub fn running_count(&self) -> (r: usize)
        ensures
            r == active_count(self@),
    {
        let mut n: usize = 0;
        let mut i: usize = 0;
        while i < self.entries.len()
            invariant
                i <= self.entries.len(),
                n == active_count(self@.subrange(0, i as int)),
                n <= i,
            decreases self.entries.len() - i,
        {
            proof {
                assert(self@.subrange(0, i + 1).drop_last() =~= self@.subrange(0, i as int));
            }
            if !self.entries[i].state.status.is_completed() {
                n = n + 1;
            }
            i = i + 1;
        }
        assert(self@.subrange(0, i as int) =~= self@);
        n
    }

    /// The process groups of the running tasks, in registry order.
    pub fn running_children(&self) -> (r: Vec<u32>)
        ensures
            r@ == running_children(self@),
    {
        let mut r: Vec<u32> = Vec::new();
        let mut i: usize = 0;
        while i < self.entries.len()
            invariant
                i <= self.entries.len(),
                r@ == running_children(self@.subrange(0, i as int)),
            decreases self.entries.len() - i,
        {
            proof {
                assert(self@.subrange(0, i + 1).drop_last() =~= self@.subrange(0, i as int));
            }
            if let TaskStatus::Running { child: Some(c) } = self.entries[i].state.status {
                r.push(c);
            }
            i = i + 1;
        }
        assert(self@.subrange(0, i as int) =~= self@);
        r
    }

    /// Whether any task is running.
    pub fn has_running(&self) -> (r: bool)
        ensures
            r == any_running(self@),
    {
        let mut i: usize = 0;
        while i < self.entries.len()
            invariant
                i <= self.entries.len(),
                forall|j: int| 0 <= j < i ==> !((#[trigger] self@[j]).state.status is Running),
            decreases self.entries.len() - i,
        {
            if let TaskStatus::Running { child: _ } = self.entries[i].state.status {
                assert(self@[i as int].state.status is Running);
                return true;
            }
            i = i + 1;
        }
        false
    }

    /// The names of the tasks that `check` reports: those that failed, and
    /// those that succeeded if `succeeded` is asked for, in registry order.
    pub fn check(&self, succeeded: bool) -> (r: Vec<String>)
        ensures
            lines_view(r@) == reported_names(self@, succeeded),
    {
        let mut r: Vec<String> = Vec::new();
        let mut i: usize = 0;
        while i < self.entries.len()
            invariant
                i <= self.entries.len(),
                lines_view(r@) == reported_names(self@.subrange(0, i as int), succeeded),
            decreases self.entries.len() - i,
        {
            proof {
                assert(self@.subrange(0, i + 1).drop_last() =~= self@.subrange(0, i as int));
            }
            let status = &self.entries[i].state.status;
            if status.is_failure() || (succeeded && match status {
                TaskStatus::Success => true,
                _ => false,
            }) {
                let name = self.entries[i].task.name.clone();
                let ghost before = r@;
                r.push(name);
                proof {
                    assert(lines_view(r@) =~= lines_view(before).push(name@));
                }
            }
            i = i + 1;
        }
        assert(self@.subrange(0, i as int) =~= self@);
        r
    }
}

/// The answer to a liveness probe.
pub open spec fn hello_text() -> Seq<char> {
    seq!['H', 'e', 'l', 'l', 'o']
}

pub open spec fn duplicate_error() -> Seq<char> {
    "A task with this name already exists!"@
}

pub open spec fn not_found_error() -> Seq<char> {
    "Provided task was not found"@
}

pub open spec fn missing_error() -> Seq<char> {
    "Provided task does not exist"@
}

pub open spec fn not_running_error() -> Seq<char> {
    "Provided task is not running"@
}

/// State shared by the request handlers and the daemon's lifecycle.
/// `socket_present` records whether the daemon's socket file is still there.
#[derive(Debug)]
pub struct State {
    pub exit: bool,
    pub exiting: bool,
    pub socket_present: bool,
    pub tasks: Tasks,
}

/// The lifecycle flags of the daemon, as values.
pub struct Lifecycle {
    pub exit: bool,
    pub exiting: bool,
    pub socket_present: bool,
}

/// What the shutdown watcher does next.
#[derive(Debug, PartialEq, Eq)]
pub enum WatchAction {
    /// Nothing to do: poll again after a short pause.
    Wait,
    /// Shutdown begins: kill each of these process groups.
    KillAll(Vec<u32>),
    /// Every task has stopped: remove the socket file.
    UnlinkSocket,
    /// The socket is gone and the stop request is acknowledged: exit.
    Exit,
}

pub enum WatchKind {
    Wait,
    KillAll,
    UnlinkSocket,
    Exit,
}

/// One step of the shutdown watcher, from the lifecycle flags and whether a
/// task still runs, to the next flags and the kind of action.
pub open spec fn watch_step(l: Lifecycle, running: bool) -> (Lifecycle, WatchKind) {
    if !l.exiting {
        if l.exit {
            (Lifecycle { exiting: true, ..l }, WatchKind::KillAll)
        } else {
            (l, WatchKind::Wait)
        }
    } else if running {
        (l, WatchKind::Wait)
    } else if l.socket_present {
        (l, WatchKind::UnlinkSocket)
    } else if l.exit {
        (Lifecycle { exit: false, ..l }, WatchKind::Exit)
    } else {
        (l, WatchKind::Exit)
    }
}

/// A stop request is acknowledged (its flag cleared) only once shutdown has
/// begun and the socket file is gone.
pub open spec fn lifecycle_wf(l: Lifecycle) -> bool {
    l.exiting && !l.exit ==> !l.socket_present
}

pub open spec fn kind_of(a: WatchAction) -> WatchKind {
    match a {
        WatchAction::Wait => WatchKind::Wait,
        WatchAction::KillAll(_) => WatchKind::KillAll,
        WatchAction::UnlinkSocket => WatchKind::UnlinkSocket,
        WatchAction::Exit => WatchKind::Exit,
    }
}

impl State {
    pub open spec fn lifecycle(&self) -> Lifecycle {
        Lifecycle { exit: self.exit, exiting: self.exiting, socket_present: self.socket_present }
    }

    pub open spec fn wf(&self) -> bool {
        &&& self.tasks.wf()
        &&& lifecycle_wf(self.lifecycle())
    }

    /// A daemon that has just bound its socket and holds no task.
    pub fn new() -> (r: State)
        ensures
            !r.exit,
            !r.exiting,
            r.socket_present,
            r.tasks@ == Seq::<EntryModel>::empty(),
            r.wf(),
    {
        State { exit: false, exiting: false, socket_present: true, tasks: Tasks::new() }
    }
}

/// Liveness probe.
pub fn hello(state: &State) -> (r: String)
    ensures
        r@ == hello_text(),
{
    proof {
        reveal_strlit("Hello");
    }
    let r = String::from_str("Hello");
    assert(r@ =~= hello_text());
    r
}

/// Asks the daemon to shut down. The caller then waits until `exit` is
/// cleared again, which the shutdown watcher does last.
pub fn stop(state: &mut State)
    requires
        old(state).wf(),
    ensures
        final(state).exit,
        final(state).exiting == old(state).exiting,
        final(state).socket_present == old(state).socket_present,
        final(state).tasks@ == old(state).tasks@,
        final(state).wf(),
{
    state.exit = true;
}

/// A snapshot of the registry, child handles elided.
pub fn tasks(state: &State) -> (r: Tasks)
    ensures
        r@ == snapshot_of(state.tasks@),
{
    state.tasks.snapshot()
}

/// How many tasks have not reached a terminal status.
pub fn running_tasks_count(state: &State) -> (r: usize)
    ensures
        r == active_count(state.tasks@),
{
    state.tasks.running_count()
}

/// Registers `task`, not started yet. Its runner is launched by the caller.
pub fn run(state: &mut State, task: Task) -> (r: Result<(), String>)
    requires
        old(state).wf(),
    ensures
        final(state).wf(),
        final(state).lifecycle() == old(state).lifecycle(),
        r is Ok <==> !has_name(old(state).tasks@, task@.name),
        r is Ok ==> final(state).tasks@ == registered(old(state).tasks@, task@),
        r matches Err(e) ==> e@ == duplicate_error() && final(state).tasks@ == old(state).tasks@,
{
    match state.tasks.find(&task.name) {
        Some(_) => {
            let e = String::from_str("A task with this name already exists!");
            Err(e)
        },
        None => {
            state.tasks.insert_new(task);
            Ok(())
        },
    }
}

/// Drops the entry of `task_name`. Returns the process group to kill where
/// the task was running.
pub fn remove(state: &mut State, task_name: String) -> (r: Result<Option<u32>, String>)
    requires
        old(state).wf(),
    ensures
        final(state).wf(),
        final(state).lifecycle() == old(state).lifecycle(),
        r is Ok <==> has_name(old(state).tasks@, task_name@),
        r matches Ok(child) ==> {
            let i = index_of(old(state).tasks@, task_name@);
            &&& final(state).tasks@ == old(state).tasks@.remove(i)
            &&& child == match old(state).tasks@[i].state.status {
                StatusModel::Running { child } => child,
                _ => None,
            }
        },
        r matches Err(e) ==> e@ == not_found_error() && final(state).tasks@ == old(state).tasks@,
{
    match state.tasks.find(&task_name) {
        None => Err(String::from_str("Provided task was not found")),
        Some(i) => {
            proof {
                lemma_index_of(state.tasks@, i as int);
            }
            let w = state.tasks.remove_at(i);
            Ok(w.state.status.get_child())
        },
    }
}

/// Removes `task_name` and registers its definition afresh. Returns the
/// process group to kill where the task was running.
pub fn restart(state: &mut State, task_name: String) -> (r: Result<Option<u32>, String>)
    requires
        old(state).wf(),
    ensures
        final(state).wf(),
        final(state).lifecycle() == old(state).lifecycle(),
        r is Ok <==> has_name(old(state).tasks@, task_name@),
        r matches Ok(child) ==> {
            let i = index_of(old(state).tasks@, task_name@);
            &&& final(state).tasks@ == registered(
                old(state).tasks@.remove(i),
                old(state).tasks@[i].task,
            )
            &&& child == match old(state).tasks@[i].state.status {
                StatusModel::Running { child } => child,
                _ => None,
            }
        },
        r matches Err(e) ==> e@ == not_found_error() && final(state).tasks@ == old(state).tasks@,
{
    match state.tasks.find(&task_name) {
        None => Err(String::from_str("Provided task was not found")),
        Some(i) => {
            proof {
                lemma_index_of(state.tasks@, i as int);
            }
            let ghost before = state.tasks@;
            let w = state.tasks.remove_at(i);
            proof {
                assert forall|j: int| 0 <= j < state.tasks@.len() implies state.tasks@[j].task.name
                    != w.task@.name by {
                    let j2 = if j < i { j } else { j + 1 };
                    assert(state.tasks@[j] == before[j2]);
                }
            }
            let child = w.state.status.get_child();
            state.tasks.insert_new(w.task);
            Ok(child)
        },
    }
}

/// The process group to kill for `task_name`, which must be running. The
/// registry is left as it is: the task's runner records how it ended.
pub fn kill(state: &State, task_name: String) -> (r: Result<u32, String>)
    requires
        state.wf(),
    ensures
        r is Ok <==> (has_name(state.tasks@, task_name@) && (status_of(
            state.tasks@,
            task_name@,
        ) is Running)),
        r matches Ok(c) ==> status_of(state.tasks@, task_name@) == (StatusModel::Running {
            child: Some(c),
        }),
        r matches Err(e) ==> (has_name(state.tasks@, task_name@) ==> e@ == not_running_error()),
        r matches Err(e) ==> (!has_name(state.tasks@, task_name@) ==> e@ == missing_error()),
{
    match state.tasks.find(&task_name) {
        None => Err(String::from_str("Provided task does not exist")),
        Some(i) => {
            proof {
                lemma_index_of(state.tasks@, i as int);
            }
            match state.tasks.entries[i].state.status.get_child() {
                Some(c) => Ok(c),
                None => Err(String::from_str("Provided task is not running")),
            }
        },
    }
}

/// The output lines of `task_name`.
pub fn logs(state: &State, task_name: String) -> (r: Result<Vec<String>, String>)
    requires
        state.wf(),
    ensures
        r is Ok <==> has_name(state.tasks@, task_name@),
        r matches Ok(lines) ==> lines_view(lines@) == state.tasks@[index_of(
            state.tasks@,
            task_name@,
        )].state.output,
        r matches Err(e) ==> e@ == not_found_error(),
{
    match state.tasks.find(&task_name) {
        None => Err(String::from_str("Provided task was not found")),
        Some(i) => {
            proof {
                lemma_index_of(state.tasks@, i as int);
            }
            Ok(copy_lines(&state.tasks.entries[i].state.output))
        },
    }
}

/// The runner of `task_name` spawned `child`. Refused once shutdown has
/// begun, so that no task starts while the daemon winds down.
pub fn start_task(state: &mut State, task_name: &String, child: u32) -> (started: bool)
    requires
        old(state).wf(),
    ensures
        final(state).wf(),
        final(state).lifecycle() == old(state).lifecycle(),
        old(state).exiting ==> !started && final(state).tasks@ == old(state).tasks@,
        !old(state).exiting ==> started == (has_name(old(state).tasks@, task_name@)
            && old(state).tasks@[index_of(old(state).tasks@, task_name@)].state.status is NotStartedYet),
        started ==> final(state).tasks@ == old(state).tasks@.update(
            index_of(old(state).tasks@, task_name@),
            with_state(
                old(state).tasks@[index_of(old(state).tasks@, task_name@)],
                StateModel {
                    status: StatusModel::Running { child: Some(child) },
                    output: old(state).tasks@[index_of(old(state).tasks@, task_name@)].state.output,
                },
            ),
        ),
        !started ==> final(state).tasks@ == old(state).tasks@,
{
    if state.exiting {
        false
    } else {
        state.tasks.start(task_name, child)
    }
}

/// One poll of the shutdown watcher.
pub fn watch(state: &mut State) -> (r: WatchAction)
    requires
        old(state).wf(),
    ensures
        final(state).wf(),
        (final(state).lifecycle(), kind_of(r)) == watch_step(
            old(state).lifecycle(),
            any_running(old(state).tasks@),
        ),
        final(state).tasks@ == old(state).tasks@,
        r matches WatchAction::KillAll(children) ==> children@ == running_children(
            old(state).tasks@,
        ),
{
    if !state.exiting {
        if state.exit {
            state.exiting = true;
            WatchAction::KillAll(state.tasks.running_children())
        } else {
            WatchAction::Wait
        }
    } else if state.tasks.has_running() {
        WatchAction::Wait
    } else if state.socket_present {
        WatchAction::UnlinkSocket
    } else {
        state.exit = false;
        WatchAction::Exit
    }
}

/// The socket file was removed.
pub fn socket_removed(state: &mut State)
    requires
        old(state).wf(),
    ensures
        final(state).wf(),
        !final(state).socket_present,
        final(state).exit == old(state).exit,
        final(state).exiting == old(state).exiting,
        final(state).tasks@ == old(state).tasks@,
{
    state.socket_present = false;
}

/// The child handle of a status: present only on a running task.
pub open spec fn child_of(status: StatusModel) -> Option<u32> {
    match status {
        StatusModel::Running { child } => child,
        _ => None,
    }
}

/// In a well-formed registry each name has exactly one entry, and an entry
/// carries a child handle exactly when its task runs.
pub proof fn lemma_one_state_per_entry(s: Seq<EntryModel>)
    requires
        entries_wf(s),
    ensures
        forall|i: int|
            0 <= i < s.len() ==> (child_of(#[trigger] s[i].state.status) is Some
                <==> s[i].state.status is Running),
        forall|i: int| 0 <= i < s.len() ==> index_of(s, #[trigger] s[i].task.name) == i,
{
    assert forall|i: int| 0 <= i < s.len() implies index_of(s, #[trigger] s[i].task.name) == i by {
        lemma_index_of(s, i);
    }
}

pub proof fn lemma_snapshot_names(s: Seq<EntryModel>)
    requires
        entries_wf(s),
    ensures
        names_unique(snapshot_of(s)),
        snapshot_of(s).len() == s.len(),
        forall|name: Seq<char>| has_name(snapshot_of(s), name) <==> has_name(s, name),
{
    let l = snapshot_of(s);
    assert forall|name: Seq<char>| has_name(l, name) <==> has_name(s, name) by {
        if has_name(l, name) {
            let i = choose|i: int| 0 <= i < l.len() && #[trigger] l[i].task.name == name;
            assert(s[i].task.name == name);
        }
        if has_name(s, name) {
            let i = choose|i: int| 0 <= i < s.len() && #[trigger] s[i].task.name == name;
            assert(l[i].task.name == name);
        }
    }
}

/// Right after `run(t)`, the list of tasks holds `t`, not started yet; once
/// its runner starts it, the list shows it running.
pub proof fn lemma_run_then_listed(s: Seq<EntryModel>, t: TaskModel, child: u32)
    requires
        entries_wf(s),
        !has_name(s, t.name),
    ensures
        ({
            let after = registered(s, t);
            let listed = snapshot_of(after);
            &&& has_name(listed, t.name)
            &&& listed[index_of(listed, t.name)].task == t
            &&& listed[index_of(listed, t.name)].state.status == StatusModel::NotStartedYet
        }),
        ({
            let after = registered(s, t);
            let i = index_of(after, t.name);
            let running = after.update(
                i,
                with_state(
                    after[i],
                    StateModel {
                        status: StatusModel::Running { child: Some(child) },
                        output: after[i].state.output,
                    },
                ),
            );
            let listed = snapshot_of(running);
            &&& has_name(listed, t.name)
            &&& listed[index_of(listed, t.name)].task == t
            &&& listed[index_of(listed, t.name)].state.status is Running
        }),
{
    let after = registered(s, t);
    let n = s.len() as int;
    assert(after[n].task.name == t.name);
    assert(entries_wf(after)) by {
        assert forall|i: int, j: int|
            0 <= i < after.len() && 0 <= j < after.len() && i != j implies #[trigger] after[i].task.name
                != #[trigger] after[j].task.name by {
            if i == n {
                assert(after[j] == s[j]);
            } else if j == n {
                assert(after[i] == s[i]);
            } else {
                assert(after[i] == s[i] && after[j] == s[j]);
            }
        }
        assert forall|i: int| 0 <= i < after.len() implies (#[trigger] after[i]).state.status.child_wf() by {
            if i < n {
                assert(after[i] == s[i]);
            }
        }
    }
    lemma_index_of(after, n);
    lemma_snapshot_names(after);
    let listed = snapshot_of(after);
    assert(listed[n].task.name == t.name);
    lemma_index_of(listed, n);
    let running = after.update(
        n,
        with_state(
            after[n],
            StateModel {
                status: StatusModel::Running { child: Some(child) },
                output: after[n].state.output,
            },
        ),
    );
    assert(entries_wf(running)) by {
        assert forall|i: int, j: int|
            0 <= i < running.len() && 0 <= j < running.len() && i != j implies #[trigger] running[i].task.name
                != #[trigger] running[j].task.name by {
            assert(running[i].task.name == after[i].task.name);
            assert(running[j].task.name == after[j].task.name);
        }
        assert forall|i: int| 0 <= i < running.len() implies (#[trigger] running[i]).state.status.child_wf() by {
            if i != n {
                assert(running[i] == after[i]);
            }
        }
    }
    lemma_snapshot_names(running);
    let listed2 = snapshot_of(running);
    assert(listed2[n].task.name == t.name);
    lemma_index_of(listed2, n);
}

/// After an entry is removed, no entry of its name remains.
pub proof fn lemma_removed_not_listed(s: Seq<EntryModel>, name: Seq<char>)
    requires
        entries_wf(s),
        has_name(s, name),
    ensures
        !has_name(s.remove(index_of(s, name)), name),
        !has_name(snapshot_of(s.remove(index_of(s, name))), name),
{
    let i = index_of(s, name);
    let r = s.remove(i);
    if has_name(r, name) {
        let k = choose|k: int| 0 <= k < r.len() && #[trigger] r[k].task.name == name;
        let k2 = if k < i { k } else { k + 1 };
        assert(r[k] == s[k2]);
        assert(s[i].task.name == name);
    }
    let l = snapshot_of(r);
    if has_name(l, name) {
        let k = choose|k: int| 0 <= k < l.len() && #[trigger] l[k].task.name == name;
        assert(r[k].task.name == name);
    }
}

/// `run(t)` then `remove(t.name)` leaves no task of that name in the list.
pub proof fn lemma_run_then_remove(s: Seq<EntryModel>, t: TaskModel)
    requires
        entries_wf(s),
        !has_name(s, t.name),
    ensures
        has_name(registered(s, t), t.name),
        !has_name(
            snapshot_of(registered(s, t).remove(index_of(registered(s, t), t.name))),
            t.name,
        ),
{
    let after = registered(s, t);
    let n = s.len() as int;
    assert(after[n].task.name == t.name);
    assert(entries_wf(after)) by {
        assert forall|i: int, j: int|
            0 <= i < after.len() && 0 <= j < after.len() && i != j implies #[trigger] after[i].task.name
                != #[trigger] after[j].task.name by {
            if i == n {
                assert(after[j] == s[j]);
            } else if j == n {
                assert(after[i] == s[i]);
            } else {
                assert(after[i] == s[i] && after[j] == s[j]);
            }
        }
        assert forall|i: int| 0 <= i < after.len() implies (#[trigger] after[i]).state.status.child_wf() by {
            if i < n {
                assert(after[i] == s[i]);
            }
        }
    }
    lemma_removed_not_listed(after, t.name);
}

/// A running task that `kill` targets, once its killed child is reaped with
/// no exit code, ends in a terminal status other than success.
pub proof fn lemma_killed_task_fails(s: Seq<EntryModel>, name: Seq<char>, child: u32)
    requires
        entries_wf(s),
        has_name(s, name),
        status_of(s, name) == (StatusModel::Running { child: Some(child) }),
    ensures
        ({
            let i = index_of(s, name);
            let after = s.update(
                i,
                with_state(
                    s[i],
                    StateModel { status: StatusModel::Failed { code: None }, output: s[i].state.output },
                ),
            );
            &&& status_of(after, name).terminal()
            &&& !(status_of(after, name) is Success)
            &&& active_count(after) + 1 == active_count(s)
        }),
{
    let i = index_of(s, name);
    assert(0 <= i < s.len() && s[i].task.name == name);
    let after = s.update(
        i,
        with_state(
            s[i],
            StateModel { status: StatusModel::Failed { code: None }, output: s[i].state.output },
        ),
    );
    assert(after[i].task.name == name);
    assert(names_unique(after)) by {
        assert forall|a: int, b: int|
            0 <= a < after.len() && 0 <= b < after.len() && a != b implies #[trigger] after[a].task.name
                != #[trigger] after[b].task.name by {
            assert(after[a].task.name == s[a].task.name);
            assert(after[b].task.name == s[b].task.name);
        }
    }
    lemma_index_of(after, i);
    lemma_active_count_update(s, i, after[i]);
}

proof fn lemma_active_count_update(s: Seq<EntryModel>, i: int, e: EntryModel)
    requires
        0 <= i < s.len(),
    ensures
        active_count(s.update(i, e)) + (if s[i].state.status.terminal() {
            0int
        } else {
            1int
        }) == active_count(s) + (if e.state.status.terminal() {
            0int
        } else {
            1int
        }),
    decreases s.len(),
{
    let u = s.update(i, e);
    if i == s.len() - 1 {
        assert(u.drop_last() =~= s.drop_last());
    } else {
        assert(u.drop_last() =~= s.drop_last().update(i, e));
        lemma_active_count_update(s.drop_last(), i, e);
    }
}

/// Shutdown acknowledges a stop request (clears `exit`) only once it has
/// begun and the socket file is gone, so a client whose `stop` returned can
/// no longer connect.
pub proof fn lemma_stop_returns_after_unlink(l: Lifecycle, running: bool)
    requires
        lifecycle_wf(l),
        l.exit,
    ensures
        lifecycle_wf(watch_step(l, running).0),
        !watch_step(l, running).0.exit ==> !watch_step(l, running).0.socket_present
            && watch_step(l, running).0.exiting && watch_step(l, running).1 is Exit,
{
}

} // verus!
