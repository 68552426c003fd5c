//! The task-list controller: local state, incoming events, outgoing commands,
//! and the transition function that ties the three together.

use crate::model::{tasks_view, List, ListV, Priority, Status, Task, TaskV};
use vstd::prelude::*;

verus! {

/// The controller's state: the list on display (absent before any selection),
/// the ordered snapshot of its tasks, and the staged text for a task that has
/// not been created yet.
pub struct Content {
    list: Option<List>,
    tasks: Vec<Task>,
    input: String,
}

/// Mathematical image of the controller state.
#[verifier::ext_equal]
pub ghost struct ContentV {
    pub list: Option<ListV>,
    pub tasks: Seq<TaskV>,
    pub input: Seq<char>,
}

/// The image of an optional list.
pub open spec fn opt_list_view(l: Option<List>) -> Option<ListV> {
    match l {
        Some(list) => Some(list@),
        None => None,
    }
}

impl View for Content {
    type V = ContentV;

    closed spec fn view(&self) -> ContentV {
        ContentV {
            list: opt_list_view(self.list),
            tasks: tasks_view(self.tasks@),
            input: self.input@,
        }
    }
}

/// An incoming event: either a user interaction forwarded by the front end or
/// a backend result delivered later (`SetItems` answers an earlier `GetTasks`).
#[derive(Debug, Clone)]
pub enum Message {
    List(List),
    Rename(String, String),
    Delete(String),
    Select(Task),
    Complete(String, bool),
    SetItems(Vec<Task>),
    ItemDown,
    ItemUp,
    Input(String),
    AddTask,
    SetPriority(String, Priority),
}

/// Mathematical image of a `Message`.
#[verifier::ext_equal]
pub ghost enum MessageV {
    List(ListV),
    Rename(Seq<char>, Seq<char>),
    Delete(Seq<char>),
    Select(TaskV),
    Complete(Seq<char>, bool),
    SetItems(Seq<TaskV>),
    ItemDown,
    ItemUp,
    Input(Seq<char>),
    AddTask,
    SetPriority(Seq<char>, Priority),
}

impl View for Message {
    type V = MessageV;

    open spec fn view(&self) -> MessageV {
        match self {
            Message::List(l) => MessageV::List(l@),
            Message::Rename(id, title) => MessageV::Rename(id@, title@),
            Message::Delete(id) => MessageV::Delete(id@),
            Message::Select(t) => MessageV::Select(t@),
            Message::Complete(id, complete) => MessageV::Complete(id@, *complete),
            Message::SetItems(ts) => MessageV::SetItems(tasks_view(ts@)),
            Message::ItemDown => MessageV::ItemDown,
            Message::ItemUp => MessageV::ItemUp,
            Message::Input(text) => MessageV::Input(text@),
            Message::AddTask => MessageV::AddTask,
            Message::SetPriority(id, p) => MessageV::SetPriority(id@, *p),
        }
    }
}

/// An outbound instruction to the backend, describing a desired side effect.
#[derive(Debug)]
pub enum Command {
    GetTasks(String),
    DisplayTask(Task),
    UpdateTask(Task),
    Delete(String),
    CreateTask(Task),
}

/// Mathematical image of a `Command`.
#[verifier::ext_equal]
pub ghost enum CommandV {
    GetTasks(Seq<char>),
    DisplayTask(TaskV),
    UpdateTask(TaskV),
    Delete(Seq<char>),
    CreateTask(TaskV),
}

impl View for Command {
    type V = CommandV;

    open spec fn view(&self) -> CommandV {
        match self {
            Command::GetTasks(id) => CommandV::GetTasks(id@),
            Command::DisplayTask(t) => CommandV::DisplayTask(t@),
            Command::UpdateTask(t) => CommandV::UpdateTask(t@),
            Command::Delete(id) => CommandV::Delete(id@),
            Command::CreateTask(t) => CommandV::CreateTask(t@),
        }
    }
}

/// The image of a command vector, element by element.
pub open spec fn cmds_view(cs: Seq<Command>) -> Seq<CommandV> {
    cs.map_values(|c: Command| c@)
}

/// The state a controller starts in: no list, no tasks, empty input.
pub open spec fn initial_state() -> ContentV {
    ContentV { list: None, tasks: Seq::empty(), input: Seq::empty() }
}

/// Index of the first task carrying `id`, or -1 when no task does.
pub open spec fn index_of_task(tasks: Seq<TaskV>, id: Seq<char>) -> int
    decreases tasks.len(),
{
    if tasks.len() == 0 {
        -1
    } else if tasks[0].id == id {
        0
    } else if index_of_task(tasks.drop_first(), id) == -1 {
        -1
    } else {
        1 + index_of_task(tasks.drop_first(), id)
    }
}

/// Whether some task in `tasks` carries `id`.
pub open spec fn has_task(tasks: Seq<TaskV>, id: Seq<char>) -> bool {
    exists|i: int| 0 <= i < tasks.len() && tasks[i].id == id
}

/// `tasks` with every task carrying `id` removed, in the order kept.
pub open spec fn remove_id(tasks: Seq<TaskV>, id: Seq<char>) -> Seq<TaskV> {
    tasks.filter(|t: TaskV| t.id != id)
}

/// `t` with its completion state set from `complete`.
pub open spec fn with_status(t: TaskV, complete: bool) -> TaskV {
    TaskV {
        status: if complete {
            Status::Completed
        } else {
            Status::NotStarted
        },
        ..t
    }
}

/// `t` with its priority replaced.
pub open spec fn with_priority(t: TaskV, p: Priority) -> TaskV {
    TaskV { priority: p, ..t }
}

/// `t` with its title replaced.
pub open spec fn with_title(t: TaskV, title: Seq<char>) -> TaskV {
    TaskV { title, ..t }
}

/// A freshly staged task: given id and title, owned by `list_id`, not yet
/// started, at the lowest priority.
pub open spec fn staged_task(id: Seq<char>, title: Seq<char>, list_id: Seq<char>) -> TaskV {
    TaskV { id, title, status: Status::NotStarted, priority: Priority::Low, list_id }
}

/// The state after one event. `fresh_id` is the identifier a new task would be
/// given; only `AddTask` reads it. Lookups that miss leave the state as it is.
pub open spec fn next_state(pre: ContentV, msg: MessageV, fresh_id: Seq<char>) -> ContentV {
    match msg {
        MessageV::List(l) => ContentV { list: Some(l), ..pre },
        MessageV::Rename(id, title) => {
            let k = index_of_task(pre.tasks, id);
            if k >= 0 {
                ContentV { tasks: pre.tasks.update(k, with_title(pre.tasks[k], title)), ..pre }
            } else {
                pre
            }
        },
        MessageV::Delete(id) => ContentV { tasks: remove_id(pre.tasks, id), ..pre },
        MessageV::Select(_) => pre,
        MessageV::Complete(id, complete) => {
            let k = index_of_task(pre.tasks, id);
            if k >= 0 {
                ContentV { tasks: pre.tasks.update(k, with_status(pre.tasks[k], complete)), ..pre }
            } else {
                pre
            }
        },
        MessageV::SetItems(ts) => ContentV { tasks: ts, ..pre },
        MessageV::ItemDown => pre,
        MessageV::ItemUp => pre,
        MessageV::Input(text) => ContentV { input: text, ..pre },
        MessageV::AddTask => {
            match pre.list {
                Some(l) => ContentV {
                    tasks: pre.tasks.push(staged_task(fresh_id, pre.input, l.id)),
                    input: Seq::empty(),
                    ..pre
                },
                None => pre,
            }
        },
        MessageV::SetPriority(id, p) => {
            let k = index_of_task(pre.tasks, id);
            if k >= 0 {
                ContentV { tasks: pre.tasks.update(k, with_priority(pre.tasks[k], p)), ..pre }
            } else {
                pre
            }
        },
    }
}

/// The commands one event emits, in emission order. `Delete` always emits its
/// command, present or not; the other lookups emit only on a hit.
pub open spec fn emitted_commands(pre: ContentV, msg: MessageV, fresh_id: Seq<char>) -> Seq<
    CommandV,
> {
    match msg {
        MessageV::List(l) => seq![CommandV::GetTasks(l.id)],
        MessageV::Rename(id, title) => {
            let k = index_of_task(pre.tasks, id);
            if k >= 0 {
                seq![CommandV::UpdateTask(with_title(pre.tasks[k], title))]
            } else {
                Seq::empty()
            }
        },
        MessageV::Delete(id) => seq![CommandV::Delete(id)],
        MessageV::Select(t) => seq![CommandV::DisplayTask(t)],
        MessageV::Complete(id, complete) => {
            let k = index_of_task(pre.tasks, id);
            if k >= 0 {
                seq![CommandV::UpdateTask(with_status(pre.tasks[k], complete))]
            } else {
                Seq::empty()
            }
        },
        MessageV::SetItems(_) => Seq::empty(),
        MessageV::ItemDown => Seq::empty(),
        MessageV::ItemUp => Seq::empty(),
        MessageV::Input(_) => Seq::empty(),
        MessageV::AddTask => {
            match pre.list {
                Some(l) => seq![CommandV::CreateTask(staged_task(fresh_id, pre.input, l.id))],
                None => Seq::empty(),
            }
        },
        MessageV::SetPriority(id, p) => {
            let k = index_of_task(pre.tasks, id);
            if k >= 0 {
                seq![CommandV::UpdateTask(with_priority(pre.tasks[k], p))]
            } else {
                Seq::empty()
            }
        },
    }
}

/// One row of the rendered task list: the task it stands for, and whether its
/// completion toggle shows checked. A front end turns the row's affordances
/// back into events: the toggle into `Complete`, the delete affordance into
/// `Delete`, picking the row into `Select`.
pub struct TaskRow {
    pub task: Task,
    pub completed: bool,
}

/// Mathematical image of a `TaskRow`.
#[verifier::ext_equal]
pub ghost struct TaskRowV {
    pub task: TaskV,
    pub completed: bool,
}

impl View for TaskRow {
    type V = TaskRowV;

    open spec fn view(&self) -> TaskRowV {
        TaskRowV { task: self.task@, completed: self.completed }
    }
}

/// The task rows in display order, plus the input row whose text field shows
/// the staged input and whose submit affordance becomes `AddTask`.
pub struct ListView {
    pub rows: Vec<TaskRow>,
    pub input: String,
}

/// Mathematical image of a `ListView`.
#[verifier::ext_equal]
pub ghost struct ListViewV {
    pub rows: Seq<TaskRowV>,
    pub input: Seq<char>,
}

impl View for ListView {
    type V = ListViewV;

    open spec fn view(&self) -> ListViewV {
        ListViewV { rows: rows_view(self.rows@), input: self.input@ }
    }
}

/// The image of a row vector, element by element.
pub open spec fn rows_view(rs: Seq<TaskRow>) -> Seq<TaskRowV> {
    rs.map_values(|r: TaskRow| r@)
}

/// What a front end should draw: a placeholder while no tasks are on display,
/// otherwise the task rows and the input row.
pub enum ViewModel {
    Empty,
    Tasks(ListView),
}

/// Mathematical image of a `ViewModel`.
#[verifier::ext_equal]
pub ghost enum ViewModelV {
    Empty,
    Tasks(ListViewV),
}

impl View for ViewModel {
    type V = ViewModelV;

    open spec fn view(&self) -> ViewModelV {
        match self {
            ViewModel::Empty => ViewModelV::Empty,
            ViewModel::Tasks(lv) => ViewModelV::Tasks(lv@),
        }
    }
}

/// The row a task is drawn as.
pub open spec fn row_of(t: TaskV) -> TaskRowV {
    TaskRowV { task: t, completed: t.status is Completed }
}

/// One row per task, in display order.
pub open spec fn rows_projection(ts: Seq<TaskV>) -> Seq<TaskRowV> {
    ts.map_values(|t: TaskV| row_of(t))
}

/// The rows-and-input part of the projection, one row per task in order.
pub open spec fn list_projection(s: ContentV) -> ListViewV {
    ListViewV { rows: rows_projection(s.tasks), input: s.input }
}

/// The full rendering projection: a pure read of the state, owning no events
/// and no commands.
pub open spec fn projection(s: ContentV) -> ViewModelV {
    if s.tasks.len() == 0 {
        ViewModelV::Empty
    } else {
        ViewModelV::Tasks(list_projection(s))
    }
}

/// `index_of_task` finds the first hit and nothing else: -1 means no task
/// carries `id`, a non-negative result is the least index that does.
pub proof fn lemma_index_of_task(tasks: Seq<TaskV>, id: Seq<char>)
    ensures
        index_of_task(tasks, id) == -1 ==> forall|j: int|
            0 <= j < tasks.len() ==> tasks[j].id != id,
        index_of_task(tasks, id) != -1 ==> {
            let k = index_of_task(tasks, id);
            &&& 0 <= k < tasks.len()
            &&& tasks[k].id == id
            &&& forall|j: int| 0 <= j < k ==> tasks[j].id != id
        },
    decreases tasks.len(),
{
    if tasks.len() == 0 {
    } else if tasks[0].id == id {
    } else {
        lemma_index_of_task(tasks.drop_first(), id);
        let rest = tasks.drop_first();
        assert(forall|j: int| 1 <= j < tasks.len() ==> tasks[j] == rest[j - 1]);
    }
}

/// Removing an id from a sequence extended by one task keeps the task exactly
/// when its id differs.
proof fn lemma_remove_id_push(s: Seq<TaskV>, x: TaskV, id: Seq<char>)
    ensures
        remove_id(s.push(x), id) == if x.id != id {
            remove_id(s, id).push(x)
        } else {
            remove_id(s, id)
        },
{
    reveal(Seq::filter);
    assert(s.push(x).drop_last() =~= s);
    assert(s.push(x).last() == x);
}

/// Nothing to remove from nothing.
proof fn lemma_remove_id_empty(id: Seq<char>)
    ensures
        remove_id(Seq::<TaskV>::empty(), id) =~= Seq::<TaskV>::empty(),
{
    reveal(Seq::filter);
}

/// First index in `tasks` whose task carries `id`, as the executable side of
/// `index_of_task`.
fn find_task(tasks: &Vec<Task>, id: &String) -> (r: Option<usize>)
    ensures
        match r {
            Some(k) => index_of_task(tasks_view(tasks@), id@) == k as int,
            None => index_of_task(tasks_view(tasks@), id@) == -1,
        },
{
    let mut i: usize = 0;
    while i < tasks.len()
        invariant
            i <= tasks@.len(),
            forall|j: int| 0 <= j < i ==> tasks_view(tasks@)[j].id != id@,
        decreases tasks@.len() - i,
    {
        if tasks[i].id == *id {
            proof {
                lemma_index_of_task(tasks_view(tasks@), id@);
                assert(tasks_view(tasks@)[i as int].id == id@);
            }
            return Some(i);
        }
        i += 1;
    }
    proof {
        lemma_index_of_task(tasks_view(tasks@), id@);
    }
    None
}

/// Relies on `uuid::Uuid::new_v4` and its `Display` form: a fresh version-4
/// UUID rendered as the 36-character hyphenated string, used as a task id.
#[verifier::external_body]
fn fresh_task_id() -> (r: String)
    ensures
        r@.len() == 36,
{
    uuid::Uuid::new_v4().to_string()
}

impl Content {
    /// A controller as it stands at startup: nothing selected, nothing staged.
    pub fn new() -> (c: Self)
        ensures
            c@ == initial_state(),
    {
        let c = Content { list: None, tasks: Vec::new(), input: String::new() };
        proof {
            assert(c@ =~~= initial_state());
        }
        c
    }

    /// Apply one event deterministically: `fresh_id` is the identifier a task
    /// staged by `AddTask` receives; every other event ignores it. Returns the
    /// commands to hand to the backend, in emission order.
    pub fn update_with_id(&mut self, message: Message, fresh_id: String) -> (commands: Vec<
        Command,
    >)
        ensures
            final(self)@ == next_state(old(self)@, message@, fresh_id@),
            cmds_view(commands@) == emitted_commands(old(self)@, message@, fresh_id@),
    {
        let ghost pre = self@;
        let mut commands: Vec<Command> = Vec::new();
        match message {
            Message::List(list) => {
                let id = list.id.clone();
                self.list = Some(list);
                commands.push(Command::GetTasks(id));
                proof {
                    assert(self@ =~~= next_state(pre, message@, fresh_id@));
                    assert(cmds_view(commands@) =~~= emitted_commands(pre, message@, fresh_id@));
                }
            },
            Message::ItemDown => {
                proof {
                    assert(cmds_view(commands@) =~~= emitted_commands(pre, message@, fresh_id@));
                }
            },
            Message::ItemUp => {
                proof {
                    assert(cmds_view(commands@) =~~= emitted_commands(pre, message@, fresh_id@));
                }
            },
            Message::Delete(id) => {
                commands.push(Command::Delete(id.clone()));
                let mut kept: Vec<Task> = Vec::new();
                proof {
                    lemma_remove_id_empty(id@);
                    assert(pre.tasks.subrange(0, 0) =~= Seq::<TaskV>::empty());
                }
                let mut i: usize = 0;
                while i < self.tasks.len()
                    invariant
                        i <= self.tasks@.len(),
                        tasks_view(self.tasks@) == pre.tasks,
                        tasks_view(kept@) == remove_id(pre.tasks.subrange(0, i as int), id@),
                    decreases self.tasks@.len() - i,
                {
                    proof {
                        lemma_remove_id_push(
                            pre.tasks.subrange(0, i as int),
                            pre.tasks[i as int],
                            id@,
                        );
                        assert(pre.tasks.subrange(0, i as int).push(pre.tasks[i as int]) =~= pre
                            .tasks.subrange(0, i as int + 1));
                    }
                    if !(self.tasks[i].id == id) {
                        kept.push(self.tasks[i].clone());
                        proof {
                            assert(tasks_view(kept@) =~~= remove_id(
                                pre.tasks.subrange(0, i as int + 1),
                                id@,
                            ));
                        }
                    }
                    i += 1;
                }
                proof {
                    assert(pre.tasks.subrange(0, pre.tasks.len() as int) =~= pre.tasks);
                }
                self.tasks = kept;
                proof {
                    assert(self@ =~~= next_state(pre, message@, fresh_id@));
                    assert(cmds_view(commands@) =~~= emitted_commands(pre, message@, fresh_id@));
                }
            },
            Message::SetItems(tasks) => {
                self.tasks = tasks;
                proof {
                    assert(self@ =~~= next_state(pre, message@, fresh_id@));
                    assert(cmds_view(commands@) =~~= emitted_commands(pre, message@, fresh_id@));
                }
            },
            Message::Select(task) => {
                commands.push(Command::DisplayTask(task));
                proof {
                    assert(cmds_view(commands@) =~~= emitted_commands(pre, message@, fresh_id@));
                }
            },
            Message::Complete(id, complete) => {
                if let Some(k) = find_task(&self.tasks, &id) {
                    proof {
                        lemma_index_of_task(pre.tasks, id@);
                    }
                    let t = self.tasks[k].clone();
                    let updated = Task {
                        id: t.id,
                        title: t.title,
                        status: if complete {
                            Status::Completed
                        } else {
                            Status::NotStarted
                        },
                        priority: t.priority,
                        list_id: t.list_id,
                    };
                    self.tasks[k] = updated.clone();
                    commands.push(Command::UpdateTask(updated));
                    proof {
                        assert(self@ =~~= next_state(pre, message@, fresh_id@));
                        assert(cmds_view(commands@) =~~= emitted_commands(
                            pre,
                            message@,
                            fresh_id@,
                        ));
                    }
                } else {
                    proof {
                        assert(cmds_view(commands@) =~~= emitted_commands(
                            pre,
                            message@,
                            fresh_id@,
                        ));
                    }
                }
            },
            Message::Input(text) => {
                self.input = text;
                proof {
                    assert(self@ =~~= next_state(pre, message@, fresh_id@));
                    assert(cmds_view(commands@) =~~= emitted_commands(pre, message@, fresh_id@));
                }
            },
            Message::AddTask => {
                match &self.list {
                    Some(list) => {
                        let list_id = list.id.clone();
                        let title = self.input.clone();
                        let task = Task {
                            id: fresh_id,
                            title,
                            status: Status::NotStarted,
                            priority: Priority::Low,
                            list_id,
                        };
                        commands.push(Command::CreateTask(task.clone()));
                        self.tasks.push(task);
                        self.input = String::new();
                        proof {
                            assert(self@ =~~= next_state(pre, message@, fresh_id@));
                            assert(cmds_view(commands@) =~~= emitted_commands(
                                pre,
                                message@,
                                fresh_id@,
                            ));
                        }
                    },
                    None => {
                        proof {
                            assert(cmds_view(commands@) =~~= emitted_commands(
                                pre,
                                message@,
                                fresh_id@,
                            ));
                        }
                    },
                }
            },
            Message::SetPriority(id, priority) => {
                if let Some(k) = find_task(&self.tasks, &id) {
                    proof {
                        lemma_index_of_task(pre.tasks, id@);
                    }
                    let t = self.tasks[k].clone();
                    let updated = Task {
                        id: t.id,
                        title: t.title,
                        status: t.status,
                        priority,
                        list_id: t.list_id,
                    };
                    self.tasks[k] = updated.clone();
                    commands.push(Command::UpdateTask(updated));
                    proof {
                        assert(self@ =~~= next_state(pre, message@, fresh_id@));
                        assert(cmds_view(commands@) =~~= emitted_commands(
                            pre,
                            message@,
                            fresh_id@,
                        ));
                    }
                } else {
                    proof {
                        assert(cmds_view(commands@) =~~= emitted_commands(
                            pre,
                            message@,
                            fresh_id@,
                        ));
                    }
                }
            },
            Message::Rename(id, title) => {
                if let Some(k) = find_task(&self.tasks, &id) {
                    proof {
                        lemma_index_of_task(pre.tasks, id@);
                    }
                    let t = self.tasks[k].clone();
                    let updated = Task {
                        id: t.id,
                        title,
                        status: t.status,
                        priority: t.priority,
                        list_id: t.list_id,
                    };
                    self.tasks[k] = updated.clone();
                    commands.push(Command::UpdateTask(updated));
                    proof {
                        assert(self@ =~~= next_state(pre, message@, fresh_id@));
                        assert(cmds_view(commands@) =~~= emitted_commands(
                            pre,
                            message@,
                            fresh_id@,
                        ));
                    }
                } else {
                    proof {
                        assert(cmds_view(commands@) =~~= emitted_commands(
                            pre,
                            message@,
                            fresh_id@,
                        ));
                    }
                }
            },
        }
        commands
    }

    /// Apply one event. A task staged by `AddTask` is given a fresh identifier;
    /// all the library promises of that identifier is that some character
    /// sequence was used, so the contract quantifies over it.
    pub fn update(&mut self, message: Message) -> (commands: Vec<Command>)
        ensures
            !(message@ is AddTask) ==> final(self)@ == next_state(
                old(self)@,
                message@,
                Seq::<char>::empty(),
            ) && cmds_view(commands@) == emitted_commands(
                old(self)@,
                message@,
                Seq::<char>::empty(),
            ),
            message@ is AddTask ==> exists|id: Seq<char>|
                final(self)@ == next_state(old(self)@, message@, id) && cmds_view(commands@)
                    == emitted_commands(old(self)@, message@, id),
    {
        let ghost pre = self@;
        let fresh_id = match &message {
            Message::AddTask => fresh_task_id(),
            _ => String::new(),
        };
        let ghost fid = fresh_id@;
        let commands = self.update_with_id(message, fresh_id);
        proof {
            if message@ is AddTask {
                assert(self@ == next_state(pre, message@, fid) && cmds_view(commands@)
                    == emitted_commands(pre, message@, fid));
            }
        }
        commands
    }

    /// The rows-and-input part of the rendering projection.
    pub fn list_view(&self) -> (v: ListView)
        ensures
            v@ == list_projection(self@),
    {
        let mut rows: Vec<TaskRow> = Vec::new();
        let mut i: usize = 0;
        while i < self.tasks.len()
            invariant
                i <= self.tasks@.len(),
                rows@.len() == i,
                rows_view(rows@) =~= rows_projection(self@.tasks.subrange(0, i as int)),
                tasks_view(self.tasks@) == self@.tasks,
            decreases self.tasks@.len() - i,
        {
            let task = self.tasks[i].clone();
            let completed = task.status == Status::Completed;
            let row = TaskRow { task, completed };
            proof {
                assert(row@ == row_of(self@.tasks[i as int]));
            }
            let ghost rows0 = rows@;
            rows.push(row);
            proof {
                let prefix = self@.tasks.subrange(0, i as int);
                let prefix1 = self@.tasks.subrange(0, i as int + 1);
                assert(prefix.push(self@.tasks[i as int]) =~= prefix1);
                assert forall|j: int| 0 <= j < rows@.len() implies rows_view(rows@)[j]
                    == rows_projection(prefix1)[j] by {
                    if j < i as int {
                        assert(rows_view(rows0)[j] == rows_projection(prefix)[j]);
                        assert(rows@[j] == rows0[j]);
                        assert(prefix1[j] == prefix[j]);
                    } else {
                        assert(rows@[j] == row);
                        assert(prefix1[j] == self@.tasks[i as int]);
                    }
                }
                assert(rows_view(rows@).len() == rows_projection(prefix1).len());
                assert(rows_view(rows@) =~= rows_projection(prefix1));
            }
            i += 1;
        }
        let v = ListView { rows, input: self.input.clone() };
        proof {
            assert(self@.tasks.subrange(0, self@.tasks.len() as int) =~= self@.tasks);
            assert(v@ =~~= list_projection(self@));
        }
        v
    }

    /// The full rendering projection: the placeholder while no tasks are on
    /// display, the task rows and the input row otherwise.
    pub fn view_model(&self) -> (v: ViewModel)
        ensures
            v@ == projection(self@),
    {
        if self.tasks.is_empty() {
            return ViewModel::Empty;
        }
        ViewModel::Tasks(self.list_view())
    }

    /// The list on display, if one was ever selected.
    pub fn list(&self) -> (r: &Option<List>)
        ensures
            opt_list_view(*r) == self@.list,
    {
        &self.list
    }

    /// The tasks on display, in display order.
    pub fn tasks(&self) -> (r: &Vec<Task>)
        ensures
            tasks_view(r@) == self@.tasks,
    {
        &self.tasks
    }

    /// The staged text for a task not yet created.
    pub fn input(&self) -> (r: &String)
        ensures
            r@ == self@.input,
    {
        &self.input
    }
}

} // verus!

