//! The data the controller works on: tasks and lists, together with their
//! mathematical images (`TaskV`, `ListV`) that the contracts speak of.

use vstd::prelude::*;

verus! {

/// Completion state of a task.
#[derive(Clone, Copy, Debug, PartialEq, Eq, Structural)]
pub enum Status {
    NotStarted,
    Completed,
}

/// Importance of a task, from least to most pressing.
#[derive(Clone, Copy, Debug, PartialEq, Eq, Structural)]
pub enum Priority {
    Low,
    Medium,
    High,
}

/// A single to-do item. Tasks are identified, looked up and deleted by `id`;
/// `list_id` names the list the task belongs to.
#[derive(Debug)]
pub struct Task {
    pub id: String,
    pub title: String,
    pub status: Status,
    pub priority: Priority,
    pub list_id: String,
}

/// Mathematical image of a `Task`: each text field as a sequence of characters.
#[verifier::ext_equal]
pub ghost struct TaskV {
    pub id: Seq<char>,
    pub title: Seq<char>,
    pub status: Status,
    pub priority: Priority,
    pub list_id: Seq<char>,
}

impl View for Task {
    type V = TaskV;

    open spec fn view(&self) -> TaskV {
        TaskV {
            id: self.id@,
            title: self.title@,
            status: self.status,
            priority: self.priority,
            list_id: self.list_id@,
        }
    }
}

impl Clone for Task {
    fn clone(&self) -> (r: Self)
        ensures
            r == *self,
    {
        Task {
            id: self.id.clone(),
            title: self.title.clone(),
            status: self.status,
            priority: self.priority,
            list_id: self.list_id.clone(),
        }
    }
}

/// A named container of tasks, identified by `id`.
#[derive(Debug)]
pub struct List {
    pub id: String,
    pub name: String,
}

/// Mathematical image of a `List`.
#[verifier::ext_equal]
pub ghost struct ListV {
    pub id: Seq<char>,
    pub name: Seq<char>,
}

impl View for List {
    type V = ListV;

    open spec fn view(&self) -> ListV {
        ListV { id: self.id@, name: self.name@ }
    }
}

impl Clone for List {
    fn clone(&self) -> (r: Self)
        ensures
            r == *self,
    {
        List { id: self.id.clone(), name: self.name.clone() }
    }
}

/// The image of a task vector, element by element.
pub open spec fn tasks_view(ts: Seq<Task>) -> Seq<TaskV> {
    ts.map_values(|t: Task| t@)
}

} // verus!
