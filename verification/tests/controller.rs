use task_content::content::{Command, Content, Message};
use task_content::model::{List, Priority, Status, Task};

fn task(id: &str, title: &str, list_id: &str) -> Task {
    Task {
        id: id.to_string(),
        title: title.to_string(),
        status: Status::NotStarted,
        priority: Priority::Low,
        list_id: list_id.to_string(),
    }
}

fn list(id: &str, name: &str) -> List {
    List { id: id.to_string(), name: name.to_string() }
}

#[test]
fn new_controller_is_empty() {
    let c = Content::new();
    assert!(c.tasks().is_empty());
    assert!(c.input().is_empty());
    assert!(c.list().is_none());
}

#[test]
fn select_list_stores_it_and_fetches_tasks() {
    let mut c = Content::new();
    let cmds = c.update(Message::List(list("L1", "Groceries")));
    assert_eq!(cmds.len(), 1);
    match &cmds[0] {
        Command::GetTasks(id) => assert_eq!(id, "L1"),
        _ => panic!("expected a GetTasks command"),
    }
    assert_eq!(c.list().as_ref().unwrap().id, "L1");
    assert_eq!(c.list().as_ref().unwrap().name, "Groceries");
    assert!(c.tasks().is_empty());
}

#[test]
fn delete_of_absent_id_still_emits_one_command() {
    let mut c = Content::new();
    let cmds = c.update(Message::Delete("missing".to_string()));
    assert_eq!(cmds.len(), 1);
    match &cmds[0] {
        Command::Delete(id) => assert_eq!(id, "missing"),
        _ => panic!("expected a Delete command"),
    }
    assert!(c.tasks().is_empty());
}

#[test]
fn delete_of_present_id_removes_it_and_emits_one_command() {
    let mut c = Content::new();
    c.update(Message::SetItems(vec![task("T1", "a", "L1"), task("T2", "b", "L1")]));
    let cmds = c.update(Message::Delete("T1".to_string()));
    assert_eq!(cmds.len(), 1);
    match &cmds[0] {
        Command::Delete(id) => assert_eq!(id, "T1"),
        _ => panic!("expected a Delete command"),
    }
    assert_eq!(c.tasks().len(), 1);
    assert_eq!(c.tasks()[0].id, "T2");
}

#[test]
fn every_delete_in_a_run_emits_exactly_one_command() {
    let mut c = Content::new();
    c.update(Message::SetItems(vec![task("T1", "a", "L1")]));
    for id in ["T1", "T1", "nope", "T2", "nope"] {
        let cmds = c.update(Message::Delete(id.to_string()));
        assert_eq!(cmds.len(), 1);
        match &cmds[0] {
            Command::Delete(got) => assert_eq!(got, id),
            _ => panic!("expected a Delete command"),
        }
    }
    assert!(c.tasks().is_empty());
}

#[test]
fn submit_with_list_stages_one_task_and_clears_input() {
    let mut c = Content::new();
    c.update(Message::List(list("L1", "Groceries")));
    c.update(Message::Input("Buy milk".to_string()));
    let cmds = c.update_with_id(Message::AddTask, "id-1".to_string());
    assert_eq!(c.tasks().len(), 1);
    let t = &c.tasks()[0];
    assert_eq!(t.id, "id-1");
    assert_eq!(t.title, "Buy milk");
    assert_eq!(t.list_id, "L1");
    assert_eq!(t.status, Status::NotStarted);
    assert_eq!(t.priority, Priority::Low);
    assert!(c.input().is_empty());
    assert_eq!(cmds.len(), 1);
    match &cmds[0] {
        Command::CreateTask(created) => {
            assert_eq!(created.id, "id-1");
            assert_eq!(created.title, "Buy milk");
            assert_eq!(created.list_id, "L1");
            assert_eq!(created.status, Status::NotStarted);
            assert_eq!(created.priority, Priority::Low);
        }
        _ => panic!("expected a CreateTask command"),
    }
}

#[test]
fn submit_gives_the_staged_task_a_fresh_uuid() {
    let mut c = Content::new();
    c.update(Message::List(list("L1", "Groceries")));
    c.update(Message::Input("Buy milk".to_string()));
    let cmds = c.update(Message::AddTask);
    assert_eq!(c.tasks().len(), 1);
    let first_id = c.tasks()[0].id.clone();
    assert_eq!(first_id.len(), 36);
    match &cmds[0] {
        Command::CreateTask(created) => assert_eq!(created.id, first_id),
        _ => panic!("expected a CreateTask command"),
    }
    c.update(Message::Input("Buy bread".to_string()));
    c.update(Message::AddTask);
    assert_eq!(c.tasks().len(), 2);
    assert_ne!(c.tasks()[1].id, first_id);
}

#[test]
fn submit_without_list_changes_nothing_and_emits_nothing() {
    let mut c = Content::new();
    c.update(Message::Input("Buy milk".to_string()));
    let cmds = c.update(Message::AddTask);
    assert!(cmds.is_empty());
    assert!(c.tasks().is_empty());
    assert_eq!(c.input(), "Buy milk");
    assert!(c.list().is_none());
}

#[test]
fn edits_aimed_at_a_missing_id_are_silent_noops() {
    let mut c = Content::new();
    c.update(Message::SetItems(vec![task("T1", "Call home", "L1")]));
    let cmds = c.update(Message::Complete("nope".to_string(), true));
    assert!(cmds.is_empty());
    let cmds = c.update(Message::SetPriority("nope".to_string(), Priority::High));
    assert!(cmds.is_empty());
    let cmds = c.update(Message::Rename("nope".to_string(), "other".to_string()));
    assert!(cmds.is_empty());
    assert_eq!(c.tasks().len(), 1);
    let t = &c.tasks()[0];
    assert_eq!(t.id, "T1");
    assert_eq!(t.title, "Call home");
    assert_eq!(t.status, Status::NotStarted);
    assert_eq!(t.priority, Priority::Low);
}

#[test]
fn complete_updates_only_the_named_task() {
    let mut c = Content::new();
    c.update(Message::SetItems(vec![task("T1", "Call home", "L1"), task("T2", "b", "L1")]));
    let cmds = c.update(Message::Complete("T1".to_string(), true));
    let t = &c.tasks()[0];
    assert_eq!(t.id, "T1");
    assert_eq!(t.status, Status::Completed);
    assert_eq!(t.title, "Call home");
    assert_eq!(t.priority, Priority::Low);
    assert_eq!(t.list_id, "L1");
    let other = &c.tasks()[1];
    assert_eq!(other.id, "T2");
    assert_eq!(other.status, Status::NotStarted);
    assert_eq!(cmds.len(), 1);
    match &cmds[0] {
        Command::UpdateTask(u) => {
            assert_eq!(u.id, "T1");
            assert_eq!(u.status, Status::Completed);
            assert_eq!(u.title, "Call home");
            assert_eq!(u.priority, Priority::Low);
            assert_eq!(u.list_id, "L1");
        }
        _ => panic!("expected an UpdateTask command"),
    }
}

#[test]
fn completion_can_be_taken_back() {
    let mut c = Content::new();
    c.update(Message::SetItems(vec![task("T1", "a", "L1")]));
    c.update(Message::Complete("T1".to_string(), true));
    let cmds = c.update(Message::Complete("T1".to_string(), false));
    assert_eq!(c.tasks()[0].status, Status::NotStarted);
    assert_eq!(cmds.len(), 1);
    assert!(matches!(&cmds[0], Command::UpdateTask(_)));
}

#[test]
fn set_priority_updates_the_task_and_emits_the_update() {
    let mut c = Content::new();
    c.update(Message::SetItems(vec![task("T1", "a", "L1")]));
    let cmds = c.update(Message::SetPriority("T1".to_string(), Priority::High));
    assert_eq!(c.tasks()[0].priority, Priority::High);
    assert_eq!(cmds.len(), 1);
    match &cmds[0] {
        Command::UpdateTask(u) => assert_eq!(u.priority, Priority::High),
        _ => panic!("expected an UpdateTask command"),
    }
}

#[test]
fn rename_updates_the_title_and_emits_the_update() {
    let mut c = Content::new();
    c.update(Message::SetItems(vec![task("T1", "a", "L1")]));
    let cmds = c.update(Message::Rename("T1".to_string(), "better title".to_string()));
    assert_eq!(c.tasks()[0].title, "better title");
    assert_eq!(cmds.len(), 1);
    match &cmds[0] {
        Command::UpdateTask(u) => assert_eq!(u.title, "better title"),
        _ => panic!("expected an UpdateTask command"),
    }
}

#[test]
fn replacing_tasks_takes_the_snapshot_wholesale() {
    let mut c = Content::new();
    c.update(Message::SetItems(vec![task("T1", "a", "L1")]));
    let cmds = c.update(Message::SetItems(vec![task("T9", "z", "L2")]));
    assert!(cmds.is_empty());
    assert_eq!(c.tasks().len(), 1);
    assert_eq!(c.tasks()[0].id, "T9");
}

#[test]
fn select_task_emits_display_and_keeps_state() {
    let mut c = Content::new();
    c.update(Message::SetItems(vec![task("T1", "a", "L1")]));
    let cmds = c.update(Message::Select(task("T1", "a", "L1")));
    assert_eq!(cmds.len(), 1);
    match &cmds[0] {
        Command::DisplayTask(t) => assert_eq!(t.id, "T1"),
        _ => panic!("expected a DisplayTask command"),
    }
    assert_eq!(c.tasks().len(), 1);
}

#[test]
fn reorder_events_are_reserved_stubs() {
    let mut c = Content::new();
    c.update(Message::SetItems(vec![task("T1", "a", "L1")]));
    assert!(c.update(Message::ItemUp).is_empty());
    assert!(c.update(Message::ItemDown).is_empty());
    assert_eq!(c.tasks().len(), 1);
    assert_eq!(c.tasks()[0].id, "T1");
}

#[test]
fn editing_input_twice_equals_editing_once() {
    let mut c = Content::new();
    let cmds = c.update(Message::Input("x".to_string()));
    assert!(cmds.is_empty());
    let once = c.input().clone();
    let cmds = c.update(Message::Input("x".to_string()));
    assert!(cmds.is_empty());
    assert_eq!(c.input(), &once);
    assert_eq!(c.input(), "x");
}

#[test]
fn selecting_a_new_list_keeps_the_old_tasks_until_fresh_data() {
    let mut c = Content::new();
    c.update(Message::List(list("L1", "a")));
    c.update(Message::SetItems(vec![task("T1", "a", "L1")]));
    let cmds = c.update(Message::List(list("L2", "b")));
    assert_eq!(c.list().as_ref().unwrap().id, "L2");
    assert_eq!(c.tasks().len(), 1);
    assert_eq!(cmds.len(), 1);
    match &cmds[0] {
        Command::GetTasks(id) => assert_eq!(id, "L2"),
        _ => panic!("expected a GetTasks command"),
    }
}

#[test]
fn duplicate_ids_hit_first_on_edit_and_all_on_delete() {
    let mut c = Content::new();
    let mut second = task("T1", "second copy", "L1");
    second.status = Status::Completed;
    c.update(Message::SetItems(vec![task("T1", "first copy", "L1"), second]));
    let cmds = c.update(Message::Rename("T1".to_string(), "renamed".to_string()));
    assert_eq!(cmds.len(), 1);
    assert_eq!(c.tasks()[0].title, "renamed");
    assert_eq!(c.tasks()[1].title, "second copy");
    let cmds = c.update(Message::Delete("T1".to_string()));
    assert_eq!(cmds.len(), 1);
    assert!(c.tasks().is_empty());
}
