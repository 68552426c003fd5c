use task_content::content::{Content, Message, ViewModel};
use task_content::model::{Priority, Status, Task};

fn task(id: &str, title: &str, status: Status) -> Task {
    Task {
        id: id.to_string(),
        title: title.to_string(),
        status,
        priority: Priority::Low,
        list_id: "L1".to_string(),
    }
}

#[test]
fn fresh_controller_projects_the_empty_state() {
    let c = Content::new();
    assert!(matches!(c.view_model(), ViewModel::Empty));
}

#[test]
fn empty_snapshot_projects_the_empty_state_whatever_was_shown() {
    let mut c = Content::new();
    c.update(Message::SetItems(vec![
        task("T1", "a", Status::NotStarted),
        task("T2", "b", Status::Completed),
    ]));
    c.update(Message::Input("draft".to_string()));
    c.update(Message::SetItems(Vec::new()));
    assert!(matches!(c.view_model(), ViewModel::Empty));
}

#[test]
fn rows_mirror_the_tasks_in_order() {
    let mut c = Content::new();
    c.update(Message::SetItems(vec![
        task("T1", "first", Status::NotStarted),
        task("T2", "second", Status::Completed),
    ]));
    c.update(Message::Input("draft".to_string()));
    match c.view_model() {
        ViewModel::Tasks(lv) => {
            assert_eq!(lv.rows.len(), 2);
            assert_eq!(lv.rows[0].task.id, "T1");
            assert_eq!(lv.rows[0].task.title, "first");
            assert!(!lv.rows[0].completed);
            assert_eq!(lv.rows[1].task.id, "T2");
            assert_eq!(lv.rows[1].task.title, "second");
            assert!(lv.rows[1].completed);
            assert_eq!(lv.input, "draft");
        }
        ViewModel::Empty => panic!("expected task rows"),
    }
}

#[test]
fn list_view_alone_still_carries_the_input_row() {
    let mut c = Content::new();
    c.update(Message::Input("draft".to_string()));
    let lv = c.list_view();
    assert!(lv.rows.is_empty());
    assert_eq!(lv.input, "draft");
}
