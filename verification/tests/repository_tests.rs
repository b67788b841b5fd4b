use csv_tasks::repository::NewTask;

#[test]
fn new_task_for_post() {
    let t = NewTask::for_post("weekly export");
    assert_eq!(t.name, "weekly export");
    assert!(t.description.is_none());
    assert_eq!(t.timezone, "test");
}
