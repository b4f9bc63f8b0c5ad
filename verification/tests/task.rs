use tomatoes::backend::Task;

const TASK_NAME: &str = "Task name";
const TASK_DESCRIPTION: &str = "Task description";

#[test]
fn should_create_a_task_with_name_and_description() {
    let task = Task::new(TASK_NAME, TASK_DESCRIPTION);

    assert_eq!(task.name, TASK_NAME);
    assert_eq!(task.description, TASK_DESCRIPTION);
}

#[test]
fn should_create_a_task_with_completed_equals_false() {
    let task = Task::new(TASK_NAME, TASK_DESCRIPTION);

    assert_eq!(task.completed, false);
}

#[test]
fn should_create_a_task_with_a_string() {
    let task_str = TASK_NAME.to_string() + ":" + TASK_DESCRIPTION;
    let task = Task::from_str(task_str.as_str());

    assert_eq!(task.name, TASK_NAME);
    assert_eq!(task.description, TASK_DESCRIPTION);
}

#[test]
fn should_handle_str_without_description() {
    let task_str = TASK_NAME.to_string();
    let task = Task::from_str(task_str.as_str());

    assert_eq!(task.name, TASK_NAME);
    assert_eq!(task.description, "");
}
