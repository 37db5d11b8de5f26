use task_service::data_validator::validate_task;
use task_service::task_controller::Task;

fn task_with_title(title: &str) -> Task {
    Task {
        id: None,
        title: title.to_string(),
        context: None,
        start_date: None,
        end_date: None,
        expected_end_date: None,
        tags: Vec::new(),
        notes: None,
        status: "active".to_string(),
    }
}

#[test]
fn empty_title_is_rejected() {
    let task = task_with_title("");
    assert_eq!(validate_task(&task), Err("Title is required".to_string()));
}

#[test]
fn title_length_boundary() {
    let ok = task_with_title(&"x".repeat(100));
    assert_eq!(validate_task(&ok), Ok(()));
    let too_long = task_with_title(&"x".repeat(101));
    assert_eq!(
        validate_task(&too_long),
        Err("Title must be 100 characters or less".to_string())
    );
}

#[test]
fn context_length_boundary() {
    let mut ok = task_with_title("t");
    ok.context = Some("c".repeat(500));
    assert_eq!(validate_task(&ok), Ok(()));
    let mut too_long = task_with_title("t");
    too_long.context = Some("c".repeat(501));
    assert_eq!(
        validate_task(&too_long),
        Err("Context must be 500 characters or less".to_string())
    );
}

#[test]
fn notes_length_boundary() {
    let mut ok = task_with_title("t");
    ok.notes = Some("n".repeat(1000));
    assert_eq!(validate_task(&ok), Ok(()));
    let mut too_long = task_with_title("t");
    too_long.notes = Some("n".repeat(1001));
    assert_eq!(
        validate_task(&too_long),
        Err("Notes must be 1000 characters or less".to_string())
    );
}

#[test]
fn tag_count_boundary() {
    let mut ok = task_with_title("t");
    ok.tags = (0..10).map(|i| format!("tag{}", i)).collect();
    assert_eq!(validate_task(&ok), Ok(()));
    let mut too_many = task_with_title("t");
    too_many.tags = (0..11).map(|i| format!("tag{}", i)).collect();
    assert_eq!(
        validate_task(&too_many),
        Err("Maximum of 10 tags allowed".to_string())
    );
}

#[test]
fn tag_length_boundary() {
    let mut ok = task_with_title("t");
    ok.tags = vec!["g".repeat(30)];
    assert_eq!(validate_task(&ok), Ok(()));
    let mut too_long = task_with_title("t");
    too_long.tags = vec!["g".repeat(31)];
    assert_eq!(
        validate_task(&too_long),
        Err("Each tag must be 30 characters or less".to_string())
    );
}

#[test]
fn end_date_before_start_date_is_rejected() {
    let mut task = task_with_title("t");
    task.start_date = Some("2024-01-05".to_string());
    task.end_date = Some("2024-01-01".to_string());
    assert_eq!(
        validate_task(&task),
        Err("End date must be after or equal to the start date".to_string())
    );
}

#[test]
fn equal_start_and_end_dates_are_accepted() {
    let mut task = task_with_title("t");
    task.start_date = Some("2024-01-01".to_string());
    task.end_date = Some("2024-01-01".to_string());
    assert_eq!(validate_task(&task), Ok(()));
}

#[test]
fn expected_end_date_before_start_date_is_rejected() {
    let mut task = task_with_title("t");
    task.start_date = Some("2024-03-10".to_string());
    task.expected_end_date = Some("2024-03-01".to_string());
    assert_eq!(
        validate_task(&task),
        Err("Expected end date must be after or equal to the start date".to_string())
    );
}
