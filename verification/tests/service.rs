use task_service::database::{initialize_database, TaskStore};
use task_service::task_controller::{create_task, get_tasks, update_task, HttpReply, Payload, Task};

fn fresh_store() -> TaskStore {
    let conn = rusqlite::Connection::open_in_memory().expect("in-memory database");
    let mut store = TaskStore::new(conn);
    initialize_database(&mut store).expect("table creation");
    store
}

fn task(title: &str, status: &str, tags: Vec<String>) -> Task {
    Task {
        id: None,
        title: title.to_string(),
        context: None,
        start_date: None,
        end_date: None,
        expected_end_date: None,
        tags,
        notes: None,
        status: status.to_string(),
    }
}

fn listed_tasks(store: &TaskStore) -> Vec<Task> {
    match get_tasks(store) {
        HttpReply { status: 200, payload: Payload::TaskList(ts) } => ts,
        other => panic!("listing failed with status {}", other.status),
    }
}

fn created_id(reply: HttpReply) -> i64 {
    match reply {
        HttpReply { status: 201, payload: Payload::TaskBody(t) } => t.id.expect("assigned id"),
        HttpReply { status, .. } => panic!("create failed with status {}", status),
    }
}

#[test]
fn create_with_empty_title_is_rejected_and_persists_nothing() {
    let mut store = fresh_store();
    let reply = create_task(&mut store, task("", "active", Vec::new()));
    assert_eq!(reply.status, 500);
    match reply.payload {
        Payload::Message(m) => assert_eq!(m, "Error: Title is required"),
        _ => panic!("expected an error body"),
    }
    assert_eq!(listed_tasks(&store).len(), 0);
}

#[test]
fn create_title_boundary_through_handler() {
    let mut store = fresh_store();
    let reply = create_task(&mut store, task(&"x".repeat(101), "active", Vec::new()));
    assert_eq!(reply.status, 500);
    let reply = create_task(&mut store, task(&"x".repeat(100), "active", Vec::new()));
    assert_eq!(reply.status, 201);
    assert_eq!(listed_tasks(&store).len(), 1);
}

#[test]
fn create_tag_count_boundary_through_handler() {
    let mut store = fresh_store();
    let eleven: Vec<String> = (0..11).map(|i| format!("t{}", i)).collect();
    assert_eq!(create_task(&mut store, task("a", "active", eleven)).status, 500);
    let ten: Vec<String> = (0..10).map(|_| "g".repeat(30)).collect();
    assert_eq!(create_task(&mut store, task("a", "active", ten)).status, 201);
    assert_eq!(listed_tasks(&store).len(), 1);
}

#[test]
fn create_date_order_boundary_through_handler() {
    let mut store = fresh_store();
    let mut bad = task("a", "active", Vec::new());
    bad.start_date = Some("2024-01-05".to_string());
    bad.end_date = Some("2024-01-01".to_string());
    assert_eq!(create_task(&mut store, bad).status, 500);
    let mut good = task("a", "active", Vec::new());
    good.start_date = Some("2024-01-01".to_string());
    good.end_date = Some("2024-01-01".to_string());
    assert_eq!(create_task(&mut store, good).status, 201);
    assert_eq!(listed_tasks(&store).len(), 1);
}

#[test]
fn tags_round_trip_through_storage() {
    let mut store = fresh_store();
    let tags = vec!["a".to_string(), "b".to_string(), "c".to_string()];
    let id = created_id(create_task(&mut store, task("tagged", "active", tags.clone())));
    let listed = listed_tasks(&store);
    assert_eq!(listed.len(), 1);
    assert_eq!(listed[0].id, Some(id));
    assert_eq!(listed[0].tags, tags);
    assert_eq!(listed[0].title, "tagged");
}

#[test]
fn empty_tag_list_reads_back_as_one_empty_tag() {
    // The tag column holds a comma-joined text: an empty list joins to the
    // empty text, which splits back to one empty tag.
    let mut store = fresh_store();
    created_id(create_task(&mut store, task("untagged", "active", Vec::new())));
    let listed = listed_tasks(&store);
    assert_eq!(listed[0].tags, vec!["".to_string()]);
}

#[test]
fn created_ids_are_positive_and_distinct() {
    let mut store = fresh_store();
    let mut ids = Vec::new();
    for i in 0..5 {
        let id = created_id(create_task(&mut store, task(&format!("t{}", i), "active", Vec::new())));
        assert!(id >= 1);
        assert!(!ids.contains(&id));
        ids.push(id);
    }
}

#[test]
fn created_task_is_answered_with_its_fields_and_id() {
    let mut store = fresh_store();
    let mut t = task("full", "active", vec!["x".to_string()]);
    t.context = Some("ctx".to_string());
    t.notes = Some("note".to_string());
    t.start_date = Some("2024-01-01".to_string());
    t.end_date = Some("2024-02-01".to_string());
    t.expected_end_date = Some("2024-03-01".to_string());
    let reply = create_task(&mut store, t);
    match reply {
        HttpReply { status: 201, payload: Payload::TaskBody(created) } => {
            assert!(created.id.is_some());
            assert_eq!(created.title, "full");
            assert_eq!(created.context, Some("ctx".to_string()));
            assert_eq!(created.notes, Some("note".to_string()));
            assert_eq!(created.status, "active");
        }
        _ => panic!("expected a created task"),
    }
}

#[test]
fn listing_returns_only_active_tasks() {
    let mut store = fresh_store();
    created_id(create_task(&mut store, task("shown", "active", Vec::new())));
    created_id(create_task(&mut store, task("hidden", "done", Vec::new())));
    let listed = listed_tasks(&store);
    assert_eq!(listed.len(), 1);
    assert_eq!(listed[0].title, "shown");
    assert_eq!(listed[0].status, "active");
}

#[test]
fn update_on_missing_id_succeeds_without_creating_a_row() {
    let mut store = fresh_store();
    created_id(create_task(&mut store, task("only", "active", Vec::new())));
    let reply = update_task(&mut store, 999, task("ghost", "active", Vec::new()));
    assert_eq!(reply.status, 200);
    let listed = listed_tasks(&store);
    assert_eq!(listed.len(), 1);
    assert_eq!(listed[0].title, "only");
}

#[test]
fn update_replaces_every_field_of_the_row() {
    let mut store = fresh_store();
    let id = created_id(create_task(&mut store, task("before", "active", vec!["old".to_string()])));
    let mut replacement = task("after", "active", vec!["new1".to_string(), "new2".to_string()]);
    replacement.notes = Some("fresh".to_string());
    let reply = update_task(&mut store, id, replacement);
    assert_eq!(reply.status, 200);
    let listed = listed_tasks(&store);
    assert_eq!(listed.len(), 1);
    assert_eq!(listed[0].id, Some(id));
    assert_eq!(listed[0].title, "after");
    assert_eq!(listed[0].tags, vec!["new1".to_string(), "new2".to_string()]);
    assert_eq!(listed[0].notes, Some("fresh".to_string()));
}

#[test]
fn update_to_inactive_status_hides_the_task() {
    let mut store = fresh_store();
    let id = created_id(create_task(&mut store, task("busy", "active", Vec::new())));
    assert_eq!(update_task(&mut store, id, task("busy", "done", Vec::new())).status, 200);
    assert_eq!(listed_tasks(&store).len(), 0);
}

#[test]
fn invalid_update_is_rejected_and_changes_nothing() {
    let mut store = fresh_store();
    let id = created_id(create_task(&mut store, task("keep", "active", Vec::new())));
    let reply = update_task(&mut store, id, task("", "active", Vec::new()));
    assert_eq!(reply.status, 500);
    match reply.payload {
        Payload::Message(m) => assert_eq!(m, "Error: Title is required"),
        _ => panic!("expected an error body"),
    }
    let listed = listed_tasks(&store);
    assert_eq!(listed[0].title, "keep");
}
