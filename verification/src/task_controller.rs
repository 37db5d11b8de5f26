//! The task entity, its mathematical view, and the three request handlers:
//! list, create, update. Each handler validates where the operation writes,
//! calls storage, and wraps the outcome as a response.

use vstd::prelude::*;
use crate::data_validator::{valid_task, validate_task, validation_message};
use crate::database;
use crate::database::{
    TaskStore, fresh_id, ids_positive, lemma_listed_are_active, lists_active, replace_rows,
    row_of, tasks_view,
};
use crate::error_handler::handle_error;

verus! {

/// A to-do item with scheduling and tagging metadata.
///
/// `id` is absent before creation and assigned by storage on insert.
/// Date fields are opaque text, compared lexicographically where ordering
/// matters; `tags` is an ordered list of short labels.
pub struct Task {
    pub id: Option<i64>,
    pub title: String,
    pub context: Option<String>,
    pub start_date: Option<String>,
    pub end_date: Option<String>,
    pub expected_end_date: Option<String>,
    pub tags: Vec<String>,
    pub notes: Option<String>,
    pub status: String,
}

/// The mathematical shape of a `Task`: every text field as a sequence of
/// characters, the tag list as a sequence of such sequences.
#[verifier::ext_equal]
pub ghost struct TaskView {
    pub id: Option<i64>,
    pub title: Seq<char>,
    pub context: Option<Seq<char>>,
    pub start_date: Option<Seq<char>>,
    pub end_date: Option<Seq<char>>,
    pub expected_end_date: Option<Seq<char>>,
    pub tags: Seq<Seq<char>>,
    pub notes: Option<Seq<char>>,
    pub status: Seq<char>,
}

/// The view of an optional text field.
pub open spec fn opt_view(s: Option<String>) -> Option<Seq<char>> {
    match s {
        Some(t) => Some(t@),
        None => None,
    }
}

impl View for Task {
    type V = TaskView;

    open spec fn view(&self) -> TaskView {
        TaskView {
            id: self.id,
            title: self.title@,
            context: opt_view(self.context),
            start_date: opt_view(self.start_date),
            end_date: opt_view(self.end_date),
            expected_end_date: opt_view(self.expected_end_date),
            tags: crate::tags::strings_view(self.tags@),
            notes: opt_view(self.notes),
            status: self.status@,
        }
    }
}

/// `t` with its id replaced by `id`, as the create operation returns it.
pub open spec fn created_view(t: TaskView, id: i64) -> TaskView {
    TaskView { id: Some(id), ..t }
}

/// The body of a handler's answer.
pub enum Payload {
    TaskList(Vec<Task>),
    TaskBody(Task),
    Empty,
    Message(String),
}

/// What a handler answers: a status code and a body. The unverified rim
/// turns it into the actual HTTP response, one variant to one shape.
pub struct HttpReply {
    pub status: u16,
    pub payload: Payload,
}

/// Lists the stored tasks whose status is exactly `active`: on success a 200
/// response carrying them, on a storage failure the uniform 500 response.
pub fn get_tasks(store: &TaskStore) -> (r: HttpReply)
    ensures
        r.status == 200 || r.status == 500,
        r.status == 200 ==> (r.payload matches Payload::TaskList(ts) && lists_active(
            store.rows(),
            tasks_view(ts@),
        ) && (forall|i: int|
            0 <= i < ts@.len() ==> (#[trigger] tasks_view(ts@)[i]).status == "active"@)),
        r.status == 500 ==> ({
            &&& r.payload matches Payload::Message(m)
            &&& exists|s: Seq<char>| m@ == #[trigger] ("Error: "@ + s)
        }),
{
    match database::get_tasks(store) {
        Ok(ts) => {
            proof {
                lemma_listed_are_active(store.rows(), tasks_view(ts@));
            }
            HttpReply { status: 200, payload: Payload::TaskList(ts) }
        },
        Err(e) => handle_error(e.message),
    }
}

/// Creates a task: an invalid one is rejected with its validation message
/// and nothing is persisted; a valid one is persisted as a new row under a
/// fresh id, and answered as a 201 response carrying the task with that id.
/// A storage failure leaves the rows unchanged and answers 500.
pub fn create_task(store: &mut TaskStore, task: Task) -> (r: HttpReply)
    ensures
        r.status == 201 || r.status == 500,
        r.status == 500 ==> ({
            &&& final(store).rows() == old(store).rows()
            &&& r.payload matches Payload::Message(m)
            &&& exists|s: Seq<char>| m@ == #[trigger] ("Error: "@ + s)
        }),
        !valid_task(task@) ==> ({
            &&& r.status == 500
            &&& r.payload matches Payload::Message(m)
            &&& m@ == "Error: "@ + validation_message(task@)
        }),
        r.status == 201 ==> ({
            &&& valid_task(task@)
            &&& r.payload matches Payload::TaskBody(t)
            &&& t@.id matches Some(id)
            &&& t@ == created_view(task@, id)
            &&& final(store).rows() == old(store).rows().push(row_of(task@, id))
            &&& fresh_id(old(store).rows(), id)
            &&& ids_positive(old(store).rows()) ==> 1 <= id
        }),
{
    match validate_task(&task) {
        Err(msg) => handle_error(msg),
        Ok(()) => match database::create_task(store, &task) {
            Ok(id) => {
                let ghost tv = task@;
                let mut created = task;
                created.id = Some(id);
                proof {
                    assert(created@ =~= created_view(tv, id));
                }
                HttpReply { status: 201, payload: Payload::TaskBody(created) }
            },
            Err(e) => handle_error(e.message),
        },
    }
}

/// Replaces every field but the id of the row carrying `id` with the fields
/// of `task`. An invalid task is rejected with its validation message and
/// nothing is persisted. A valid one answers 200 with an empty body whether
/// or not a row carried the id: an update aimed at a missing id changes
/// nothing and still succeeds. A storage failure leaves the rows unchanged
/// and answers 500.
pub fn update_task(store: &mut TaskStore, id: i64, task: Task) -> (r: HttpReply)
    ensures
        r.status == 200 || r.status == 500,
        r.status == 500 ==> ({
            &&& final(store).rows() == old(store).rows()
            &&& r.payload matches Payload::Message(m)
            &&& exists|s: Seq<char>| m@ == #[trigger] ("Error: "@ + s)
        }),
        !valid_task(task@) ==> ({
            &&& r.status == 500
            &&& r.payload matches Payload::Message(m)
            &&& m@ == "Error: "@ + validation_message(task@)
        }),
        r.status == 200 ==> valid_task(task@) && r.payload is Empty && final(store).rows()
            == replace_rows(old(store).rows(), id, row_of(task@, id)),
{
    match validate_task(&task) {
        Err(msg) => handle_error(msg),
        Ok(()) => match database::update_task(store, id, &task) {
            Ok(()) => HttpReply { status: 200, payload: Payload::Empty },
            Err(e) => handle_error(e.message),
        },
    }
}

} // verus!
