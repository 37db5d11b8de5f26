//! The storage layer: one SQLite table of task rows, reached through
//! `rusqlite`. The table's contents are modelled as a sequence of row views;
//! each statement's effect on that sequence is stated on a small trusted
//! wrapper around the call, and everything around the calls is verified.

use vstd::prelude::*;
use crate::tags::{join_tags, join_tags_exec, split_tags, split_tags_exec};
use crate::task_controller::{Task, TaskView};

verus! {

#[verifier::external_type_specification]
#[verifier::external_body]
pub struct ExConnection(rusqlite::Connection);

#[verifier::external_type_specification]
#[verifier::external_body]
pub struct ExRusqliteError(rusqlite::Error);

/// One persisted row of the `tasks` table, as the statements read and write
/// it: the tag list already joined into its single text column.
pub struct TaskRow {
    pub id: i64,
    pub title: String,
    pub context: Option<String>,
    pub start_date: Option<String>,
    pub end_date: Option<String>,
    pub expected_end_date: Option<String>,
    pub tags: String,
    pub notes: Option<String>,
    pub status: String,
}

/// The mathematical shape of a persisted row.
#[verifier::ext_equal]
pub ghost struct RowView {
    pub id: i64,
    pub title: Seq<char>,
    pub context: Option<Seq<char>>,
    pub start_date: Option<Seq<char>>,
    pub end_date: Option<Seq<char>>,
    pub expected_end_date: Option<Seq<char>>,
    pub tags: Seq<char>,
    pub notes: Option<Seq<char>>,
    pub status: Seq<char>,
}

impl View for TaskRow {
    type V = RowView;

    open spec fn view(&self) -> RowView {
        RowView {
            id: self.id,
            title: self.title@,
            context: crate::task_controller::opt_view(self.context),
            start_date: crate::task_controller::opt_view(self.start_date),
            end_date: crate::task_controller::opt_view(self.end_date),
            expected_end_date: crate::task_controller::opt_view(self.expected_end_date),
            tags: self.tags@,
            notes: crate::task_controller::opt_view(self.notes),
            status: self.status@,
        }
    }
}

/// The views of a sequence of rows.
pub open spec fn rows_view(v: Seq<TaskRow>) -> Seq<RowView> {
    Seq::new(v.len(), |i: int| v[i]@)
}

/// `row` with its id replaced by `id`.
pub open spec fn with_id(row: RowView, id: i64) -> RowView {
    RowView { id, ..row }
}

/// The row a task is persisted as, under the given id: every text field as
/// it stands, the tag list comma-joined.
pub open spec fn row_of(t: TaskView, id: i64) -> RowView {
    RowView {
        id,
        title: t.title,
        context: t.context,
        start_date: t.start_date,
        end_date: t.end_date,
        expected_end_date: t.expected_end_date,
        tags: join_tags(t.tags),
        notes: t.notes,
        status: t.status,
    }
}

/// The task a persisted row is read back as: the id present, the tag column
/// split on commas.
pub open spec fn task_of_row(r: RowView) -> TaskView {
    TaskView {
        id: Some(r.id),
        title: r.title,
        context: r.context,
        start_date: r.start_date,
        end_date: r.end_date,
        expected_end_date: r.expected_end_date,
        tags: split_tags(r.tags),
        notes: r.notes,
        status: r.status,
    }
}

/// A row the listing operation returns.
pub open spec fn is_active_row(r: RowView) -> bool {
    r.status == "active"@
}

/// The active rows, in stored order.
pub open spec fn active_rows(rows: Seq<RowView>) -> Seq<RowView> {
    rows.filter(|r: RowView| is_active_row(r))
}

/// The rows read back as tasks, elementwise.
pub open spec fn tasks_of_rows(rows: Seq<RowView>) -> Seq<TaskView> {
    rows.map_values(|r: RowView| task_of_row(r))
}

/// No stored row carries `id`.
pub open spec fn fresh_id(rows: Seq<RowView>, id: i64) -> bool {
    forall|i: int| 0 <= i < rows.len() ==> (#[trigger] rows[i]).id != id
}

/// Every stored id is positive.
pub open spec fn ids_positive(rows: Seq<RowView>) -> bool {
    forall|i: int| 0 <= i < rows.len() ==> 1 <= (#[trigger] rows[i]).id
}

/// The table's invariant: ids are positive and pairwise distinct.
pub open spec fn wf_rows(rows: Seq<RowView>) -> bool {
    &&& ids_positive(rows)
    &&& (forall|i: int, j: int|
        0 <= i < j < rows.len() ==> (#[trigger] rows[i]).id != (#[trigger] rows[j]).id)
}

/// The effect of a full-row update aimed at `id`: every row carrying that id
/// is overwritten (its id kept), every other row is untouched.
pub open spec fn replace_rows(rows: Seq<RowView>, id: i64, row: RowView) -> Seq<RowView> {
    Seq::new(
        rows.len(),
        |i: int| if rows[i].id == id {
            with_id(row, id)
        } else {
            rows[i]
        },
    )
}

/// The rows of the `tasks` table held by a connection, in stored order;
/// the empty sequence while the table does not exist. What each trusted
/// statement below does to this sequence is stated on its wrapper.
pub uninterp spec fn db_rows(conn: rusqlite::Connection) -> Seq<RowView>;

/// Relies on rusqlite's `Connection::execute` running a single
/// `CREATE TABLE IF NOT EXISTS` statement: it creates the (empty) table when
/// absent and otherwise does nothing, so the stored rows are unchanged
/// whether it succeeds or fails.
#[verifier::external_body]
fn db_create_table(conn: &mut rusqlite::Connection) -> (r: Result<(), rusqlite::Error>)
    ensures
        db_rows(*final(conn)) == db_rows(*old(conn)),
{
    let res = conn.execute(
        "CREATE TABLE IF NOT EXISTS tasks (
            id INTEGER PRIMARY KEY,
            title TEXT NOT NULL,
            context TEXT,
            start_date TEXT,
            end_date TEXT,
            expected_end_date TEXT,
            tags TEXT,
            notes TEXT,
            status TEXT NOT NULL,
            created_at DATETIME DEFAULT CURRENT_TIMESTAMP,
            updated_at DATETIME DEFAULT CURRENT_TIMESTAMP
        )",
        (),
    );
    res.map(|_| ())
}

/// Relies on rusqlite's `Connection::execute` running a single `INSERT`
/// (without an id, so SQLite assigns the rowid) and on
/// `Connection::last_insert_rowid` returning that rowid. The `id INTEGER
/// PRIMARY KEY` column is the rowid; an auto-assigned rowid never equals a
/// stored one, and is positive whenever every stored id is positive. A
/// failed statement changes nothing.
#[verifier::external_body]
fn db_insert_row(conn: &mut rusqlite::Connection, row: &TaskRow) -> (r: Result<
    i64,
    rusqlite::Error,
>)
    ensures
        r matches Ok(id) ==> db_rows(*final(conn)) == db_rows(*old(conn)).push(
            with_id(row@, id),
        ),
        r matches Ok(id) ==> fresh_id(db_rows(*old(conn)), id),
        r matches Ok(id) ==> (ids_positive(db_rows(*old(conn))) ==> 1 <= id),
        r is Err ==> db_rows(*final(conn)) == db_rows(*old(conn)),
{
    conn.execute(
        "INSERT INTO tasks (title, context, start_date, end_date, expected_end_date, tags, notes, status)
         VALUES (?1, ?2, ?3, ?4, ?5, ?6, ?7, ?8)",
        (&row.title, &row.context, &row.start_date, &row.end_date, &row.expected_end_date,
        &row.tags, &row.notes, &row.status),
    )?;
    Ok(conn.last_insert_rowid())
}

/// Relies on rusqlite's `Connection::execute` running a single `UPDATE ...
/// WHERE id = ?`: every row carrying the id is overwritten except for its id
/// column, every other row is untouched, and a missing id matches no row and
/// changes nothing. A failed statement changes nothing.
#[verifier::external_body]
fn db_update_row(conn: &mut rusqlite::Connection, id: i64, row: &TaskRow) -> (r: Result<
    (),
    rusqlite::Error,
>)
    ensures
        r is Ok ==> db_rows(*final(conn)) == replace_rows(db_rows(*old(conn)), id, row@),
        r is Err ==> db_rows(*final(conn)) == db_rows(*old(conn)),
{
    conn.execute(
        "UPDATE tasks SET title = ?1, context = ?2, start_date = ?3, end_date = ?4,
         expected_end_date = ?5, tags = ?6, notes = ?7, status = ?8 WHERE id = ?9",
        (&row.title, &row.context, &row.start_date, &row.end_date, &row.expected_end_date,
        &row.tags, &row.notes, &row.status, &id),
    )?;
    Ok(())
}

/// Relies on rusqlite's `Connection::prepare` and `Statement::query_map`
/// running a single `SELECT ... WHERE status = 'active'`: on success the
/// returned rows are exactly the stored rows whose status column equals
/// `active`, each read back column by column. Their order is SQLite's own
/// and nothing is claimed of it.
#[verifier::external_body]
fn db_select_active(conn: &rusqlite::Connection) -> (r: Result<Vec<TaskRow>, rusqlite::Error>)
    ensures
        r matches Ok(v) ==> rows_view(v@).to_multiset() == active_rows(
            db_rows(*conn),
        ).to_multiset(),
{
    let mut stmt = conn.prepare(
        "SELECT id, title, context, start_date, end_date, expected_end_date, tags, notes, status
         FROM tasks WHERE status = 'active'",
    )?;
    let iter = stmt.query_map((), |w| Ok(TaskRow {
        id: w.get(0)?, title: w.get(1)?, context: w.get(2)?, start_date: w.get(3)?,
        end_date: w.get(4)?, expected_end_date: w.get(5)?, tags: w.get(6)?, notes: w.get(7)?,
        status: w.get(8)?,
    }))?;
    let mut v = Vec::new();
    for row in iter {
        v.push(row?);
    }
    Ok(v)
}

/// Relies on rusqlite's `Display` implementation for `Error` to render a
/// storage failure as text.
#[verifier::external_body]
fn db_error_text(e: &rusqlite::Error) -> (r: String) {
    format!("{}", e)
}

/// A storage failure, carrying the storage engine's own message.
#[derive(Debug)]
pub struct StorageError {
    pub message: String,
}

/// An owned handle on the task store: one connection, whose `tasks` table
/// holds the persisted rows.
pub struct TaskStore {
    conn: rusqlite::Connection,
}

impl TaskStore {
    /// The stored rows.
    pub closed spec fn rows(self) -> Seq<RowView> {
        db_rows(self.conn)
    }

    /// Takes ownership of an open connection.
    pub fn new(conn: rusqlite::Connection) -> (s: TaskStore)
        ensures
            s.rows() == db_rows(conn),
    {
        TaskStore { conn }
    }
}

/// Creates the `tasks` table when it is absent; the stored rows stay as
/// they are either way. Must succeed once before the other operations can
/// find the table.
pub fn initialize_database(store: &mut TaskStore) -> (r: Result<(), StorageError>)
    ensures
        final(store).rows() == old(store).rows(),
{
    match db_create_table(&mut store.conn) {
        Ok(()) => Ok(()),
        Err(e) => Err(StorageError { message: db_error_text(&e) }),
    }
}

/// Persists a new row for `task`, ignoring any id the task carries, and
/// returns the id storage assigned: a fresh one, positive whenever every
/// stored id is positive, so the table's invariant is kept.
pub fn create_task(store: &mut TaskStore, task: &Task) -> (r: Result<i64, StorageError>)
    ensures
        r matches Ok(id) ==> final(store).rows() == old(store).rows().push(row_of(task@, id)),
        r matches Ok(id) ==> fresh_id(old(store).rows(), id),
        r matches Ok(id) ==> (ids_positive(old(store).rows()) ==> 1 <= id),
        r is Err ==> final(store).rows() == old(store).rows(),
{
    let row = task_to_row(task, 0);
    match db_insert_row(&mut store.conn, &row) {
        Ok(id) => {
            proof {
                assert(with_id(row@, id) =~= row_of(task@, id));
            }
            Ok(id)
        },
        Err(e) => Err(StorageError { message: db_error_text(&e) }),
    }
}

/// Overwrites every field but the id of the row carrying `id` with the
/// fields of `task`. A missing id matches no row and the call still
/// succeeds: storage is left exactly as it was.
pub fn update_task(store: &mut TaskStore, id: i64, task: &Task) -> (r: Result<(), StorageError>)
    ensures
        r is Ok ==> final(store).rows() == replace_rows(old(store).rows(), id, row_of(task@, id)),
        r is Err ==> final(store).rows() == old(store).rows(),
{
    let row = task_to_row(task, id);
    match db_update_row(&mut store.conn, id, &row) {
        Ok(()) => {
            proof {
                assert(replace_rows(old(store).rows(), id, row@) =~= replace_rows(
                    old(store).rows(),
                    id,
                    row_of(task@, id),
                ));
            }
            Ok(())
        },
        Err(e) => Err(StorageError { message: db_error_text(&e) }),
    }
}

/// The views of a sequence of tasks.
pub open spec fn tasks_view(v: Seq<Task>) -> Seq<TaskView> {
    Seq::new(v.len(), |i: int| v[i]@)
}

/// What a successful listing returns: the active rows, in some storage-
/// defined order, each read back as a task.
pub open spec fn lists_active(rows: Seq<RowView>, out: Seq<TaskView>) -> bool {
    exists|rs: Seq<RowView>|
        rs.to_multiset() == active_rows(rows).to_multiset() && out == tasks_of_rows(rs)
}

/// Returns every stored row whose status is exactly `active`, read back as
/// a task, and nothing else.
pub fn get_tasks(store: &TaskStore) -> (r: Result<Vec<Task>, StorageError>)
    ensures
        r matches Ok(ts) ==> lists_active(store.rows(), tasks_view(ts@)),
{
    let mut rows = match db_select_active(&store.conn) {
        Ok(rows) => rows,
        Err(e) => {
            return Err(StorageError { message: db_error_text(&e) });
        },
    };
    let ghost rs = rows_view(rows@);
    let mut ts: Vec<Task> = Vec::new();
    proof {
        assert(tasks_view(ts@) =~= tasks_of_rows(rs.take(0)));
    }
    while rows.len() > 0
        invariant
            ts@.len() + rows@.len() == rs.len(),
            tasks_view(ts@) == tasks_of_rows(rs.take(ts@.len() as int)),
            rows_view(rows@) =~= rs.skip(ts@.len() as int),
            rs.to_multiset() == active_rows(store.rows()).to_multiset(),
        decreases rows@.len(),
    {
        let ghost k = ts@.len() as int;
        let ghost prev = rows@;
        let row = rows.remove(0);
        proof {
            assert(rows_view(prev)[0] == rs.skip(k)[0]);
            assert(row@ == rs[k]);
            assert forall|j: int| 0 <= j < rows@.len() implies rows_view(rows@)[j] == rs.skip(
                k + 1,
            )[j] by {
                assert(rows_view(prev)[j + 1] == rs.skip(k)[j + 1]);
            }
            assert(rows_view(rows@) =~= rs.skip(k + 1));
        }
        let task = row_to_task(row);
        ts.push(task);
        proof {
            assert(tasks_view(ts@) =~= tasks_of_rows(rs.take(k)).push(task_of_row(rs[k])));
            assert(rs.take(k + 1).drop_last() =~= rs.take(k));
            assert(rs.take(k + 1).last() == rs[k]);
            assert(tasks_of_rows(rs.take(k + 1)) =~= tasks_of_rows(rs.take(k)).push(
                task_of_row(rs[k]),
            ));
        }
    }
    proof {
        assert(rs.take(ts@.len() as int) =~= rs);
        assert(lists_active(store.rows(), tasks_view(ts@)));
    }
    Ok(ts)
}

/// Copies `task` into the row it is persisted as, under `id`.
fn task_to_row(task: &Task, id: i64) -> (r: TaskRow)
    ensures
        r@ == row_of(task@, id),
{
    TaskRow {
        id,
        title: task.title.clone(),
        context: clone_opt(&task.context),
        start_date: clone_opt(&task.start_date),
        end_date: clone_opt(&task.end_date),
        expected_end_date: clone_opt(&task.expected_end_date),
        tags: join_tags_exec(&task.tags),
        notes: clone_opt(&task.notes),
        status: task.status.clone(),
    }
}

/// Reads a row back as the task it persists.
fn row_to_task(row: TaskRow) -> (t: Task)
    ensures
        t@ == task_of_row(row@),
{
    let tags = split_tags_exec(&row.tags);
    let t = Task {
        id: Some(row.id),
        title: row.title,
        context: row.context,
        start_date: row.start_date,
        end_date: row.end_date,
        expected_end_date: row.expected_end_date,
        tags,
        notes: row.notes,
        status: row.status,
    };
    proof {
        assert(t@ =~= task_of_row(row@));
    }
    t
}

fn clone_opt(s: &Option<String>) -> (r: Option<String>)
    ensures
        r == *s,
{
    match s {
        Some(x) => Some(x.clone()),
        None => None,
    }
}

/// Every task a listing returns has status exactly `active`, whatever order
/// storage handed the rows back in.
pub proof fn lemma_listed_are_active(rows: Seq<RowView>, out: Seq<TaskView>)
    requires
        lists_active(rows, out),
    ensures
        forall|i: int| 0 <= i < out.len() ==> (#[trigger] out[i]).status == "active"@,
{
    broadcast use vstd::seq_lib::group_to_multiset_ensures;
    broadcast use vstd::seq_lib::group_filter_ensures;

    let rs = choose|rs: Seq<RowView>|
        rs.to_multiset() == active_rows(rows).to_multiset() && out == tasks_of_rows(rs);
    assert forall|i: int| 0 <= i < out.len() implies (#[trigger] out[i]).status == "active"@ by {
        assert(rs.contains(rs[i]));
        assert(active_rows(rows).to_multiset().count(rs[i]) > 0);
        assert(active_rows(rows).contains(rs[i]));
        let j = choose|j: int|
            0 <= j < active_rows(rows).len() && active_rows(rows)[j] == rs[i];
        assert(is_active_row(active_rows(rows)[j]));
        assert(out[i] == task_of_row(rs[i]));
    }
}

/// A task stored under any status other than `active` is never among the
/// tasks a listing returns.
pub proof fn lemma_inactive_task_not_listed(rows: Seq<RowView>, out: Seq<TaskView>, r: RowView)
    requires
        lists_active(rows, out),
        r.status != "active"@,
    ensures
        !out.contains(task_of_row(r)),
{
    lemma_listed_are_active(rows, out);
    if out.contains(task_of_row(r)) {
        let i = choose|i: int| 0 <= i < out.len() && out[i] == task_of_row(r);
        assert(out[i].status == "active"@);
        assert(task_of_row(r).status == r.status);
    }
}

/// Round trip: a task created with an active status and a non-empty,
/// comma-free tag list is among the tasks a listing of the grown table
/// returns, its tags exactly as given and in the given order.
pub proof fn lemma_created_task_is_listed(
    rows: Seq<RowView>,
    t: TaskView,
    id: i64,
    out: Seq<TaskView>,
)
    requires
        t.status == "active"@,
        t.tags.len() >= 1,
        forall|i: int| 0 <= i < t.tags.len() ==> crate::tags::no_comma(#[trigger] t.tags[i]),
        lists_active(rows.push(row_of(t, id)), out),
    ensures
        exists|i: int|
            0 <= i < out.len() && (#[trigger] out[i]).id == Some(id) && out[i].tags == t.tags
                && out[i].title == t.title,
{
    broadcast use vstd::seq_lib::group_to_multiset_ensures;

    let row = row_of(t, id);
    let grown = rows.push(row);
    let pred = |r: RowView| is_active_row(r);
    assert(grown =~= rows + seq![row]);
    Seq::filter_distributes_over_add(rows, seq![row], pred);
    assert(seq![row].filter(pred) =~= seq![row]) by {
        reveal(Seq::filter);
        assert(seq![row].drop_last() =~= Seq::<RowView>::empty());
    }
    assert(active_rows(grown).contains(row)) by {
        assert(active_rows(grown) == active_rows(rows) + seq![row]);
        assert(active_rows(grown)[active_rows(rows).len() as int] == row);
    }
    let rs = choose|rs: Seq<RowView>|
        rs.to_multiset() == active_rows(grown).to_multiset() && out == tasks_of_rows(rs);
    assert(rs.to_multiset().count(row) > 0);
    assert(rs.contains(row));
    let i = choose|i: int| 0 <= i < rs.len() && rs[i] == row;
    assert(out[i] == task_of_row(row));
    crate::tags::lemma_join_then_split(t.tags);
    assert(out[i].tags == t.tags && out[i].id == Some(id) && out[i].title == t.title);
}

/// Ids are never reused across creations: an id that is fresh for the grown
/// table differs from the id of the row the previous creation stored, so
/// successive creations hand out pairwise distinct ids.
pub proof fn lemma_created_ids_distinct(rows: Seq<RowView>, row1: RowView, id2: i64)
    requires
        fresh_id(rows.push(row1), id2),
    ensures
        row1.id != id2,
{
    assert(rows.push(row1)[rows.len() as int] == row1);
}

/// The empty table is well formed: the base of the invariant that creations
/// and updates preserve below.
pub proof fn lemma_empty_table_wf()
    ensures
        wf_rows(Seq::<RowView>::empty()),
{
}

/// Creation keeps the table's invariant: a fresh positive id joining a table
/// of positive, pairwise distinct ids leaves ids positive and pairwise
/// distinct.
pub proof fn lemma_create_preserves_wf(rows: Seq<RowView>, row: RowView)
    requires
        wf_rows(rows),
        fresh_id(rows, row.id),
        1 <= row.id,
    ensures
        wf_rows(rows.push(row)),
{
    let grown = rows.push(row);
    assert forall|i: int, j: int|
        0 <= i < j < grown.len() implies (#[trigger] grown[i]).id != (#[trigger] grown[j]).id by {
        if j < rows.len() {
            assert(grown[i] == rows[i] && grown[j] == rows[j]);
        } else {
            assert(grown[j] == row && grown[i] == rows[i]);
        }
    }
}

/// An update keeps the table's invariant: it never changes any row's id.
pub proof fn lemma_update_preserves_wf(rows: Seq<RowView>, id: i64, row: RowView)
    requires
        wf_rows(rows),
    ensures
        wf_rows(replace_rows(rows, id, row)),
{
}

/// An update aimed at an id no stored row carries changes nothing: no row is
/// created and every row is left exactly as it was, even though the
/// operation reports success.
pub proof fn lemma_update_missing_id_changes_nothing(rows: Seq<RowView>, id: i64, row: RowView)
    requires
        fresh_id(rows, id),
    ensures
        replace_rows(rows, id, row) == rows,
{
    assert(replace_rows(rows, id, row) =~= rows);
}

} // verus!
