//! Field validation for tasks, checked before anything is persisted.

use vstd::prelude::*;
use crate::task_controller::{Task, TaskView};

verus! {

/// Lexicographic order on character sequences, by code point. Date fields
/// are opaque text, so this is the whole of the date comparison: it is only
/// meaningful for dates written in a sortable form such as ISO-8601.
pub open spec fn lex_lt(a: Seq<char>, b: Seq<char>) -> bool
    decreases a.len(),
{
    if b.len() == 0 {
        false
    } else if a.len() == 0 {
        true
    } else if (a[0] as u32) < (b[0] as u32) {
        true
    } else if (a[0] as u32) > (b[0] as u32) {
        false
    } else {
        lex_lt(a.drop_first(), b.drop_first())
    }
}

/// The field constraints a task must meet before it is persisted.
pub open spec fn valid_task(t: TaskView) -> bool {
    &&& 1 <= t.title.len() <= 100
    &&& (t.context is Some ==> t.context->0.len() <= 500)
    &&& (t.notes is Some ==> t.notes->0.len() <= 1000)
    &&& t.tags.len() <= 10
    &&& (forall|i: int| 0 <= i < t.tags.len() ==> #[trigger] t.tags[i].len() <= 30)
    &&& (t.start_date is Some && t.end_date is Some ==> !lex_lt(
        t.end_date->0,
        t.start_date->0,
    ))
    &&& (t.start_date is Some && t.expected_end_date is Some ==> !lex_lt(
        t.expected_end_date->0,
        t.start_date->0,
    ))
}

/// The reason reported for an invalid task: the message of the first check
/// that fails, in the order the checks are made.
pub open spec fn validation_message(t: TaskView) -> Seq<char> {
    if t.title.len() == 0 {
        "Title is required"@
    } else if t.title.len() > 100 {
        "Title must be 100 characters or less"@
    } else if t.context is Some && t.context->0.len() > 500 {
        "Context must be 500 characters or less"@
    } else if t.notes is Some && t.notes->0.len() > 1000 {
        "Notes must be 1000 characters or less"@
    } else if t.tags.len() > 10 {
        "Maximum of 10 tags allowed"@
    } else if exists|i: int| 0 <= i < t.tags.len() && #[trigger] t.tags[i].len() > 30 {
        "Each tag must be 30 characters or less"@
    } else if t.start_date is Some && t.end_date is Some && lex_lt(
        t.end_date->0,
        t.start_date->0,
    ) {
        "End date must be after or equal to the start date"@
    } else {
        "Expected end date must be after or equal to the start date"@
    }
}

/// Decides `lex_lt` on two strings.
fn str_lt(a: &String, b: &String) -> (r: bool)
    ensures
        r == lex_lt(a@, b@),
{
    let a_len = a.as_str().unicode_len();
    let b_len = b.as_str().unicode_len();
    let mut i: usize = 0;
    proof {
        assert(a@.skip(0) =~= a@);
        assert(b@.skip(0) =~= b@);
    }
    loop
        invariant
            i <= a_len,
            i <= b_len,
            a_len == a@.len(),
            b_len == b@.len(),
            lex_lt(a@, b@) == lex_lt(a@.skip(i as int), b@.skip(i as int)),
        decreases a_len - i,
    {
        proof {
            lemma_lex_lt_unfold(a@, b@, i as int);
        }
        if i == b_len {
            return false;
        }
        if i == a_len {
            return true;
        }
        let ca = a.as_str().get_char(i);
        let cb = b.as_str().get_char(i);
        if (ca as u32) < (cb as u32) {
            return true;
        }
        if (ca as u32) > (cb as u32) {
            return false;
        }
        i = i + 1;
    }
}

/// One step of `lex_lt` on the suffixes starting at `i`: the order is
/// decided by the characters at `i` or, when they are equal, by the
/// suffixes one further in.
proof fn lemma_lex_lt_unfold(a: Seq<char>, b: Seq<char>, i: int)
    requires
        0 <= i <= a.len(),
        0 <= i <= b.len(),
    ensures
        i == b.len() ==> !lex_lt(a.skip(i), b.skip(i)),
        i == a.len() && i < b.len() ==> lex_lt(a.skip(i), b.skip(i)),
        i < a.len() && i < b.len() && (a[i] as u32) < (b[i] as u32) ==> lex_lt(
            a.skip(i),
            b.skip(i),
        ),
        i < a.len() && i < b.len() && (a[i] as u32) > (b[i] as u32) ==> !lex_lt(
            a.skip(i),
            b.skip(i),
        ),
        i < a.len() && i < b.len() && a[i] == b[i] ==> lex_lt(a.skip(i), b.skip(i)) == lex_lt(
            a.skip(i + 1),
            b.skip(i + 1),
        ),
{
    if i < a.len() && i < b.len() && a[i] == b[i] {
        assert(a.skip(i).drop_first() =~= a.skip(i + 1));
        assert(b.skip(i).drop_first() =~= b.skip(i + 1));
    }
}

/// Checks every field constraint of `valid_task`, in order, and reports the
/// first violation with its exact message.
pub fn validate_task(task: &Task) -> (r: Result<(), String>)
    ensures
        r is Ok <==> valid_task(task@),
        r matches Err(m) ==> m@ == validation_message(task@),
{
    if task.title.as_str().unicode_len() == 0 {
        return Err(String::from_str("Title is required"));
    }
    if task.title.as_str().unicode_len() > 100 {
        return Err(String::from_str("Title must be 100 characters or less"));
    }
    match &task.context {
        Some(context) => {
            if context.as_str().unicode_len() > 500 {
                return Err(String::from_str("Context must be 500 characters or less"));
            }
        },
        None => {},
    }
    match &task.notes {
        Some(notes) => {
            if notes.as_str().unicode_len() > 1000 {
                return Err(String::from_str("Notes must be 1000 characters or less"));
            }
        },
        None => {},
    }
    if task.tags.len() > 10 {
        return Err(String::from_str("Maximum of 10 tags allowed"));
    }
    let mut i: usize = 0;
    while i < task.tags.len()
        invariant
            i <= task.tags.len(),
            forall|j: int| 0 <= j < i ==> #[trigger] task@.tags[j].len() <= 30,
            1 <= task@.title.len() <= 100,
            task@.context is Some ==> task@.context->0.len() <= 500,
            task@.notes is Some ==> task@.notes->0.len() <= 1000,
            task@.tags.len() <= 10,
        decreases task.tags.len() - i,
    {
        if task.tags[i].as_str().unicode_len() > 30 {
            proof {
                assert(task@.tags[i as int].len() > 30);
                assert(exists|j: int|
                    0 <= j < task@.tags.len() && #[trigger] task@.tags[j].len() > 30);
            }
            return Err(String::from_str("Each tag must be 30 characters or less"));
        }
        i = i + 1;
    }
    match (&task.start_date, &task.end_date) {
        (Some(start), Some(end)) => {
            if str_lt(end, start) {
                return Err(
                    String::from_str("End date must be after or equal to the start date"),
                );
            }
        },
        _ => {},
    }
    match (&task.start_date, &task.expected_end_date) {
        (Some(start), Some(expected)) => {
            if str_lt(expected, start) {
                return Err(
                    String::from_str(
                        "Expected end date must be after or equal to the start date",
                    ),
                );
            }
        },
        _ => {},
    }
    Ok(())
}

} // verus!
