//! The form for a new task: what its fields give when it is sent off.

use crate::clock::current_time;
use crate::due::{due_date_of, parse_due_date_at};
use crate::text::{decimal, is_blank, str_is_blank, to_decimal};
use crate::todo::{NewTodo, Timestamp};
use vstd::prelude::*;
use vstd::string::*;

verus! {

/// Why the form was not taken.
#[derive(Clone, Copy, Debug, PartialEq, Eq, Structural)]
pub enum FormError {
    /// The title is blank.
    EmptyTitle,
}

impl FormError {
    pub open spec fn text(self) -> Seq<char> {
        "Title cannot be empty"@
    }

    /// The sentence shown to the user.
    pub fn message(&self) -> (sentence: String)
        ensures
            sentence@ == self.text(),
    {
        String::from_str("Title cannot be empty")
    }
}

/// How many characters of a title the parent field shows at most.
pub const PARENT_TITLE_WIDTH: usize = 40;

/// The title as the parent field shows it: whole up to forty characters,
/// else its first thirty-seven and three dots.
pub open spec fn shortened_title(title: Seq<char>) -> Seq<char> {
    if title.len() > PARENT_TITLE_WIDTH {
        title.take(PARENT_TITLE_WIDTH - 3) + "..."@
    } else {
        title
    }
}

/// What the parent field shows for a task: its identifier and its title,
/// shortened where it is long.
pub open spec fn parent_label_text(id: i64, title: Seq<char>) -> Seq<char> {
    "ID:"@ + decimal(id as int) + " "@ + shortened_title(title)
}

/// The text of the parent field for the task `id` with the title `title`.
pub fn parent_label(id: i64, title: &str) -> (label: String)
    ensures
        label@ == parent_label_text(id, title@),
{
    let mut label = String::from_str("ID:");
    let number = to_decimal(id);
    label.append(number.as_str());
    label.append(" ");
    if title.unicode_len() > PARENT_TITLE_WIDTH {
        let head = title.substring_char(0, PARENT_TITLE_WIDTH - 3);
        proof {
            assert(head@ =~= title@.take(PARENT_TITLE_WIDTH - 3));
        }
        label.append(head);
        label.append("...");
    } else {
        label.append(title);
    }
    label
}

/// The due date that the two due date fields give at the instant `now`: that
/// of the field for a span unless it is blank, else that of the field for a
/// date unless it is blank, else none.
pub open spec fn form_due_date(relative: Seq<char>, absolute: Seq<char>, now: Timestamp) -> Option<
    Timestamp,
> {
    if !is_blank(relative) {
        due_date_of(relative, now)
    } else if !is_blank(absolute) {
        due_date_of(absolute, now)
    } else {
        None
    }
}

/// The task that the form asks for at the instant `now`, unless its title
/// is blank.
pub fn new_todo_from_form_at(
    title: &str,
    description: &str,
    due_date_relative: &str,
    due_date_absolute: &str,
    parent_id: Option<i64>,
    now: Timestamp,
) -> (outcome: Result<NewTodo, FormError>)
    ensures
        is_blank(title@) ==> outcome == Err::<NewTodo, FormError>(FormError::EmptyTitle),
        !is_blank(title@) ==> (outcome matches Ok(todo) && todo.title@ == title@
            && todo.description@ == description@ && todo.parent_id == parent_id && todo.due_by
            == form_due_date(due_date_relative@, due_date_absolute@, now)),
{
    if str_is_blank(title) {
        return Err(FormError::EmptyTitle);
    }
    let due_by = if !str_is_blank(due_date_relative) {
        parse_due_date_at(due_date_relative, now)
    } else if !str_is_blank(due_date_absolute) {
        parse_due_date_at(due_date_absolute, now)
    } else {
        None
    };
    Ok(
        NewTodo {
            title: String::from_str(title),
            description: String::from_str(description),
            parent_id,
            due_by,
        },
    )
}

/// The task that the form asks for now. A span as due date counts from the
/// reading of the clock.
pub fn new_todo_from_form(
    title: &str,
    description: &str,
    due_date_relative: &str,
    due_date_absolute: &str,
    parent_id: Option<i64>,
) -> (outcome: Result<NewTodo, FormError>)
    ensures
        is_blank(title@) ==> outcome == Err::<NewTodo, FormError>(FormError::EmptyTitle),
        !is_blank(title@) ==> (outcome matches Ok(todo) && todo.title@ == title@
            && todo.description@ == description@ && todo.parent_id == parent_id && exists|
            now: Timestamp,
        |
            todo.due_by == #[trigger] form_due_date(due_date_relative@, due_date_absolute@, now)),
{
    let now = current_time();
    let outcome = new_todo_from_form_at(
        title,
        description,
        due_date_relative,
        due_date_absolute,
        parent_id,
        now,
    );
    proof {
        if !is_blank(title@) {
            assert(outcome->Ok_0.due_by == form_due_date(
                due_date_relative@,
                due_date_absolute@,
                now,
            ));
        }
    }
    outcome
}

} // verus!
