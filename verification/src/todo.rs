//! The task record and the instants it carries.

use vstd::prelude::*;

verus! {

/// An instant on the UTC time line: whole seconds since the Unix epoch and
/// the nanoseconds into that second.
#[derive(Clone, Copy, Debug, PartialEq, Eq, Structural)]
pub struct Timestamp {
    pub secs: i64,
    pub nanos: u32,
}

impl Timestamp {
    /// `self` lies strictly earlier on the time line than `other`.
    pub open spec fn earlier_than(self, other: Timestamp) -> bool {
        self.secs < other.secs || (self.secs == other.secs && self.nanos < other.nanos)
    }

    /// The instant `nanos` nanoseconds after the second `secs`.
    pub fn new(secs: i64, nanos: u32) -> (t: Timestamp)
        ensures
            t.secs == secs,
            t.nanos == nanos,
    {
        Timestamp { secs, nanos }
    }

    /// Whether `self` lies strictly earlier than `other`.
    pub fn is_before(&self, other: &Timestamp) -> (b: bool)
        ensures
            b == self.earlier_than(*other),
    {
        self.secs < other.secs || (self.secs == other.secs && self.nanos < other.nanos)
    }
}

/// One task as the store hands it out.
#[derive(Debug, PartialEq, Eq)]
pub struct Todo {
    pub id: i64,
    pub title: String,
    pub description: String,
    pub created_at: Timestamp,
    pub completed_at: Option<Timestamp>,
    pub due_by: Option<Timestamp>,
    pub parent_id: Option<i64>,
    pub hidden: bool,
}

impl Clone for Todo {
    fn clone(&self) -> (copy: Self)
        ensures
            copy == *self,
    {
        Todo {
            id: self.id,
            title: self.title.clone(),
            description: self.description.clone(),
            created_at: self.created_at,
            completed_at: self.completed_at,
            due_by: self.due_by,
            parent_id: self.parent_id,
            hidden: self.hidden,
        }
    }
}

/// The identifier as the outline abbreviates it: the remainder of a division
/// by one hundred, with the sign of the identifier.
pub open spec fn short_id(id: int) -> int {
    if id >= 0 {
        id % 100
    } else {
        -((-id) % 100)
    }
}

impl Todo {
    /// The task has a completion time.
    pub open spec fn completed(self) -> bool {
        self.completed_at is Some
    }

    /// Whether the task is completed.
    pub fn is_completed(&self) -> (done: bool)
        ensures
            done == self.completed(),
    {
        self.completed_at.is_some()
    }

    /// The identifier as the outline abbreviates it.
    pub fn id_mod(&self) -> (short: i64)
        ensures
            short == short_id(self.id as int),
            -100 < short < 100,
    {
        self.id % 100
    }
}

/// What the store needs to create a task.
#[derive(Debug, PartialEq, Eq)]
pub struct NewTodo {
    pub title: String,
    pub description: String,
    pub parent_id: Option<i64>,
    pub due_by: Option<Timestamp>,
}

impl Clone for NewTodo {
    fn clone(&self) -> (copy: Self)
        ensures
            copy == *self,
    {
        NewTodo {
            title: self.title.clone(),
            description: self.description.clone(),
            parent_id: self.parent_id,
            due_by: self.due_by,
        }
    }
}

/// Whether two parent pointers are the same.
pub fn same_parent(a: Option<i64>, b: Option<i64>) -> (same: bool)
    ensures
        same == (a == b),
{
    match (a, b) {
        (Some(x), Some(y)) => x == y,
        (None, None) => true,
        _ => false,
    }
}

/// A copy of the records.
pub fn clone_todos(todos: &Vec<Todo>) -> (copy: Vec<Todo>)
    ensures
        copy@ == todos@,
{
    let mut copy: Vec<Todo> = Vec::new();
    let mut i: usize = 0;
    while i < todos.len()
        invariant
            i <= todos.len(),
            copy@ == todos@.take(i as int),
        decreases todos.len() - i,
    {
        copy.push(todos[i].clone());
        proof {
            assert(copy@ =~= todos@.take(i + 1));
        }
        i += 1;
    }
    proof {
        assert(todos@.take(todos.len() as int) =~= todos@);
    }
    copy
}

} // verus!
