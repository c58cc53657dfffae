//! The guard that a move of a task under a new parent has to pass. It only
//! judges; changing the parent pointer is left to the store.

use crate::hierarchy::{
    ancestor_at, find, is_descendant, is_descendant_of, lemma_chain_compose,
    lemma_chain_end_is_final, lemma_position_of, parent_of, position_of,
};
use crate::todo::Todo;
use vstd::prelude::*;
use vstd::string::*;

verus! {

/// Why a move was turned down.
#[derive(Clone, Copy, Debug, PartialEq, Eq, Structural)]
pub enum MoveError {
    /// The task would become its own ancestor.
    WouldCreateCycle,
}

impl MoveError {
    pub open spec fn text(self) -> Seq<char> {
        "Cannot move todo: would create a cycle"@
    }

    /// The sentence shown to the user.
    pub fn message(&self) -> (sentence: String)
        ensures
            sentence@ == self.text(),
    {
        String::from_str("Cannot move todo: would create a cycle")
    }
}

/// Putting `node` under `parent` would close a cycle: they are the same task,
/// or `parent` already lies below `node`.
pub open spec fn closes_cycle(todos: Seq<Todo>, node: i64, parent: i64) -> bool {
    node == parent || is_descendant(todos, parent, node)
}

/// Whether making `potential_parent_id` the parent of `todo_id` would close
/// a cycle.
pub fn would_create_cycle(todos: &Vec<Todo>, todo_id: i64, potential_parent_id: i64) -> (cyclic:
    bool)
    ensures
        cyclic == closes_cycle(todos@, todo_id, potential_parent_id),
{
    if todo_id == potential_parent_id {
        return true;
    }
    is_descendant_of(todos, potential_parent_id, todo_id)
}

/// Whether `node_id` may be moved under `candidate_parent_id`.
pub fn validate_move(todos: &Vec<Todo>, node_id: i64, candidate_parent_id: i64) -> (legal: bool)
    ensures
        legal == !closes_cycle(todos@, node_id, candidate_parent_id),
{
    !would_create_cycle(todos, node_id, candidate_parent_id)
}

/// Judges a move of `id` under `new_parent_id`, where no parent means the
/// top level, which is always allowed.
pub fn authorize_move(todos: &Vec<Todo>, id: i64, new_parent_id: Option<i64>) -> (verdict: Result<
    (),
    MoveError,
>)
    ensures
        verdict is Err <==> (new_parent_id matches Some(parent) && closes_cycle(
            todos@,
            id,
            parent,
        )),
        verdict is Err ==> verdict == Err::<(), MoveError>(MoveError::WouldCreateCycle),
{
    match new_parent_id {
        Some(parent) => {
            if would_create_cycle(todos, id, parent) {
                Err(MoveError::WouldCreateCycle)
            } else {
                Ok(())
            }
        },
        None => Ok(()),
    }
}

/// The record `t` with its parent pointer replaced.
pub open spec fn with_parent_pointer(t: Todo, parent: Option<i64>) -> Todo {
    Todo {
        id: t.id,
        title: t.title,
        description: t.description,
        created_at: t.created_at,
        completed_at: t.completed_at,
        due_by: t.due_by,
        parent_id: parent,
        hidden: t.hidden,
    }
}

/// The records after the store has moved task `id` under `parent`.
pub open spec fn moved(todos: Seq<Todo>, id: i64, parent: Option<i64>) -> Seq<Todo> {
    Seq::new(
        todos.len(),
        |i: int|
            if todos[i].id == id {
                with_parent_pointer(todos[i], parent)
            } else {
                todos[i]
            },
    )
}

/// A move leaves every record where it is.
proof fn lemma_moved_positions(todos: Seq<Todo>, id: i64, parent: Option<i64>, other: i64)
    ensures
        position_of(moved(todos, id, parent), other) == position_of(todos, other),
{
    let after = moved(todos, id, parent);
    lemma_position_of(todos, other);
    lemma_position_of(after, other);
    match position_of(todos, other) {
        Some(i) => {
            assert(after[i].id == other);
            match position_of(after, other) {
                Some(j) => {
                    if j < i {
                        assert(todos[j].id == after[j].id);
                    }
                },
                None => {},
            }
        },
        None => {
            match position_of(after, other) {
                Some(j) => {
                    assert(todos[j].id == after[j].id);
                },
                None => {},
            }
        },
    }
}

/// A move changes the parent pointer of the task moved and of no other.
proof fn lemma_moved_pointers(todos: Seq<Todo>, id: i64, parent: Option<i64>, other: i64)
    ensures
        other != id ==> parent_of(moved(todos, id, parent), other) == parent_of(todos, other),
        parent_of(moved(todos, id, parent), id) == (if find(todos, id) is Some {
            parent
        } else {
            None
        }),
{
    lemma_moved_positions(todos, id, parent, other);
    lemma_moved_positions(todos, id, parent, id);
    lemma_position_of(todos, other);
    lemma_position_of(todos, id);
}

/// A chain that does not pass the task moved is the same after the move.
proof fn lemma_chain_unmoved(
    todos: Seq<Todo>,
    id: i64,
    parent: Option<i64>,
    start: i64,
    steps: nat,
)
    requires
        forall|j: nat| j < steps ==> ancestor_at(todos, start, j) != Some(id),
    ensures
        ancestor_at(moved(todos, id, parent), start, steps) == ancestor_at(todos, start, steps),
    decreases steps,
{
    if steps > 0 {
        lemma_chain_unmoved(todos, id, parent, start, (steps - 1) as nat);
        match ancestor_at(todos, start, (steps - 1) as nat) {
            Some(below) => {
                lemma_moved_pointers(todos, id, parent, below);
            },
            None => {},
        }
    }
}

/// A move that the guard lets pass does not make the task its own ancestor.
pub proof fn lemma_legal_move_closes_no_cycle(todos: Seq<Todo>, node: i64, parent: i64)
    requires
        !closes_cycle(todos, node, parent),
    ensures
        !is_descendant(moved(todos, node, Some(parent)), node, node),
{
    let after = moved(todos, node, Some(parent));
    if is_descendant(after, node, node) {
        let steps = choose|steps: nat| steps >= 1 && ancestor_at(after, node, steps) == Some(node);
        assert(ancestor_at(after, node, 0) == Some(node));
        assert(ancestor_at(after, node, 1) == parent_of(after, node));
        lemma_moved_pointers(todos, node, Some(parent), node);
        if parent_of(after, node) is None {
            lemma_chain_end_is_final(after, node, 1, steps);
        }
        lemma_chain_compose(after, node, parent, 1, (steps - 1) as nat);
        let rest = (steps - 1) as nat;
        assert(ancestor_at(after, parent, rest) == Some(node));
        assert forall|j: nat| j < rest implies ancestor_at(todos, parent, j) != Some(node) by {
            if j == 0 {
                assert(ancestor_at(todos, parent, 0) == Some(parent));
            }
        }
        lemma_chain_unmoved(todos, node, Some(parent), parent, rest);
        if rest == 0 {
            assert(ancestor_at(todos, parent, 0) == Some(parent));
        }
    }
}

/// After a move that the guard lets pass, every task that is its own
/// ancestor was so before: the move closes no cycle anywhere.
pub proof fn lemma_legal_move_keeps_acyclic(todos: Seq<Todo>, node: i64, parent: i64, other: i64)
    requires
        !closes_cycle(todos, node, parent),
        is_descendant(moved(todos, node, Some(parent)), other, other),
    ensures
        is_descendant(todos, other, other),
{
    let after = moved(todos, node, Some(parent));
    let steps = choose|steps: nat| steps >= 1 && ancestor_at(after, other, steps) == Some(other);
    lemma_legal_move_closes_no_cycle(todos, node, parent);
    if exists|j: nat| j < steps && ancestor_at(todos, other, j) == Some(node) {
        let j = choose|j: nat| j < steps && ancestor_at(todos, other, j) == Some(node);
        let first = lemma_first_pass(todos, other, node, j);
        lemma_chain_unmoved(todos, node, Some(parent), other, first);
        assert(ancestor_at(after, other, first) == Some(node));
        lemma_chain_compose(after, other, other, steps, first);
        assert(ancestor_at(after, other, steps + first) == Some(node));
        lemma_chain_compose(after, other, node, first, steps);
        assert(ancestor_at(after, node, steps) == Some(node));
    } else {
        lemma_chain_unmoved(todos, node, Some(parent), other, steps);
    }
}

/// The first step at which a chain passes a task that it passes.
proof fn lemma_first_pass(todos: Seq<Todo>, start: i64, target: i64, steps: nat) -> (first: nat)
    requires
        ancestor_at(todos, start, steps) == Some(target),
    ensures
        first <= steps,
        ancestor_at(todos, start, first) == Some(target),
        forall|j: nat| j < first ==> ancestor_at(todos, start, j) != Some(target),
    decreases steps,
{
    if exists|j: nat| j < steps && ancestor_at(todos, start, j) == Some(target) {
        let j = choose|j: nat| j < steps && ancestor_at(todos, start, j) == Some(target);
        lemma_first_pass(todos, start, target, j)
    } else {
        steps
    }
}

/// A move is turned down exactly when the new parent is the task itself or
/// one of its descendants.
pub proof fn lemma_move_rejected_iff_cycle(todos: Seq<Todo>, node: i64, parent: i64)
    ensures
        closes_cycle(todos, node, parent) <==> (parent == node || is_descendant(
            todos,
            parent,
            node,
        )),
{
}

/// A parent that has no record, or that is a root, is accepted for every
/// other task.
pub proof fn lemma_move_under_absent_or_root(todos: Seq<Todo>, node: i64, parent: i64)
    requires
        node != parent,
        parent_of(todos, parent) is None,
    ensures
        !closes_cycle(todos, node, parent),
{
    assert forall|steps: nat| steps >= 1 implies ancestor_at(todos, parent, steps) is None by {
        assert(ancestor_at(todos, parent, 1) == parent_of(todos, parent)) by {
            assert(ancestor_at(todos, parent, 0) == Some(parent));
        }
        lemma_chain_end_is_final(todos, parent, 1, steps);
    }
}

} // verus!
