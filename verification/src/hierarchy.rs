//! The parent-pointer relation over a list of task records: lookup by
//! identifier, ancestor chains, and the descendant relation that the outline
//! and the move guard share.

use crate::todo::Todo;
use vstd::prelude::*;

verus! {

/// Index of the first record that carries `id`, if any does.
pub open spec fn position_of(todos: Seq<Todo>, id: i64) -> Option<int>
    decreases todos.len(),
{
    if todos.len() == 0 {
        None
    } else {
        match position_of(todos.drop_last(), id) {
            Some(i) => Some(i),
            None => if todos.last().id == id {
                Some(todos.len() - 1)
            } else {
                None
            },
        }
    }
}

/// The record that a lookup of `id` yields: the first one carrying it.
pub open spec fn find(todos: Seq<Todo>, id: i64) -> Option<Todo> {
    match position_of(todos, id) {
        Some(i) => Some(todos[i]),
        None => None,
    }
}

/// No two records share an identifier.
pub open spec fn unique_ids(todos: Seq<Todo>) -> bool {
    forall|i: int, j: int| 0 <= i < j < todos.len() ==> todos[i].id != todos[j].id
}

/// The parent pointer of `id`; absent when the record is missing or a root.
pub open spec fn parent_of(todos: Seq<Todo>, id: i64) -> Option<i64> {
    match find(todos, id) {
        Some(t) => t.parent_id,
        None => None,
    }
}

/// What following the parent pointer `steps` times from `id` arrives at.
/// A missing record or an absent pointer ends the chain.
pub open spec fn ancestor_at(todos: Seq<Todo>, id: i64, steps: nat) -> Option<i64>
    decreases steps,
{
    if steps == 0 {
        Some(id)
    } else {
        match ancestor_at(todos, id, (steps - 1) as nat) {
            Some(below) => parent_of(todos, below),
            None => None,
        }
    }
}

/// `id` lies strictly below `ancestor`: one or more parent pointers lead
/// from `id` to `ancestor`.
pub open spec fn is_descendant(todos: Seq<Todo>, id: i64, ancestor: i64) -> bool {
    exists|steps: nat| steps >= 1 && ancestor_at(todos, id, steps) == Some(ancestor)
}

/// `position_of` finds the first index carrying the identifier, and finds
/// none exactly when no record carries it.
pub proof fn lemma_position_of(todos: Seq<Todo>, id: i64)
    ensures
        match position_of(todos, id) {
            Some(i) => 0 <= i < todos.len() && todos[i].id == id && forall|j: int|
                0 <= j < i ==> todos[j].id != id,
            None => forall|j: int| 0 <= j < todos.len() ==> todos[j].id != id,
        },
    decreases todos.len(),
{
    if todos.len() > 0 {
        let front = todos.drop_last();
        lemma_position_of(front, id);
        assert forall|j: int| 0 <= j < front.len() implies front[j] == todos[j] by {}
        match position_of(front, id) {
            Some(i) => {
                assert(todos[i] == front[i]);
                assert forall|j: int| 0 <= j < i implies todos[j].id != id by {
                    assert(front[j].id != id);
                }
            },
            None => {
                assert forall|j: int| 0 <= j < front.len() implies todos[j].id != id by {
                    assert(front[j].id != id);
                }
            },
        }
    }
}

/// Among records with distinct identifiers a lookup returns the record itself.
pub proof fn lemma_find_member(todos: Seq<Todo>, i: int)
    requires
        unique_ids(todos),
        0 <= i < todos.len(),
    ensures
        position_of(todos, todos[i].id) == Some(i),
        find(todos, todos[i].id) == Some(todos[i]),
{
    lemma_position_of(todos, todos[i].id);
}

/// Once a chain has ended it stays ended.
pub proof fn lemma_chain_end_is_final(todos: Seq<Todo>, id: i64, ended: nat, later: nat)
    requires
        ancestor_at(todos, id, ended) is None,
        ended <= later,
    ensures
        ancestor_at(todos, id, later) is None,
    decreases later,
{
    if later > ended {
        lemma_chain_end_is_final(todos, id, ended, (later - 1) as nat);
    }
}

/// A chain that is still alive after `later` steps was alive at every
/// earlier step, and each identifier before the last has a record.
pub proof fn lemma_chain_alive_before(todos: Seq<Todo>, id: i64, earlier: nat, later: nat)
    requires
        ancestor_at(todos, id, later) is Some,
        earlier <= later,
    ensures
        ancestor_at(todos, id, earlier) is Some,
        earlier < later ==> find(todos, ancestor_at(todos, id, earlier)->0) is Some,
{
    if ancestor_at(todos, id, earlier) is None {
        lemma_chain_end_is_final(todos, id, earlier, later);
    }
    if earlier < later {
        if ancestor_at(todos, id, earlier + 1) is None {
            lemma_chain_end_is_final(todos, id, earlier + 1, later);
        }
        assert(ancestor_at(todos, id, (earlier + 1) as nat) == parent_of(
            todos,
            ancestor_at(todos, id, earlier)->0,
        ));
    }
}

/// Chains compose: `extra` further steps from where `steps` steps arrive.
pub proof fn lemma_chain_compose(todos: Seq<Todo>, id: i64, mid: i64, steps: nat, extra: nat)
    requires
        ancestor_at(todos, id, steps) == Some(mid),
    ensures
        ancestor_at(todos, id, steps + extra) == ancestor_at(todos, mid, extra),
    decreases extra,
{
    if extra > 0 {
        lemma_chain_compose(todos, id, mid, steps, (extra - 1) as nat);
        assert(ancestor_at(todos, id, steps + extra) == match ancestor_at(
            todos,
            id,
            (steps + extra - 1) as nat,
        ) {
            Some(below) => parent_of(todos, below),
            None => None,
        });
    }
}

/// The descendant relation is transitive.
pub proof fn lemma_descendant_transitive(todos: Seq<Todo>, low: i64, mid: i64, high: i64)
    requires
        is_descendant(todos, low, mid),
        is_descendant(todos, mid, high),
    ensures
        is_descendant(todos, low, high),
{
    let first = choose|steps: nat| steps >= 1 && ancestor_at(todos, low, steps) == Some(mid);
    let second = choose|steps: nat| steps >= 1 && ancestor_at(todos, mid, steps) == Some(high);
    lemma_chain_compose(todos, low, mid, first, second);
    assert(ancestor_at(todos, low, first + second) == Some(high));
}

/// More values than a finite set holds cannot all lie in it and differ.
proof fn lemma_pigeonhole(values: Seq<i64>, universe: Set<i64>)
    requires
        universe.finite(),
        forall|i: int| 0 <= i < values.len() ==> universe.contains(#[trigger] values[i]),
        values.len() > universe.len(),
    ensures
        exists|i: int, j: int| 0 <= i < j < values.len() && values[i] == values[j],
{
    if values.no_duplicates() {
        values.unique_seq_to_set();
        assert(values.to_set().subset_of(universe)) by {
            assert forall|v: i64| values.to_set().contains(v) implies universe.contains(v) by {
                let i = choose|i: int| 0 <= i < values.len() && values[i] == v;
                assert(universe.contains(values[i]));
            }
        }
        vstd::set_lib::lemma_len_subset(values.to_set(), universe);
    } else {
        let (i, j) = choose|i: int, j: int|
            0 <= i < values.len() && 0 <= j < values.len() && i != j && values[i] == values[j];
        if i < j {
            assert(0 <= i < j < values.len() && values[i] == values[j]);
        } else {
            assert(0 <= j < i < values.len() && values[j] == values[i]);
        }
    }
}

/// The identifiers that the records carry.
pub open spec fn ids_of(todos: Seq<Todo>) -> Seq<i64> {
    Seq::new(todos.len(), |i: int| todos[i].id)
}

/// Among the first `count` stops of a chain whose stops all have records,
/// with more stops than there are records, one identifier occurs twice.
proof fn lemma_chain_repeats(todos: Seq<Todo>, id: i64, count: nat)
    requires
        count >= 1,
        ancestor_at(todos, id, (count - 1) as nat) is Some,
        find(todos, ancestor_at(todos, id, (count - 1) as nat)->0) is Some,
        count > todos.len(),
    ensures
        exists|i: nat, j: nat|
            i < j < count && #[trigger] ancestor_at(todos, id, i) == #[trigger] ancestor_at(
                todos,
                id,
                j,
            ),
{
    let last = (count - 1) as nat;
    let stops = Seq::new(count, |i: int| ancestor_at(todos, id, i as nat)->0);
    let universe = ids_of(todos).to_set();
    vstd::seq_lib::seq_to_set_is_finite(ids_of(todos));
    ids_of(todos).lemma_cardinality_of_set();
    assert forall|i: int| 0 <= i < stops.len() implies universe.contains(#[trigger] stops[i]) by {
        lemma_chain_alive_before(todos, id, i as nat, last);
        let stop = ancestor_at(todos, id, i as nat)->0;
        lemma_position_of(todos, stop);
        let at = position_of(todos, stop)->0;
        assert(ids_of(todos)[at] == stop);
    }
    lemma_pigeonhole(stops, universe);
    let (i, j) = choose|i: int, j: int| 0 <= i < j < stops.len() && stops[i] == stops[j];
    lemma_chain_alive_before(todos, id, i as nat, last);
    lemma_chain_alive_before(todos, id, j as nat, last);
    assert((i as nat) < (j as nat) < count && ancestor_at(todos, id, i as nat) == ancestor_at(
        todos,
        id,
        j as nat,
    ));
}

/// A chain that arrives at a root has fewer steps than there are records.
pub proof fn lemma_rooted_chain_is_short(todos: Seq<Todo>, id: i64, root: i64, steps: nat)
    requires
        ancestor_at(todos, id, steps) == Some(root),
        find(todos, root) is Some,
        parent_of(todos, root) is None,
    ensures
        steps < todos.len(),
{
    if steps >= todos.len() {
        lemma_chain_repeats(todos, id, steps + 1);
        let (i, j) = choose|i: nat, j: nat|
            i < j < steps + 1 && #[trigger] ancestor_at(todos, id, i) == #[trigger] ancestor_at(
                todos,
                id,
                j,
            );
        lemma_chain_alive_before(todos, id, i, steps);
        let stop = ancestor_at(todos, id, i)->0;
        let rest = (steps + 1 - j) as nat;
        lemma_chain_compose(todos, id, stop, j, rest);
        lemma_chain_compose(todos, id, stop, i, rest);
        assert(ancestor_at(todos, id, steps + 1) == parent_of(todos, root));
        lemma_chain_alive_before(todos, id, i + rest, steps);
    }
}

/// Whatever a chain reaches at all, it reaches within as many steps as there
/// are records.
pub proof fn lemma_reached_within_len(todos: Seq<Todo>, id: i64, target: i64, steps: nat)
    requires
        steps >= 1,
        ancestor_at(todos, id, steps) == Some(target),
    ensures
        exists|short: nat|
            1 <= short <= todos.len() && ancestor_at(todos, id, short) == Some(target),
    decreases steps,
{
    if steps <= todos.len() {
    } else {
        lemma_chain_alive_before(todos, id, (steps - 1) as nat, steps);
        lemma_chain_repeats(todos, id, steps);
        let (i, j) = choose|i: nat, j: nat|
            i < j < steps && #[trigger] ancestor_at(todos, id, i) == #[trigger] ancestor_at(
                todos,
                id,
                j,
            );
        lemma_chain_alive_before(todos, id, i, steps);
        let stop = ancestor_at(todos, id, i)->0;
        let rest = (steps - j) as nat;
        lemma_chain_compose(todos, id, stop, j, rest);
        lemma_chain_compose(todos, id, stop, i, rest);
        assert(ancestor_at(todos, id, i + rest) == Some(target));
        lemma_reached_within_len(todos, id, target, i + rest);
    }
}

/// Every ancestor is met within as many steps as there are records.
pub proof fn lemma_descendant_within_len(todos: Seq<Todo>, id: i64, ancestor: i64)
    requires
        is_descendant(todos, id, ancestor),
    ensures
        exists|short: nat|
            1 <= short <= todos.len() && ancestor_at(todos, id, short) == Some(ancestor),
{
    let steps = choose|steps: nat| steps >= 1 && ancestor_at(todos, id, steps) == Some(ancestor);
    lemma_reached_within_len(todos, id, ancestor, steps);
}

/// Index of the first record that carries `id`.
pub fn find_position(todos: &Vec<Todo>, id: i64) -> (found: Option<usize>)
    ensures
        match found {
            Some(i) => i < todos.len() && position_of(todos@, id) == Some(i as int),
            None => position_of(todos@, id) is None,
        },
{
    let mut i: usize = 0;
    while i < todos.len()
        invariant
            i <= todos.len(),
            forall|j: int| 0 <= j < i ==> todos@[j].id != id,
        decreases todos.len() - i,
    {
        if todos[i].id == id {
            proof {
                lemma_position_of(todos@, id);
            }
            return Some(i);
        }
        i += 1;
    }
    proof {
        lemma_position_of(todos@, id);
    }
    None
}

/// The first record that carries `id`.
pub fn find_todo(todos: &Vec<Todo>, id: i64) -> (found: Option<&Todo>)
    ensures
        match found {
            Some(t) => find(todos@, id) == Some(*t),
            None => find(todos@, id) is None,
        },
{
    match find_position(todos, id) {
        Some(i) => Some(&todos[i]),
        None => None,
    }
}

/// Whether `potential_descendant` lies strictly below `ancestor` in `todos`.
pub fn is_descendant_of(todos: &Vec<Todo>, potential_descendant: i64, ancestor: i64) -> (below:
    bool)
    ensures
        below == is_descendant(todos@, potential_descendant, ancestor),
{
    let mut current = potential_descendant;
    let mut steps: usize = 0;
    while steps < todos.len()
        invariant
            steps <= todos.len(),
            ancestor_at(todos@, potential_descendant, steps as nat) == Some(current),
            forall|k: nat|
                1 <= k <= steps ==> ancestor_at(todos@, potential_descendant, k) != Some(ancestor),
        decreases todos.len() - steps,
    {
        let next = match find_position(todos, current) {
            Some(i) => todos[i].parent_id,
            None => None,
        };
        assert(next == parent_of(todos@, current));
        assert(ancestor_at(todos@, potential_descendant, (steps + 1) as nat) == next);
        match next {
            Some(parent) => {
                if parent == ancestor {
                    return true;
                }
                current = parent;
                steps += 1;
            },
            None => {
                proof {
                    assert forall|k: nat| k >= 1 implies ancestor_at(
                        todos@,
                        potential_descendant,
                        k,
                    ) != Some(ancestor) by {
                        if k > steps {
                            lemma_chain_end_is_final(
                                todos@,
                                potential_descendant,
                                (steps + 1) as nat,
                                k,
                            );
                        }
                    }
                }
                return false;
            },
        }
    }
    proof {
        if is_descendant(todos@, potential_descendant, ancestor) {
            lemma_descendant_within_len(todos@, potential_descendant, ancestor);
        }
    }
    false
}

} // verus!
