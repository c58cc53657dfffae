//! What holds of opening the way up to a task, and of the positions that
//! are offered as new parents.

use crate::hierarchy::{
    ancestor_at, is_descendant, lemma_chain_compose, lemma_chain_end_is_final,
    lemma_descendant_within_len, parent_of,
};
use crate::modes::AppMode;
use crate::move_mode::{is_candidate, row_behind};
use crate::outline::LineView;
use crate::reparent::closes_cycle;
use crate::todo::Todo;
use crate::tree::opened_walk;
use vstd::prelude::*;

verus! {

/// The entry of `id` is there and says open.
pub open spec fn is_open(expansion: Map<i64, bool>, id: i64) -> bool {
    expansion.contains_key(id) && expansion[id]
}

/// The walk only ever opens: the tasks it returns were not open before and
/// are open afterwards, and every other entry is as it was.
pub proof fn lemma_walk_only_opens(
    todos: Seq<Todo>,
    expansion: Map<i64, bool>,
    current: Option<i64>,
    fuel: nat,
)
    ensures
        ({
            let (marked, opened) = opened_walk(todos, expansion, current, fuel);
            &&& forall|id: i64| #[trigger]
                opened.contains(id) ==> is_open(marked, id) && !is_open(expansion, id)
            &&& forall|id: i64|
                !opened.contains(id) ==> (#[trigger] marked.contains_key(id)
                    <==> expansion.contains_key(id))
            &&& forall|id: i64|
                !opened.contains(id) && expansion.contains_key(id) ==> #[trigger] marked[id]
                    == expansion[id]
        }),
    decreases fuel,
{
    match current {
        Some(at) => {
            if fuel > 0 {
                let newly = !is_open(expansion, at);
                let first = if newly {
                    expansion.insert(at, true)
                } else {
                    expansion
                };
                let rest = opened_walk(todos, first, parent_of(todos, at), (fuel - 1) as nat);
                lemma_walk_only_opens(todos, first, parent_of(todos, at), (fuel - 1) as nat);
                let (marked, opened) = opened_walk(todos, expansion, current, fuel);
                assert(marked == rest.0);
                if newly {
                    assert(opened =~= seq![at] + rest.1);
                    assert forall|id: i64| opened.contains(id) <==> (id == at || rest.1.contains(
                        id,
                    )) by {
                        if opened.contains(id) {
                            let i = choose|i: int| 0 <= i < opened.len() && opened[i] == id;
                            if i > 0 {
                                assert(rest.1[i - 1] == id);
                            }
                        }
                        if rest.1.contains(id) {
                            let i = choose|i: int| 0 <= i < rest.1.len() && rest.1[i] == id;
                            assert(opened[i + 1] == id);
                        }
                        if id == at {
                            assert(opened[0] == id);
                        }
                    }
                    assert(!rest.1.contains(at));
                } else {
                    assert(opened == rest.1);
                }
            }
        },
        None => {},
    }
}

/// Every task that the walk passes is open afterwards.
pub proof fn lemma_walk_opens_what_it_passes(
    todos: Seq<Todo>,
    expansion: Map<i64, bool>,
    start: i64,
    fuel: nat,
    steps: nat,
)
    requires
        steps < fuel,
        ancestor_at(todos, start, steps) is Some,
    ensures
        is_open(
            opened_walk(todos, expansion, Some(start), fuel).0,
            ancestor_at(todos, start, steps)->0,
        ),
    decreases fuel,
{
    let newly = !is_open(expansion, start);
    let first = if newly {
        expansion.insert(start, true)
    } else {
        expansion
    };
    let next = parent_of(todos, start);
    lemma_walk_only_opens(todos, first, next, (fuel - 1) as nat);
    if steps == 0 {
        assert(ancestor_at(todos, start, 0) == Some(start));
        assert(is_open(first, start));
        let rest = opened_walk(todos, first, next, (fuel - 1) as nat);
        if rest.1.contains(start) {
        } else {
            assert(rest.0.contains_key(start));
            assert(rest.0[start] == first[start]);
        }
    } else {
        assert(ancestor_at(todos, start, 0) == Some(start));
        assert(ancestor_at(todos, start, 1) == next);
        if next is None {
            lemma_chain_end_is_final(todos, start, 1, steps);
        }
        let above = next->0;
        lemma_chain_compose(todos, start, above, 1, (steps - 1) as nat);
        lemma_walk_opens_what_it_passes(todos, first, above, (fuel - 1) as nat, (steps - 1) as nat);
    }
}

/// Every task that the walk returns lies on its way.
pub proof fn lemma_walk_returns_what_it_passes(
    todos: Seq<Todo>,
    expansion: Map<i64, bool>,
    start: i64,
    fuel: nat,
    id: i64,
)
    requires
        opened_walk(todos, expansion, Some(start), fuel).1.contains(id),
    ensures
        exists|steps: nat| steps < fuel && ancestor_at(todos, start, steps) == Some(id),
    decreases fuel,
{
    if fuel > 0 {
        let newly = !is_open(expansion, start);
        let first = if newly {
            expansion.insert(start, true)
        } else {
            expansion
        };
        let next = parent_of(todos, start);
        let rest = opened_walk(todos, first, next, (fuel - 1) as nat);
        let opened = opened_walk(todos, expansion, Some(start), fuel).1;
        assert(ancestor_at(todos, start, 0) == Some(start));
        let i = choose|i: int| 0 <= i < opened.len() && opened[i] == id;
        if newly && i == 0 {
            assert(0 < fuel && ancestor_at(todos, start, 0) == Some(id));
        } else {
            if newly {
                assert(rest.1[i - 1] == id);
            } else {
                assert(rest.1[i] == id);
            }
            assert(rest.1.contains(id));
            match next {
                Some(above) => {
                    lemma_walk_returns_what_it_passes(todos, first, above, (fuel - 1) as nat, id);
                    let steps = choose|steps: nat|
                        steps < fuel - 1 && ancestor_at(todos, above, steps) == Some(id);
                    assert(ancestor_at(todos, start, 1) == Some(above));
                    lemma_chain_compose(todos, start, above, 1, steps);
                    assert(1 + steps < fuel && ancestor_at(todos, start, 1 + steps) == Some(id));
                },
                None => {},
            }
        }
    }
}

/// Opening the way up from a task opens every task that it lies below, opens
/// nothing else, and returns the tasks that were not open before.
pub proof fn lemma_path_is_opened(todos: Seq<Todo>, expansion: Map<i64, bool>, id: i64)
    ensures
        ({
            let (marked, opened) = opened_walk(
                todos,
                expansion,
                parent_of(todos, id),
                todos.len(),
            );
            &&& forall|above: i64| #[trigger]
                is_descendant(todos, id, above) ==> is_open(marked, above)
            &&& forall|above: i64| #[trigger]
                opened.contains(above) <==> is_descendant(todos, id, above) && !is_open(
                    expansion,
                    above,
                )
            &&& forall|other: i64|
                !is_descendant(todos, id, other) ==> (#[trigger] marked.contains_key(other)
                    <==> expansion.contains_key(other))
            &&& forall|other: i64|
                !is_descendant(todos, id, other) && expansion.contains_key(other)
                    ==> #[trigger] marked[other] == expansion[other]
        }),
{
    let start = parent_of(todos, id);
    let fuel = todos.len();
    let (marked, opened) = opened_walk(todos, expansion, start, fuel);
    lemma_walk_only_opens(todos, expansion, start, fuel);
    assert(ancestor_at(todos, id, 0) == Some(id));
    assert(ancestor_at(todos, id, 1) == start);
    assert forall|above: i64| #[trigger] is_descendant(todos, id, above) implies is_open(
        marked,
        above,
    ) by {
        lemma_descendant_within_len(todos, id, above);
        let steps = choose|steps: nat|
            1 <= steps <= todos.len() && ancestor_at(todos, id, steps) == Some(above);
        if start is None {
            lemma_chain_end_is_final(todos, id, 1, steps);
        }
        lemma_chain_compose(todos, id, start->0, 1, (steps - 1) as nat);
        lemma_walk_opens_what_it_passes(todos, expansion, start->0, fuel, (steps - 1) as nat);
    }
    assert forall|above: i64| opened.contains(above) implies is_descendant(todos, id, above) by {
        match start {
            Some(first) => {
                lemma_walk_returns_what_it_passes(todos, expansion, first, fuel, above);
                let steps = choose|steps: nat|
                    steps < fuel && ancestor_at(todos, first, steps) == Some(above);
                lemma_chain_compose(todos, id, first, 1, steps);
                assert(1 + steps >= 1 && ancestor_at(todos, id, 1 + steps) == Some(above));
            },
            None => {
                assert(opened.len() == 0);
            },
        }
    }
    assert forall|above: i64|
        is_descendant(todos, id, above) && !is_open(expansion, above) implies opened.contains(
        above,
    ) by {
        assert(is_open(marked, above));
        if !opened.contains(above) {
            assert(marked.contains_key(above) <==> expansion.contains_key(above));
            assert(marked[above] == expansion[above]);
        }
    }
}

/// A row that is offered as new parent is one under which the task may be
/// moved.
pub proof fn lemma_candidates_are_legal(
    todos: Seq<Todo>,
    lines: Seq<LineView>,
    moved: i64,
    mode: AppMode,
    index: int,
)
    requires
        is_candidate(todos, lines, Some(moved), mode, index),
        !(mode == AppMode::Move && index == 0),
    ensures
        0 <= row_behind(mode, index) < lines.len(),
        !closes_cycle(todos, moved, lines[row_behind(mode, index)].todo_id),
{
}

} // verus!
