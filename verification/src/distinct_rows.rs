//! No task has two rows: in the outline of records with distinct
//! identifiers every row shows another task.

use crate::forest::{
    children_of, forest_below, full_forest, lemma_children_are_members, lemma_shown_roots,
    occurs_in, shown_forest, shown_roots, subtree, TreeShape,
};
use crate::forest_laws::{
    height_within, lemma_child_height, lemma_nodes_below, lemma_root_height,
};
use crate::hierarchy::{
    ancestor_at, is_descendant, lemma_chain_compose, lemma_chain_end_is_final, lemma_find_member,
    parent_of, unique_ids,
};
use crate::outline::{rendered_forest, rendered_node, rendered_siblings};
use crate::row_laws::{lemma_rows_of_node, shows};
use crate::todo::Todo;
use crate::tree::{line_views, OutlineModel, TodoTreeManager};
use vstd::prelude::*;

verus! {

/// Following parent pointers from `low`, none or more, arrives at `high`.
pub open spec fn reaches(todos: Seq<Todo>, low: i64, high: i64) -> bool {
    exists|steps: nat| #[trigger] ancestor_at(todos, low, steps) == Some(high)
}

/// The nodes are full subtrees of distinct tasks with one parent, and
/// `levels` bounds the chains into each.
pub open spec fn are_siblings(
    todos: Seq<Todo>,
    expansion: Map<i64, bool>,
    nodes: Seq<TreeShape>,
    parent: Option<i64>,
    levels: nat,
) -> bool {
    &&& forall|q: int|
        0 <= q < nodes.len() ==> {
            &&& #[trigger] nodes[q] == subtree(todos, expansion, nodes[q].id, levels)
            &&& height_within(todos, nodes[q].id, levels)
            &&& parent_of(todos, nodes[q].id) == parent
        }
    &&& forall|a: int, b: int|
        0 <= a < b < nodes.len() ==> (#[trigger] nodes[a]).id != (#[trigger] nodes[b]).id
}

/// A chain that comes back to where it began does so ever again.
proof fn lemma_loop_is_long(todos: Seq<Todo>, id: i64, steps: nat, least: nat) -> (longer: nat)
    requires
        steps >= 1,
        ancestor_at(todos, id, steps) == Some(id),
    ensures
        longer >= least,
        ancestor_at(todos, id, longer) == Some(id),
    decreases least,
{
    if least == 0 {
        assert(ancestor_at(todos, id, 0) == Some(id));
        0
    } else {
        let shorter = lemma_loop_is_long(todos, id, steps, (least - 1) as nat);
        lemma_chain_compose(todos, id, id, shorter, steps);
        shorter + steps
    }
}

/// A task into which the chains are bounded does not lie below itself.
pub proof fn lemma_not_below_itself(todos: Seq<Todo>, id: i64, bound: nat)
    requires
        height_within(todos, id, bound),
    ensures
        !is_descendant(todos, id, id),
{
    if is_descendant(todos, id, id) {
        let steps = choose|steps: nat| steps >= 1 && ancestor_at(todos, id, steps) == Some(id);
        let longer = lemma_loop_is_long(todos, id, steps, bound + 1);
        assert(ancestor_at(todos, id, longer) == Some(id));
    }
}

/// A chain that passes through two children of one parent passes through
/// the parent twice.
proof fn lemma_one_branch_in_order(
    todos: Seq<Todo>,
    low: i64,
    near: i64,
    far: i64,
    near_steps: nat,
    far_steps: nat,
)
    requires
        near_steps < far_steps,
        ancestor_at(todos, low, near_steps) == Some(near),
        ancestor_at(todos, low, far_steps) == Some(far),
        parent_of(todos, near) == parent_of(todos, far),
    ensures
        parent_of(todos, near) matches Some(p) && is_descendant(todos, p, p),
{
    let between = (far_steps - near_steps) as nat;
    lemma_chain_compose(todos, low, near, near_steps, between);
    assert(ancestor_at(todos, near, between) == Some(far));
    assert(ancestor_at(todos, near, 0) == Some(near));
    assert(ancestor_at(todos, near, 1) == parent_of(todos, near));
    match parent_of(todos, near) {
        None => {
            lemma_chain_end_is_final(todos, near, 1, between);
        },
        Some(p) => {
            assert(ancestor_at(todos, near, between + 1) == Some(p));
            lemma_chain_compose(todos, near, p, 1, between);
            assert(ancestor_at(todos, p, between) == Some(p));
            assert(is_descendant(todos, p, p));
        },
    }
}

/// A task lies in or below two different children of one parent only where
/// the parent lies below itself.
proof fn lemma_one_branch(todos: Seq<Todo>, low: i64, one: i64, other: i64)
    requires
        reaches(todos, low, one),
        reaches(todos, low, other),
        one != other,
        parent_of(todos, one) == parent_of(todos, other),
    ensures
        parent_of(todos, one) matches Some(p) && is_descendant(todos, p, p),
{
    let a = choose|steps: nat| #[trigger] ancestor_at(todos, low, steps) == Some(one);
    let b = choose|steps: nat| #[trigger] ancestor_at(todos, low, steps) == Some(other);
    if a < b {
        lemma_one_branch_in_order(todos, low, one, other, a, b);
    } else if b < a {
        lemma_one_branch_in_order(todos, low, other, one, b, a);
    }
}

/// The first row of a task shows the task, every further row a task that
/// lies below it.
proof fn lemma_row_reaches_top(
    todos: Seq<Todo>,
    expansion: Map<i64, bool>,
    top: i64,
    levels: nat,
    continuations: Seq<bool>,
    is_last_sibling: bool,
    k: int,
)
    requires
        unique_ids(todos),
        height_within(todos, top, levels),
        0 <= k < rendered_node(
            todos,
            subtree(todos, expansion, top, levels),
            continuations,
            is_last_sibling,
        ).len(),
    ensures
        ({
            let row = rendered_node(
                todos,
                subtree(todos, expansion, top, levels),
                continuations,
                is_last_sibling,
            )[k];
            &&& reaches(todos, row.todo_id, top)
            &&& k == 0 ==> row.todo_id == top
            &&& k > 0 ==> is_descendant(todos, row.todo_id, top)
        }),
{
    let node = subtree(todos, expansion, top, levels);
    let rows = rendered_node(todos, node, continuations, is_last_sibling);
    lemma_rows_of_node(todos, node, continuations, is_last_sibling, k);
    if k == 0 {
        assert(ancestor_at(todos, top, 0) == Some(top));
    } else {
        let below = choose|below: TreeShape| #[trigger]
            occurs_in(node.children, below) && shows(todos, rows[k], below);
        lemma_nodes_below(todos, expansion, top, levels, below);
        let steps = choose|steps: nat|
            steps >= 1 && ancestor_at(todos, below.id, steps) == Some(top);
        assert(ancestor_at(todos, rows[k].todo_id, steps) == Some(top));
    }
}

/// Each row of a list of siblings is a row of one of them.
proof fn lemma_row_owner(
    todos: Seq<Todo>,
    nodes: Seq<TreeShape>,
    continuations: Seq<bool>,
    count: nat,
    k: int,
) -> (owner: (int, int))
    requires
        0 <= k < rendered_siblings(todos, nodes, continuations, count).len(),
    ensures
        0 <= owner.0 < count,
        owner.0 < nodes.len(),
        0 <= owner.1 < rendered_node(
            todos,
            nodes[owner.0],
            continuations,
            owner.0 + 1 == nodes.len(),
        ).len(),
        rendered_siblings(todos, nodes, continuations, count)[k] == rendered_node(
            todos,
            nodes[owner.0],
            continuations,
            owner.0 + 1 == nodes.len(),
        )[owner.1],
    decreases count,
{
    let before = rendered_siblings(todos, nodes, continuations, (count - 1) as nat);
    if k < before.len() {
        lemma_row_owner(todos, nodes, continuations, (count - 1) as nat, k)
    } else {
        (count - 1, k - before.len())
    }
}

/// The children of a task, as the forest holds them, are siblings.
proof fn lemma_children_are_siblings(
    todos: Seq<Todo>,
    expansion: Map<i64, bool>,
    top: i64,
    levels: nat,
)
    requires
        unique_ids(todos),
        height_within(todos, top, levels),
        levels >= 1,
    ensures
        are_siblings(
            todos,
            expansion,
            forest_below(todos, expansion, Some(top), (levels - 1) as nat),
            Some(top),
            (levels - 1) as nat,
        ),
{
    let below = (levels - 1) as nat;
    let nodes = forest_below(todos, expansion, Some(top), below);
    let members = children_of(todos, Some(top));
    assert forall|q: int| 0 <= q < nodes.len() implies {
        &&& #[trigger] nodes[q] == subtree(todos, expansion, nodes[q].id, below)
        &&& height_within(todos, nodes[q].id, below)
        &&& parent_of(todos, nodes[q].id) == Some(top)
    } by {
        lemma_children_are_members(todos, Some(top), q);
        let p = choose|p: int| 0 <= p < todos.len() && todos[p] == members[q];
        lemma_find_member(todos, p);
        lemma_child_height(todos, top, members[q].id, levels);
    }
    lemma_children_differ(todos, Some(top));
    assert forall|a: int, b: int| 0 <= a < b < nodes.len() implies (#[trigger] nodes[a]).id != (
    #[trigger] nodes[b]).id by {
        assert(nodes[a].id == members[a].id && nodes[b].id == members[b].id);
    }
}

/// The children of one parent are different tasks.
proof fn lemma_children_differ(todos: Seq<Todo>, parent: Option<i64>)
    requires
        unique_ids(todos),
    ensures
        forall|a: int, b: int|
            0 <= a < b < children_of(todos, parent).len() ==> (#[trigger] children_of(
                todos,
                parent,
            )[a]).id != (#[trigger] children_of(todos, parent)[b]).id,
    decreases todos.len(),
{
    if todos.len() > 0 {
        let front = todos.drop_last();
        assert forall|i: int, j: int| 0 <= i < j < front.len() implies front[i].id
            != front[j].id by {
            assert(front[i] == todos[i] && front[j] == todos[j]);
        }
        lemma_children_differ(front, parent);
        let kept = children_of(front, parent);
        let out = children_of(todos, parent);
        assert forall|a: int, b: int| 0 <= a < b < out.len() implies (#[trigger] out[a]).id != (
        #[trigger] out[b]).id by {
            if b < kept.len() {
                assert(out[a] == kept[a] && out[b] == kept[b]);
            } else {
                assert(out[a] == kept[a]);
                lemma_children_are_members(front, parent, a);
                let p = choose|p: int| 0 <= p < front.len() && front[p] == kept[a];
                assert(todos[p] == out[a]);
                assert(todos[todos.len() - 1] == out[b]);
            }
        }
    }
}

/// The shown roots of different tasks are different tasks.
proof fn lemma_shown_roots_differ(todos: Seq<Todo>, forest: Seq<TreeShape>)
    requires
        forall|a: int, b: int|
            0 <= a < b < forest.len() ==> (#[trigger] forest[a]).id != (#[trigger] forest[b]).id,
    ensures
        forall|a: int, b: int|
            0 <= a < b < shown_roots(todos, forest).len() ==> (#[trigger] shown_roots(
                todos,
                forest,
            )[a]).id != (#[trigger] shown_roots(todos, forest)[b]).id,
    decreases forest.len(),
{
    if forest.len() > 0 {
        let front = forest.drop_last();
        assert forall|i: int, j: int| 0 <= i < j < front.len() implies (#[trigger] front[i]).id != (
        #[trigger] front[j]).id by {
            assert(front[i] == forest[i] && front[j] == forest[j]);
        }
        lemma_shown_roots_differ(todos, front);
        let kept = shown_roots(todos, front);
        let out = shown_roots(todos, forest);
        assert forall|a: int, b: int| 0 <= a < b < out.len() implies (#[trigger] out[a]).id != (
        #[trigger] out[b]).id by {
            if b < kept.len() {
                assert(out[a] == kept[a] && out[b] == kept[b]);
            } else {
                assert(out[a] == kept[a]);
                lemma_shown_roots(todos, front, a);
                let p = choose|p: int| 0 <= p < front.len() && front[p] == kept[a];
                assert(forest[p] == out[a]);
                assert(forest[forest.len() - 1] == out[b]);
            }
        }
    }
}

/// No two rows of one task and what lies below it show the same task.
proof fn lemma_node_rows_differ(
    todos: Seq<Todo>,
    expansion: Map<i64, bool>,
    top: i64,
    levels: nat,
    continuations: Seq<bool>,
    is_last_sibling: bool,
    i: int,
    j: int,
)
    requires
        unique_ids(todos),
        height_within(todos, top, levels),
        0 <= i < j < rendered_node(
            todos,
            subtree(todos, expansion, top, levels),
            continuations,
            is_last_sibling,
        ).len(),
    ensures
        rendered_node(
            todos,
            subtree(todos, expansion, top, levels),
            continuations,
            is_last_sibling,
        )[i].todo_id != rendered_node(
            todos,
            subtree(todos, expansion, top, levels),
            continuations,
            is_last_sibling,
        )[j].todo_id,
    decreases levels, 0nat, 0nat,
{
    let node = subtree(todos, expansion, top, levels);
    let rows = rendered_node(todos, node, continuations, is_last_sibling);
    lemma_not_below_itself(todos, top, levels);
    if i == 0 {
        lemma_row_reaches_top(todos, expansion, top, levels, continuations, is_last_sibling, 0);
        lemma_row_reaches_top(todos, expansion, top, levels, continuations, is_last_sibling, j);
    } else {
        let inner = continuations.push(!is_last_sibling);
        let rest = rendered_siblings(todos, node.children, inner, node.children.len());
        assert(rows.len() > 1);
        assert(rows =~= seq![rows[0]] + rest);
        assert(levels >= 1);
        lemma_children_are_siblings(todos, expansion, top, levels);
        lemma_sibling_rows_differ(
            todos,
            expansion,
            node.children,
            Some(top),
            (levels - 1) as nat,
            inner,
            node.children.len(),
            i - 1,
            j - 1,
        );
        assert(rows[i] == rest[i - 1] && rows[j] == rest[j - 1]);
    }
}

/// No two rows of a list of siblings show the same task.
proof fn lemma_sibling_rows_differ(
    todos: Seq<Todo>,
    expansion: Map<i64, bool>,
    nodes: Seq<TreeShape>,
    parent: Option<i64>,
    levels: nat,
    continuations: Seq<bool>,
    count: nat,
    i: int,
    j: int,
)
    requires
        unique_ids(todos),
        are_siblings(todos, expansion, nodes, parent, levels),
        parent matches Some(p) ==> !is_descendant(todos, p, p),
        0 <= i < j < rendered_siblings(todos, nodes, continuations, count).len(),
    ensures
        rendered_siblings(todos, nodes, continuations, count)[i].todo_id != rendered_siblings(
            todos,
            nodes,
            continuations,
            count,
        )[j].todo_id,
    decreases levels, 1nat, count,
{
    let all = rendered_siblings(todos, nodes, continuations, count);
    let before = rendered_siblings(todos, nodes, continuations, (count - 1) as nat);
    let last = nodes[count - 1];
    let own = rendered_node(todos, last, continuations, count == nodes.len());
    assert(all == before + own);
    if j < before.len() {
        lemma_sibling_rows_differ(
            todos,
            expansion,
            nodes,
            parent,
            levels,
            continuations,
            (count - 1) as nat,
            i,
            j,
        );
    } else if i >= before.len() {
        assert(last == subtree(todos, expansion, last.id, levels));
        lemma_node_rows_differ(
            todos,
            expansion,
            last.id,
            levels,
            continuations,
            count == nodes.len(),
            i - before.len(),
            j - before.len(),
        );
    } else {
        let (q, at) = lemma_row_owner(todos, nodes, continuations, (count - 1) as nat, i);
        let first = nodes[q];
        assert(first == subtree(todos, expansion, first.id, levels));
        assert(last == subtree(todos, expansion, last.id, levels));
        lemma_row_reaches_top(
            todos,
            expansion,
            first.id,
            levels,
            continuations,
            q + 1 == nodes.len(),
            at,
        );
        lemma_row_reaches_top(
            todos,
            expansion,
            last.id,
            levels,
            continuations,
            count == nodes.len(),
            j - before.len(),
        );
        assert(first.id != last.id);
        if all[i].todo_id == all[j].todo_id {
            lemma_one_branch(todos, all[i].todo_id, first.id, last.id);
        }
    }
}

/// The roots of the outline are siblings.
proof fn lemma_roots_are_siblings(todos: Seq<Todo>, expansion: Map<i64, bool>)
    requires
        unique_ids(todos),
    ensures
        are_siblings(todos, expansion, shown_forest(todos, expansion), None, todos.len()),
{
    let full = full_forest(todos, expansion);
    let shown = shown_forest(todos, expansion);
    let members = children_of(todos, None);
    assert forall|q: int| 0 <= q < shown.len() implies {
        &&& #[trigger] shown[q] == subtree(todos, expansion, shown[q].id, todos.len())
        &&& height_within(todos, shown[q].id, todos.len())
        &&& parent_of(todos, shown[q].id) == None::<i64>
    } by {
        lemma_shown_roots(todos, full, q);
        let at = choose|at: int| 0 <= at < full.len() && full[at] == shown[q];
        assert(full[at] == subtree(todos, expansion, members[at].id, todos.len()));
        lemma_children_are_members(todos, None, at);
        let p = choose|p: int| 0 <= p < todos.len() && todos[p] == members[at];
        lemma_find_member(todos, p);
        lemma_root_height(todos, members[at].id);
    }
    lemma_children_differ(todos, None);
    assert forall|a: int, b: int| 0 <= a < b < full.len() implies (#[trigger] full[a]).id != (
    #[trigger] full[b]).id by {
        assert(full[a].id == members[a].id && full[b].id == members[b].id);
    }
    lemma_shown_roots_differ(todos, full);
}

/// No two rows of the outline of records with distinct identifiers show the
/// same task.
pub proof fn lemma_rows_differ(todos: Seq<Todo>, expansion: Map<i64, bool>, i: int, j: int)
    requires
        unique_ids(todos),
        0 <= i < j < rendered_forest(todos, shown_forest(todos, expansion)).len(),
    ensures
        rendered_forest(todos, shown_forest(todos, expansion))[i].todo_id != rendered_forest(
            todos,
            shown_forest(todos, expansion),
        )[j].todo_id,
{
    let shown = shown_forest(todos, expansion);
    lemma_roots_are_siblings(todos, expansion);
    lemma_sibling_rows_differ(
        todos,
        expansion,
        shown,
        None,
        todos.len(),
        Seq::empty(),
        shown.len(),
        i,
        j,
    );
}

/// No task has two rows in a current outline of records with distinct
/// identifiers.
pub proof fn lemma_outline_rows_differ(outline: OutlineModel, i: int, j: int)
    requires
        unique_ids(outline.todos),
        outline.is_current(),
        0 <= i < outline.lines.len(),
        0 <= j < outline.lines.len(),
        i != j,
    ensures
        outline.lines[i].todo_id != outline.lines[j].todo_id,
{
    if i < j {
        lemma_rows_differ(outline.todos, outline.expansion, i, j);
    } else {
        lemma_rows_differ(outline.todos, outline.expansion, j, i);
    }
}

/// No task has two rows in a well-formed outline.
pub proof fn lemma_manager_rows_differ(manager: TodoTreeManager, i: int, j: int)
    requires
        manager.wf(),
        0 <= i < manager.rendered_lines@.len(),
        0 <= j < manager.rendered_lines@.len(),
        i != j,
    ensures
        manager.rendered_lines@[i].todo_id != manager.rendered_lines@[j].todo_id,
{
    let lines = line_views(manager.rendered_lines@);
    assert(lines[i].todo_id == manager.rendered_lines@[i].todo_id);
    assert(lines[j].todo_id == manager.rendered_lines@[j].todo_id);
    lemma_outline_rows_differ(manager@, i, j);
}

/// The index of a well-formed outline names for the task of every row that
/// very row.
pub proof fn lemma_index_inverts_rows(manager: TodoTreeManager, i: int)
    requires
        manager.wf(),
        0 <= i < manager.rendered_lines@.len(),
    ensures
        manager@.row_of(manager.rendered_lines@[i].todo_id) == Some(i as usize),
{
    let id = manager.rendered_lines@[i].todo_id;
    crate::tree::lemma_outline_rows(manager, id);
    let row = manager@.row_of(id)->0;
    if row != i {
        lemma_manager_rows_differ(manager, i, row as int);
    }
}

} // verus!
