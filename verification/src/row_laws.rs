//! What holds of the rows of an outline: each stands for a node of the
//! forest, and a row whose completion is brought up to date reads as
//! rendering would have it.

use crate::forest::{
    children_of, expansion_in, full_forest, lemma_expansion_among_is_of_a_node,
    lemma_member_is_child, lemma_node_is_found, lemma_shown_roots, occurs_in, shown_forest,
    subtree, TreeShape,
};
use crate::forest_laws::{
    has_incomplete_descendant, height_within, lemma_child_height, lemma_resolved_expansion,
    lemma_root_height, lemma_root_shown, resolved_expansion,
};
use crate::hierarchy::{
    ancestor_at, find, is_descendant, lemma_chain_alive_before, lemma_position_of, parent_of,
    position_of, unique_ids,
};
use crate::path_laws::{is_open, lemma_path_is_opened, lemma_walk_only_opens};
use crate::outline::{
    display_text, lemma_line_index, line_of, rendered_forest, rendered_node, rendered_siblings,
    LineView,
};
use crate::todo::{Timestamp, Todo};
use crate::tree::{
    line_views, opened_walk, todos_with_completion, with_completion, OutlineModel, TodoTreeManager,
};
use vstd::prelude::*;

verus! {

/// The row `row` shows the node `node`: its task has a record, and the text
/// and the mark for children are those of the node.
pub open spec fn shows(todos: Seq<Todo>, row: LineView, node: TreeShape) -> bool {
    &&& row.todo_id == node.id
    &&& find(todos, node.id) is Some
    &&& row.has_children == (node.children.len() > 0)
    &&& row.display_text == display_text(
        find(todos, node.id)->0,
        node.children.len() > 0,
        node.is_expanded,
    )
}

/// The first row of a node shows the node itself, every further row a node
/// below it.
pub proof fn lemma_rows_of_node(
    todos: Seq<Todo>,
    node: TreeShape,
    continuations: Seq<bool>,
    is_last_sibling: bool,
    k: int,
)
    requires
        0 <= k < rendered_node(todos, node, continuations, is_last_sibling).len(),
    ensures
        k == 0 ==> shows(
            todos,
            rendered_node(todos, node, continuations, is_last_sibling)[k],
            node,
        ),
        k > 0 ==> exists|below: TreeShape| #[trigger]
            occurs_in(node.children, below) && shows(
                todos,
                rendered_node(todos, node, continuations, is_last_sibling)[k],
                below,
            ),
    decreases node, 0nat,
{
    let record = find(todos, node.id)->0;
    let own = line_of(record, node, continuations, is_last_sibling);
    if k > 0 {
        let rest = rendered_siblings(
            todos,
            node.children,
            continuations.push(!is_last_sibling),
            node.children.len(),
        );
        assert(rendered_node(todos, node, continuations, is_last_sibling) == seq![own] + rest);
        lemma_rows_of_siblings(
            todos,
            node.children,
            continuations.push(!is_last_sibling),
            node.children.len(),
            k - 1,
        );
    }
}

/// Every row of a list of siblings shows one of them or a node below one.
pub proof fn lemma_rows_of_siblings(
    todos: Seq<Todo>,
    nodes: Seq<TreeShape>,
    continuations: Seq<bool>,
    count: nat,
    k: int,
)
    requires
        0 <= k < rendered_siblings(todos, nodes, continuations, count).len(),
    ensures
        exists|node: TreeShape| #[trigger]
            occurs_in(nodes, node) && shows(
                todos,
                rendered_siblings(todos, nodes, continuations, count)[k],
                node,
            ),
    decreases nodes, count,
{
    let before = rendered_siblings(todos, nodes, continuations, (count - 1) as nat);
    if k < before.len() {
        lemma_rows_of_siblings(todos, nodes, continuations, (count - 1) as nat, k);
    } else {
        let top = nodes[count - 1];
        let at = k - before.len();
        lemma_rows_of_node(todos, top, continuations, count == nodes.len(), at);
        if at == 0 {
            assert(occurs_in(nodes, top));
        } else {
            let below = choose|below: TreeShape| #[trigger]
                occurs_in(top.children, below) && shows(
                    todos,
                    rendered_node(todos, top, continuations, count == nodes.len())[at],
                    below,
                );
            assert(occurs_in(nodes, below));
        }
    }
}

/// Every row of an outline shows a node of its forest.
pub proof fn lemma_row_shows_a_node(outline: OutlineModel, k: int)
    requires
        outline.is_current(),
        0 <= k < outline.lines.len(),
    ensures
        exists|node: TreeShape| #[trigger]
            occurs_in(outline.tree, node) && shows(outline.todos, outline.lines[k], node),
{
    lemma_rows_of_siblings(outline.todos, outline.tree, Seq::empty(), outline.tree.len(), k);
}

/// Where the completion of a task with a row is set, the row reads as
/// rendering has it for the node of the task: with the new status box, and
/// with the arrow that every node of that task has in the forest. No other
/// row changes.
pub proof fn lemma_completion_row(outline: OutlineModel, id: i64, completed_at: Option<Timestamp>)
    requires
        unique_ids(outline.todos),
        outline.is_current(),
        outline.lines.len() <= usize::MAX,
        outline.index.contains_key(id),
    ensures
        ({
            let after = outline.with_completion(id, completed_at);
            let at = outline.index[id] as int;
            let open = resolved_expansion(outline.todos, outline.expansion, id);
            &&& 0 <= at < outline.lines.len()
            &&& outline.lines[at].todo_id == id
            &&& find(outline.todos, id) is Some
            &&& find(after.todos, id) == Some(
                with_completion(find(outline.todos, id)->0, completed_at),
            )
            &&& after.lines == outline.lines.update(
                at,
                (LineView {
                    display_text: display_text(
                        find(after.todos, id)->0,
                        outline.lines[at].has_children,
                        open,
                    ),
                    ..outline.lines[at]
                }),
            )
            &&& forall|node: TreeShape| #[trigger]
                occurs_in(outline.tree, node) && node.id == id ==> node.is_expanded == open
        }),
{
    let at = outline.index[id] as int;
    let open = resolved_expansion(outline.todos, outline.expansion, id);
    lemma_line_index(outline.lines, id);
    lemma_row_shows_a_node(outline, at);
    let shown = choose|node: TreeShape| #[trigger]
        occurs_in(outline.tree, node) && shows(outline.todos, outline.lines[at], node);
    lemma_node_is_found(outline.tree, shown);
    lemma_expansion_among_is_of_a_node(outline.tree, id, outline.tree.len());
    let found = choose|node: TreeShape| #[trigger]
        occurs_in(outline.tree, node) && node.id == id && Some(node.is_expanded) == expansion_in(
            outline.tree,
            id,
        );
    lemma_resolved_expansion(outline.todos, outline.expansion, found);
    assert forall|node: TreeShape| #[trigger]
        occurs_in(outline.tree, node) && node.id == id implies node.is_expanded == open by {
        lemma_resolved_expansion(outline.todos, outline.expansion, node);
    }
    let changed = todos_with_completion(outline.todos, id, completed_at);
    lemma_position_of(outline.todos, id);
    lemma_position_of(changed, id);
    let i = position_of(outline.todos, id)->0;
    assert(changed[i].id == id);
    assert forall|j: int| 0 <= j < changed.len() implies (#[trigger] changed[j]).id
        == outline.todos[j].id by {}
    assert(position_of(changed, id) == Some(i));
}

/// Some row of `lines` shows task `id`.
pub open spec fn has_row(lines: Seq<LineView>, id: i64) -> bool {
    exists|k: int| 0 <= k < lines.len() && (#[trigger] lines[k]).todo_id == id
}

/// The rows of one sibling are among the rows of the siblings.
proof fn lemma_sibling_rows_are_kept(
    todos: Seq<Todo>,
    nodes: Seq<TreeShape>,
    continuations: Seq<bool>,
    count: nat,
    q: int,
    id: i64,
)
    requires
        0 <= q < count <= nodes.len(),
        has_row(rendered_node(todos, nodes[q], continuations, q + 1 == nodes.len()), id),
    ensures
        has_row(rendered_siblings(todos, nodes, continuations, count), id),
    decreases count,
{
    let before = rendered_siblings(todos, nodes, continuations, (count - 1) as nat);
    let all = rendered_siblings(todos, nodes, continuations, count);
    if q == count - 1 {
        let own = rendered_node(todos, nodes[q], continuations, q + 1 == nodes.len());
        let k = choose|k: int| 0 <= k < own.len() && (#[trigger] own[k]).todo_id == id;
        assert(all[before.len() + k] == own[k]);
    } else {
        lemma_sibling_rows_are_kept(todos, nodes, continuations, (count - 1) as nat, q, id);
        let k = choose|k: int| 0 <= k < before.len() && (#[trigger] before[k]).todo_id == id;
        assert(all[k] == before[k]);
    }
}

/// A task has a row under a task that it lies below, or that it is, where
/// every task that it lies below is open.
proof fn lemma_row_below(
    todos: Seq<Todo>,
    expansion: Map<i64, bool>,
    top: i64,
    levels: nat,
    id: i64,
    steps: nat,
    continuations: Seq<bool>,
    is_last_sibling: bool,
)
    requires
        unique_ids(todos),
        height_within(todos, top, levels),
        find(todos, top) is Some,
        ancestor_at(todos, id, steps) == Some(top),
        forall|above: i64| #[trigger] is_descendant(todos, id, above) ==> is_open(expansion, above),
    ensures
        has_row(
            rendered_node(
                todos,
                subtree(todos, expansion, top, levels),
                continuations,
                is_last_sibling,
            ),
            id,
        ),
    decreases steps,
{
    let node = subtree(todos, expansion, top, levels);
    let rows = rendered_node(todos, node, continuations, is_last_sibling);
    let own = line_of(find(todos, top)->0, node, continuations, is_last_sibling);
    if steps == 0 {
        assert(rows[0] == own);
    } else {
        assert(is_descendant(todos, id, top));
        assert(is_open(expansion, top));
        let before = (steps - 1) as nat;
        lemma_chain_alive_before(todos, id, before, steps);
        let child = ancestor_at(todos, id, before)->0;
        assert(parent_of(todos, child) == Some(top));
        lemma_position_of(todos, child);
        let p = position_of(todos, child)->0;
        lemma_member_is_child(todos, p);
        let members = children_of(todos, Some(top));
        let q = choose|q: int| 0 <= q < members.len() && members[q] == todos[p];
        lemma_child_height(todos, top, child, levels);
        let below = (levels - 1) as nat;
        assert(node.children[q] == subtree(todos, expansion, child, below));
        assert(node.is_expanded);
        let inner = continuations.push(!is_last_sibling);
        lemma_row_below(
            todos,
            expansion,
            child,
            below,
            id,
            before,
            inner,
            q + 1 == node.children.len(),
        );
        lemma_sibling_rows_are_kept(todos, node.children, inner, node.children.len(), q, id);
        let rest = rendered_siblings(todos, node.children, inner, node.children.len());
        assert(rows == seq![own] + rest);
        let k = choose|k: int| 0 <= k < rest.len() && (#[trigger] rest[k]).todo_id == id;
        assert(rows[k + 1] == rest[k]);
    }
}

/// A task has a row in the outline where every task that it lies below is
/// open and the root above it is shown.
pub proof fn lemma_row_under_open_branches(
    todos: Seq<Todo>,
    expansion: Map<i64, bool>,
    id: i64,
    root: i64,
    steps: nat,
)
    requires
        unique_ids(todos),
        ancestor_at(todos, id, steps) == Some(root),
        find(todos, root) matches Some(t) && t.parent_id is None && (!t.completed()
            || has_incomplete_descendant(todos, root)),
        forall|above: i64| #[trigger] is_descendant(todos, id, above) ==> is_open(expansion, above),
    ensures
        has_row(rendered_forest(todos, shown_forest(todos, expansion)), id),
{
    let shown = shown_forest(todos, expansion);
    let full = full_forest(todos, expansion);
    let members = children_of(todos, None);
    lemma_position_of(todos, root);
    let i = position_of(todos, root)->0;
    lemma_root_shown(todos, expansion, i);
    let k = choose|k: int| 0 <= k < shown.len() && (#[trigger] shown[k]).id == root;
    lemma_shown_roots(todos, full, k);
    let at = choose|at: int| 0 <= at < full.len() && full[at] == shown[k];
    assert(full[at] == subtree(todos, expansion, members[at].id, todos.len()));
    assert(shown[k] == subtree(todos, expansion, root, todos.len()));
    lemma_root_height(todos, root);
    assert(height_within(todos, root, todos.len()));
    lemma_row_below(
        todos,
        expansion,
        root,
        todos.len(),
        id,
        steps,
        Seq::empty(),
        k + 1 == shown.len(),
    );
    lemma_sibling_rows_are_kept(todos, shown, Seq::empty(), shown.len(), k, id);
}

/// After the way up from a task has been opened the task has a row,
/// provided the root above it is shown: the index names the row.
pub proof fn lemma_revealed_task_has_a_row(outline: OutlineModel, id: i64, root: i64, steps: nat)
    requires
        unique_ids(outline.todos),
        outline.is_current(),
        ancestor_at(outline.todos, id, steps) == Some(root),
        find(outline.todos, root) matches Some(t) && t.parent_id is None && (!t.completed()
            || has_incomplete_descendant(outline.todos, root)),
        outline.revealed(id).0.lines.len() <= usize::MAX,
    ensures
        outline.revealed(id).0.is_current(),
        has_row(outline.revealed(id).0.lines, id),
        outline.revealed(id).0.row_of(id) matches Some(row) && row < outline.revealed(
            id,
        ).0.lines.len() && outline.revealed(id).0.lines[row as int].todo_id == id,
{
    let after = outline.revealed(id).0;
    let (marked, opened) = opened_walk(
        outline.todos,
        outline.expansion,
        parent_of(outline.todos, id),
        outline.todos.len(),
    );
    lemma_path_is_opened(outline.todos, outline.expansion, id);
    if opened.len() == 0 {
        lemma_walk_only_opens(
            outline.todos,
            outline.expansion,
            parent_of(outline.todos, id),
            outline.todos.len(),
        );
        assert(marked =~= outline.expansion);
    }
    lemma_row_under_open_branches(outline.todos, marked, id, root, steps);
    lemma_line_index(after.lines, id);
}

/// Where the completion of a task with a row is set in a well-formed
/// outline, the row reads as rendering has it for the node of the task, and
/// no other row changes.
pub proof fn lemma_completion_row_of_manager(
    manager: TodoTreeManager,
    id: i64,
    completed_at: Option<Timestamp>,
)
    requires
        manager.wf(),
        manager@.row_of(id) is Some,
    ensures
        ({
            let after = manager@.with_completion(id, completed_at);
            let at = manager@.index[id] as int;
            let open = resolved_expansion(manager@.todos, manager@.expansion, id);
            &&& 0 <= at < manager@.lines.len()
            &&& manager@.lines[at].todo_id == id
            &&& find(after.todos, id) == Some(
                with_completion(find(manager@.todos, id)->0, completed_at),
            )
            &&& after.lines == manager@.lines.update(
                at,
                (LineView {
                    display_text: display_text(
                        find(after.todos, id)->0,
                        manager@.lines[at].has_children,
                        open,
                    ),
                    ..manager@.lines[at]
                }),
            )
            &&& forall|node: TreeShape| #[trigger]
                occurs_in(manager@.tree, node) && node.id == id ==> node.is_expanded == open
        }),
{
    assert(manager.rendered_lines.len() == line_views(manager.rendered_lines@).len());
    lemma_completion_row(manager@, id, completed_at);
}

/// After the way up from a task has been opened in a well-formed outline,
/// the task has a row, provided the root above it is shown.
pub proof fn lemma_revealed_row_of_manager(
    before: TodoTreeManager,
    after: TodoTreeManager,
    id: i64,
    root: i64,
    steps: nat,
)
    requires
        before.wf(),
        after@ == before@.revealed(id).0,
        ancestor_at(before.todos@, id, steps) == Some(root),
        find(before.todos@, root) matches Some(t) && t.parent_id is None && (!t.completed()
            || has_incomplete_descendant(before.todos@, root)),
    ensures
        after@.row_of(id) matches Some(row) && row < after.rendered_lines@.len()
            && after.rendered_lines@[row as int].todo_id == id,
{
    assert(after.rendered_lines.len() == line_views(after.rendered_lines@).len());
    lemma_revealed_task_has_a_row(before@, id, root, steps);
    let row = after@.row_of(id)->0;
    assert(line_views(after.rendered_lines@)[row as int].todo_id == after.rendered_lines@[row as int].todo_id);
}

} // verus!
