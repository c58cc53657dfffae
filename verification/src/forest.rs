//! The forest that a list of task records spans, as a mathematical value:
//! which task hangs under which, how far branches are opened by default,
//! and which roots are worth showing.

use crate::hierarchy::find;
use crate::todo::Todo;
use vstd::prelude::*;

verus! {

/// One node of the outline as a value: the task it stands for, its children
/// in display order, and whether the branch is open.
pub struct TreeShape {
    pub id: i64,
    pub children: Seq<TreeShape>,
    pub is_expanded: bool,
}

/// The records whose parent pointer is `parent`, in the order of `todos`.
pub open spec fn children_of(todos: Seq<Todo>, parent: Option<i64>) -> Seq<Todo>
    decreases todos.len(),
{
    if todos.len() == 0 {
        Seq::empty()
    } else if todos.last().parent_id == parent {
        children_of(todos.drop_last(), parent).push(todos.last())
    } else {
        children_of(todos.drop_last(), parent)
    }
}

/// Some record names `id` as its parent.
pub open spec fn has_child(todos: Seq<Todo>, id: i64) -> bool {
    exists|i: int| 0 <= i < todos.len() && (#[trigger] todos[i]).parent_id == Some(id)
}

/// The task `id` has a record and is not completed.
pub open spec fn is_incomplete(todos: Seq<Todo>, id: i64) -> bool {
    find(todos, id) matches Some(t) && !t.completed()
}

/// Some node of `forest`, at whatever depth, stands for an incomplete task.
pub open spec fn any_incomplete(todos: Seq<Todo>, forest: Seq<TreeShape>) -> bool
    decreases forest,
{
    exists|i: int|
        0 <= i < forest.len() && (is_incomplete(todos, (#[trigger] forest[i]).id) || any_incomplete(
            todos,
            forest[i].children,
        ))
}

/// Whether the branch of `id` is open: as the saved entry says, and without
/// one, exactly when something incomplete hangs below.
pub open spec fn expansion_of(
    todos: Seq<Todo>,
    expansion: Map<i64, bool>,
    id: i64,
    children: Seq<TreeShape>,
) -> bool {
    if expansion.contains_key(id) {
        expansion[id]
    } else {
        any_incomplete(todos, children)
    }
}

/// The node of task `id` with everything below it, down to `levels` levels.
pub open spec fn subtree(
    todos: Seq<Todo>,
    expansion: Map<i64, bool>,
    id: i64,
    levels: nat,
) -> TreeShape
    decreases levels, 0nat,
{
    let children = if levels == 0 {
        Seq::empty()
    } else {
        forest_below(todos, expansion, Some(id), (levels - 1) as nat)
    };
    TreeShape { id, children, is_expanded: expansion_of(todos, expansion, id, children) }
}

/// One node for each of `members`, each with `levels` levels below it.
pub open spec fn nodes_for(
    todos: Seq<Todo>,
    expansion: Map<i64, bool>,
    members: Seq<Todo>,
    levels: nat,
) -> Seq<TreeShape>
    decreases levels, 1nat,
{
    Seq::new(members.len(), |i: int| subtree(todos, expansion, members[i].id, levels))
}

/// The nodes of the tasks directly under `parent`.
pub open spec fn forest_below(
    todos: Seq<Todo>,
    expansion: Map<i64, bool>,
    parent: Option<i64>,
    levels: nat,
) -> Seq<TreeShape>
    decreases levels, 2nat,
{
    nodes_for(todos, expansion, children_of(todos, parent), levels)
}

/// Every task that is reachable from a root, as a forest. No branch can be
/// deeper than there are records, so that many levels hold everything.
pub open spec fn full_forest(todos: Seq<Todo>, expansion: Map<i64, bool>) -> Seq<TreeShape> {
    forest_below(todos, expansion, None, todos.len())
}

/// A root is shown when its task is incomplete or something incomplete hangs
/// below it.
pub open spec fn root_is_shown(todos: Seq<Todo>, root: TreeShape) -> bool {
    find(todos, root.id) matches Some(t) && (!t.completed() || any_incomplete(
        todos,
        root.children,
    ))
}

/// The roots of `forest` that are shown, in their order.
pub open spec fn shown_roots(todos: Seq<Todo>, forest: Seq<TreeShape>) -> Seq<TreeShape>
    decreases forest.len(),
{
    if forest.len() == 0 {
        Seq::empty()
    } else if root_is_shown(todos, forest.last()) {
        shown_roots(todos, forest.drop_last()).push(forest.last())
    } else {
        shown_roots(todos, forest.drop_last())
    }
}

/// The outline's forest: all reachable tasks, without the roots under which
/// everything is completed.
pub open spec fn shown_forest(todos: Seq<Todo>, expansion: Map<i64, bool>) -> Seq<TreeShape> {
    shown_roots(todos, full_forest(todos, expansion))
}

/// `node` occurs in `forest`, at whatever depth.
pub open spec fn occurs_in(forest: Seq<TreeShape>, node: TreeShape) -> bool
    decreases forest,
{
    exists|i: int|
        0 <= i < forest.len() && ((#[trigger] forest[i]) == node || occurs_in(
            forest[i].children,
            node,
        ))
}

/// Whether the branch of task `id` is open in `node` or below it: what the
/// first node that stands for the task says, nothing if none does.
pub open spec fn expansion_under(node: TreeShape, id: i64) -> Option<bool>
    decreases node, 0nat,
{
    if node.id == id {
        Some(node.is_expanded)
    } else {
        expansion_among(node.children, id, node.children.len())
    }
}

/// Whether the branch of task `id` is open in the first `count` of `nodes`
/// or below them.
pub open spec fn expansion_among(nodes: Seq<TreeShape>, id: i64, count: nat) -> Option<bool>
    decreases nodes, count,
{
    if count == 0 || count > nodes.len() {
        None
    } else {
        match expansion_among(nodes, id, (count - 1) as nat) {
            Some(open) => Some(open),
            None => expansion_under(nodes[count - 1], id),
        }
    }
}

/// Whether the branch of task `id` is open in `forest`.
pub open spec fn expansion_in(forest: Seq<TreeShape>, id: i64) -> Option<bool> {
    expansion_among(forest, id, forest.len())
}

/// What was found among the first nodes is found among more of them.
pub proof fn lemma_expansion_among_grows(
    nodes: Seq<TreeShape>,
    id: i64,
    count: nat,
    more: nat,
)
    requires
        expansion_among(nodes, id, count) is Some,
        count <= more <= nodes.len(),
    ensures
        expansion_among(nodes, id, more) == expansion_among(nodes, id, count),
    decreases more,
{
    if more > count {
        lemma_expansion_among_grows(nodes, id, count, (more - 1) as nat);
    }
}

/// What the forest says of a task's branch, some node of it says: a node
/// that stands for the task.
pub proof fn lemma_expansion_among_is_of_a_node(nodes: Seq<TreeShape>, id: i64, count: nat)
    requires
        expansion_among(nodes, id, count) is Some,
    ensures
        exists|node: TreeShape| #[trigger]
            occurs_in(nodes, node) && node.id == id && Some(node.is_expanded) == expansion_among(
                nodes,
                id,
                count,
            ),
    decreases nodes, count,
{
    if expansion_among(nodes, id, (count - 1) as nat) is Some {
        lemma_expansion_among_is_of_a_node(nodes, id, (count - 1) as nat);
    } else {
        let top = nodes[count - 1];
        assert(expansion_among(nodes, id, count) == expansion_under(top, id));
        if top.id == id {
            assert(occurs_in(nodes, top));
        } else {
            assert(expansion_under(top, id) == expansion_among(
                top.children,
                id,
                top.children.len(),
            ));
            lemma_expansion_among_is_of_a_node(top.children, id, top.children.len());
            let node = choose|node: TreeShape| #[trigger]
                occurs_in(top.children, node) && node.id == id && Some(node.is_expanded)
                    == expansion_among(top.children, id, top.children.len());
            assert(occurs_in(nodes, node));
        }
    }
}

/// A task that a node of the forest stands for has its branch told by the
/// forest.
pub proof fn lemma_node_is_found(nodes: Seq<TreeShape>, node: TreeShape)
    requires
        occurs_in(nodes, node),
    ensures
        expansion_in(nodes, node.id) is Some,
    decreases nodes,
{
    let i = choose|i: int|
        0 <= i < nodes.len() && ((#[trigger] nodes[i]) == node || occurs_in(nodes[i].children, node));
    if expansion_among(nodes, node.id, i as nat) is Some {
        lemma_expansion_among_grows(nodes, node.id, i as nat, nodes.len());
    } else {
        if nodes[i].id != node.id {
            lemma_node_is_found(nodes[i].children, node);
            assert(expansion_under(nodes[i], node.id) == expansion_among(
                nodes[i].children,
                node.id,
                nodes[i].children.len(),
            ));
        }
        assert(expansion_under(nodes[i], node.id) is Some);
        assert(expansion_among(nodes, node.id, (i + 1) as nat) == expansion_under(
            nodes[i],
            node.id,
        ));
        lemma_expansion_among_grows(nodes, node.id, (i + 1) as nat, nodes.len());
    }
}

/// The children of a parent are records of the list, each naming that parent.
pub proof fn lemma_children_are_members(todos: Seq<Todo>, parent: Option<i64>, k: int)
    requires
        0 <= k < children_of(todos, parent).len(),
    ensures
        children_of(todos, parent)[k].parent_id == parent,
        exists|i: int| 0 <= i < todos.len() && todos[i] == children_of(todos, parent)[k],
    decreases todos.len(),
{
    let front = todos.drop_last();
    if todos.last().parent_id == parent && k == children_of(front, parent).len() {
        assert(todos[todos.len() - 1] == children_of(todos, parent)[k]);
    } else {
        lemma_children_are_members(front, parent, k);
        let i = choose|i: int| 0 <= i < front.len() && front[i] == children_of(front, parent)[k];
        assert(todos[i] == children_of(todos, parent)[k]);
    }
}

/// Every record that names `parent` is among the children of `parent`.
pub proof fn lemma_member_is_child(todos: Seq<Todo>, i: int)
    requires
        0 <= i < todos.len(),
    ensures
        exists|k: int|
            0 <= k < children_of(todos, todos[i].parent_id).len() && children_of(
                todos,
                todos[i].parent_id,
            )[k] == todos[i],
    decreases todos.len(),
{
    let parent = todos[i].parent_id;
    let front = todos.drop_last();
    if i == todos.len() - 1 {
        let k = children_of(front, parent).len() as int;
        assert(children_of(todos, parent)[k] == todos[i]);
    } else {
        lemma_member_is_child(front, i);
        let k = choose|k: int|
            0 <= k < children_of(front, parent).len() && children_of(front, parent)[k] == front[i];
        assert(children_of(todos, parent)[k] == todos[i]);
    }
}

/// A task has children exactly when the list of its children is not empty.
pub proof fn lemma_has_child(todos: Seq<Todo>, id: i64)
    ensures
        has_child(todos, id) <==> children_of(todos, Some(id)).len() > 0,
{
    if has_child(todos, id) {
        let i = choose|i: int| 0 <= i < todos.len() && (#[trigger] todos[i]).parent_id == Some(id);
        lemma_member_is_child(todos, i);
    }
    if children_of(todos, Some(id)).len() > 0 {
        lemma_children_are_members(todos, Some(id), 0);
        let i = choose|i: int|
            0 <= i < todos.len() && todos[i] == children_of(todos, Some(id))[0];
        assert(todos[i].parent_id == Some(id));
    }
}

/// The shown roots are roots of the forest they were taken from, and each
/// passes the test for being shown.
pub proof fn lemma_shown_roots(todos: Seq<Todo>, forest: Seq<TreeShape>, k: int)
    requires
        0 <= k < shown_roots(todos, forest).len(),
    ensures
        root_is_shown(todos, shown_roots(todos, forest)[k]),
        exists|i: int| 0 <= i < forest.len() && forest[i] == shown_roots(todos, forest)[k],
    decreases forest.len(),
{
    let front = forest.drop_last();
    if root_is_shown(todos, forest.last()) && k == shown_roots(todos, front).len() {
        assert(forest[forest.len() - 1] == shown_roots(todos, forest)[k]);
    } else {
        lemma_shown_roots(todos, front, k);
        let i = choose|i: int| 0 <= i < front.len() && front[i] == shown_roots(todos, front)[k];
        assert(forest[i] == shown_roots(todos, forest)[k]);
    }
}

/// Every root that passes the test is among the shown roots.
pub proof fn lemma_root_kept(todos: Seq<Todo>, forest: Seq<TreeShape>, i: int)
    requires
        0 <= i < forest.len(),
        root_is_shown(todos, forest[i]),
    ensures
        exists|k: int|
            0 <= k < shown_roots(todos, forest).len() && shown_roots(todos, forest)[k] == forest[i],
    decreases forest.len(),
{
    let front = forest.drop_last();
    if i == forest.len() - 1 {
        let k = shown_roots(todos, front).len() as int;
        assert(shown_roots(todos, forest)[k] == forest[i]);
    } else {
        lemma_root_kept(todos, front, i);
        let k = choose|k: int|
            0 <= k < shown_roots(todos, front).len() && shown_roots(todos, front)[k] == front[i];
        assert(shown_roots(todos, forest)[k] == forest[i]);
    }
}

} // verus!
