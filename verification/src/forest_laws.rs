//! What holds of every forest that the builder gives, stated against the
//! parent pointers of the records themselves.

use crate::forest::{
    any_incomplete, children_of, full_forest, is_incomplete, lemma_children_are_members,
    lemma_member_is_child, lemma_root_kept, lemma_shown_roots, occurs_in, root_is_shown,
    shown_forest, subtree, TreeShape,
};
use crate::hierarchy::{
    ancestor_at, find, is_descendant, lemma_chain_alive_before, lemma_chain_compose,
    lemma_descendant_transitive, lemma_find_member, lemma_position_of,
    lemma_rooted_chain_is_short, parent_of, position_of, unique_ids,
};
use crate::order::is_newest_first;
use crate::todo::Todo;
use vstd::prelude::*;

verus! {

/// Some record that is not completed lies strictly below `id`.
pub open spec fn has_incomplete_descendant(todos: Seq<Todo>, id: i64) -> bool {
    exists|i: int|
        0 <= i < todos.len() && !(#[trigger] todos[i]).completed() && is_descendant(
            todos,
            todos[i].id,
            id,
        )
}

/// Whether the branch of task `id` counts as open: as the saved entry says,
/// and without one, exactly when some incomplete task lies below it.
pub open spec fn resolved_expansion(todos: Seq<Todo>, expansion: Map<i64, bool>, id: i64) -> bool {
    if expansion.contains_key(id) {
        expansion[id]
    } else {
        has_incomplete_descendant(todos, id)
    }
}

/// No chain of parent pointers into `id` is longer than `bound`.
pub open spec fn height_within(todos: Seq<Todo>, id: i64, bound: nat) -> bool {
    forall|low: i64, steps: nat| #[trigger]
        ancestor_at(todos, low, steps) == Some(id) ==> steps <= bound
}

/// A record is one step below its parent.
proof fn lemma_record_below_parent(todos: Seq<Todo>, i: int)
    requires
        unique_ids(todos),
        0 <= i < todos.len(),
        todos[i].parent_id is Some,
    ensures
        ancestor_at(todos, todos[i].id, 1) == todos[i].parent_id,
        is_descendant(todos, todos[i].id, todos[i].parent_id->0),
{
    lemma_find_member(todos, i);
    assert(ancestor_at(todos, todos[i].id, 0) == Some(todos[i].id));
    assert(ancestor_at(todos, todos[i].id, 1) == parent_of(todos, todos[i].id));
}

/// What bounds the chains into a task bounds, by one less, the chains into
/// each of its children.
pub proof fn lemma_child_height(todos: Seq<Todo>, parent: i64, child: i64, bound: nat)
    requires
        height_within(todos, parent, bound),
        parent_of(todos, child) == Some(parent),
    ensures
        bound >= 1,
        height_within(todos, child, (bound - 1) as nat),
{
    assert(ancestor_at(todos, child, 0) == Some(child));
    assert(ancestor_at(todos, child, 1) == Some(parent));
    assert forall|low: i64, steps: nat| #[trigger]
        ancestor_at(todos, low, steps) == Some(child) implies steps <= bound - 1 by {
        lemma_chain_compose(todos, low, child, steps, 1);
        assert(ancestor_at(todos, low, steps + 1) == Some(parent));
    }
}

/// Below a task whose chains the levels cover, the forest holds something
/// incomplete exactly when the records do.
pub proof fn lemma_incomplete_below(
    todos: Seq<Todo>,
    expansion: Map<i64, bool>,
    id: i64,
    levels: nat,
)
    requires
        unique_ids(todos),
        height_within(todos, id, levels),
    ensures
        any_incomplete(todos, subtree(todos, expansion, id, levels).children)
            <==> has_incomplete_descendant(todos, id),
    decreases levels,
{
    let forest = subtree(todos, expansion, id, levels).children;
    let members = children_of(todos, Some(id));
    if any_incomplete(todos, forest) {
        let q = choose|q: int|
            0 <= q < forest.len() && (is_incomplete(todos, (#[trigger] forest[q]).id)
                || any_incomplete(todos, forest[q].children));
        assert(levels > 0);
        assert(forest[q] == subtree(todos, expansion, members[q].id, (levels - 1) as nat));
        lemma_children_are_members(todos, Some(id), q);
        let p = choose|p: int| 0 <= p < todos.len() && todos[p] == members[q];
        lemma_find_member(todos, p);
        lemma_record_below_parent(todos, p);
        let child = members[q].id;
        if is_incomplete(todos, child) {
            assert(!todos[p].completed() && is_descendant(todos, todos[p].id, id));
        } else {
            lemma_child_height(todos, id, child, levels);
            lemma_incomplete_below(todos, expansion, child, (levels - 1) as nat);
            let j = choose|j: int|
                0 <= j < todos.len() && !(#[trigger] todos[j]).completed() && is_descendant(
                    todos,
                    todos[j].id,
                    child,
                );
            lemma_descendant_transitive(todos, todos[j].id, child, id);
            assert(!todos[j].completed() && is_descendant(todos, todos[j].id, id));
        }
    }
    if has_incomplete_descendant(todos, id) {
        let j = choose|j: int|
            0 <= j < todos.len() && !(#[trigger] todos[j]).completed() && is_descendant(
                todos,
                todos[j].id,
                id,
            );
        let low = todos[j].id;
        let steps = choose|steps: nat| steps >= 1 && ancestor_at(todos, low, steps) == Some(id);
        assert(steps <= levels);
        let before = (steps - 1) as nat;
        lemma_chain_alive_before(todos, low, before, steps);
        let child = ancestor_at(todos, low, before)->0;
        assert(parent_of(todos, child) == Some(id));
        lemma_position_of(todos, child);
        let p = position_of(todos, child)->0;
        lemma_member_is_child(todos, p);
        let q = choose|q: int| 0 <= q < members.len() && members[q] == todos[p];
        assert(forest[q] == subtree(todos, expansion, child, (levels - 1) as nat));
        if before == 0 {
            lemma_find_member(todos, j);
            assert(is_incomplete(todos, forest[q].id));
        } else {
            lemma_child_height(todos, id, child, levels);
            assert(is_descendant(todos, low, child));
            assert(!todos[j].completed() && is_descendant(todos, todos[j].id, child));
            lemma_incomplete_below(todos, expansion, child, (levels - 1) as nat);
            assert(any_incomplete(todos, forest[q].children));
        }
        assert(is_incomplete(todos, forest[q].id) || any_incomplete(todos, forest[q].children));
    }
}

/// Chains into a root are shorter than the list of records.
pub proof fn lemma_root_height(todos: Seq<Todo>, root: i64)
    requires
        find(todos, root) is Some,
        parent_of(todos, root) is None,
    ensures
        todos.len() >= 1,
        height_within(todos, root, (todos.len() - 1) as nat),
{
    lemma_position_of(todos, root);
    assert forall|low: i64, steps: nat| #[trigger]
        ancestor_at(todos, low, steps) == Some(root) implies steps <= todos.len() - 1 by {
        lemma_rooted_chain_is_short(todos, low, root, steps);
    }
}

/// A bound on the chains into a task stays one when it grows.
proof fn lemma_height_grows(todos: Seq<Todo>, id: i64, bound: nat, larger: nat)
    requires
        height_within(todos, id, bound),
        bound <= larger,
    ensures
        height_within(todos, id, larger),
{
}

/// Every node below a task is the full subtree of a task that has a record
/// and lies strictly below it.
pub proof fn lemma_nodes_below(
    todos: Seq<Todo>,
    expansion: Map<i64, bool>,
    id: i64,
    levels: nat,
    node: TreeShape,
) -> (depth_left: nat)
    requires
        unique_ids(todos),
        height_within(todos, id, levels),
        occurs_in(subtree(todos, expansion, id, levels).children, node),
    ensures
        node == subtree(todos, expansion, node.id, depth_left),
        height_within(todos, node.id, depth_left),
        find(todos, node.id) is Some,
        is_descendant(todos, node.id, id),
    decreases levels,
{
    let forest = subtree(todos, expansion, id, levels).children;
    let members = children_of(todos, Some(id));
    let q = choose|q: int|
        0 <= q < forest.len() && ((#[trigger] forest[q]) == node || occurs_in(
            forest[q].children,
            node,
        ));
    assert(levels > 0);
    let below = (levels - 1) as nat;
    assert(forest[q] == subtree(todos, expansion, members[q].id, below));
    lemma_children_are_members(todos, Some(id), q);
    let p = choose|p: int| 0 <= p < todos.len() && todos[p] == members[q];
    lemma_find_member(todos, p);
    lemma_record_below_parent(todos, p);
    let child = members[q].id;
    lemma_child_height(todos, id, child, levels);
    if forest[q] == node {
        below
    } else {
        let depth_left = lemma_nodes_below(todos, expansion, child, below, node);
        lemma_descendant_transitive(todos, node.id, child, id);
        depth_left
    }
}

/// Every node of the forest is the full subtree of a task that has a record.
pub proof fn lemma_nodes_of_forest(
    todos: Seq<Todo>,
    expansion: Map<i64, bool>,
    node: TreeShape,
) -> (depth_left: nat)
    requires
        unique_ids(todos),
        occurs_in(full_forest(todos, expansion), node),
    ensures
        node == subtree(todos, expansion, node.id, depth_left),
        height_within(todos, node.id, depth_left),
        find(todos, node.id) is Some,
{
    let forest = full_forest(todos, expansion);
    let members = children_of(todos, None);
    let q = choose|q: int|
        0 <= q < forest.len() && ((#[trigger] forest[q]) == node || occurs_in(
            forest[q].children,
            node,
        ));
    assert(forest[q] == subtree(todos, expansion, members[q].id, todos.len()));
    lemma_children_are_members(todos, None, q);
    let p = choose|p: int| 0 <= p < todos.len() && todos[p] == members[q];
    lemma_find_member(todos, p);
    let root = members[q].id;
    lemma_root_height(todos, root);
    lemma_height_grows(todos, root, (todos.len() - 1) as nat, todos.len());
    if forest[q] == node {
        todos.len()
    } else {
        lemma_nodes_below(todos, expansion, root, todos.len(), node)
    }
}

/// A node of the shown forest is a node of the full forest.
pub proof fn lemma_shown_node_occurs(todos: Seq<Todo>, expansion: Map<i64, bool>, node: TreeShape)
    requires
        occurs_in(shown_forest(todos, expansion), node),
    ensures
        occurs_in(full_forest(todos, expansion), node),
{
    let shown = shown_forest(todos, expansion);
    let full = full_forest(todos, expansion);
    let k = choose|k: int|
        0 <= k < shown.len() && ((#[trigger] shown[k]) == node || occurs_in(
            shown[k].children,
            node,
        ));
    lemma_shown_roots(todos, full, k);
    let i = choose|i: int| 0 <= i < full.len() && full[i] == shown[k];
    assert(full[i] == node || occurs_in(full[i].children, node));
}

/// Every node of the outline stands for a task of the working set.
pub proof fn lemma_node_has_record(todos: Seq<Todo>, expansion: Map<i64, bool>, node: TreeShape)
    requires
        unique_ids(todos),
        occurs_in(shown_forest(todos, expansion), node),
    ensures
        find(todos, node.id) is Some,
{
    lemma_shown_node_occurs(todos, expansion, node);
    lemma_nodes_of_forest(todos, expansion, node);
}

/// The children of a node of the outline are the nodes of the records that
/// name its task as their parent, in the order of the working set.
pub proof fn lemma_node_children(todos: Seq<Todo>, expansion: Map<i64, bool>, node: TreeShape)
    requires
        unique_ids(todos),
        occurs_in(shown_forest(todos, expansion), node),
    ensures
        node.children.len() == children_of(todos, Some(node.id)).len(),
        forall|q: int|
            0 <= q < node.children.len() ==> (#[trigger] node.children[q]).id == children_of(
                todos,
                Some(node.id),
            )[q].id,
{
    lemma_shown_node_occurs(todos, expansion, node);
    let depth_left = lemma_nodes_of_forest(todos, expansion, node);
    let members = children_of(todos, Some(node.id));
    if depth_left == 0 && members.len() > 0 {
        lemma_children_are_members(todos, Some(node.id), 0);
        let p = choose|p: int| 0 <= p < todos.len() && todos[p] == members[0];
        lemma_find_member(todos, p);
        lemma_child_height(todos, node.id, members[0].id, depth_left);
    }
    assert forall|q: int| 0 <= q < node.children.len() implies (#[trigger] node.children[q]).id
        == members[q].id by {
        assert(node.children[q] == subtree(
            todos,
            expansion,
            members[q].id,
            (depth_left - 1) as nat,
        ));
    }
}

/// A node without a saved entry is open exactly when some incomplete task
/// lies below it.
pub proof fn lemma_default_expansion(
    todos: Seq<Todo>,
    expansion: Map<i64, bool>,
    node: TreeShape,
)
    requires
        unique_ids(todos),
        occurs_in(shown_forest(todos, expansion), node),
        !expansion.contains_key(node.id),
    ensures
        node.is_expanded <==> has_incomplete_descendant(todos, node.id),
{
    lemma_shown_node_occurs(todos, expansion, node);
    let depth_left = lemma_nodes_of_forest(todos, expansion, node);
    lemma_incomplete_below(todos, expansion, node.id, depth_left);
}

/// A node with a saved entry is open exactly when the entry says so.
pub proof fn lemma_saved_expansion(todos: Seq<Todo>, expansion: Map<i64, bool>, node: TreeShape)
    requires
        unique_ids(todos),
        occurs_in(shown_forest(todos, expansion), node),
        expansion.contains_key(node.id),
    ensures
        node.is_expanded == expansion[node.id],
{
    lemma_shown_node_occurs(todos, expansion, node);
    lemma_nodes_of_forest(todos, expansion, node);
}

/// Every node of the outline is open exactly when its task counts as open.
pub proof fn lemma_resolved_expansion(todos: Seq<Todo>, expansion: Map<i64, bool>, node: TreeShape)
    requires
        unique_ids(todos),
        occurs_in(shown_forest(todos, expansion), node),
    ensures
        node.is_expanded == resolved_expansion(todos, expansion, node.id),
{
    if expansion.contains_key(node.id) {
        lemma_saved_expansion(todos, expansion, node);
    } else {
        lemma_default_expansion(todos, expansion, node);
    }
}

/// The node of a task is the same whether a given task has no saved entry
/// or has saved what it counts as without one.
proof fn lemma_subtree_with_default_saved(
    todos: Seq<Todo>,
    expansion: Map<i64, bool>,
    saved: i64,
    id: i64,
    levels: nat,
)
    requires
        unique_ids(todos),
        height_within(todos, id, levels),
        !expansion.contains_key(saved),
    ensures
        subtree(
            todos,
            expansion.insert(saved, has_incomplete_descendant(todos, saved)),
            id,
            levels,
        ) == subtree(todos, expansion, id, levels),
    decreases levels,
{
    let with_entry = expansion.insert(saved, has_incomplete_descendant(todos, saved));
    let members = children_of(todos, Some(id));
    let children = subtree(todos, expansion, id, levels).children;
    let others = subtree(todos, with_entry, id, levels).children;
    if levels > 0 {
        let below = (levels - 1) as nat;
        assert forall|q: int| 0 <= q < members.len() implies subtree(
            todos,
            with_entry,
            members[q].id,
            below,
        ) == subtree(todos, expansion, members[q].id, below) by {
            lemma_children_are_members(todos, Some(id), q);
            let p = choose|p: int| 0 <= p < todos.len() && todos[p] == members[q];
            lemma_find_member(todos, p);
            lemma_record_below_parent(todos, p);
            lemma_child_height(todos, id, members[q].id, levels);
            lemma_subtree_with_default_saved(todos, expansion, saved, members[q].id, below);
        }
        assert(others =~= children);
    }
    assert(others == children);
    if id == saved {
        lemma_incomplete_below(todos, expansion, id, levels);
    }
}

/// Saving for a task what it counts as anyway leaves the forest as it is.
pub proof fn lemma_saving_the_resolved_keeps_the_forest(
    todos: Seq<Todo>,
    expansion: Map<i64, bool>,
    id: i64,
)
    requires
        unique_ids(todos),
    ensures
        shown_forest(todos, expansion.insert(id, resolved_expansion(todos, expansion, id)))
            == shown_forest(todos, expansion),
{
    let with_entry = expansion.insert(id, resolved_expansion(todos, expansion, id));
    if expansion.contains_key(id) {
        assert(with_entry =~= expansion);
    } else {
        let members = children_of(todos, None);
        assert forall|q: int| 0 <= q < members.len() implies subtree(
            todos,
            with_entry,
            members[q].id,
            todos.len(),
        ) == subtree(todos, expansion, members[q].id, todos.len()) by {
            lemma_children_are_members(todos, None, q);
            let p = choose|p: int| 0 <= p < todos.len() && todos[p] == members[q];
            lemma_find_member(todos, p);
            lemma_root_height(todos, members[q].id);
            lemma_height_grows(todos, members[q].id, (todos.len() - 1) as nat, todos.len());
            lemma_subtree_with_default_saved(todos, expansion, id, members[q].id, todos.len());
        }
        assert(full_forest(todos, with_entry) =~= full_forest(todos, expansion));
    }
}

/// A task without a parent is a root of the outline exactly when it is
/// incomplete or some incomplete task lies below it.
pub proof fn lemma_root_shown(todos: Seq<Todo>, expansion: Map<i64, bool>, i: int)
    requires
        unique_ids(todos),
        0 <= i < todos.len(),
        todos[i].parent_id is None,
    ensures
        (exists|k: int|
            0 <= k < shown_forest(todos, expansion).len() && (#[trigger] shown_forest(
                todos,
                expansion,
            )[k]).id == todos[i].id) <==> (!todos[i].completed() || has_incomplete_descendant(
            todos,
            todos[i].id,
        )),
{
    let root = todos[i];
    let full = full_forest(todos, expansion);
    let shown = shown_forest(todos, expansion);
    let members = children_of(todos, None);
    lemma_member_is_child(todos, i);
    let q = choose|q: int| 0 <= q < members.len() && members[q] == todos[i];
    assert(full[q] == subtree(todos, expansion, root.id, todos.len()));
    lemma_find_member(todos, i);
    lemma_root_height(todos, root.id);
    lemma_height_grows(todos, root.id, (todos.len() - 1) as nat, todos.len());
    lemma_incomplete_below(todos, expansion, root.id, todos.len());
    assert(root_is_shown(todos, full[q]) <==> (!root.completed() || has_incomplete_descendant(
        todos,
        root.id,
    )));
    if root_is_shown(todos, full[q]) {
        lemma_root_kept(todos, full, q);
        let k = choose|k: int| 0 <= k < shown.len() && shown[k] == full[q];
        assert(shown[k].id == root.id);
    }
    if exists|k: int| 0 <= k < shown.len() && (#[trigger] shown[k]).id == root.id {
        let k = choose|k: int| 0 <= k < shown.len() && (#[trigger] shown[k]).id == root.id;
        lemma_shown_roots(todos, full, k);
        let at = choose|at: int| 0 <= at < full.len() && full[at] == shown[k];
        assert(full[at] == subtree(todos, expansion, members[at].id, todos.len()));
        assert(full[at] == full[q]);
    }
}

/// Every root of the outline is a task without a parent.
pub proof fn lemma_shown_root_is_root(todos: Seq<Todo>, expansion: Map<i64, bool>, k: int)
    requires
        unique_ids(todos),
        0 <= k < shown_forest(todos, expansion).len(),
    ensures
        find(todos, shown_forest(todos, expansion)[k].id) matches Some(t) && t.parent_id is None,
{
    let full = full_forest(todos, expansion);
    let members = children_of(todos, None);
    lemma_shown_roots(todos, full, k);
    let at = choose|at: int| 0 <= at < full.len() && full[at] == shown_forest(todos, expansion)[k];
    assert(full[at] == subtree(todos, expansion, members[at].id, todos.len()));
    lemma_children_are_members(todos, None, at);
    let p = choose|p: int| 0 <= p < todos.len() && todos[p] == members[at];
    lemma_find_member(todos, p);
}

/// Among the children of one parent no task is followed by a more recent
/// one, provided that holds of the working set.
pub proof fn lemma_siblings_newest_first(todos: Seq<Todo>, parent: Option<i64>)
    requires
        is_newest_first(todos),
    ensures
        is_newest_first(children_of(todos, parent)),
    decreases todos.len(),
{
    if todos.len() > 0 {
        let front = todos.drop_last();
        assert forall|i: int, j: int| 0 <= i < j < front.len() implies !(#[trigger] front[i]).created_at.earlier_than(
            (#[trigger] front[j]).created_at,
        ) by {
            assert(front[i] == todos[i] && front[j] == todos[j]);
        }
        lemma_siblings_newest_first(front, parent);
        let kept = children_of(front, parent);
        let out = children_of(todos, parent);
        assert forall|i: int, j: int| 0 <= i < j < out.len() implies !(#[trigger] out[i]).created_at.earlier_than(
            (#[trigger] out[j]).created_at,
        ) by {
            if j < kept.len() {
                assert(out[i] == kept[i] && out[j] == kept[j]);
            } else {
                assert(out[i] == kept[i]);
                lemma_children_are_members(front, parent, i);
                let p = choose|p: int| 0 <= p < front.len() && front[p] == kept[i];
                assert(todos[p] == out[i]);
                assert(todos[todos.len() - 1] == out[j]);
            }
        }
    }
}

} // verus!
