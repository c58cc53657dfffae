//! The outline of a task list: the forest built from the records, the lines
//! rendered from the forest, and the expansion state that outlives rebuilds.

use crate::clock::current_time;
use crate::forest::{
    any_incomplete, children_of, expansion_among, expansion_in, expansion_under, forest_below,
    full_forest,
    has_child, is_incomplete, lemma_expansion_among_grows, nodes_for, root_is_shown,
    shown_forest, shown_roots, subtree, TreeShape,
};
use crate::forest_laws::{has_incomplete_descendant, resolved_expansion};
use crate::hierarchy::{
    find, find_position, find_todo, is_descendant, is_descendant_of, parent_of, unique_ids,
};
use crate::order::{is_newest_first, normalize, normalized};
use crate::outline::{
    continuation_text, display_text, line_index, line_of, prefix_text,
    rendered_forest, rendered_node, rendered_siblings, LineView,
};
use crate::text::to_decimal;
use crate::todo::{same_parent, Timestamp, Todo};
use std::collections::HashMap;
use vstd::prelude::*;
use vstd::string::*;

verus! {

/// One node of the forest: a task, its children in display order, and
/// whether its branch is open.
#[derive(Debug, PartialEq, Eq)]
pub struct TreeNode {
    pub id: i64,
    pub children: Vec<TreeNode>,
    pub is_expanded: bool,
}

/// A node with everything below it as a value.
pub open spec fn shape_of(node: TreeNode) -> TreeShape
    decreases node,
{
    TreeShape {
        id: node.id,
        children: Seq::new(
            node.children@.len(),
            |i: int|
                if 0 <= i < node.children@.len() {
                    shape_of(node.children@[i])
                } else {
                    arbitrary()
                },
        ),
        is_expanded: node.is_expanded,
    }
}

impl View for TreeNode {
    type V = TreeShape;

    open spec fn view(&self) -> TreeShape {
        shape_of(*self)
    }
}

/// The nodes of a list as values.
pub open spec fn shapes(nodes: Seq<TreeNode>) -> Seq<TreeShape> {
    Seq::new(nodes.len(), |i: int| nodes[i]@)
}

/// The children of a node as values are the values of its children.
pub proof fn lemma_node_view(node: TreeNode)
    ensures
        node@.id == node.id,
        node@.is_expanded == node.is_expanded,
        node@.children == shapes(node.children@),
{
    assert(node@.children.len() == node.children@.len());
    assert forall|i: int| 0 <= i < node.children@.len() implies node@.children[i]
        == node.children@[i]@ by {}
    assert(node@.children =~= shapes(node.children@));
}

/// A forest with one more node holds something incomplete exactly when it
/// did before, or the node stands for an incomplete task, or something
/// incomplete hangs below the node.
pub proof fn lemma_any_incomplete_push(todos: Seq<Todo>, forest: Seq<TreeShape>, node: TreeShape)
    ensures
        any_incomplete(todos, forest.push(node)) <==> (any_incomplete(todos, forest)
            || is_incomplete(todos, node.id) || any_incomplete(todos, node.children)),
{
    let grown = forest.push(node);
    if any_incomplete(todos, grown) {
        let i = choose|i: int|
            0 <= i < grown.len() && (is_incomplete(todos, (#[trigger] grown[i]).id)
                || any_incomplete(todos, grown[i].children));
        if i < forest.len() {
            assert(grown[i] == forest[i]);
        }
    }
    if any_incomplete(todos, forest) {
        let i = choose|i: int|
            0 <= i < forest.len() && (is_incomplete(todos, (#[trigger] forest[i]).id)
                || any_incomplete(todos, forest[i].children));
        assert(grown[i] == forest[i]);
    }
    if is_incomplete(todos, node.id) || any_incomplete(todos, node.children) {
        assert(grown[forest.len() as int] == node);
    }
}

/// One visible row of the outline.
#[derive(Debug, PartialEq, Eq)]
pub struct RenderedLine {
    pub todo_id: i64,
    pub prefix: String,
    pub display_text: String,
    pub has_children: bool,
}

impl Clone for RenderedLine {
    fn clone(&self) -> (copy: Self)
        ensures
            copy == *self,
    {
        RenderedLine {
            todo_id: self.todo_id,
            prefix: self.prefix.clone(),
            display_text: self.display_text.clone(),
            has_children: self.has_children,
        }
    }
}

impl View for RenderedLine {
    type V = LineView;

    open spec fn view(&self) -> LineView {
        LineView {
            todo_id: self.todo_id,
            prefix: self.prefix@,
            display_text: self.display_text@,
            has_children: self.has_children,
        }
    }
}

/// The rows of a list as values.
pub open spec fn line_views(lines: Seq<RenderedLine>) -> Seq<LineView> {
    Seq::new(lines.len(), |i: int| lines[i]@)
}

/// The working set, the forest and the lines drawn from it, and the
/// expansion state, which stays when the rest is rebuilt.
pub struct TodoTreeManager {
    pub tree: Vec<TreeNode>,
    pub todos: Vec<Todo>,
    pub rendered_lines: Vec<RenderedLine>,
    pub id_to_line: HashMap<i64, usize>,
    pub expansion_states: HashMap<i64, bool>,
}

/// The glyphs in front of a row at `depth` levels below the top.
pub fn generate_prefix(ancestor_continuations: &Vec<bool>, is_last_sibling: bool, depth: usize) -> (prefix:
    String)
    ensures
        prefix@ == prefix_text(ancestor_continuations@, is_last_sibling, depth as nat),
{
    let mut prefix = String::new();
    let mut i: usize = 0;
    while i < ancestor_continuations.len()
        invariant
            i <= ancestor_continuations.len(),
            prefix@ == continuation_text(ancestor_continuations@.take(i as int)),
        decreases ancestor_continuations.len() - i,
    {
        proof {
            assert(ancestor_continuations@.take(i + 1).drop_last() =~= ancestor_continuations@.take(
                i as int,
            ));
        }
        if ancestor_continuations[i] {
            prefix.append("│   ");
        } else {
            prefix.append("    ");
        }
        i += 1;
    }
    proof {
        assert(ancestor_continuations@.take(ancestor_continuations.len() as int)
            =~= ancestor_continuations@);
    }
    if depth > 0 {
        if is_last_sibling {
            prefix.append("└── ");
        } else {
            prefix.append("├── ");
        }
    }
    proof {
        assert(prefix@ =~= prefix_text(ancestor_continuations@, is_last_sibling, depth as nat));
    }
    prefix
}

/// The text of the row of `todo`.
pub fn format_display_text(todo: &Todo, has_children: bool, is_expanded: bool) -> (text: String)
    ensures
        text@ == display_text(*todo, has_children, is_expanded),
{
    let mut text = to_decimal(todo.id_mod());
    text.append(" ");
    if todo.is_completed() {
        text.append("[✓]");
    } else {
        text.append("[ ]");
    }
    text.append(" ");
    if has_children {
        if is_expanded {
            text.append("▼ ");
        } else {
            text.append("▶ ");
        }
    }
    text.append(todo.title.as_str());
    proof {
        assert(text@ =~= display_text(*todo, has_children, is_expanded));
    }
    text
}

/// Whether the branch of task `id` is open in `nodes` or below them: what
/// the first node that stands for the task says.
pub fn find_expansion(nodes: &Vec<TreeNode>, id: i64) -> (found: Option<bool>)
    ensures
        found == expansion_in(shapes(nodes@), id),
    decreases nodes,
{
    let mut i: usize = 0;
    while i < nodes.len()
        invariant
            i <= nodes.len(),
            shapes(nodes@).len() == nodes.len(),
            expansion_among(shapes(nodes@), id, i as nat) is None,
        decreases nodes.len() - i,
    {
        let node = &nodes[i];
        proof {
            lemma_node_view(*node);
            assert(shapes(nodes@)[i as int] == node@);
        }
        let here = if node.id == id {
            Some(node.is_expanded)
        } else {
            find_expansion(&node.children, id)
        };
        proof {
            assert(node@.children == shapes(node.children@));
            assert(expansion_under(node@, id) == here);
            assert(expansion_among(shapes(nodes@), id, (i + 1) as nat) == expansion_under(
                shapes(nodes@)[i as int],
                id,
            ));
        }
        if here.is_some() {
            proof {
                lemma_expansion_among_grows(
                    shapes(nodes@),
                    id,
                    (i + 1) as nat,
                    nodes.len() as nat,
                );
            }
            return here;
        }
        i += 1;
    }
    None
}

impl TodoTreeManager {
    /// Whether some node of `children`, at whatever depth, stands for an
    /// incomplete task.
    pub fn has_incomplete_descendants(&self, children: &Vec<TreeNode>) -> (found: bool)
        ensures
            found == any_incomplete(self.todos@, shapes(children@)),
        decreases children,
    {
        let mut i: usize = 0;
        while i < children.len()
            invariant
                i <= children.len(),
                forall|j: int|
                    0 <= j < i ==> !(is_incomplete(self.todos@, (#[trigger] shapes(children@)[j]).id)
                        || any_incomplete(self.todos@, shapes(children@)[j].children)),
            decreases children.len() - i,
        {
            let child = &children[i];
            proof {
                lemma_node_view(*child);
                assert(shapes(children@)[i as int] == child@);
            }
            match find_todo(&self.todos, child.id) {
                Some(todo) => {
                    if !todo.is_completed() {
                        return true;
                    }
                },
                None => {},
            }
            if self.has_incomplete_descendants(&child.children) {
                return true;
            }
            i += 1;
        }
        false
    }

    /// The node of task `id` with `levels` levels below it, and whether
    /// something incomplete hangs below it.
    pub fn build_node(&self, id: i64, levels: usize) -> (built: (TreeNode, bool))
        ensures
            built.0@ == subtree(self.todos@, self.expansion_states@, id, levels as nat),
            built.1 == any_incomplete(self.todos@, built.0@.children),
        decreases levels, 0nat,
    {
        let (children, has_incomplete_children) = if levels > 0 {
            self.build_subtree(Some(id), levels - 1)
        } else {
            (Vec::new(), false)
        };
        proof {
            if levels == 0 {
                assert(shapes(children@) =~= Seq::<TreeShape>::empty());
            }
        }
        let is_expanded = match self.expansion_states.get(&id) {
            Some(saved) => *saved,
            None => has_incomplete_children,
        };
        let node = TreeNode { id, children, is_expanded };
        proof {
            lemma_node_view(node);
        }
        (node, has_incomplete_children)
    }

    /// The nodes of the tasks under `parent_id`, each with `levels` levels
    /// below it, and whether one of them, at whatever depth, stands for an
    /// incomplete task.
    pub fn build_subtree(&self, parent_id: Option<i64>, levels: usize) -> (built: (Vec<TreeNode>, bool))
        ensures
            shapes(built.0@) == forest_below(
                self.todos@,
                self.expansion_states@,
                parent_id,
                levels as nat,
            ),
            built.1 == any_incomplete(self.todos@, shapes(built.0@)),
        decreases levels, 1nat,
    {
        let mut nodes: Vec<TreeNode> = Vec::new();
        let mut found = false;
        let mut i: usize = 0;
        proof {
            assert(shapes(nodes@) =~= nodes_for(
                self.todos@,
                self.expansion_states@,
                children_of(self.todos@.take(0), parent_id),
                levels as nat,
            ));
        }
        while i < self.todos.len()
            invariant
                i <= self.todos.len(),
                shapes(nodes@) == nodes_for(
                    self.todos@,
                    self.expansion_states@,
                    children_of(self.todos@.take(i as int), parent_id),
                    levels as nat,
                ),
                found == any_incomplete(self.todos@, shapes(nodes@)),
            decreases self.todos.len() - i,
        {
            proof {
                assert(self.todos@.take(i + 1).drop_last() =~= self.todos@.take(i as int));
            }
            if same_parent(self.todos[i].parent_id, parent_id) {
                let (node, below) = self.build_node(self.todos[i].id, levels);
                let open = match find_todo(&self.todos, node.id) {
                    Some(todo) => !todo.is_completed(),
                    None => false,
                };
                let ghost before = nodes@;
                proof {
                    lemma_node_view(node);
                }
                nodes.push(node);
                proof {
                    assert(shapes(nodes@) =~= shapes(before).push(node@));
                    assert(shapes(nodes@) =~= nodes_for(
                        self.todos@,
                        self.expansion_states@,
                        children_of(self.todos@.take(i + 1), parent_id),
                        levels as nat,
                    ));
                    lemma_any_incomplete_push(self.todos@, shapes(before), node@);
                }
                found = found || open || below;
            }
            i += 1;
        }
        proof {
            assert(self.todos@.take(self.todos.len() as int) =~= self.todos@);
        }
        (nodes, found)
    }

    /// Whether the root `node` is shown: its task is incomplete, or
    /// something incomplete hangs below it.
    pub fn should_show_root_node(&self, node: &TreeNode) -> (shown: bool)
        ensures
            shown == root_is_shown(self.todos@, node@),
    {
        proof {
            lemma_node_view(*node);
        }
        match find_todo(&self.todos, node.id) {
            Some(todo) => !todo.is_completed() || self.has_incomplete_descendants(&node.children),
            None => false,
        }
    }

    /// The forest of the working set under the saved expansion state.
    pub fn build_tree(&self) -> (roots: Vec<TreeNode>)
        ensures
            shapes(roots@) == shown_forest(self.todos@, self.expansion_states@),
    {
        let levels = self.todos.len();
        let mut roots: Vec<TreeNode> = Vec::new();
        let mut i: usize = 0;
        proof {
            assert(shapes(roots@) =~= shown_roots(
                self.todos@,
                nodes_for(
                    self.todos@,
                    self.expansion_states@,
                    children_of(self.todos@.take(0), None),
                    levels as nat,
                ),
            ));
        }
        while i < self.todos.len()
            invariant
                i <= self.todos.len(),
                levels == self.todos.len(),
                shapes(roots@) == shown_roots(
                    self.todos@,
                    nodes_for(
                        self.todos@,
                        self.expansion_states@,
                        children_of(self.todos@.take(i as int), None),
                        levels as nat,
                    ),
                ),
            decreases self.todos.len() - i,
        {
            proof {
                assert(self.todos@.take(i + 1).drop_last() =~= self.todos@.take(i as int));
            }
            if same_parent(self.todos[i].parent_id, None) {
                let (node, below) = self.build_node(self.todos[i].id, levels);
                let ghost members = children_of(self.todos@.take(i as int), None);
                let ghost so_far = nodes_for(
                    self.todos@,
                    self.expansion_states@,
                    members,
                    levels as nat,
                );
                let ghost grown = nodes_for(
                    self.todos@,
                    self.expansion_states@,
                    members.push(self.todos@[i as int]),
                    levels as nat,
                );
                proof {
                    assert(grown =~= so_far.push(node@));
                    assert(grown.drop_last() =~= so_far);
                }
                let shown = match find_todo(&self.todos, node.id) {
                    Some(todo) => !todo.is_completed() || below,
                    None => false,
                };
                if shown {
                    let ghost before = roots@;
                    roots.push(node);
                    proof {
                        assert(shapes(roots@) =~= shapes(before).push(node@));
                    }
                }
            }
            i += 1;
        }
        proof {
            assert(self.todos@.take(self.todos.len() as int) =~= self.todos@);
        }
        roots
    }

    fn render_node(
        &self,
        node: &TreeNode,
        lines: &mut Vec<RenderedLine>,
        ancestor_continuations: &Vec<bool>,
        is_last_sibling: bool,
    )
        ensures
            line_views(final(lines)@) == line_views(old(lines)@) + rendered_node(
                self.todos@,
                node@,
                ancestor_continuations@,
                is_last_sibling,
            ),
        decreases node,
    {
        proof {
            lemma_node_view(*node);
        }
        let ghost at_entry = line_views(lines@);
        match find_todo(&self.todos, node.id) {
            None => {
                proof {
                    assert(at_entry + Seq::<LineView>::empty() =~= at_entry);
                }
            },
            Some(todo) => {
                let has_children = node.children.len() > 0;
                let prefix = generate_prefix(
                    ancestor_continuations,
                    is_last_sibling,
                    ancestor_continuations.len(),
                );
                let text = format_display_text(todo, has_children, node.is_expanded);
                let line = RenderedLine {
                    todo_id: node.id,
                    prefix,
                    display_text: text,
                    has_children,
                };
                let ghost own = line_of(*todo, node@, ancestor_continuations@, is_last_sibling);
                assert(line@ == own);
                let ghost before = lines@;
                lines.push(line);
                proof {
                    assert(line_views(lines@) =~= line_views(before).push(own));
                }
                if has_children && node.is_expanded {
                    let mut continuations: Vec<bool> = Vec::new();
                    let mut k: usize = 0;
                    while k < ancestor_continuations.len()
                        invariant
                            k <= ancestor_continuations.len(),
                            continuations@ == ancestor_continuations@.take(k as int),
                        decreases ancestor_continuations.len() - k,
                    {
                        continuations.push(ancestor_continuations[k]);
                        proof {
                            assert(continuations@ =~= ancestor_continuations@.take(k + 1));
                        }
                        k += 1;
                    }
                    continuations.push(!is_last_sibling);
                    proof {
                        assert(continuations@ =~= ancestor_continuations@.push(!is_last_sibling));
                    }
                    let mut i: usize = 0;
                    proof {
                        assert(line_views(lines@) =~= at_entry + (seq![own] + rendered_siblings(
                            self.todos@,
                            node@.children,
                            continuations@,
                            0,
                        )));
                    }
                    while i < node.children.len()
                        invariant
                            i <= node.children.len(),
                            node@.children == shapes(node.children@),
                            line_views(lines@) == at_entry + (seq![own] + rendered_siblings(
                                self.todos@,
                                node@.children,
                                continuations@,
                                i as nat,
                            )),
                        decreases node.children.len() - i,
                    {
                        let is_last_child = i == node.children.len() - 1;
                        let ghost sofar = rendered_siblings(
                            self.todos@,
                            node@.children,
                            continuations@,
                            i as nat,
                        );
                        self.render_node(&node.children[i], lines, &continuations, is_last_child);
                        proof {
                            assert(node@.children[i as int] == node.children@[i as int]@);
                            let extra = rendered_node(
                                self.todos@,
                                node@.children[i as int],
                                continuations@,
                                is_last_child,
                            );
                            assert(at_entry + (seq![own] + sofar) + extra =~= at_entry + (seq![own]
                                + (sofar + extra)));
                        }
                        i += 1;
                    }
                } else {
                    proof {
                        assert(line_views(lines@) =~= at_entry + (seq![own] + Seq::<
                            LineView,
                        >::empty()));
                    }
                }
            },
        }
    }

    /// The rows of the forest, top to bottom.
    pub fn render_tree(&self) -> (lines: Vec<RenderedLine>)
        ensures
            line_views(lines@) == rendered_forest(self.todos@, shapes(self.tree@)),
    {
        let mut lines: Vec<RenderedLine> = Vec::new();
        let top: Vec<bool> = Vec::new();
        let mut i: usize = 0;
        proof {
            assert(line_views(lines@) =~= rendered_siblings(
                self.todos@,
                shapes(self.tree@),
                top@,
                0,
            ));
        }
        while i < self.tree.len()
            invariant
                i <= self.tree.len(),
                top@ == Seq::<bool>::empty(),
                line_views(lines@) == rendered_siblings(
                    self.todos@,
                    shapes(self.tree@),
                    top@,
                    i as nat,
                ),
            decreases self.tree.len() - i,
        {
            let is_last = i == self.tree.len() - 1;
            self.render_node(&self.tree[i], &mut lines, &top, is_last);
            i += 1;
        }
        lines
    }
}

/// The expansion state after every task on the way up from `current` has
/// been opened, and the tasks that were not open before, nearest first. The
/// way ends after `fuel` steps at the latest.
pub open spec fn opened_walk(
    todos: Seq<Todo>,
    expansion: Map<i64, bool>,
    current: Option<i64>,
    fuel: nat,
) -> (Map<i64, bool>, Seq<i64>)
    decreases fuel,
{
    match current {
        Some(id) if fuel > 0 => {
            let newly = !(expansion.contains_key(id) && expansion[id]);
            let marked = if newly {
                expansion.insert(id, true)
            } else {
                expansion
            };
            let rest = opened_walk(todos, marked, parent_of(todos, id), (fuel - 1) as nat);
            (
                rest.0,
                if newly {
                    seq![id] + rest.1
                } else {
                    rest.1
                },
            )
        },
        _ => (expansion, Seq::empty()),
    }
}

/// The record `t` with its completion time replaced.
pub open spec fn with_completion(t: Todo, completed_at: Option<Timestamp>) -> Todo {
    Todo {
        id: t.id,
        title: t.title,
        description: t.description,
        created_at: t.created_at,
        completed_at,
        due_by: t.due_by,
        parent_id: t.parent_id,
        hidden: t.hidden,
    }
}

/// The working set after the completion time of task `id` has been set.
pub open spec fn todos_with_completion(
    todos: Seq<Todo>,
    id: i64,
    completed_at: Option<Timestamp>,
) -> Seq<Todo> {
    match crate::hierarchy::position_of(todos, id) {
        Some(i) => todos.update(i, with_completion(todos[i], completed_at)),
        None => todos,
    }
}

/// The rows after the row that the index names for task `id` has been given
/// the text that goes with the record and with the branch being open or
/// folded as `open` says. Without a record, or without a node that says
/// whether the branch is open, the rows stay as they are.
pub open spec fn lines_with_completion(
    lines: Seq<LineView>,
    index: Map<i64, usize>,
    id: i64,
    record: Option<Todo>,
    open: Option<bool>,
) -> Seq<LineView> {
    if index.contains_key(id) && index[id] < lines.len() && record is Some && open is Some {
        let at = index[id] as int;
        lines.update(
            at,
            LineView {
                todo_id: lines[at].todo_id,
                prefix: lines[at].prefix,
                display_text: display_text(record->0, lines[at].has_children, open->0),
                has_children: lines[at].has_children,
            },
        )
    } else {
        lines
    }
}

/// The outline as a mathematical value.
pub struct OutlineModel {
    pub todos: Seq<Todo>,
    pub expansion: Map<i64, bool>,
    pub tree: Seq<TreeShape>,
    pub lines: Seq<LineView>,
    pub index: Map<i64, usize>,
}

impl OutlineModel {
    /// The forest, the rows and the index are what the working set and the
    /// expansion state give.
    pub open spec fn is_current(self) -> bool {
        &&& self.tree == shown_forest(self.todos, self.expansion)
        &&& self.lines == rendered_forest(self.todos, self.tree)
        &&& self.index == line_index(self.lines)
    }

    /// The outline with forest, rows and index built anew.
    pub open spec fn refreshed(self) -> OutlineModel {
        let tree = shown_forest(self.todos, self.expansion);
        let lines = rendered_forest(self.todos, tree);
        OutlineModel {
            todos: self.todos,
            expansion: self.expansion,
            tree,
            lines,
            index: line_index(lines),
        }
    }

    /// The outline after the way up from task `id` has been opened, rebuilt
    /// if that opened anything, and the tasks that were opened.
    pub open spec fn revealed(self, id: i64) -> (OutlineModel, Seq<i64>) {
        let walk = opened_walk(
            self.todos,
            self.expansion,
            parent_of(self.todos, id),
            self.todos.len(),
        );
        let marked = OutlineModel {
            todos: self.todos,
            expansion: walk.0,
            tree: self.tree,
            lines: self.lines,
            index: self.index,
        };
        (
            if walk.1.len() > 0 {
                marked.refreshed()
            } else {
                marked
            },
            walk.1,
        )
    }

    /// The outline rebuilt from a new batch of records.
    pub open spec fn rebuilt(self, tasks: Seq<Todo>, show_hidden: bool) -> OutlineModel {
        (OutlineModel {
            todos: normalized(tasks, show_hidden),
            expansion: self.expansion,
            tree: self.tree,
            lines: self.lines,
            index: self.index,
        }).refreshed()
    }

    /// The outline after the expansion of task `id` has been flipped, and
    /// whether it was: a task without children is left alone. A task without
    /// a saved entry counts as open exactly when some incomplete task lies
    /// below it.
    pub open spec fn toggled(self, id: i64) -> (OutlineModel, bool) {
        if has_child(self.todos, id) {
            let open = resolved_expansion(self.todos, self.expansion, id);
            (
                (OutlineModel {
                    todos: self.todos,
                    expansion: self.expansion.insert(id, !open),
                    tree: self.tree,
                    lines: self.lines,
                    index: self.index,
                }).refreshed(),
                true,
            )
        } else {
            (self, false)
        }
    }

    /// The outline after the completion time of task `id` has been set and
    /// its row given the text that goes with the new record and with its
    /// node in the forest.
    pub open spec fn with_completion(self, id: i64, completed_at: Option<Timestamp>) -> OutlineModel {
        let todos = todos_with_completion(self.todos, id, completed_at);
        OutlineModel {
            todos,
            expansion: self.expansion,
            tree: self.tree,
            lines: lines_with_completion(
                self.lines,
                self.index,
                id,
                find(todos, id),
                expansion_in(self.tree, id),
            ),
            index: self.index,
        }
    }

    /// The row on which task `id` is shown, if the index names one.
    pub open spec fn row_of(self, id: i64) -> Option<usize> {
        if self.index.contains_key(id) {
            Some(self.index[id])
        } else {
            None
        }
    }
}

impl View for TodoTreeManager {
    type V = OutlineModel;

    open spec fn view(&self) -> OutlineModel {
        OutlineModel {
            todos: self.todos@,
            expansion: self.expansion_states@,
            tree: shapes(self.tree@),
            lines: line_views(self.rendered_lines@),
            index: self.id_to_line@,
        }
    }
}

impl TodoTreeManager {
    /// The forest, the rows and the index are what the working set and the
    /// expansion state give.
    pub open spec fn outline_is_current(&self) -> bool {
        self@.is_current()
    }

    /// The working set holds each identifier once, newest first, and the
    /// outline is current.
    pub open spec fn wf(&self) -> bool {
        &&& unique_ids(self.todos@)
        &&& is_newest_first(self.todos@)
        &&& self.outline_is_current()
    }

    /// `self` is `before` with the completion time of task `id` set and its
    /// row given the text that goes with the new record and with its node in
    /// the forest; nothing else differs.
    pub open spec fn completion_set(
        &self,
        before: &TodoTreeManager,
        id: i64,
        completed_at: Option<Timestamp>,
    ) -> bool {
        &&& self.todos@ == todos_with_completion(before.todos@, id, completed_at)
        &&& line_views(self.rendered_lines@) == lines_with_completion(
            line_views(before.rendered_lines@),
            before.id_to_line@,
            id,
            find(self.todos@, id),
            expansion_in(shapes(before.tree@), id),
        )
        &&& shapes(self.tree@) == shapes(before.tree@)
        &&& self.id_to_line@ == before.id_to_line@
        &&& self.expansion_states@ == before.expansion_states@
    }

    /// An outline without tasks.
    pub fn new() -> (manager: Self)
        ensures
            manager.todos@ == Seq::<Todo>::empty(),
            manager.tree@ == Seq::<TreeNode>::empty(),
            manager.rendered_lines@ == Seq::<RenderedLine>::empty(),
            manager.id_to_line@ == Map::<i64, usize>::empty(),
            manager.expansion_states@ == Map::<i64, bool>::empty(),
            manager.wf(),
    {
        let manager = TodoTreeManager {
            tree: Vec::new(),
            todos: Vec::new(),
            rendered_lines: Vec::new(),
            id_to_line: HashMap::new(),
            expansion_states: HashMap::new(),
        };
        proof {
            assert(shapes(manager.tree@) =~= Seq::<TreeShape>::empty());
            assert(children_of(manager.todos@, None) =~= Seq::<Todo>::empty());
            assert(full_forest(manager.todos@, manager.expansion_states@) =~= Seq::<
                TreeShape,
            >::empty());
            assert(line_views(manager.rendered_lines@) =~= Seq::<LineView>::empty());
        }
        manager
    }

    /// Builds the forest, the rows and the index anew from the working set
    /// and the expansion state.
    pub fn refresh_outline(&mut self)
        ensures
            final(self).todos@ == old(self).todos@,
            final(self).expansion_states@ == old(self).expansion_states@,
            final(self).outline_is_current(),
            final(self)@ == old(self)@.refreshed(),
    {
        self.tree = self.build_tree();
        self.rendered_lines = self.render_tree();
        self.id_to_line = index_lines(&self.rendered_lines);
    }

    /// Takes a new batch of records, hidden tasks left out.
    pub fn rebuild_from_todos(&mut self, todos: Vec<Todo>)
        ensures
            final(self).todos@ == normalized(todos@, false),
            final(self).expansion_states@ == old(self).expansion_states@,
            final(self).wf(),
    {
        self.rebuild_from_todos_with_hidden_filter(todos, false);
    }

    /// Takes a new batch of records; hidden tasks take part only when
    /// `show_hidden` is set. The expansion state stays as it is.
    pub fn rebuild_from_todos_with_hidden_filter(&mut self, todos: Vec<Todo>, show_hidden: bool)
        ensures
            final(self).todos@ == normalized(todos@, show_hidden),
            final(self).expansion_states@ == old(self).expansion_states@,
            final(self).wf(),
            final(self)@ == old(self)@.rebuilt(todos@, show_hidden),
    {
        self.todos = normalize(&todos, show_hidden);
        self.refresh_outline();
    }

    /// The rows of the outline, top to bottom.
    pub fn get_rendered_lines(&self) -> (lines: &Vec<RenderedLine>)
        ensures
            lines == &self.rendered_lines,
    {
        &self.rendered_lines
    }

    /// The record of task `id` in the working set.
    pub fn get_todo_by_id(&self, id: i64) -> (found: Option<&Todo>)
        ensures
            match found {
                Some(t) => find(self.todos@, id) == Some(*t),
                None => find(self.todos@, id) is None,
            },
    {
        find_todo(&self.todos, id)
    }

    /// The row on which task `todo_id` is shown, if it has one.
    pub fn get_line_index_for_todo(&self, todo_id: i64) -> (row: Option<usize>)
        ensures
            row == self@.row_of(todo_id),
    {
        match self.id_to_line.get(&todo_id) {
            Some(row) => Some(*row),
            None => None,
        }
    }

    /// Sets the completion time of task `todo_id` and gives its row the text
    /// that rendering gives for its node: short identifier, status box, the
    /// arrow of the node if the row has children, title. The forest is left
    /// as it is: which roots are shown and which branches are open by default
    /// only changes with the next rebuild.
    pub fn set_todo_completion(&mut self, todo_id: i64, completed_at: Option<Timestamp>)
        ensures
            final(self).completion_set(old(self), todo_id, completed_at),
            final(self)@ == old(self)@.with_completion(todo_id, completed_at),
    {
        match find_position(&self.todos, todo_id) {
            Some(i) => {
                let mut changed = self.todos[i].clone();
                changed.completed_at = completed_at;
                self.todos.set(i, changed);
            },
            None => {},
        }
        let row = self.get_line_index_for_todo(todo_id);
        let open = find_expansion(&self.tree, todo_id);
        match (row, open) {
            (Some(at), Some(is_expanded)) => {
                if at < self.rendered_lines.len() {
                    match find_todo(&self.todos, todo_id) {
                        Some(todo) => {
                            let has_children = self.rendered_lines[at].has_children;
                            let text = format_display_text(todo, has_children, is_expanded);
                            let line = RenderedLine {
                                todo_id: self.rendered_lines[at].todo_id,
                                prefix: self.rendered_lines[at].prefix.clone(),
                                display_text: text,
                                has_children,
                            };
                            self.rendered_lines.set(at, line);
                        },
                        None => {},
                    }
                }
            },
            _ => {},
        }
        proof {
            assert(line_views(self.rendered_lines@) =~= lines_with_completion(
                line_views(old(self).rendered_lines@),
                old(self).id_to_line@,
                todo_id,
                find(self.todos@, todo_id),
                expansion_in(shapes(old(self).tree@), todo_id),
            ));
        }
    }

    /// Marks task `todo_id` completed as of now, or not completed, and gives
    /// its row the text that rendering gives for its node.
    pub fn update_todo_completion(&mut self, todo_id: i64, is_completed: bool)
        ensures
            is_completed ==> exists|at: Timestamp|
                final(self).completion_set(old(self), todo_id, Some(at)) && final(self)@ == old(
                    self,
                )@.with_completion(todo_id, Some(at)),
            !is_completed ==> final(self).completion_set(old(self), todo_id, None),
            !is_completed ==> final(self)@ == old(self)@.with_completion(todo_id, None),
    {
        if is_completed {
            let now = current_time();
            self.set_todo_completion(todo_id, Some(now));
        } else {
            self.set_todo_completion(todo_id, None);
        }
    }

    /// Whether some task of the working set names `target_id` as its parent.
    pub fn node_has_children(&self, target_id: i64) -> (found: bool)
        ensures
            found == has_child(self.todos@, target_id),
    {
        let mut i: usize = 0;
        while i < self.todos.len()
            invariant
                i <= self.todos.len(),
                forall|j: int| 0 <= j < i ==> (#[trigger] self.todos@[j]).parent_id != Some(target_id),
            decreases self.todos.len() - i,
        {
            if same_parent(self.todos[i].parent_id, Some(target_id)) {
                return true;
            }
            i += 1;
        }
        false
    }

    /// Whether some incomplete task lies below task `id`.
    pub fn has_incomplete_below(&self, id: i64) -> (found: bool)
        ensures
            found == has_incomplete_descendant(self.todos@, id),
    {
        let mut i: usize = 0;
        while i < self.todos.len()
            invariant
                i <= self.todos.len(),
                forall|j: int|
                    0 <= j < i ==> !(!(#[trigger] self.todos@[j]).completed() && is_descendant(
                        self.todos@,
                        self.todos@[j].id,
                        id,
                    )),
            decreases self.todos.len() - i,
        {
            if !self.todos[i].is_completed() && is_descendant_of(
                &self.todos,
                self.todos[i].id,
                id,
            ) {
                return true;
            }
            i += 1;
        }
        false
    }

    /// Whether the branch of task `id` counts as open: as the saved entry
    /// says, and without one, exactly when some incomplete task lies below.
    pub fn counts_as_open(&self, id: i64) -> (open: bool)
        ensures
            open == resolved_expansion(self.todos@, self.expansion_states@, id),
    {
        match self.expansion_states.get(&id) {
            Some(saved) => *saved,
            None => self.has_incomplete_below(id),
        }
    }

    /// Opens the branch of task `todo_id` if it counts as folded, folds it
    /// if it counts as open, saves that, and rebuilds the outline. A task
    /// without children is left alone.
    pub fn toggle_expansion(&mut self, todo_id: i64) -> (toggled: bool)
        ensures
            toggled == has_child(old(self).todos@, todo_id),
            final(self).todos@ == old(self).todos@,
            toggled ==> final(self).expansion_states@ == old(self).expansion_states@.insert(
                todo_id,
                !resolved_expansion(old(self).todos@, old(self).expansion_states@, todo_id),
            ),
            toggled ==> final(self).outline_is_current(),
            !toggled ==> *final(self) == *old(self),
            (final(self)@, toggled) == old(self)@.toggled(todo_id),
            old(self).wf() ==> final(self).wf(),
    {
        if self.find_and_toggle_node(todo_id) {
            self.rendered_lines = self.render_tree();
            self.id_to_line = index_lines(&self.rendered_lines);
            true
        } else {
            false
        }
    }

    fn find_and_toggle_node(&mut self, target_id: i64) -> (toggled: bool)
        ensures
            toggled == has_child(old(self).todos@, target_id),
            final(self).todos@ == old(self).todos@,
            toggled ==> final(self).expansion_states@ == old(self).expansion_states@.insert(
                target_id,
                !resolved_expansion(old(self).todos@, old(self).expansion_states@, target_id),
            ),
            toggled ==> shapes(final(self).tree@) == shown_forest(
                final(self).todos@,
                final(self).expansion_states@,
            ),
            !toggled ==> *final(self) == *old(self),
    {
        if self.node_has_children(target_id) {
            let current_state = self.counts_as_open(target_id);
            self.expansion_states.insert(target_id, !current_state);
            self.tree = self.build_tree();
            true
        } else {
            false
        }
    }

    /// Opens every task on the way up from task `todo_id`, so that its row
    /// can be seen, and rebuilds the outline if that changed anything.
    /// Returns the tasks that were not open before, nearest first.
    pub fn expand_path_to_todo(&mut self, todo_id: i64) -> (opened_nodes: Vec<i64>)
        ensures
            final(self).todos@ == old(self).todos@,
            (final(self).expansion_states@, opened_nodes@) == opened_walk(
                old(self).todos@,
                old(self).expansion_states@,
                parent_of(old(self).todos@, todo_id),
                old(self).todos@.len(),
            ),
            opened_nodes@.len() > 0 ==> final(self).outline_is_current(),
            opened_nodes@.len() == 0 ==> {
                &&& final(self).tree@ == old(self).tree@
                &&& final(self).rendered_lines@ == old(self).rendered_lines@
                &&& final(self).id_to_line@ == old(self).id_to_line@
            },
            (final(self)@, opened_nodes@) == old(self)@.revealed(todo_id),
            old(self).wf() ==> final(self).wf(),
    {
        let mut opened_nodes: Vec<i64> = Vec::new();
        let mut current_parent_id = match find_todo(&self.todos, todo_id) {
            Some(todo) => todo.parent_id,
            None => None,
        };
        let mut steps: usize = 0;
        let ghost goal = opened_walk(
            self.todos@,
            self.expansion_states@,
            current_parent_id,
            self.todos@.len(),
        );
        proof {
            let rest = opened_walk(
                self.todos@,
                self.expansion_states@,
                current_parent_id,
                self.todos@.len(),
            );
            assert(opened_nodes@ + rest.1 =~= rest.1);
        }
        while steps < self.todos.len() && current_parent_id.is_some()
            invariant
                steps <= self.todos.len(),
                self.todos@ == old(self).todos@,
                self.tree@ == old(self).tree@,
                self.rendered_lines@ == old(self).rendered_lines@,
                self.id_to_line@ == old(self).id_to_line@,
                goal.0 == opened_walk(
                    self.todos@,
                    self.expansion_states@,
                    current_parent_id,
                    (self.todos@.len() - steps) as nat,
                ).0,
                goal.1 == opened_nodes@ + opened_walk(
                    self.todos@,
                    self.expansion_states@,
                    current_parent_id,
                    (self.todos@.len() - steps) as nat,
                ).1,
            decreases self.todos.len() - steps,
        {
            let parent_id = current_parent_id.unwrap();
            let ghost before = opened_nodes@;
            let ghost state = self.expansion_states@;
            let was_expanded = match self.expansion_states.get(&parent_id) {
                Some(saved) => *saved,
                None => false,
            };
            if !was_expanded {
                self.expansion_states.insert(parent_id, true);
                opened_nodes.push(parent_id);
            }
            current_parent_id = match find_todo(&self.todos, parent_id) {
                Some(parent_todo) => parent_todo.parent_id,
                None => None,
            };
            steps += 1;
            proof {
                let rest = opened_walk(
                    self.todos@,
                    self.expansion_states@,
                    current_parent_id,
                    (self.todos@.len() - steps) as nat,
                );
                if !was_expanded {
                    assert(before.push(parent_id) + rest.1 =~= before + (seq![parent_id] + rest.1));
                }
            }
        }
        if opened_nodes.len() > 0 {
            self.refresh_outline();
        } else {
            proof {
                crate::path_laws::lemma_walk_only_opens(
                    old(self).todos@,
                    old(self).expansion_states@,
                    parent_of(old(self).todos@, todo_id),
                    old(self).todos@.len(),
                );
                assert(self.expansion_states@ =~= old(self).expansion_states@);
            }
        }
        opened_nodes
    }
}

/// Opening or folding a branch twice gives back the forest, the rows and the
/// index; the expansion state then holds for the task what it counted as
/// before.
pub proof fn lemma_toggle_twice(outline: OutlineModel, id: i64)
    requires
        unique_ids(outline.todos),
        outline.is_current(),
        has_child(outline.todos, id),
    ensures
        outline.toggled(id).1,
        outline.toggled(id).0.toggled(id).1,
        outline.toggled(id).0.toggled(id).0 == (OutlineModel {
            expansion: outline.expansion.insert(
                id,
                resolved_expansion(outline.todos, outline.expansion, id),
            ),
            ..outline
        }),
        outline.toggled(id).0.expansion[id] != resolved_expansion(
            outline.todos,
            outline.expansion,
            id,
        ),
{
    let open = resolved_expansion(outline.todos, outline.expansion, id);
    let once = outline.toggled(id).0;
    assert(once.expansion == outline.expansion.insert(id, !open));
    assert(resolved_expansion(once.todos, once.expansion, id) == !open);
    let twice = once.toggled(id).0;
    assert(twice.expansion =~= outline.expansion.insert(id, open));
    crate::forest_laws::lemma_saving_the_resolved_keeps_the_forest(
        outline.todos,
        outline.expansion,
        id,
    );
}

/// Two outlines that were rebuilt from the same batch of records under the
/// same expansion state show the same rows.
pub proof fn lemma_rebuild_is_deterministic(
    first: TodoTreeManager,
    second: TodoTreeManager,
    tasks: Seq<Todo>,
    show_hidden: bool,
)
    requires
        first.todos@ == normalized(tasks, show_hidden),
        second.todos@ == normalized(tasks, show_hidden),
        first.expansion_states@ == second.expansion_states@,
        first.outline_is_current(),
        second.outline_is_current(),
    ensures
        line_views(first.rendered_lines@) == line_views(second.rendered_lines@),
        shapes(first.tree@) == shapes(second.tree@),
        first.id_to_line@ == second.id_to_line@,
{
}

/// A task without a parent has a root in the outline exactly when it is
/// incomplete or some incomplete task lies below it.
pub proof fn lemma_outline_roots(manager: TodoTreeManager, i: int)
    requires
        manager.wf(),
        0 <= i < manager.todos@.len(),
        manager.todos@[i].parent_id is None,
    ensures
        (exists|k: int|
            0 <= k < manager.tree@.len() && (#[trigger] manager.tree@[k]).id == manager.todos@[i].id)
            <==> (!manager.todos@[i].completed() || crate::forest_laws::has_incomplete_descendant(
            manager.todos@,
            manager.todos@[i].id,
        )),
{
    let shown = shown_forest(manager.todos@, manager.expansion_states@);
    crate::forest_laws::lemma_root_shown(manager.todos@, manager.expansion_states@, i);
    assert(shapes(manager.tree@) == shown);
    if exists|k: int|
        0 <= k < manager.tree@.len() && (#[trigger] manager.tree@[k]).id == manager.todos@[i].id {
        let k = choose|k: int|
            0 <= k < manager.tree@.len() && (#[trigger] manager.tree@[k]).id
                == manager.todos@[i].id;
        lemma_node_view(manager.tree@[k]);
        assert(shown[k].id == manager.todos@[i].id);
    }
    if exists|k: int| 0 <= k < shown.len() && (#[trigger] shown[k]).id == manager.todos@[i].id {
        let k = choose|k: int|
            0 <= k < shown.len() && (#[trigger] shown[k]).id == manager.todos@[i].id;
        lemma_node_view(manager.tree@[k]);
        assert(manager.tree@[k].id == manager.todos@[i].id);
    }
}

/// A node of the outline whose task has no saved entry is open exactly when
/// some incomplete task lies below it, and one whose task has a saved entry
/// is open exactly when the entry says so.
pub proof fn lemma_outline_expansion(manager: TodoTreeManager, node: TreeShape)
    requires
        manager.wf(),
        crate::forest::occurs_in(shapes(manager.tree@), node),
    ensures
        find(manager.todos@, node.id) is Some,
        node.is_expanded == (if manager.expansion_states@.contains_key(node.id) {
            manager.expansion_states@[node.id]
        } else {
            crate::forest_laws::has_incomplete_descendant(manager.todos@, node.id)
        }),
{
    crate::forest_laws::lemma_node_has_record(manager.todos@, manager.expansion_states@, node);
    if manager.expansion_states@.contains_key(node.id) {
        crate::forest_laws::lemma_saved_expansion(
            manager.todos@,
            manager.expansion_states@,
            node,
        );
    } else {
        crate::forest_laws::lemma_default_expansion(
            manager.todos@,
            manager.expansion_states@,
            node,
        );
    }
}

/// The row that the index of an outline names for a task shows that task,
/// and every task that has a row has one in the index.
pub proof fn lemma_outline_rows(manager: TodoTreeManager, id: i64)
    requires
        manager.wf(),
    ensures
        manager@.row_of(id) matches Some(row) ==> row < manager.rendered_lines@.len()
            && manager.rendered_lines@[row as int].todo_id == id,
        manager@.row_of(id) is None <==> forall|i: int|
            0 <= i < manager.rendered_lines@.len() ==> (#[trigger] manager.rendered_lines@[i]).todo_id
                != id,
{
    let lines = line_views(manager.rendered_lines@);
    assert(manager.rendered_lines.len() == lines.len());
    crate::outline::lemma_line_index(lines, id);
    if manager@.row_of(id) is None {
        assert forall|i: int| 0 <= i < manager.rendered_lines@.len() implies (
        #[trigger] manager.rendered_lines@[i]).todo_id != id by {
            assert(lines[i].todo_id == manager.rendered_lines@[i].todo_id);
        }
    } else {
        let row = manager@.row_of(id)->0;
        assert(lines[row as int].todo_id == manager.rendered_lines@[row as int].todo_id);
        assert(manager.rendered_lines@[row as int].todo_id == id);
    }
}

/// For each task that has a row, the position of its row.
pub fn index_lines(lines: &Vec<RenderedLine>) -> (index: HashMap<i64, usize>)
    ensures
        index@ == line_index(line_views(lines@)),
{
    let mut index: HashMap<i64, usize> = HashMap::new();
    let mut i: usize = 0;
    proof {
        assert(line_views(lines@).take(0) =~= Seq::<LineView>::empty());
    }
    while i < lines.len()
        invariant
            i <= lines.len(),
            index@ == line_index(line_views(lines@).take(i as int)),
        decreases lines.len() - i,
    {
        proof {
            assert(line_views(lines@).take(i + 1).drop_last() =~= line_views(lines@).take(i as int));
        }
        index.insert(lines[i].todo_id, i);
        i += 1;
    }
    proof {
        assert(line_views(lines@).take(lines.len() as int) =~= line_views(lines@));
    }
    index
}

} // verus!
