//! The outline as a mathematical value: the lines that a forest gives when
//! it is walked depth first through its open branches, each with its tree
//! glyphs and its text.

use crate::forest::TreeShape;
use crate::hierarchy::find;
use crate::text::decimal;
use crate::todo::{short_id, Todo};
use vstd::prelude::*;

verus! {

/// One row of the outline as a value.
pub struct LineView {
    pub todo_id: i64,
    pub prefix: Seq<char>,
    pub display_text: Seq<char>,
    pub has_children: bool,
}

/// One column group for each level above: a vertical bar where that
/// ancestor has further siblings below, padding where it has none.
pub open spec fn continuation_text(continuations: Seq<bool>) -> Seq<char>
    decreases continuations.len(),
{
    if continuations.len() == 0 {
        Seq::empty()
    } else {
        continuation_text(continuations.drop_last()) + (if continuations.last() {
            "│   "@
        } else {
            "    "@
        })
    }
}

/// The connector of a row: a corner for the last sibling, a tee for the
/// others, nothing at the top level.
pub open spec fn connector_text(is_last_sibling: bool, depth: nat) -> Seq<char> {
    if depth == 0 {
        Seq::empty()
    } else if is_last_sibling {
        "└── "@
    } else {
        "├── "@
    }
}

/// The glyphs in front of a row.
pub open spec fn prefix_text(continuations: Seq<bool>, is_last_sibling: bool, depth: nat) -> Seq<
    char,
> {
    continuation_text(continuations) + connector_text(is_last_sibling, depth)
}

/// The box that tells whether the task is completed.
pub open spec fn status_icon(completed: bool) -> Seq<char> {
    if completed {
        "[✓]"@
    } else {
        "[ ]"@
    }
}

/// The arrow of a row with children: down when open, right when folded.
pub open spec fn expansion_indicator(has_children: bool, is_expanded: bool) -> Seq<char> {
    if !has_children {
        Seq::empty()
    } else if is_expanded {
        "▼ "@
    } else {
        "▶ "@
    }
}

/// The text of a row: short identifier, status box, arrow, title.
pub open spec fn display_text(t: Todo, has_children: bool, is_expanded: bool) -> Seq<char> {
    decimal(short_id(t.id as int)) + " "@ + status_icon(t.completed()) + " "@ + expansion_indicator(
        has_children,
        is_expanded,
    ) + t.title@
}

/// The row of `node`, which stands for the task `t`.
pub open spec fn line_of(
    t: Todo,
    node: TreeShape,
    continuations: Seq<bool>,
    is_last_sibling: bool,
) -> LineView {
    LineView {
        todo_id: node.id,
        prefix: prefix_text(continuations, is_last_sibling, continuations.len()),
        display_text: display_text(t, node.children.len() > 0, node.is_expanded),
        has_children: node.children.len() > 0,
    }
}

/// The rows of `node` and of what is visible below it. A node whose task has
/// no record gives no row.
pub open spec fn rendered_node(
    todos: Seq<Todo>,
    node: TreeShape,
    continuations: Seq<bool>,
    is_last_sibling: bool,
) -> Seq<LineView>
    decreases node, 0nat,
{
    match find(todos, node.id) {
        None => Seq::empty(),
        Some(t) => {
            let below = if node.children.len() > 0 && node.is_expanded {
                rendered_siblings(
                    todos,
                    node.children,
                    continuations.push(!is_last_sibling),
                    node.children.len(),
                )
            } else {
                Seq::empty()
            };
            seq![line_of(t, node, continuations, is_last_sibling)] + below
        },
    }
}

/// The rows of the first `count` of the siblings `nodes`.
pub open spec fn rendered_siblings(
    todos: Seq<Todo>,
    nodes: Seq<TreeShape>,
    continuations: Seq<bool>,
    count: nat,
) -> Seq<LineView>
    decreases nodes, count,
{
    if count == 0 || count > nodes.len() {
        Seq::empty()
    } else {
        rendered_siblings(todos, nodes, continuations, (count - 1) as nat) + rendered_node(
            todos,
            nodes[count - 1],
            continuations,
            count == nodes.len(),
        )
    }
}

/// The rows of a whole forest.
pub open spec fn rendered_forest(todos: Seq<Todo>, forest: Seq<TreeShape>) -> Seq<LineView> {
    rendered_siblings(todos, forest, Seq::empty(), forest.len())
}

/// For each task its row: the position of the last line that shows it.
pub open spec fn line_index(lines: Seq<LineView>) -> Map<i64, usize>
    decreases lines.len(),
{
    if lines.len() == 0 {
        Map::empty()
    } else {
        line_index(lines.drop_last()).insert(lines.last().todo_id, (lines.len() - 1) as usize)
    }
}

/// What the index holds: rows of the outline that show the task asked for,
/// and an entry for every task that has a row.
pub proof fn lemma_line_index(lines: Seq<LineView>, id: i64)
    requires
        lines.len() <= usize::MAX,
    ensures
        line_index(lines).contains_key(id) <==> exists|i: int|
            0 <= i < lines.len() && (#[trigger] lines[i]).todo_id == id,
        line_index(lines).contains_key(id) ==> line_index(lines)[id] < lines.len() && lines[line_index(
            lines,
        )[id] as int].todo_id == id,
    decreases lines.len(),
{
    if lines.len() > 0 {
        let front = lines.drop_last();
        lemma_line_index(front, id);
        if lines.last().todo_id == id {
            assert(lines[lines.len() - 1].todo_id == id);
        } else {
            if line_index(front).contains_key(id) {
                let i = choose|i: int| 0 <= i < front.len() && (#[trigger] front[i]).todo_id == id;
                assert(lines[i].todo_id == id);
                assert(lines[line_index(front)[id] as int] == front[line_index(front)[id] as int]);
            }
            if exists|i: int| 0 <= i < lines.len() && (#[trigger] lines[i]).todo_id == id {
                let i = choose|i: int| 0 <= i < lines.len() && (#[trigger] lines[i]).todo_id == id;
                assert(front[i].todo_id == id);
            }
        }
    }
}

} // verus!
