//! Choosing the new parent of a task on the rows of the outline. While a
//! task is being moved, the first position stands for the top level and the
//! rows of the outline follow it; a position is offered when moving the
//! task there would close no cycle.

use crate::hierarchy::{find, find_todo, is_descendant, is_descendant_of};
use crate::modes::AppMode;
use crate::outline::LineView;
use crate::todo::Todo;
use crate::tree::{line_views, RenderedLine};
use vstd::prelude::*;

verus! {

/// How many positions there are to choose from.
pub open spec fn position_count(mode: AppMode, rows: int) -> int {
    if mode == AppMode::Move {
        rows + 1
    } else {
        rows
    }
}

/// The row of the outline behind position `index`.
pub open spec fn row_behind(mode: AppMode, index: int) -> int {
    if mode == AppMode::Move {
        index - 1
    } else {
        index
    }
}

/// Position `index` may be chosen as the new parent of the task being
/// moved: it is the top level, or a row whose task is neither the task
/// itself nor one that lies below it.
pub open spec fn is_candidate(
    todos: Seq<Todo>,
    lines: Seq<LineView>,
    move_todo_id: Option<i64>,
    mode: AppMode,
    index: int,
) -> bool {
    move_todo_id matches Some(moved) && ((mode == AppMode::Move && index == 0) || ({
        let row = row_behind(mode, index);
        0 <= row < lines.len() && lines[row].todo_id != moved && !is_descendant(
            todos,
            lines[row].todo_id,
            moved,
        )
    }))
}

/// Where a search for a candidate ends that goes down from position `next`,
/// round after the last position, and stops at a candidate, on coming back
/// to position `current`, or when `fuel` runs out.
pub open spec fn scan_down(
    todos: Seq<Todo>,
    lines: Seq<LineView>,
    move_todo_id: Option<i64>,
    mode: AppMode,
    current: int,
    next: int,
    fuel: nat,
) -> int
    decreases fuel,
{
    let total = position_count(mode, lines.len() as int);
    if fuel == 0 || is_candidate(todos, lines, move_todo_id, mode, next) {
        next
    } else {
        let further = (next + 1) % total;
        if further == current {
            further
        } else {
            scan_down(todos, lines, move_todo_id, mode, current, further, (fuel - 1) as nat)
        }
    }
}

/// The position one up from `index`, the last from the first.
pub open spec fn one_position_up(index: int, total: int) -> int {
    if index == 0 {
        total - 1
    } else {
        index - 1
    }
}

/// As `scan_down`, going up.
pub open spec fn scan_up(
    todos: Seq<Todo>,
    lines: Seq<LineView>,
    move_todo_id: Option<i64>,
    mode: AppMode,
    current: int,
    next: int,
    fuel: nat,
) -> int
    decreases fuel,
{
    let total = position_count(mode, lines.len() as int);
    if fuel == 0 || is_candidate(todos, lines, move_todo_id, mode, next) {
        next
    } else {
        let further = one_position_up(next, total);
        if further == current {
            further
        } else {
            scan_up(todos, lines, move_todo_id, mode, current, further, (fuel - 1) as nat)
        }
    }
}

/// The first candidate among the first `count` positions.
pub open spec fn first_candidate(
    todos: Seq<Todo>,
    lines: Seq<LineView>,
    move_todo_id: Option<i64>,
    mode: AppMode,
    count: nat,
) -> Option<int>
    decreases count,
{
    if count == 0 {
        None
    } else {
        match first_candidate(todos, lines, move_todo_id, mode, (count - 1) as nat) {
            Some(index) => Some(index),
            None => if is_candidate(todos, lines, move_todo_id, mode, count - 1) {
                Some(count - 1)
            } else {
                None
            },
        }
    }
}

/// The position of the first row that shows task `id`.
pub open spec fn position_of_task(lines: Seq<LineView>, mode: AppMode, id: i64) -> Option<int>
    decreases lines.len(),
{
    if lines.len() == 0 {
        None
    } else {
        match position_of_task(lines.drop_last(), mode, id) {
            Some(index) => Some(index),
            None => if lines.last().todo_id == id {
                Some(position_count(mode, lines.len() - 1))
            } else {
                None
            },
        }
    }
}

/// Where the choice begins: at the parent that the task has now, at the top
/// level for a task without one, else at the first candidate; as it was
/// where no task is being moved or nothing can be chosen.
pub open spec fn starting_position(
    todos: Seq<Todo>,
    lines: Seq<LineView>,
    move_todo_id: Option<i64>,
    mode: AppMode,
    selected: Option<usize>,
) -> Option<usize> {
    let first = match first_candidate(
        todos,
        lines,
        move_todo_id,
        mode,
        position_count(mode, lines.len() as int) as nat,
    ) {
        Some(index) => Some(index as usize),
        None => selected,
    };
    match move_todo_id {
        None => selected,
        Some(moved) => match find(todos, moved) {
            None => first,
            Some(t) => match t.parent_id {
                None => Some(0usize),
                Some(parent) => match position_of_task(lines, mode, parent) {
                    Some(index) => Some(index as usize),
                    None => first,
                },
            },
        },
    }
}

/// The selection after a step down to the next position that may be chosen.
pub open spec fn stepped_to_next(
    todos: Seq<Todo>,
    lines: Seq<LineView>,
    move_todo_id: Option<i64>,
    mode: AppMode,
    selected: Option<usize>,
) -> Option<usize> {
    match selected {
        Some(current) => {
            let total = position_count(mode, lines.len() as int);
            if total == 0 {
                selected
            } else {
                Some(
                    scan_down(
                        todos,
                        lines,
                        move_todo_id,
                        mode,
                        current as int,
                        (current + 1) % total,
                        total as nat,
                    ) as usize,
                )
            }
        },
        None => None,
    }
}

/// The selection after a step up to the next position that may be chosen.
pub open spec fn stepped_to_previous(
    todos: Seq<Todo>,
    lines: Seq<LineView>,
    move_todo_id: Option<i64>,
    mode: AppMode,
    selected: Option<usize>,
) -> Option<usize> {
    match selected {
        Some(current) => {
            let total = position_count(mode, lines.len() as int);
            if total == 0 {
                selected
            } else {
                Some(
                    scan_up(
                        todos,
                        lines,
                        move_todo_id,
                        mode,
                        current as int,
                        one_position_up(current as int, total),
                        (current + total) as nat,
                    ) as usize,
                )
            }
        },
        None => None,
    }
}

fn in_move_mode(mode: AppMode) -> (moving: bool)
    ensures
        moving == (mode == AppMode::Move),
{
    match mode {
        AppMode::Move => true,
        _ => false,
    }
}

/// Whether position `index` may be chosen as the new parent.
pub fn is_valid_parent_candidate_at_index(
    todos: &Vec<Todo>,
    lines: &Vec<RenderedLine>,
    move_todo_id: Option<i64>,
    mode: AppMode,
    index: usize,
) -> (valid: bool)
    ensures
        valid == is_candidate(todos@, line_views(lines@), move_todo_id, mode, index as int),
{
    match move_todo_id {
        Some(moved) => {
            let moving = in_move_mode(mode);
            if moving && index == 0 {
                return true;
            }
            let tree_index = if moving {
                index - 1
            } else {
                index
            };
            if tree_index < lines.len() {
                let todo_id = lines[tree_index].todo_id;
                todo_id != moved && !is_descendant_of(todos, todo_id, moved)
            } else {
                false
            }
        },
        None => false,
    }
}

/// Whether the selection is on the position that stands for the top level.
pub fn is_highlighting_root_position(mode: AppMode, selected: Option<usize>) -> (root: bool)
    ensures
        root == (mode == AppMode::Move && selected == Some(0usize)),
{
    if in_move_mode(mode) {
        match selected {
            Some(index) => index == 0,
            None => false,
        }
    } else {
        false
    }
}

/// The row of the outline that a selection stands for: the row itself, and
/// while a task is being moved the row before it, none for the top level.
pub fn selected_tree_row(mode: AppMode, selected: Option<usize>) -> (row: Option<usize>)
    ensures
        row == (match selected {
            Some(index) => if mode == AppMode::Move {
                if index == 0 {
                    None
                } else {
                    Some((index - 1) as usize)
                }
            } else {
                Some(index)
            },
            None => None,
        }),
{
    match selected {
        Some(index) => {
            if in_move_mode(mode) {
                if index == 0 {
                    None
                } else {
                    Some(index - 1)
                }
            } else {
                Some(index)
            }
        },
        None => None,
    }
}

/// The position of the first row that shows task `todo_id`.
pub fn find_todo_index_in_tree(lines: &Vec<RenderedLine>, mode: AppMode, todo_id: i64) -> (found:
    Option<usize>)
    ensures
        match found {
            Some(index) => position_of_task(line_views(lines@), mode, todo_id) == Some(
                index as int,
            ),
            None => position_of_task(line_views(lines@), mode, todo_id) is None,
        },
{
    let moving = in_move_mode(mode);
    let mut i: usize = 0;
    proof {
        assert(line_views(lines@).take(0) =~= Seq::<LineView>::empty());
    }
    while i < lines.len()
        invariant
            i <= lines.len(),
            moving == (mode == AppMode::Move),
            position_of_task(line_views(lines@).take(i as int), mode, todo_id) is None,
        decreases lines.len() - i,
    {
        proof {
            assert(line_views(lines@).take(i + 1).drop_last() =~= line_views(lines@).take(i as int));
            assert(line_views(lines@).take(i + 1).last() == lines@[i as int]@);
        }
        if lines[i].todo_id == todo_id {
            proof {
                lemma_found_stays(line_views(lines@), mode, todo_id, i + 1);
            }
            return Some(if moving {
                i + 1
            } else {
                i
            });
        }
        i += 1;
    }
    proof {
        assert(line_views(lines@).take(lines.len() as int) =~= line_views(lines@));
    }
    None
}

/// What is found among the first rows is what is found among all rows.
proof fn lemma_found_stays(lines: Seq<LineView>, mode: AppMode, id: i64, count: int)
    requires
        0 <= count <= lines.len(),
        position_of_task(lines.take(count), mode, id) is Some,
    ensures
        position_of_task(lines, mode, id) == position_of_task(lines.take(count), mode, id),
    decreases lines.len() - count,
{
    if count == lines.len() {
        assert(lines.take(count) =~= lines);
    } else {
        assert(lines.take(count + 1).drop_last() =~= lines.take(count));
        lemma_found_stays(lines, mode, id, count + 1);
    }
}

/// The first position that may be chosen, or the selection as it is where
/// none may.
pub fn move_to_first_valid_parent(
    todos: &Vec<Todo>,
    lines: &Vec<RenderedLine>,
    move_todo_id: Option<i64>,
    mode: AppMode,
    selected: Option<usize>,
) -> (moved: Option<usize>)
    ensures
        moved == (match first_candidate(
            todos@,
            line_views(lines@),
            move_todo_id,
            mode,
            position_count(mode, lines@.len() as int) as nat,
        ) {
            Some(index) => Some(index as usize),
            None => selected,
        }),
{
    let moving = in_move_mode(mode);
    let rows = lines.len();
    let mut index: usize = 0;
    while index < rows || (moving && index == rows)
        invariant
            rows == lines@.len(),
            moving == (mode == AppMode::Move),
            index <= position_count(mode, rows as int),
            first_candidate(todos@, line_views(lines@), move_todo_id, mode, index as nat) is None,
        decreases position_count(mode, rows as int) - index,
    {
        if is_valid_parent_candidate_at_index(todos, lines, move_todo_id, mode, index) {
            proof {
                lemma_first_candidate_stays(
                    todos@,
                    line_views(lines@),
                    move_todo_id,
                    mode,
                    (index + 1) as nat,
                    position_count(mode, rows as int) as nat,
                );
            }
            return Some(index);
        }
        if index == rows {
            return selected;
        }
        index += 1;
    }
    selected
}

/// The first candidate among the first positions is the first among more.
proof fn lemma_first_candidate_stays(
    todos: Seq<Todo>,
    lines: Seq<LineView>,
    move_todo_id: Option<i64>,
    mode: AppMode,
    count: nat,
    more: nat,
)
    requires
        count <= more,
        first_candidate(todos, lines, move_todo_id, mode, count) is Some,
    ensures
        first_candidate(todos, lines, move_todo_id, mode, more) == first_candidate(
            todos,
            lines,
            move_todo_id,
            mode,
            count,
        ),
    decreases more - count,
{
    if count < more {
        lemma_first_candidate_stays(todos, lines, move_todo_id, mode, count, (more - 1) as nat);
    }
}

/// Where the choice of a new parent begins.
pub fn highlight_current_parent_for_move(
    todos: &Vec<Todo>,
    lines: &Vec<RenderedLine>,
    move_todo_id: Option<i64>,
    mode: AppMode,
    selected: Option<usize>,
) -> (moved: Option<usize>)
    ensures
        moved == starting_position(todos@, line_views(lines@), move_todo_id, mode, selected),
{
    match move_todo_id {
        Some(moved_id) => {
            match find_todo(todos, moved_id) {
                Some(todo) => {
                    match todo.parent_id {
                        Some(parent_id) => {
                            match find_todo_index_in_tree(lines, mode, parent_id) {
                                Some(parent_index) => {
                                    return Some(parent_index);
                                },
                                None => {},
                            }
                        },
                        None => {
                            return Some(0);
                        },
                    }
                },
                None => {},
            }
            move_to_first_valid_parent(todos, lines, move_todo_id, mode, selected)
        },
        None => selected,
    }
}

/// The next position down that may be chosen, going round; the search ends
/// where it began if none may. Without a selection or without positions the
/// selection stays as it is.
pub fn move_to_next_valid_parent(
    todos: &Vec<Todo>,
    lines: &Vec<RenderedLine>,
    move_todo_id: Option<i64>,
    mode: AppMode,
    selected: Option<usize>,
) -> (moved: Option<usize>)
    ensures
        match selected {
            Some(current) => {
                let total = position_count(mode, lines@.len() as int);
                if total == 0 {
                    moved == selected
                } else {
                    moved matches Some(index) && index == scan_down(
                        todos@,
                        line_views(lines@),
                        move_todo_id,
                        mode,
                        current as int,
                        (current + 1) % total,
                        total as nat,
                    )
                }
            },
            None => moved is None,
        },
        moved == stepped_to_next(todos@, line_views(lines@), move_todo_id, mode, selected),
{
    let current = match selected {
        Some(current) => current,
        None => {
            return None;
        },
    };
    let total: u128 = if in_move_mode(mode) {
        lines.len() as u128 + 1
    } else {
        lines.len() as u128
    };
    if total == 0 {
        return selected;
    }
    let mut next: u128 = (current as u128 + 1) % total;
    let mut fuel: u128 = total;
    let ghost goal = scan_down(
        todos@,
        line_views(lines@),
        move_todo_id,
        mode,
        current as int,
        next as int,
        total as nat,
    );
    while fuel > 0
        invariant
            total == position_count(mode, lines@.len() as int),
            0 < total <= usize::MAX + 1,
            0 <= next < total,
            fuel <= total,
            selected == Some(current),
            goal == scan_down(
                todos@,
                line_views(lines@),
                move_todo_id,
                mode,
                current as int,
                (current + 1) % (total as int),
                total as nat,
            ),
            goal == scan_down(
                todos@,
                line_views(lines@),
                move_todo_id,
                mode,
                current as int,
                next as int,
                fuel as nat,
            ),
        decreases fuel,
    {
        if is_valid_parent_candidate_at_index(todos, lines, move_todo_id, mode, next as usize) {
            return Some(next as usize);
        }
        let further = (next + 1) % total;
        if further == current as u128 {
            return Some(current);
        }
        next = further;
        fuel = fuel - 1;
    }
    Some(next as usize)
}

/// The next position up that may be chosen, going round; otherwise as
/// [`move_to_next_valid_parent`].
pub fn move_to_previous_valid_parent(
    todos: &Vec<Todo>,
    lines: &Vec<RenderedLine>,
    move_todo_id: Option<i64>,
    mode: AppMode,
    selected: Option<usize>,
) -> (moved: Option<usize>)
    ensures
        match selected {
            Some(current) => {
                let total = position_count(mode, lines@.len() as int);
                if total == 0 {
                    moved == selected
                } else {
                    moved matches Some(index) && index == scan_up(
                        todos@,
                        line_views(lines@),
                        move_todo_id,
                        mode,
                        current as int,
                        one_position_up(current as int, total),
                        (current + total) as nat,
                    )
                }
            },
            None => moved is None,
        },
        moved == stepped_to_previous(todos@, line_views(lines@), move_todo_id, mode, selected),
{
    let current = match selected {
        Some(current) => current,
        None => {
            return None;
        },
    };
    let total: u128 = if in_move_mode(mode) {
        lines.len() as u128 + 1
    } else {
        lines.len() as u128
    };
    if total == 0 {
        return selected;
    }
    let mut next: u128 = if current == 0 {
        total - 1
    } else {
        current as u128 - 1
    };
    let mut fuel: u128 = current as u128 + total;
    let ghost goal = scan_up(
        todos@,
        line_views(lines@),
        move_todo_id,
        mode,
        current as int,
        next as int,
        fuel as nat,
    );
    while fuel > 0
        invariant
            total == position_count(mode, lines@.len() as int),
            0 < total <= usize::MAX + 1,
            0 <= next <= usize::MAX,
            selected == Some(current),
            goal == scan_up(
                todos@,
                line_views(lines@),
                move_todo_id,
                mode,
                current as int,
                one_position_up(current as int, total as int),
                (current + total) as nat,
            ),
            goal == scan_up(
                todos@,
                line_views(lines@),
                move_todo_id,
                mode,
                current as int,
                next as int,
                fuel as nat,
            ),
        decreases fuel,
    {
        if is_valid_parent_candidate_at_index(todos, lines, move_todo_id, mode, next as usize) {
            return Some(next as usize);
        }
        let further = if next == 0 {
            total - 1
        } else {
            next - 1
        };
        if further == current as u128 {
            return Some(current);
        }
        next = further;
        fuel = fuel - 1;
    }
    Some(next as usize)
}

} // verus!
