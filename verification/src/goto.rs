//! Jumping to a row by the short identifier that the outline shows.

use crate::hierarchy::find;
use crate::matches::{
    adopted_matches, closest_match, find_closest_match_index, in_tree_order,
    lemma_in_tree_order, same_ids, sort_by_tree_order,
};
use crate::outline::{line_index, LineView};
use crate::text::{parse_integer, parsed_integer};
use crate::todo::{short_id, Todo};
use crate::tree::{index_lines, line_views, OutlineModel, TodoTreeManager};
use vstd::prelude::*;

verus! {

/// The state of a jump by short identifier.
pub struct IdModGoto {
    /// The tasks on the rows whose short identifier is the one asked for.
    pub goto_matches: Vec<i64>,
    /// Position of the current match in `goto_matches`.
    pub goto_current_match_index: Option<usize>,
}

/// The tasks of the rows whose task has a record with the short identifier
/// `target`, top to bottom.
pub open spec fn rows_with_short_id(todos: Seq<Todo>, lines: Seq<LineView>, target: int) -> Seq<
    i64,
>
    decreases lines.len(),
{
    if lines.len() == 0 {
        Seq::empty()
    } else {
        let above = rows_with_short_id(todos, lines.drop_last(), target);
        match find(todos, lines.last().todo_id) {
            Some(t) => if short_id(t.id as int) == target {
                above.push(lines.last().todo_id)
            } else {
                above
            },
            None => above,
        }
    }
}

/// The position one step on from `start` in a round of `len` positions.
pub open spec fn step_round(forward: bool, start: int, len: int) -> int {
    if forward {
        (start + 1) % len
    } else if start == 0 {
        len - 1
    } else {
        start - 1
    }
}

/// The state of a jump as a mathematical value.
pub struct GotoModel {
    pub matches: Seq<i64>,
    pub current: Option<usize>,
}

impl View for IdModGoto {
    type V = GotoModel;

    open spec fn view(&self) -> GotoModel {
        GotoModel { matches: self.goto_matches@, current: self.goto_current_match_index }
    }
}

impl GotoModel {
    /// No jump is going on.
    pub open spec fn idle() -> GotoModel {
        GotoModel { matches: Seq::empty(), current: None }
    }

    /// The jump and the selected row after `query` was typed. A query that
    /// is empty or writes no number leaves no match.
    pub open spec fn updated(self, outline: OutlineModel, selection: Option<usize>, query: Seq<char>) -> (
        GotoModel,
        Option<usize>,
    ) {
        if query.len() == 0 || parsed_integer(query) is None {
            (GotoModel::idle(), selection)
        } else {
            let adopted = adopted_matches(
                self.matches,
                self.current,
                selection,
                outline.lines,
                outline.index,
                rows_with_short_id(outline.todos, outline.lines, parsed_integer(query)->0 as int),
            );
            (GotoModel { matches: adopted.0, current: adopted.1 }, adopted.2)
        }
    }

    /// The jump and the selected row after one step to the next or to the
    /// previous match, which is taken if it has a row.
    pub open spec fn stepped(self, outline: OutlineModel, selection: Option<usize>, forward: bool) -> (
        GotoModel,
        Option<usize>,
    ) {
        let len = self.matches.len() as int;
        let start = match self.current {
            Some(current) => current as int,
            None => 0,
        };
        let at = step_round(forward, start, len);
        if len > 0 && 0 <= at < len && outline.row_of(self.matches[at]) is Some {
            (
                GotoModel { matches: self.matches, current: Some(at as usize) },
                outline.row_of(self.matches[at]),
            )
        } else {
            (self, selection)
        }
    }
}

/// The tasks of the rows of the outline whose short identifier is `target`.
pub fn visible_with_short_id(tree_manager: &TodoTreeManager, target: i64) -> (found: Vec<i64>)
    ensures
        found@ == rows_with_short_id(tree_manager@.todos, tree_manager@.lines, target as int),
{
    let lines = &tree_manager.rendered_lines;
    let mut found: Vec<i64> = Vec::new();
    let mut i: usize = 0;
    proof {
        assert(line_views(lines@).take(0) =~= Seq::<LineView>::empty());
    }
    while i < lines.len()
        invariant
            i <= lines.len(),
            lines == &tree_manager.rendered_lines,
            found@ == rows_with_short_id(
                tree_manager@.todos,
                line_views(lines@).take(i as int),
                target as int,
            ),
        decreases lines.len() - i,
    {
        proof {
            assert(line_views(lines@).take(i + 1).drop_last() =~= line_views(lines@).take(i as int));
            assert(line_views(lines@).take(i + 1).last() == lines@[i as int]@);
        }
        match tree_manager.get_todo_by_id(lines[i].todo_id) {
            Some(todo) => {
                if todo.id_mod() == target {
                    found.push(lines[i].todo_id);
                }
            },
            None => {},
        }
        i += 1;
    }
    proof {
        assert(line_views(lines@).take(lines.len() as int) =~= line_views(lines@));
    }
    found
}

impl IdModGoto {
    /// No jump is going on.
    pub fn new() -> (goto: Self)
        ensures
            goto@ == GotoModel::idle(),
    {
        IdModGoto { goto_matches: Vec::new(), goto_current_match_index: None }
    }

    /// Forgets the matches.
    pub fn clear(&mut self)
        ensures
            final(self)@ == GotoModel::idle(),
    {
        self.goto_matches = Vec::new();
        self.goto_current_match_index = None;
    }

    /// Puts the matches in the order of the rows of the outline.
    pub fn sort_goto_matches_by_tree_order(&mut self, tree_manager: &TodoTreeManager)
        ensures
            final(self).goto_matches@ == in_tree_order(
                old(self).goto_matches@,
                line_index(tree_manager@.lines),
            ),
            final(self).goto_current_match_index == old(self).goto_current_match_index,
    {
        let index = index_lines(&tree_manager.rendered_lines);
        self.goto_matches = sort_by_tree_order(&self.goto_matches, &index);
    }

    /// The position that should become the current match for the selected
    /// row.
    pub fn find_closest_goto_match_index(
        &self,
        tree_manager: &TodoTreeManager,
        selected: Option<usize>,
    ) -> (position: usize)
        ensures
            position == closest_match(self.goto_matches@, tree_manager@.lines, selected),
            self.goto_matches@.len() > 0 ==> position < self.goto_matches@.len(),
    {
        find_closest_match_index(&self.goto_matches, &tree_manager.rendered_lines, selected)
    }

    /// Looks for the rows whose short identifier `goto_query` writes. A query
    /// that is empty or writes no number leaves no match. Matches that differ
    /// from those held replace them; the one nearest to the selected row
    /// becomes the current one and its row the selected row.
    pub fn update_goto_matches(
        &mut self,
        tree_manager: &TodoTreeManager,
        selection: &mut Option<usize>,
        goto_query: &str,
    )
        ensures
            (final(self)@, *final(selection)) == old(self)@.updated(
                tree_manager@,
                *old(selection),
                goto_query@,
            ),
    {
        if goto_query.is_empty() {
            self.clear();
            return ;
        }
        match parse_integer(goto_query) {
            Some(target_id_mod) => {
                let new_matches = visible_with_short_id(tree_manager, target_id_mod);
                if !same_ids(&new_matches, &self.goto_matches) {
                    self.goto_matches = new_matches;
                    self.sort_goto_matches_by_tree_order(tree_manager);
                    proof {
                        lemma_in_tree_order(new_matches@, line_index(tree_manager@.lines));
                    }
                    if self.goto_matches.len() == 0 {
                        self.goto_current_match_index = None;
                    } else {
                        let current = self.find_closest_goto_match_index(tree_manager, *selection);
                        self.goto_current_match_index = Some(current);
                        match tree_manager.get_line_index_for_todo(self.goto_matches[current]) {
                            Some(row) => {
                                *selection = Some(row);
                            },
                            None => {},
                        }
                    }
                }
            },
            None => {
                self.clear();
            },
        }
    }

    fn step(&mut self, tree_manager: &TodoTreeManager, selection: &mut Option<usize>, forward: bool)
        ensures
            (final(self)@, *final(selection)) == old(self)@.stepped(
                tree_manager@,
                *old(selection),
                forward,
            ),
    {
        let matches_len = self.goto_matches.len();
        if matches_len == 0 {
            return ;
        }
        let start_index = match self.goto_current_match_index {
            Some(current) => current,
            None => 0,
        };
        let at = if forward {
            ((start_index as u128 + 1) % (matches_len as u128)) as usize
        } else if start_index == 0 {
            matches_len - 1
        } else {
            start_index - 1
        };
        if at < matches_len {
            match tree_manager.get_line_index_for_todo(self.goto_matches[at]) {
                Some(row) => {
                    self.goto_current_match_index = Some(at);
                    *selection = Some(row);
                },
                None => {},
            }
        }
    }

    /// Steps to the next match, the first after the last, if it has a row.
    pub fn navigate_to_next_goto_match(
        &mut self,
        tree_manager: &TodoTreeManager,
        selection: &mut Option<usize>,
    )
        ensures
            (final(self)@, *final(selection)) == old(self)@.stepped(
                tree_manager@,
                *old(selection),
                true,
            ),
    {
        self.step(tree_manager, selection, true);
    }

    /// Steps to the previous match, the last before the first, if it has a
    /// row.
    pub fn navigate_to_previous_goto_match(
        &mut self,
        tree_manager: &TodoTreeManager,
        selection: &mut Option<usize>,
    )
        ensures
            (final(self)@, *final(selection)) == old(self)@.stepped(
                tree_manager@,
                *old(selection),
                false,
            ),
    {
        self.step(tree_manager, selection, false);
    }
}

} // verus!
