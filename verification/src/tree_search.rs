//! Search within the outline: the matches of a query in the order of their
//! rows, the current match, stepping from match to match with folded
//! branches opened on the way, and putting the expansion state back when the
//! search ends.

use crate::matches::{
    adopted_matches, closest_match, find_closest_match_index, in_tree_order, same_ids,
    sort_by_tree_order,
};
use crate::order::normalized;
use crate::outline::line_index;
use crate::search::{hits_of, ids_in_order, ids_of_todos, marked, search_todos};
use crate::todo::{clone_todos, Todo};
use crate::tree::{index_lines, OutlineModel, TodoTreeManager};
use std::collections::HashMap;
use vstd::prelude::*;

verus! {

/// The state of a search in the outline.
pub struct TreeSearch {
    /// The matching tasks, in the order of their rows.
    pub search_matches: Vec<i64>,
    /// Position of the current match in `search_matches`.
    pub current_match_index: Option<usize>,
    /// The tasks whose branches the search has opened, in the order in which
    /// it opened them.
    pub search_opened_nodes: Vec<i64>,
    /// The expansion state as it was when the search began.
    pub pre_search_expansion_state: HashMap<i64, bool>,
}

/// The saved entry of task `id`, if there is one.
pub open spec fn entry(expansion: Map<i64, bool>, id: i64) -> Option<bool> {
    if expansion.contains_key(id) {
        Some(expansion[id])
    } else {
        None
    }
}

/// The expansion state with the entry of every task in `opened` put back to
/// what it was in `before`: the old value, or no entry where there was none.
pub open spec fn restored(current: Map<i64, bool>, before: Map<i64, bool>, opened: Seq<i64>) -> Map<
    i64,
    bool,
> {
    Map::new(
        |id: i64|
            if opened.contains(id) {
                before.contains_key(id)
            } else {
                current.contains_key(id)
            },
        |id: i64|
            if opened.contains(id) {
                before[id]
            } else {
                current[id]
            },
    )
}

/// The state of a search as a mathematical value.
pub struct TreeSearchModel {
    pub matches: Seq<i64>,
    pub current: Option<usize>,
    pub opened: Seq<i64>,
    pub before: Map<i64, bool>,
}

impl View for TreeSearch {
    type V = TreeSearchModel;

    open spec fn view(&self) -> TreeSearchModel {
        TreeSearchModel {
            matches: self.search_matches@,
            current: self.current_match_index,
            opened: self.search_opened_nodes@,
            before: self.pre_search_expansion_state@,
        }
    }
}

impl TreeSearchModel {
    /// No search is going on.
    pub open spec fn idle() -> TreeSearchModel {
        TreeSearchModel {
            matches: Seq::empty(),
            current: None,
            opened: Seq::empty(),
            before: Map::empty(),
        }
    }

    /// A search that has just begun on `outline`.
    pub open spec fn begun(outline: OutlineModel) -> TreeSearchModel {
        TreeSearchModel {
            matches: Seq::empty(),
            current: None,
            opened: Seq::empty(),
            before: outline.expansion,
        }
    }

    /// The search and the selected row after a new list of matches came in.
    pub open spec fn with_matches(
        self,
        outline: OutlineModel,
        selection: Option<usize>,
        new_matches: Seq<i64>,
    ) -> (TreeSearchModel, Option<usize>) {
        let adopted = adopted_matches(
            self.matches,
            self.current,
            selection,
            outline.lines,
            outline.index,
            new_matches,
        );
        (
            TreeSearchModel {
                matches: adopted.0,
                current: adopted.1,
                opened: self.opened,
                before: self.before,
            },
            adopted.2,
        )
    }

    /// The search and the selected row after the corpus was searched for
    /// `query`. An empty query leaves no match.
    pub open spec fn searched(
        self,
        outline: OutlineModel,
        selection: Option<usize>,
        query: Seq<char>,
        corpus: Seq<Todo>,
    ) -> (TreeSearchModel, Option<usize>) {
        if query.len() == 0 {
            (
                TreeSearchModel {
                    matches: Seq::empty(),
                    current: None,
                    opened: self.opened,
                    before: self.before,
                },
                selection,
            )
        } else {
            self.with_matches(
                outline,
                selection,
                ids_in_order(marked(corpus, hits_of(query, corpus))),
            )
        }
    }

    /// The search, the outline and the selected row after a step to the next
    /// or to the previous match.
    pub open spec fn stepped(self, outline: OutlineModel, selection: Option<usize>, forward: bool) -> (
        TreeSearchModel,
        OutlineModel,
        Option<usize>,
    ) {
        if self.matches.len() == 0 {
            (self, outline, selection)
        } else {
            let outcome = navigate(
                outline,
                self.opened,
                self.matches,
                forward,
                match self.current {
                    Some(current) => current as int,
                    None => 0,
                },
                1,
            );
            match outcome.found {
                Some((at, row)) => (
                    TreeSearchModel {
                        matches: self.matches,
                        current: Some(at as usize),
                        opened: outcome.opened,
                        before: self.before,
                    },
                    outcome.outline,
                    Some(row),
                ),
                None => (
                    TreeSearchModel {
                        matches: self.matches,
                        current: self.current,
                        opened: outcome.opened,
                        before: self.before,
                    },
                    outcome.outline,
                    selection,
                ),
            }
        }
    }

    /// The outline after the expansion state was put back, rebuilt if that
    /// changed it.
    pub open spec fn put_back(self, outline: OutlineModel, show_hidden: bool) -> OutlineModel {
        let target = restored(outline.expansion, self.before, self.opened);
        if target == outline.expansion {
            outline
        } else {
            (OutlineModel {
                todos: outline.todos,
                expansion: target,
                tree: outline.tree,
                lines: outline.lines,
                index: outline.index,
            }).rebuilt(outline.todos, show_hidden)
        }
    }
}

/// The match that the `attempt`-th step from position `start` looks at,
/// going round the list of `len` matches forwards or backwards.
pub open spec fn candidate(forward: bool, start: int, attempt: int, len: int) -> int {
    if forward {
        (start + attempt) % len
    } else if start >= attempt {
        start - attempt
    } else {
        len - (attempt - start)
    }
}

/// How a step from match to match ends.
pub struct Navigation {
    /// The outline, with the branches that were opened on the way.
    pub outline: OutlineModel,
    /// The tasks opened by the search so far.
    pub opened: Seq<i64>,
    /// Position and row of the match that was reached, if one was.
    pub found: Option<(int, usize)>,
}

/// Steps from position `start` round the matches, beginning with the
/// `attempt`-th step. A match that has a row is taken at once. For one
/// without a row the way up from it is opened; it is taken if that opened
/// something and gave it a row. When all matches have been looked at and
/// none was taken, nothing is found.
pub open spec fn navigate(
    outline: OutlineModel,
    opened: Seq<i64>,
    matches: Seq<i64>,
    forward: bool,
    start: int,
    attempt: nat,
) -> Navigation
    decreases matches.len() + 1 - attempt,
{
    if attempt == 0 || attempt > matches.len() {
        Navigation { outline, opened, found: None }
    } else {
        let at = candidate(forward, start, attempt as int, matches.len() as int);
        if !(0 <= at < matches.len()) {
            navigate(outline, opened, matches, forward, start, attempt + 1)
        } else {
            let id = matches[at];
            match outline.row_of(id) {
                Some(row) => Navigation { outline, opened, found: Some((at, row)) },
                None => {
                    let (shown, newly) = outline.revealed(id);
                    if newly.len() > 0 && shown.row_of(id) is Some {
                        Navigation {
                            outline: shown,
                            opened: opened + newly,
                            found: Some((at, shown.row_of(id)->0)),
                        }
                    } else {
                        navigate(shown, opened + newly, matches, forward, start, attempt + 1)
                    }
                },
            }
        }
    }
}

/// A step that finds a match ends on the row that shows it, and what the
/// search had opened before is still on record.
pub proof fn lemma_navigation_finds_a_row(
    outline: OutlineModel,
    opened: Seq<i64>,
    matches: Seq<i64>,
    forward: bool,
    start: int,
    attempt: nat,
)
    ensures
        ({
            let outcome = navigate(outline, opened, matches, forward, start, attempt);
            &&& outcome.found matches Some((at, row)) ==> 0 <= at < matches.len()
                && outcome.outline.row_of(matches[at]) == Some(row)
            &&& outcome.outline.todos == outline.todos
            &&& opened.len() <= outcome.opened.len()
            &&& outcome.opened.take(opened.len() as int) == opened
        }),
    decreases matches.len() + 1 - attempt,
{
    if attempt == 0 || attempt > matches.len() {
        assert(opened.take(opened.len() as int) =~= opened);
    } else {
        let at = candidate(forward, start, attempt as int, matches.len() as int);
        if !(0 <= at < matches.len()) {
            lemma_navigation_finds_a_row(outline, opened, matches, forward, start, attempt + 1);
        } else {
            let id = matches[at];
            match outline.row_of(id) {
                Some(row) => {
                    assert(opened.take(opened.len() as int) =~= opened);
                },
                None => {
                    let (shown, newly) = outline.revealed(id);
                    assert((opened + newly).take(opened.len() as int) =~= opened);
                    if newly.len() > 0 && shown.row_of(id) is Some {
                    } else {
                        lemma_navigation_finds_a_row(
                            shown,
                            opened + newly,
                            matches,
                            forward,
                            start,
                            attempt + 1,
                        );
                        let outcome = navigate(
                            shown,
                            opened + newly,
                            matches,
                            forward,
                            start,
                            attempt + 1,
                        );
                        assert(outcome.opened.take(opened.len() as int) =~= outcome.opened.take(
                            (opened + newly).len() as int,
                        ).take(opened.len() as int));
                    }
                },
            }
        }
    }
}

fn saved_entry(expansion: &HashMap<i64, bool>, id: i64) -> (saved: Option<bool>)
    ensures
        saved == entry(expansion@, id),
{
    match expansion.get(&id) {
        Some(value) => Some(*value),
        None => None,
    }
}

fn same_entry(a: Option<bool>, b: Option<bool>) -> (same: bool)
    ensures
        same == (a == b),
{
    match (a, b) {
        (Some(x), Some(y)) => x == y,
        (None, None) => true,
        _ => false,
    }
}

impl TreeSearch {
    /// No search is going on: there are no matches, nothing was opened and
    /// nothing is kept of an earlier expansion state.
    pub open spec fn is_idle(&self) -> bool {
        &&& self.search_matches@.len() == 0
        &&& self.current_match_index is None
        &&& self.search_opened_nodes@.len() == 0
        &&& self.pre_search_expansion_state@ == Map::<i64, bool>::empty()
    }

    /// A search that has not begun.
    pub fn new() -> (search: Self)
        ensures
            search.is_idle(),
            search@ == TreeSearchModel::idle(),
    {
        TreeSearch {
            search_matches: Vec::new(),
            current_match_index: None,
            search_opened_nodes: Vec::new(),
            pre_search_expansion_state: HashMap::new(),
        }
    }

    /// Begins a search: the expansion state of the outline is kept for the
    /// end of the search, and there are no matches yet.
    pub fn begin(&mut self, tree_manager: &TodoTreeManager)
        ensures
            final(self).search_matches@.len() == 0,
            final(self).current_match_index is None,
            final(self).search_opened_nodes@.len() == 0,
            final(self).pre_search_expansion_state@ == tree_manager.expansion_states@,
            final(self)@ == TreeSearchModel::begun(tree_manager@),
    {
        self.search_matches = Vec::new();
        self.current_match_index = None;
        self.pre_search_expansion_state = tree_manager.expansion_states.clone();
        self.search_opened_nodes = Vec::new();
    }

    /// Puts the matches in the order of the rows of the outline, those
    /// without a row last.
    pub fn sort_matches_by_tree_order(&mut self, tree_manager: &TodoTreeManager)
        ensures
            final(self).search_matches@ == in_tree_order(
                old(self).search_matches@,
                line_index(tree_manager@.lines),
            ),
            final(self).current_match_index == old(self).current_match_index,
            final(self).search_opened_nodes@ == old(self).search_opened_nodes@,
            final(self).pre_search_expansion_state@ == old(self).pre_search_expansion_state@,
    {
        let index = index_lines(&tree_manager.rendered_lines);
        self.search_matches = sort_by_tree_order(&self.search_matches, &index);
    }

    /// The position that should become the current match for the selected
    /// row.
    pub fn find_closest_match_index(
        &self,
        tree_manager: &TodoTreeManager,
        selected: Option<usize>,
    ) -> (position: usize)
        ensures
            position == closest_match(self.search_matches@, tree_manager@.lines, selected),
            self.search_matches@.len() > 0 ==> position < self.search_matches@.len(),
    {
        find_closest_match_index(&self.search_matches, &tree_manager.rendered_lines, selected)
    }

    /// Takes the result of a search of the corpus. If it differs from the
    /// matches held, it replaces them, in the order of the rows; the match
    /// nearest to the selected row becomes the current one, and its row, if
    /// it has one, the selected row.
    pub fn set_matches(
        &mut self,
        tree_manager: &TodoTreeManager,
        selection: &mut Option<usize>,
        new_matches: Vec<i64>,
    )
        ensures
            (final(self)@, *final(selection)) == old(self)@.with_matches(
                tree_manager@,
                *old(selection),
                new_matches@,
            ),
    {
        if !same_ids(&new_matches, &self.search_matches) {
            self.search_matches = new_matches;
            self.sort_matches_by_tree_order(tree_manager);
            proof {
                crate::matches::lemma_in_tree_order(
                    new_matches@,
                    line_index(tree_manager@.lines),
                );
            }
            if self.search_matches.len() == 0 {
                self.current_match_index = None;
            } else {
                let current = self.find_closest_match_index(tree_manager, *selection);
                self.current_match_index = Some(current);
                match tree_manager.get_line_index_for_todo(self.search_matches[current]) {
                    Some(row) => {
                        *selection = Some(row);
                    },
                    None => {},
                }
            }
        }
    }

    /// Searches the corpus for `query` and takes the result as
    /// [`TreeSearch::set_matches`] does. An empty query leaves no match.
    pub fn update_tree_search_matches(
        &mut self,
        tree_manager: &TodoTreeManager,
        selection: &mut Option<usize>,
        query: &str,
        corpus: &Vec<Todo>,
    )
        ensures
            (final(self)@, *final(selection)) == old(self)@.searched(
                tree_manager@,
                *old(selection),
                query@,
                corpus@,
            ),
    {
        if query.is_empty() {
            self.search_matches = Vec::new();
            self.current_match_index = None;
        } else {
            let found = search_todos(corpus, query);
            let new_matches = ids_of_todos(&found);
            self.set_matches(tree_manager, selection, new_matches);
        }
    }

    fn step_to_match(
        &mut self,
        tree_manager: &mut TodoTreeManager,
        selection: &mut Option<usize>,
        forward: bool,
    )
        ensures
            (final(self)@, final(tree_manager)@, *final(selection)) == old(self)@.stepped(
                old(tree_manager)@,
                *old(selection),
                forward,
            ),
    {
        let matches_len = self.search_matches.len();
        if matches_len == 0 {
            return ;
        }
        let start_index = match self.current_match_index {
            Some(current) => current,
            None => 0,
        };
        let ghost goal = navigate(
            tree_manager@,
            self.search_opened_nodes@,
            self.search_matches@,
            forward,
            start_index as int,
            1,
        );
        let mut attempt: usize = 1;
        while attempt <= matches_len
            invariant
                1 <= attempt <= matches_len + 1,
                matches_len == self.search_matches@.len(),
                matches_len > 0,
                self.search_matches@ == old(self).search_matches@,
                self.pre_search_expansion_state@ == old(self).pre_search_expansion_state@,
                self.current_match_index == old(self).current_match_index,
                *selection == *old(selection),
                start_index == (match old(self).current_match_index {
                    Some(current) => current,
                    None => 0,
                }),
                goal == navigate(
                    tree_manager@,
                    self.search_opened_nodes@,
                    self.search_matches@,
                    forward,
                    start_index as int,
                    attempt as nat,
                ),
                goal == navigate(
                    old(tree_manager)@,
                    old(self).search_opened_nodes@,
                    old(self).search_matches@,
                    forward,
                    start_index as int,
                    1,
                ),
            decreases matches_len + 1 - attempt,
        {
            let at = if forward {
                ((start_index as u128 + attempt as u128) % (matches_len as u128)) as usize
            } else if start_index >= attempt {
                start_index - attempt
            } else {
                matches_len - (attempt - start_index)
            };
            assert(at == candidate(forward, start_index as int, attempt as int, matches_len as int));
            if at < matches_len {
                let match_todo_id = self.search_matches[at];
                match tree_manager.get_line_index_for_todo(match_todo_id) {
                    Some(row) => {
                        self.current_match_index = Some(at);
                        *selection = Some(row);
                        return ;
                    },
                    None => {},
                }
                let mut opened_nodes = tree_manager.expand_path_to_todo(match_todo_id);
                let was_opened = opened_nodes.len() > 0;
                self.search_opened_nodes.append(&mut opened_nodes);
                if was_opened {
                    match tree_manager.get_line_index_for_todo(match_todo_id) {
                        Some(row) => {
                            self.current_match_index = Some(at);
                            *selection = Some(row);
                            return ;
                        },
                        None => {},
                    }
                }
            }
            if attempt == matches_len {
                proof {
                    let rest = navigate(
                        tree_manager@,
                        self.search_opened_nodes@,
                        self.search_matches@,
                        forward,
                        start_index as int,
                        (attempt + 1) as nat,
                    );
                    assert(rest.found is None);
                    assert(goal == rest);
                }
                return ;
            }
            attempt += 1;
        }
    }

    /// Steps to the next match, going round the list. A match under folded
    /// branches is brought to view by opening them; the tasks opened are
    /// remembered for the end of the search. If no match can be brought to
    /// view, the current match and the selected row stay.
    pub fn navigate_to_next_match(
        &mut self,
        tree_manager: &mut TodoTreeManager,
        selection: &mut Option<usize>,
    )
        ensures
            (final(self)@, final(tree_manager)@, *final(selection)) == old(self)@.stepped(
                old(tree_manager)@,
                *old(selection),
                true,
            ),
    {
        self.step_to_match(tree_manager, selection, true);
    }

    /// Steps to the previous match, going round the list; otherwise as
    /// [`TreeSearch::navigate_to_next_match`].
    pub fn navigate_to_previous_match(
        &mut self,
        tree_manager: &mut TodoTreeManager,
        selection: &mut Option<usize>,
    )
        ensures
            (final(self)@, final(tree_manager)@, *final(selection)) == old(self)@.stepped(
                old(tree_manager)@,
                *old(selection),
                false,
            ),
    {
        self.step_to_match(tree_manager, selection, false);
    }

    /// Puts the expansion entry of every task that the search opened back to
    /// what it was when the search began, the old value or no entry, and
    /// forgets what the search kept. If that changed the expansion state,
    /// the outline is rebuilt from its working set.
    pub fn restore_pre_search_expansion_state(
        &mut self,
        tree_manager: &mut TodoTreeManager,
        show_hidden: bool,
    )
        ensures
            final(self).search_matches@ == old(self).search_matches@,
            final(self).current_match_index == old(self).current_match_index,
            final(self).search_opened_nodes@.len() == 0,
            final(self).pre_search_expansion_state@ == Map::<i64, bool>::empty(),
            final(tree_manager).expansion_states@ == restored(
                old(tree_manager).expansion_states@,
                old(self).pre_search_expansion_state@,
                old(self).search_opened_nodes@,
            ),
            forall|id: i64|
                old(self).search_opened_nodes@.contains(id) ==> entry(
                    final(tree_manager).expansion_states@,
                    id,
                ) == entry(old(self).pre_search_expansion_state@, id),
            forall|id: i64|
                !old(self).search_opened_nodes@.contains(id) ==> entry(
                    final(tree_manager).expansion_states@,
                    id,
                ) == entry(old(tree_manager).expansion_states@, id),
            final(tree_manager).expansion_states@ == old(tree_manager).expansion_states@
                ==> final(tree_manager)@ == old(tree_manager)@,
            final(tree_manager).expansion_states@ != old(tree_manager).expansion_states@ ==> {
                &&& final(tree_manager).todos@ == normalized(old(tree_manager).todos@, show_hidden)
                &&& final(tree_manager).wf()
            },
            final(tree_manager)@ == old(self)@.put_back(old(tree_manager)@, show_hidden),
    {
        let mut needs_rebuild = false;
        let ghost at_entry = tree_manager.expansion_states@;
        let ghost before = self.pre_search_expansion_state@;
        let ghost opened = self.search_opened_nodes@;
        let mut i: usize = 0;
        proof {
            assert(tree_manager.expansion_states@ =~= restored(at_entry, before, opened.take(0)));
        }
        while i < self.search_opened_nodes.len()
            invariant
                i <= self.search_opened_nodes.len(),
                self.search_opened_nodes@ == opened,
                self.pre_search_expansion_state@ == before,
                self.search_matches@ == old(self).search_matches@,
                self.current_match_index == old(self).current_match_index,
                tree_manager.todos@ == old(tree_manager).todos@,
                tree_manager.tree@ == old(tree_manager).tree@,
                tree_manager.rendered_lines@ == old(tree_manager).rendered_lines@,
                tree_manager.id_to_line@ == old(tree_manager).id_to_line@,
                tree_manager.expansion_states@ == restored(at_entry, before, opened.take(i as int)),
                needs_rebuild <==> exists|j: int|
                    0 <= j < i && entry(before, #[trigger] opened[j]) != entry(at_entry, opened[j]),
            decreases self.search_opened_nodes.len() - i,
        {
            let node_id = self.search_opened_nodes[i];
            let state_before = saved_entry(&self.pre_search_expansion_state, node_id);
            let current_state = saved_entry(&tree_manager.expansion_states, node_id);
            let ghost done = opened.take(i as int);
            let ghost grown = opened.take(i + 1);
            proof {
                if done.contains(node_id) {
                    let j = choose|j: int| 0 <= j < done.len() && done[j] == node_id;
                    assert(opened[j] == node_id);
                }
                assert forall|id: i64| grown.contains(id) <==> (done.contains(id) || id
                    == node_id) by {
                    if grown.contains(id) {
                        let j = choose|j: int| 0 <= j < grown.len() && grown[j] == id;
                        if j < i {
                            assert(done[j] == id);
                        }
                    }
                    if done.contains(id) {
                        let j = choose|j: int| 0 <= j < done.len() && done[j] == id;
                        assert(grown[j] == id);
                    }
                    if id == node_id {
                        assert(grown[i as int] == id);
                    }
                }
            }
            if !same_entry(current_state, state_before) {
                match state_before {
                    Some(value) => {
                        tree_manager.expansion_states.insert(node_id, value);
                    },
                    None => {
                        tree_manager.expansion_states.remove(&node_id);
                    },
                }
                needs_rebuild = true;
                proof {
                    assert(!done.contains(node_id));
                    assert(entry(before, opened[i as int]) != entry(at_entry, opened[i as int]));
                }
            }
            proof {
                assert(tree_manager.expansion_states@ =~= restored(at_entry, before, grown));
            }
            i += 1;
        }
        proof {
            assert(opened.take(opened.len() as int) =~= opened);
            let target = restored(at_entry, before, opened);
            if needs_rebuild {
                let j = choose|j: int|
                    0 <= j < opened.len() && entry(before, #[trigger] opened[j]) != entry(
                        at_entry,
                        opened[j],
                    );
                assert(opened.contains(opened[j]));
                assert(entry(target, opened[j]) != entry(at_entry, opened[j]));
            } else {
                assert forall|id: i64| entry(target, id) == entry(at_entry, id) by {
                    if opened.contains(id) {
                        let j = choose|j: int| 0 <= j < opened.len() && opened[j] == id;
                        assert(entry(before, opened[j]) == entry(at_entry, opened[j]));
                    }
                }
                assert(target =~= at_entry);
            }
        }
        self.search_opened_nodes = Vec::new();
        self.pre_search_expansion_state = HashMap::new();
        if needs_rebuild {
            let all_todos = clone_todos(&tree_manager.todos);
            tree_manager.rebuild_from_todos_with_hidden_filter(all_todos, show_hidden);
        }
    }

    /// Ends the search: the matches are dropped and the expansion state is
    /// put back as [`TreeSearch::restore_pre_search_expansion_state`] does.
    pub fn end(&mut self, tree_manager: &mut TodoTreeManager, show_hidden: bool)
        ensures
            final(self).is_idle(),
            final(tree_manager).expansion_states@ == restored(
                old(tree_manager).expansion_states@,
                old(self).pre_search_expansion_state@,
                old(self).search_opened_nodes@,
            ),
            final(tree_manager).expansion_states@ == old(tree_manager).expansion_states@
                ==> final(tree_manager)@ == old(tree_manager)@,
            final(tree_manager).expansion_states@ != old(tree_manager).expansion_states@ ==> {
                &&& final(tree_manager).todos@ == normalized(old(tree_manager).todos@, show_hidden)
                &&& final(tree_manager).wf()
            },
            final(self)@ == TreeSearchModel::idle(),
            final(tree_manager)@ == old(self)@.put_back(old(tree_manager)@, show_hidden),
    {
        self.search_matches = Vec::new();
        self.current_match_index = None;
        self.restore_pre_search_expansion_state(tree_manager, show_hidden);
        proof {
            assert(self.search_opened_nodes@ =~= Seq::<i64>::empty());
        }
    }
}

} // verus!
