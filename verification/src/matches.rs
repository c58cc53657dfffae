//! A list of matching tasks set against the rows of the outline: its order
//! by row, and the match that lies nearest to the selected row.

use crate::outline::{line_index, LineView};
use crate::tree::{index_lines, line_views, RenderedLine};
use std::collections::HashMap;
use vstd::prelude::*;

verus! {

/// The row of task `id`, and a row behind all others for a task without one.
pub open spec fn row_or_last(index: Map<i64, usize>, id: i64) -> int {
    if index.contains_key(id) {
        index[id] as int
    } else {
        usize::MAX as int
    }
}

/// `id` put into `sorted` behind every task whose row is not further down
/// than its own.
pub open spec fn insert_by_row(sorted: Seq<i64>, index: Map<i64, usize>, id: i64) -> Seq<i64>
    decreases sorted.len(),
{
    if sorted.len() == 0 || row_or_last(index, sorted.last()) <= row_or_last(index, id) {
        sorted.push(id)
    } else {
        insert_by_row(sorted.drop_last(), index, id).push(sorted.last())
    }
}

/// The tasks by row, top to bottom, those without a row last; tasks that
/// compare alike keep their order.
pub open spec fn in_tree_order(ids: Seq<i64>, index: Map<i64, usize>) -> Seq<i64>
    decreases ids.len(),
{
    if ids.len() == 0 {
        Seq::empty()
    } else {
        insert_by_row(in_tree_order(ids.drop_last(), index), index, ids.last())
    }
}

/// No task is followed by one of a row further up.
pub open spec fn is_in_tree_order(ids: Seq<i64>, index: Map<i64, usize>) -> bool {
    forall|i: int, j: int|
        0 <= i < j < ids.len() ==> row_or_last(index, #[trigger] ids[i]) <= row_or_last(
            index,
            #[trigger] ids[j],
        )
}

/// Where `insert_by_row` puts the new task.
pub proof fn lemma_insert_by_row(sorted: Seq<i64>, index: Map<i64, usize>, id: i64) -> (at: int)
    ensures
        0 <= at <= sorted.len(),
        insert_by_row(sorted, index, id) == sorted.insert(at, id),
        forall|k: int|
            at <= k < sorted.len() ==> row_or_last(index, sorted[k]) > row_or_last(index, id),
        at > 0 ==> row_or_last(index, sorted[at - 1]) <= row_or_last(index, id),
    decreases sorted.len(),
{
    if sorted.len() == 0 || row_or_last(index, sorted.last()) <= row_or_last(index, id) {
        assert(sorted.push(id) =~= sorted.insert(sorted.len() as int, id));
        sorted.len() as int
    } else {
        let front = sorted.drop_last();
        let at = lemma_insert_by_row(front, index, id);
        assert(front.insert(at, id).push(sorted.last()) =~= sorted.insert(at, id));
        assert forall|k: int| at <= k < sorted.len() implies row_or_last(index, sorted[k])
            > row_or_last(index, id) by {
            if k < front.len() {
                assert(front[k] == sorted[k]);
            }
        }
        if at > 0 {
            assert(front[at - 1] == sorted[at - 1]);
        }
        at
    }
}

/// The sorted list holds the same tasks as often, and is in tree order.
pub proof fn lemma_in_tree_order(ids: Seq<i64>, index: Map<i64, usize>)
    ensures
        is_in_tree_order(in_tree_order(ids, index), index),
        in_tree_order(ids, index).to_multiset() == ids.to_multiset(),
        in_tree_order(ids, index).len() == ids.len(),
    decreases ids.len(),
{
    broadcast use vstd::seq_lib::group_to_multiset_ensures;

    if ids.len() > 0 {
        let front = ids.drop_last();
        lemma_in_tree_order(front, index);
        let sorted = in_tree_order(front, index);
        let at = lemma_insert_by_row(sorted, index, ids.last());
        let out = sorted.insert(at, ids.last());
        assert(ids =~= front.push(ids.last()));
        assert forall|i: int, j: int| 0 <= i < j < out.len() implies row_or_last(
            index,
            #[trigger] out[i],
        ) <= row_or_last(index, #[trigger] out[j]) by {
            if j < at {
                assert(out[i] == sorted[i] && out[j] == sorted[j]);
            } else if j == at {
                assert(out[i] == sorted[i]);
                if i < at - 1 {
                    assert(row_or_last(index, sorted[i]) <= row_or_last(index, sorted[at - 1]));
                }
            } else if i == at {
                assert(out[j] == sorted[j - 1]);
            } else if i < at {
                assert(out[i] == sorted[i] && out[j] == sorted[j - 1]);
            } else {
                assert(out[i] == sorted[i - 1] && out[j] == sorted[j - 1]);
            }
        }
    }
}

fn row_key(index: &HashMap<i64, usize>, id: i64) -> (row: usize)
    ensures
        row == row_or_last(index@, id),
{
    match index.get(&id) {
        Some(row) => *row,
        None => usize::MAX,
    }
}

fn insert_in_tree_order(sorted: &mut Vec<i64>, index: &HashMap<i64, usize>, id: i64)
    ensures
        final(sorted)@ == insert_by_row(old(sorted)@, index@, id),
{
    let row = row_key(index, id);
    let mut at: usize = sorted.len();
    proof {
        assert(sorted@.take(sorted.len() as int) =~= sorted@);
        assert(sorted@.skip(sorted.len() as int) =~= Seq::<i64>::empty());
        assert(insert_by_row(sorted@, index@, id) + Seq::<i64>::empty() =~= insert_by_row(
            sorted@,
            index@,
            id,
        ));
    }
    while at > 0 && row_key(index, sorted[at - 1]) > row
        invariant
            at <= sorted.len(),
            sorted@ == old(sorted)@,
            row == row_or_last(index@, id),
            insert_by_row(sorted@, index@, id) == insert_by_row(sorted@.take(at as int), index@, id)
                + sorted@.skip(at as int),
        decreases at,
    {
        proof {
            let head = sorted@.take(at as int);
            assert(head.drop_last() =~= sorted@.take(at - 1));
            assert(head.last() == sorted@[at - 1]);
            assert(insert_by_row(sorted@.take(at - 1), index@, id).push(head.last()) + sorted@.skip(
                at as int,
            ) =~= insert_by_row(sorted@.take(at - 1), index@, id) + sorted@.skip(at - 1));
        }
        at -= 1;
    }
    proof {
        let head = sorted@.take(at as int);
        if at > 0 {
            assert(head.last() == sorted@[at - 1]);
        }
        assert(head.push(id) + sorted@.skip(at as int) =~= sorted@.insert(at as int, id));
    }
    sorted.insert(at, id);
}

/// Puts `ids` in the order of their rows, those without a row last.
pub fn sort_by_tree_order(ids: &Vec<i64>, index: &HashMap<i64, usize>) -> (sorted: Vec<i64>)
    ensures
        sorted@ == in_tree_order(ids@, index@),
{
    let mut sorted: Vec<i64> = Vec::new();
    let mut i: usize = 0;
    proof {
        assert(ids@.take(0) =~= Seq::<i64>::empty());
    }
    while i < ids.len()
        invariant
            i <= ids.len(),
            sorted@ == in_tree_order(ids@.take(i as int), index@),
        decreases ids.len() - i,
    {
        proof {
            assert(ids@.take(i + 1).drop_last() =~= ids@.take(i as int));
        }
        insert_in_tree_order(&mut sorted, index, ids[i]);
        i += 1;
    }
    proof {
        assert(ids@.take(ids.len() as int) =~= ids@);
    }
    sorted
}

/// Whether two lists hold the same tasks in the same order.
pub fn same_ids(a: &Vec<i64>, b: &Vec<i64>) -> (same: bool)
    ensures
        same == (a@ == b@),
{
    if a.len() != b.len() {
        return false;
    }
    let mut i: usize = 0;
    while i < a.len()
        invariant
            i <= a.len(),
            a.len() == b.len(),
            forall|j: int| 0 <= j < i ==> a@[j] == b@[j],
        decreases a.len() - i,
    {
        if a[i] != b[i] {
            return false;
        }
        i += 1;
    }
    proof {
        assert(a@ =~= b@);
    }
    true
}

/// Index of the first occurrence of `id` in `ids`.
pub open spec fn first_position(ids: Seq<i64>, id: i64) -> Option<int>
    decreases ids.len(),
{
    if ids.len() == 0 {
        None
    } else {
        match first_position(ids.drop_last(), id) {
            Some(i) => Some(i),
            None => if ids.last() == id {
                Some(ids.len() - 1)
            } else {
                None
            },
        }
    }
}

/// `first_position` finds the first index that holds the task, and none
/// exactly when no index holds it.
pub proof fn lemma_first_position(ids: Seq<i64>, id: i64)
    ensures
        match first_position(ids, id) {
            Some(i) => 0 <= i < ids.len() && ids[i] == id && forall|j: int|
                0 <= j < i ==> ids[j] != id,
            None => forall|j: int| 0 <= j < ids.len() ==> ids[j] != id,
        },
    decreases ids.len(),
{
    if ids.len() > 0 {
        let front = ids.drop_last();
        lemma_first_position(front, id);
        assert forall|j: int| 0 <= j < front.len() implies front[j] == ids[j] by {}
        match first_position(front, id) {
            Some(i) => {
                assert(ids[i] == front[i]);
                assert forall|j: int| 0 <= j < i implies ids[j] != id by {
                    assert(front[j] != id);
                }
            },
            None => {
                assert forall|j: int| 0 <= j < front.len() implies ids[j] != id by {
                    assert(front[j] != id);
                }
            },
        }
    }
}

/// How many rows lie between two rows.
pub open spec fn row_distance(a: int, b: int) -> int {
    if a >= b {
        a - b
    } else {
        b - a
    }
}

/// Among the first `count` matches, the first one that lies nearest to row
/// `selection`, with its distance. A match without a row does not count;
/// without any match that counts the answer is the first position.
pub open spec fn nearest_scan(
    matches: Seq<i64>,
    index: Map<i64, usize>,
    selection: int,
    count: nat,
) -> (int, int)
    decreases count,
{
    if count == 0 {
        (0, usize::MAX as int)
    } else {
        let so_far = nearest_scan(matches, index, selection, (count - 1) as nat);
        let id = matches[count - 1];
        if index.contains_key(id) && row_distance(index[id] as int, selection) < so_far.1 {
            (count - 1, row_distance(index[id] as int, selection))
        } else {
            so_far
        }
    }
}

/// The position in `matches` that should become the current match: that of
/// the task on the selected row if it is a match, else that of the match
/// nearest to the selected row, the upper one of two that are equally near.
/// No selection counts as the first row.
pub open spec fn closest_match(matches: Seq<i64>, lines: Seq<LineView>, selected: Option<usize>) -> int {
    let selection = match selected {
        Some(row) => row as int,
        None => 0,
    };
    if matches.len() == 0 {
        0
    } else if selection < lines.len() && first_position(matches, lines[selection].todo_id)
        is Some {
        first_position(matches, lines[selection].todo_id)->0
    } else {
        nearest_scan(matches, line_index(lines), selection, matches.len()).0
    }
}

/// What becomes of a list of matches, its current match and the selected
/// row when a new list of matches comes in. The same list changes nothing.
/// Another list is put in the order of the rows; the match nearest to the
/// selected row becomes the current one, and its row, if it has one, the
/// selected row.
pub open spec fn adopted_matches(
    matches: Seq<i64>,
    current: Option<usize>,
    selection: Option<usize>,
    lines: Seq<LineView>,
    index: Map<i64, usize>,
    new_matches: Seq<i64>,
) -> (Seq<i64>, Option<usize>, Option<usize>) {
    if new_matches == matches {
        (matches, current, selection)
    } else {
        let sorted = in_tree_order(new_matches, line_index(lines));
        if new_matches.len() == 0 {
            (sorted, None, selection)
        } else {
            let nearest = closest_match(sorted, lines, selection);
            (
                sorted,
                Some(nearest as usize),
                if index.contains_key(sorted[nearest]) {
                    Some(index[sorted[nearest]])
                } else {
                    selection
                },
            )
        }
    }
}

/// What the scan returns: a position below `count`, or the first position;
/// no match before it is as near, and none at all is nearer.
pub proof fn lemma_nearest_scan(
    matches: Seq<i64>,
    index: Map<i64, usize>,
    selection: int,
    count: nat,
)
    requires
        count <= matches.len(),
    ensures
        ({
            let (best, distance) = nearest_scan(matches, index, selection, count);
            &&& 0 <= best
            &&& best < count || best == 0
            &&& distance <= usize::MAX
            &&& distance < usize::MAX ==> best < count && index.contains_key(matches[best])
                && row_distance(index[matches[best]] as int, selection) == distance
            &&& forall|k: int|
                0 <= k < count && index.contains_key(#[trigger] matches[k]) ==> distance
                    <= row_distance(index[matches[k]] as int, selection)
            &&& forall|k: int|
                0 <= k < best && index.contains_key(#[trigger] matches[k]) ==> distance
                    < row_distance(index[matches[k]] as int, selection)
        }),
    decreases count,
{
    if count > 0 {
        lemma_nearest_scan(matches, index, selection, (count - 1) as nat);
    }
}

fn find_first(ids: &Vec<i64>, id: i64) -> (found: Option<usize>)
    ensures
        match found {
            Some(i) => i < ids.len() && first_position(ids@, id) == Some(i as int),
            None => first_position(ids@, id) is None,
        },
{
    let mut i: usize = 0;
    while i < ids.len()
        invariant
            i <= ids.len(),
            forall|j: int| 0 <= j < i ==> ids@[j] != id,
        decreases ids.len() - i,
    {
        if ids[i] == id {
            proof {
                lemma_first_position(ids@, id);
            }
            return Some(i);
        }
        i += 1;
    }
    proof {
        lemma_first_position(ids@, id);
    }
    None
}

/// The position in `matches` that should become the current match, given the
/// rows of the outline and the selected row.
pub fn find_closest_match_index(
    matches: &Vec<i64>,
    lines: &Vec<RenderedLine>,
    selected: Option<usize>,
) -> (position: usize)
    ensures
        position == closest_match(matches@, line_views(lines@), selected),
        matches@.len() > 0 ==> position < matches@.len(),
{
    if matches.len() == 0 {
        return 0;
    }
    let current_selection = match selected {
        Some(row) => row,
        None => 0,
    };
    if current_selection < lines.len() {
        match find_first(matches, lines[current_selection].todo_id) {
            Some(position) => {
                return position;
            },
            None => {},
        }
    }
    let index = index_lines(lines);
    let mut best_match: usize = 0;
    let mut best_distance: usize = usize::MAX;
    let mut i: usize = 0;
    while i < matches.len()
        invariant
            i <= matches.len(),
            matches.len() > 0,
            index@ == line_index(line_views(lines@)),
            best_match < matches.len(),
            (best_match as int, best_distance as int) == nearest_scan(
                matches@,
                index@,
                current_selection as int,
                i as nat,
            ),
        decreases matches.len() - i,
    {
        match index.get(&matches[i]) {
            Some(row) => {
                let distance = if *row >= current_selection {
                    *row - current_selection
                } else {
                    current_selection - *row
                };
                if distance < best_distance {
                    best_distance = distance;
                    best_match = i;
                }
            },
            None => {},
        }
        i += 1;
    }
    best_match
}

} // verus!
