//! Moving the selected row of a list of a given length.

use vstd::prelude::*;

verus! {

/// How many rows half a page is.
pub const HALF_PAGE: usize = 10;

/// The row selected, the first where none is.
pub open spec fn row_or_first(selected: Option<usize>) -> int {
    match selected {
        Some(row) => row as int,
        None => 0,
    }
}

/// One row down, from the last row to the first; the first row where none
/// was selected. An empty list keeps what it has.
pub open spec fn one_down(len: int, selected: Option<usize>) -> Option<usize> {
    if len == 0 {
        selected
    } else {
        match selected {
            Some(row) => if row >= len - 1 {
                Some(0usize)
            } else {
                Some((row + 1) as usize)
            },
            None => Some(0usize),
        }
    }
}

/// One row up, from the first row to the last; the first row where none was
/// selected. An empty list keeps what it has.
pub open spec fn one_up(len: int, selected: Option<usize>) -> Option<usize> {
    if len == 0 {
        selected
    } else {
        match selected {
            Some(row) => if row == 0 {
                Some((len - 1) as usize)
            } else {
                Some((row - 1) as usize)
            },
            None => Some(0usize),
        }
    }
}

/// Half a page down, at most to the last row.
pub open spec fn half_page_below(len: int, selected: Option<usize>) -> Option<usize> {
    if len == 0 {
        selected
    } else if row_or_first(selected) + HALF_PAGE <= len - 1 {
        Some((row_or_first(selected) + HALF_PAGE) as usize)
    } else {
        Some((len - 1) as usize)
    }
}

/// Half a page up, at most to the first row.
pub open spec fn half_page_above(len: int, selected: Option<usize>) -> Option<usize> {
    if len == 0 {
        selected
    } else if row_or_first(selected) >= HALF_PAGE {
        Some((row_or_first(selected) - HALF_PAGE) as usize)
    } else {
        Some(0usize)
    }
}

/// The selection once the list has changed: none in an empty list, the last
/// row where the selection lies behind it, else as it was.
pub open spec fn kept_in_range(len: int, selected: Option<usize>) -> Option<usize> {
    if len == 0 {
        None
    } else if row_or_first(selected) >= len {
        Some((len - 1) as usize)
    } else {
        selected
    }
}

/// The selection once a branch has been opened or folded: the row that was
/// selected, or the last row where there are fewer rows now.
pub open spec fn kept_after_toggle(len: int, previous_selected: usize) -> Option<usize> {
    if len == 0 {
        None
    } else if previous_selected >= len {
        Some((len - 1) as usize)
    } else {
        Some(previous_selected)
    }
}

/// Moves the selection one row down, going round.
pub fn next_item(len: usize, selected: Option<usize>) -> (moved: Option<usize>)
    ensures
        moved == one_down(len as int, selected),
{
    if len == 0 {
        return selected;
    }
    match selected {
        Some(row) => if row >= len - 1 {
            Some(0)
        } else {
            Some(row + 1)
        },
        None => Some(0),
    }
}

/// Moves the selection one row up, going round.
pub fn previous_item(len: usize, selected: Option<usize>) -> (moved: Option<usize>)
    ensures
        moved == one_up(len as int, selected),
{
    if len == 0 {
        return selected;
    }
    match selected {
        Some(row) => if row == 0 {
            Some(len - 1)
        } else {
            Some(row - 1)
        },
        None => Some(0),
    }
}

/// Moves the selection half a page down.
pub fn half_page_down(len: usize, selected: Option<usize>) -> (moved: Option<usize>)
    ensures
        moved == half_page_below(len as int, selected),
{
    if len == 0 {
        return selected;
    }
    let current = match selected {
        Some(row) => row,
        None => 0,
    };
    if current <= len - 1 && len - 1 - current >= HALF_PAGE {
        Some(current + HALF_PAGE)
    } else {
        Some(len - 1)
    }
}

/// Moves the selection half a page up.
pub fn half_page_up(len: usize, selected: Option<usize>) -> (moved: Option<usize>)
    ensures
        moved == half_page_above(len as int, selected),
{
    if len == 0 {
        return selected;
    }
    let current = match selected {
        Some(row) => row,
        None => 0,
    };
    if current >= HALF_PAGE {
        Some(current - HALF_PAGE)
    } else {
        Some(0)
    }
}

/// Brings the selection back into a list that has changed.
pub fn update_selection_after_refresh(len: usize, selected: Option<usize>) -> (kept: Option<
    usize,
>)
    ensures
        kept == kept_in_range(len as int, selected),
{
    if len == 0 {
        return None;
    }
    let current = match selected {
        Some(row) => row,
        None => 0,
    };
    if current >= len {
        Some(len - 1)
    } else {
        selected
    }
}

/// The selection of the outline after a branch was opened or folded.
pub fn update_tree_selection_after_toggle(len: usize, previous_selected: usize) -> (kept: Option<
    usize,
>)
    ensures
        kept == kept_after_toggle(len as int, previous_selected),
{
    if len == 0 {
        None
    } else if previous_selected >= len {
        Some(len - 1)
    } else {
        Some(previous_selected)
    }
}

/// Whatever the selection was, a step keeps it inside a list that is not
/// empty.
pub proof fn lemma_steps_stay_in_range(len: int, selected: Option<usize>)
    requires
        0 < len <= usize::MAX,
    ensures
        one_down(len, selected) matches Some(row) && row < len,
        half_page_below(len, selected) matches Some(row) && row < len,
        half_page_above(len, selected) matches Some(row) && (row < len || row_or_first(selected)
            >= len + HALF_PAGE),
        kept_in_range(len, selected) matches Some(row) ==> row < len,
        row_or_first(selected) < len ==> (one_up(len, selected) matches Some(row) && row < len),
{
}

} // verus!
