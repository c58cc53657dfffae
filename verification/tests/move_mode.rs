use tododb::modes::AppMode;
use tododb::move_mode::{
    find_todo_index_in_tree, highlight_current_parent_for_move, is_highlighting_root_position,
    is_valid_parent_candidate_at_index, move_to_first_valid_parent, move_to_next_valid_parent,
    move_to_previous_valid_parent, selected_tree_row,
};
use tododb::todo::{Timestamp, Todo};
use tododb::tree::TodoTreeManager;

fn task(id: i64, parent_id: Option<i64>) -> Todo {
    Todo {
        id,
        title: format!("task {}", id),
        description: String::new(),
        created_at: Timestamp::new(1_700_000_000 - id, 0),
        completed_at: None,
        due_by: None,
        parent_id,
        hidden: false,
    }
}

fn todos() -> Vec<Todo> {
    vec![task(1, None), task(2, Some(1)), task(3, Some(2)), task(4, None), task(5, Some(4))]
}

fn outline() -> TodoTreeManager {
    let mut manager = TodoTreeManager::new();
    manager.rebuild_from_todos(todos());
    manager
}

#[test]
fn the_task_and_what_lies_below_it_are_no_candidates() {
    let manager = outline();
    let lines = manager.get_rendered_lines();
    let all = todos();
    let valid: Vec<bool> = (0..8)
        .map(|index| is_valid_parent_candidate_at_index(&all, lines, Some(1), AppMode::Move, index))
        .collect();
    assert_eq!(valid, vec![true, false, false, false, true, true, false, false]);
    let valid: Vec<bool> = (0..6)
        .map(|index| is_valid_parent_candidate_at_index(&all, lines, Some(2), AppMode::List, index))
        .collect();
    assert_eq!(valid, vec![true, false, false, true, true, false]);
    assert!(!is_valid_parent_candidate_at_index(&all, lines, None, AppMode::Move, 0));
    assert!(!is_valid_parent_candidate_at_index(&all, lines, None, AppMode::Move, 4));
}

#[test]
fn stepping_skips_what_is_no_candidate() {
    let manager = outline();
    let lines = manager.get_rendered_lines();
    let all = todos();
    let next = |selected| move_to_next_valid_parent(&all, lines, Some(1), AppMode::Move, selected);
    let previous =
        |selected| move_to_previous_valid_parent(&all, lines, Some(1), AppMode::Move, selected);
    assert_eq!(next(Some(0)), Some(4));
    assert_eq!(next(Some(4)), Some(5));
    assert_eq!(next(Some(5)), Some(0));
    assert_eq!(next(Some(2)), Some(4));
    assert_eq!(next(None), None);
    assert_eq!(previous(Some(0)), Some(5));
    assert_eq!(previous(Some(5)), Some(4));
    assert_eq!(previous(Some(4)), Some(0));
    assert_eq!(previous(Some(3)), Some(0));
    assert_eq!(previous(None), None);
    assert_eq!(previous(Some(9)), Some(5));
}

#[test]
fn without_a_candidate_the_search_ends_where_it_began() {
    let manager = outline();
    let lines = manager.get_rendered_lines();
    let all = todos();
    assert_eq!(move_to_next_valid_parent(&all, lines, None, AppMode::Move, Some(2)), Some(2));
    assert_eq!(move_to_previous_valid_parent(&all, lines, None, AppMode::Move, Some(2)), Some(2));
    assert_eq!(move_to_first_valid_parent(&all, lines, None, AppMode::Move, Some(2)), Some(2));
    let none = Vec::new();
    assert_eq!(move_to_next_valid_parent(&all, &none, Some(1), AppMode::List, Some(0)), Some(0));
    assert_eq!(move_to_previous_valid_parent(&all, &none, Some(1), AppMode::List, Some(0)), Some(0));
    assert_eq!(move_to_next_valid_parent(&all, &none, Some(1), AppMode::Move, Some(0)), Some(0));
}

#[test]
fn the_choice_begins_at_the_present_parent() {
    let manager = outline();
    let lines = manager.get_rendered_lines();
    let all = todos();
    let begin = |moved| highlight_current_parent_for_move(&all, lines, moved, AppMode::Move, Some(3));
    assert_eq!(begin(Some(3)), Some(2));
    assert_eq!(begin(Some(5)), Some(4));
    assert_eq!(begin(Some(1)), Some(0));
    assert_eq!(begin(Some(77)), Some(0));
    assert_eq!(begin(None), Some(3));
    assert_eq!(move_to_first_valid_parent(&all, lines, Some(1), AppMode::Move, None), Some(0));
    assert_eq!(move_to_first_valid_parent(&all, lines, Some(1), AppMode::List, None), Some(3));
}

#[test]
fn positions_and_rows() {
    let manager = outline();
    let lines = manager.get_rendered_lines();
    assert_eq!(find_todo_index_in_tree(lines, AppMode::Move, 1), Some(1));
    assert_eq!(find_todo_index_in_tree(lines, AppMode::List, 1), Some(0));
    assert_eq!(find_todo_index_in_tree(lines, AppMode::Move, 5), Some(5));
    assert_eq!(find_todo_index_in_tree(lines, AppMode::Move, 50), None);
    assert!(is_highlighting_root_position(AppMode::Move, Some(0)));
    assert!(!is_highlighting_root_position(AppMode::Move, Some(1)));
    assert!(!is_highlighting_root_position(AppMode::Move, None));
    assert!(!is_highlighting_root_position(AppMode::List, Some(0)));
    assert_eq!(selected_tree_row(AppMode::Move, Some(0)), None);
    assert_eq!(selected_tree_row(AppMode::Move, Some(3)), Some(2));
    assert_eq!(selected_tree_row(AppMode::List, Some(3)), Some(3));
    assert_eq!(selected_tree_row(AppMode::List, None), None);
}
