use tododb::reparent::{authorize_move, validate_move, would_create_cycle, MoveError};
use tododb::todo::{Timestamp, Todo};

fn task(id: i64, parent_id: Option<i64>) -> Todo {
    Todo {
        id,
        title: format!("task {}", id),
        description: String::new(),
        created_at: Timestamp::new(1_700_000_000 + id, 0),
        completed_at: None,
        due_by: None,
        parent_id,
        hidden: false,
    }
}

#[test]
fn move_under_itself_is_rejected() {
    let todos = vec![task(5, None)];
    assert!(!validate_move(&todos, 5, 5));
    assert!(would_create_cycle(&todos, 5, 5));
}

#[test]
fn move_under_grandchild_is_rejected() {
    let todos = vec![task(5, None), task(9, Some(5)), task(12, Some(9))];
    assert!(!validate_move(&todos, 5, 12));
    assert!(!validate_move(&todos, 5, 9));
    assert!(validate_move(&todos, 12, 5));
    assert!(validate_move(&todos, 9, 5));
    assert_eq!(authorize_move(&todos, 5, Some(12)), Err(MoveError::WouldCreateCycle));
    assert_eq!(authorize_move(&todos, 12, Some(5)), Ok(()));
    assert_eq!(authorize_move(&todos, 5, None), Ok(()));
}

#[test]
fn parent_without_record_or_without_parent_is_accepted() {
    let todos = vec![task(1, None), task(2, Some(1)), task(3, Some(40))];
    assert!(validate_move(&todos, 2, 99));
    assert!(validate_move(&todos, 2, 1));
    assert!(validate_move(&todos, 1, 3));
    assert!(validate_move(&todos, 40, 1));
    assert!(!validate_move(&todos, 40, 3));
    assert!(validate_move(&Vec::new(), 1, 2));
    assert!(!validate_move(&Vec::new(), 1, 1));
}

#[test]
fn a_cycle_in_the_records_does_not_hang_the_judgement() {
    let todos = vec![task(1, Some(3)), task(2, Some(1)), task(3, Some(2)), task(4, None)];
    assert!(validate_move(&todos, 4, 1));
    assert!(!validate_move(&todos, 2, 1));
    assert!(!validate_move(&todos, 1, 2));
    assert!(validate_move(&todos, 1, 4));
}

#[test]
fn the_message_names_the_cycle() {
    assert_eq!(MoveError::WouldCreateCycle.message(), "Cannot move todo: would create a cycle");
}
