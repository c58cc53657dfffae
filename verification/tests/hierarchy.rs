use tododb::hierarchy::{find_position, find_todo, is_descendant_of};
use tododb::order::normalize;
use tododb::todo::{NewTodo, Timestamp, Todo};

fn task(id: i64, parent_id: Option<i64>, second: i64) -> Todo {
    Todo {
        id,
        title: format!("task {}", id),
        description: String::new(),
        created_at: Timestamp::new(second, 0),
        completed_at: None,
        due_by: None,
        parent_id,
        hidden: false,
    }
}

#[test]
fn lookup_takes_the_first_record() {
    let todos = vec![task(1, None, 0), task(2, Some(1), 0), task(1, Some(2), 0)];
    assert_eq!(find_position(&todos, 1), Some(0));
    assert_eq!(find_position(&todos, 2), Some(1));
    assert_eq!(find_position(&todos, 3), None);
    assert_eq!(find_todo(&todos, 1), Some(&todos[0]));
    assert_eq!(find_todo(&todos, 3), None);
    assert_eq!(find_position(&Vec::new(), 1), None);
}

#[test]
fn descent_follows_parent_pointers() {
    let todos = vec![task(5, None, 0), task(9, Some(5), 0), task(12, Some(9), 0), task(20, Some(77), 0)];
    assert!(is_descendant_of(&todos, 12, 5));
    assert!(is_descendant_of(&todos, 12, 9));
    assert!(is_descendant_of(&todos, 9, 5));
    assert!(!is_descendant_of(&todos, 5, 12));
    assert!(!is_descendant_of(&todos, 5, 5));
    assert!(is_descendant_of(&todos, 20, 77));
    assert!(!is_descendant_of(&todos, 77, 20));
    assert!(!is_descendant_of(&todos, 404, 5));
}

#[test]
fn working_set_is_visible_distinct_and_newest_first() {
    let mut hidden = task(4, None, 400);
    hidden.hidden = true;
    let batch = vec![
        task(1, None, 100),
        task(2, None, 300),
        hidden,
        task(3, None, 200),
        task(1, Some(2), 250),
        task(5, None, 300),
    ];
    let ids = |todos: &Vec<Todo>| todos.iter().map(|t| (t.id, t.parent_id)).collect::<Vec<_>>();
    assert_eq!(
        ids(&normalize(&batch, false)),
        vec![(2, None), (5, None), (1, Some(2)), (3, None)]
    );
    assert_eq!(
        ids(&normalize(&batch, true)),
        vec![(4, None), (2, None), (5, None), (1, Some(2)), (3, None)]
    );
    assert_eq!(normalize(&Vec::new(), true), Vec::<Todo>::new());
}

#[test]
fn instants_are_ordered_by_second_then_nanosecond() {
    let a = Timestamp::new(5, 10);
    assert!(a.is_before(&Timestamp::new(5, 11)));
    assert!(a.is_before(&Timestamp::new(6, 0)));
    assert!(!a.is_before(&Timestamp::new(5, 10)));
    assert!(!a.is_before(&Timestamp::new(4, 999_999_999)));
    assert!(Timestamp::new(-1, 0).is_before(&Timestamp::new(0, 0)));
}

#[test]
fn records_are_copied_whole() {
    let mut record = task(3, Some(1), 7);
    record.description = "text".to_string();
    record.completed_at = Some(Timestamp::new(9, 1));
    record.due_by = Some(Timestamp::new(10, 2));
    record.hidden = true;
    assert_eq!(record.clone(), record);
    let new = NewTodo {
        title: "t".to_string(),
        description: "d".to_string(),
        parent_id: Some(4),
        due_by: Some(Timestamp::new(1, 2)),
    };
    assert_eq!(new.clone(), new);
}
