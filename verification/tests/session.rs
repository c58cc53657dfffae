use tododb::modes::{AppMode, CreateFieldFocus};
use tododb::session::{get_incomplete_todos, Action, FollowUp, Key, Session, StoreRequest};
use tododb::todo::{clone_todos, same_parent, NewTodo, Timestamp, Todo};

fn task(id: i64, title: &str, parent_id: Option<i64>, completed: bool) -> Todo {
    Todo {
        id,
        title: title.to_string(),
        description: String::new(),
        created_at: Timestamp::new(1_700_000_000 - id, 0),
        completed_at: if completed { Some(Timestamp::new(1_800_000_000 + id, 0)) } else { None },
        due_by: None,
        parent_id,
        hidden: false,
    }
}

fn store() -> Vec<Todo> {
    vec![
        task(1, "Garden", None, false),
        task(2, "Beds", Some(1), true),
        task(3, "Herbs", Some(2), true),
        task(4, "Plant parsley", Some(3), true),
        task(5, "House", None, false),
        task(6, "Kitchen", Some(5), false),
        task(7, "Old errand", None, true),
    ]
}

fn now() -> Timestamp {
    Timestamp::new(1_700_000_000, 0)
}

fn begun() -> Session {
    let mut session = Session::new();
    session.refresh_todos(store());
    session
}

fn press(session: &mut Session, key: Key) -> Action {
    session.handle_key_event(key, false, now())
}

fn type_text(session: &mut Session, text: &str) {
    for c in text.chars() {
        assert_eq!(press(session, Key::Char(c)), Action::Nothing);
    }
}

fn rows(session: &Session) -> Vec<String> {
    session
        .tree_manager
        .get_rendered_lines()
        .iter()
        .map(|line| format!("{}{}", line.prefix, line.display_text))
        .collect()
}

#[test]
fn refresh_makes_the_lists_and_the_outline() {
    let session = begun();
    let ids = |todos: &Vec<Todo>| todos.iter().map(|t| t.id).collect::<Vec<_>>();
    assert_eq!(ids(&session.all_todos), vec![1, 2, 3, 4, 5, 6, 7]);
    assert_eq!(ids(&session.incomplete_todos), vec![1, 5, 6]);
    assert_eq!(ids(&session.completed_todos), vec![7, 4, 3, 2]);
    assert_eq!(
        rows(&session),
        vec![
            "1 [ ] ▶ Garden".to_string(),
            "5 [ ] ▼ House".to_string(),
            "    └── 6 [ ] Kitchen".to_string(),
        ]
    );
    assert_eq!(session.tree_selected, Some(0));
    assert_eq!(session.list_selected, None);
    assert_eq!(session.mode, AppMode::List);
    assert!(session.use_tree_view);
    assert_eq!(ids(&get_incomplete_todos(&store(), Some(5))), vec![6]);
    assert_eq!(ids(&get_incomplete_todos(&store(), Some(1))), Vec::<i64>::new());
    assert_eq!(clone_todos(&store()), store());
    assert!(same_parent(Some(1), Some(1)));
    assert!(same_parent(None, None));
    assert!(!same_parent(Some(1), Some(2)));
    assert!(!same_parent(Some(1), None));
}

#[test]
fn steps_and_toggles_in_the_outline() {
    let mut session = begun();
    assert_eq!(press(&mut session, Key::Char('j')), Action::Nothing);
    assert_eq!(session.tree_selected, Some(1));
    press(&mut session, Key::Down);
    assert_eq!(session.tree_selected, Some(2));
    press(&mut session, Key::Down);
    assert_eq!(session.tree_selected, Some(0));
    press(&mut session, Key::Char('k'));
    assert_eq!(session.tree_selected, Some(2));
    press(&mut session, Key::Char('t'));
    assert_eq!(rows(&session).len(), 3);
    press(&mut session, Key::Up);
    press(&mut session, Key::Char('t'));
    assert_eq!(rows(&session), vec!["1 [ ] ▶ Garden".to_string(), "5 [ ] ▶ House".to_string()]);
    assert_eq!(session.tree_selected, Some(1));
    assert_eq!(session.handle_key_event(Key::Char('d'), true, now()), Action::Nothing);
    assert_eq!(session.tree_selected, Some(1));
    assert_eq!(session.handle_key_event(Key::Char('u'), true, now()), Action::Nothing);
    assert_eq!(session.tree_selected, Some(0));
    assert_eq!(press(&mut session, Key::Char('q')), Action::Nothing);
    assert!(session.should_quit);
}

#[test]
fn search_through_keys_opens_and_restores() {
    let mut session = begun();
    press(&mut session, Key::Char('/'));
    assert_eq!(session.mode, AppMode::TreeSearch);
    assert!(session.search_input_mode);
    type_text(&mut session, "parsley");
    assert_eq!(session.search_query, "parsley");
    assert_eq!(session.tree_search.search_matches, vec![4]);
    assert_eq!(session.tree_selected, Some(0));
    press(&mut session, Key::Backspace);
    assert_eq!(session.search_query, "parsle");
    press(&mut session, Key::Char('y'));
    press(&mut session, Key::Enter);
    assert!(!session.search_input_mode);
    press(&mut session, Key::Char('n'));
    assert_eq!(session.tree_selected, Some(3));
    assert_eq!(session.tree_search.search_opened_nodes, vec![3, 2, 1]);
    assert_eq!(rows(&session).len(), 6);
    press(&mut session, Key::Char('N'));
    assert_eq!(session.tree_selected, Some(3));
    press(&mut session, Key::Esc);
    assert_eq!(session.mode, AppMode::List);
    assert_eq!(session.search_query, "");
    assert!(session.tree_search.search_matches.is_empty());
    assert!(session.tree_manager.expansion_states.is_empty());
    assert_eq!(rows(&session).len(), 3);
}

#[test]
fn completion_is_asked_of_the_store_and_finished() {
    let mut session = begun();
    press(&mut session, Key::Down);
    let action = press(&mut session, Key::Char(' '));
    assert_eq!(action, Action::Store(StoreRequest::Complete(5), FollowUp::KeepSelection));
    assert_eq!(rows(&session)[1], "5 [✓] ▼ House");
    let mut after = store();
    after[4].completed_at = Some(now());
    session.finish(FollowUp::KeepSelection, after);
    assert_eq!(
        rows(&session),
        vec![
            "1 [ ] ▶ Garden".to_string(),
            "5 [✓] ▼ House".to_string(),
            "    └── 6 [ ] Kitchen".to_string(),
        ]
    );
    assert_eq!(session.tree_selected, Some(1));
    let action = press(&mut session, Key::Char(' '));
    assert_eq!(action, Action::Store(StoreRequest::Uncomplete(5), FollowUp::KeepSelection));
    session.finish(FollowUp::KeepSelection, vec![task(1, "Garden", None, false)]);
    assert_eq!(session.tree_selected, Some(0));
    session.finish(FollowUp::KeepSelection, Vec::new());
    assert_eq!(session.tree_selected, None);
}

#[test]
fn form_for_a_new_task() {
    let mut session = begun();
    press(&mut session, Key::Down);
    press(&mut session, Key::Char('n'));
    assert_eq!(session.mode, AppMode::Create);
    assert_eq!(session.selected_parent_id, Some(5));
    assert_eq!(session.input_parent, "ID:5 House");
    assert_eq!(press(&mut session, Key::Enter), Action::Nothing);
    assert_eq!(session.error_message, Some("Title cannot be empty".to_string()));
    type_text(&mut session, "Tidy upp");
    assert_eq!(session.error_message, None);
    press(&mut session, Key::Backspace);
    assert_eq!(session.input_title, "Tidy up");
    press(&mut session, Key::Tab);
    assert_eq!(session.create_field_focus, CreateFieldFocus::DueDateRelative);
    assert_eq!(
        press(&mut session, Key::Char('2')),
        Action::ShowDueDate(Timestamp::new(1_700_000_000 + 172_800, 0))
    );
    assert_eq!(press(&mut session, Key::Char('x')), Action::Nothing);
    assert_eq!(
        press(&mut session, Key::Backspace),
        Action::ShowDueDate(Timestamp::new(1_700_000_000 + 172_800, 0))
    );
    session.input_due_date_absolute = "shown by the host".to_string();
    assert_eq!(press(&mut session, Key::Backspace), Action::Nothing);
    assert_eq!(session.input_due_date_relative, "");
    assert_eq!(session.input_due_date_absolute, "");
    press(&mut session, Key::Tab);
    assert_eq!(session.create_field_focus, CreateFieldFocus::DueDateAbsolute);
    type_text(&mut session, "2023-11-24 22:13");
    assert_eq!(session.input_due_date_relative, "9");
    press(&mut session, Key::Backspace);
    assert_eq!(session.input_due_date_relative, "9");
    type_text(&mut session, "3x");
    assert_eq!(session.input_due_date_relative, "9");
    press(&mut session, Key::Backspace);
    assert_eq!(session.input_due_date_absolute, "2023-11-24 22:13");
    press(&mut session, Key::Tab);
    press(&mut session, Key::Char('r'));
    assert_eq!(session.selected_parent_id, None);
    assert_eq!(session.input_parent, "");
    press(&mut session, Key::Tab);
    assert_eq!(session.create_field_focus, CreateFieldFocus::Description);
    type_text(&mut session, "all of it");
    press(&mut session, Key::Tab);
    assert_eq!(session.create_field_focus, CreateFieldFocus::Title);
    let action = press(&mut session, Key::Enter);
    assert_eq!(
        action,
        Action::Store(
            StoreRequest::Create(NewTodo {
                title: "Tidy up".to_string(),
                description: "all of it".to_string(),
                parent_id: None,
                due_by: Some(Timestamp::new(1_700_000_000 + 9 * 86_400, 0)),
            }),
            FollowUp::AfterCreate
        )
    );
    session.finish(FollowUp::AfterCreate, store());
    assert_eq!(session.mode, AppMode::List);
    assert_eq!(session.input_title, "");
    assert_eq!(session.input_description, "");
    assert_eq!(session.input_due_date_relative, "");
    assert_eq!(session.input_due_date_absolute, "");
}

#[test]
fn parent_is_searched_for() {
    let mut session = begun();
    press(&mut session, Key::Char('n'));
    press(&mut session, Key::Tab);
    press(&mut session, Key::Tab);
    press(&mut session, Key::Tab);
    assert_eq!(session.create_field_focus, CreateFieldFocus::Parent);
    press(&mut session, Key::Char('h'));
    assert_eq!(session.mode, AppMode::ParentSearch);
    assert_eq!(session.search_query, "h");
    let found: Vec<i64> = session.search_results.iter().map(|t| t.id).collect();
    assert_eq!(found, vec![3, 5, 6]);
    assert_eq!(session.search_selected, Some(0));
    press(&mut session, Key::Char('j'));
    assert_eq!(session.search_selected, Some(1));
    press(&mut session, Key::Char('o'));
    assert_eq!(session.search_query, "ho");
    assert_eq!(session.search_results.len(), 1);
    press(&mut session, Key::Enter);
    assert_eq!(session.mode, AppMode::Create);
    assert_eq!(session.selected_parent_id, Some(5));
    assert_eq!(session.input_parent, "ID:5 House");
    press(&mut session, Key::Backspace);
    assert_eq!(session.selected_parent_id, None);
    press(&mut session, Key::Char('x'));
    assert_eq!(session.mode, AppMode::ParentSearch);
    assert!(session.search_results.is_empty());
    assert_eq!(session.search_selected, None);
    press(&mut session, Key::Esc);
    assert_eq!(session.mode, AppMode::Create);
    assert_eq!(session.search_query, "");
    press(&mut session, Key::Esc);
    assert_eq!(session.mode, AppMode::List);
}

#[test]
fn deletion_is_refused_for_a_task_with_children() {
    let mut session = begun();
    press(&mut session, Key::Char('d'));
    assert_eq!(session.mode, AppMode::ConfirmDelete);
    assert_eq!(press(&mut session, Key::Char('y')), Action::Nothing);
    assert_eq!(
        session.error_message,
        Some("Cannot delete: task has children. Delete children first.".to_string())
    );
    assert_eq!(session.mode, AppMode::List);
    press(&mut session, Key::Down);
    press(&mut session, Key::Down);
    press(&mut session, Key::Char('d'));
    assert_eq!(
        press(&mut session, Key::Char('y')),
        Action::Store(StoreRequest::Delete(6), FollowUp::KeepSelection)
    );
    assert_eq!(session.mode, AppMode::List);
    press(&mut session, Key::Char('d'));
    assert_eq!(press(&mut session, Key::Char('n')), Action::Nothing);
    assert_eq!(session.mode, AppMode::List);
}

#[test]
fn move_is_refused_where_it_would_close_a_cycle() {
    let mut session = begun();
    press(&mut session, Key::Down);
    press(&mut session, Key::Char('m'));
    assert_eq!(session.mode, AppMode::Move);
    assert_eq!(session.move_todo_id, Some(5));
    assert_eq!(session.tree_selected, Some(0));
    press(&mut session, Key::Char('j'));
    assert_eq!(session.tree_selected, Some(1));
    press(&mut session, Key::Char('j'));
    assert_eq!(session.tree_selected, Some(0));
    press(&mut session, Key::Char('k'));
    assert_eq!(session.tree_selected, Some(1));
    assert_eq!(
        press(&mut session, Key::Enter),
        Action::Store(StoreRequest::Move(5, Some(1)), FollowUp::AfterMove)
    );
    session.tree_selected = Some(3);
    assert_eq!(press(&mut session, Key::Enter), Action::Nothing);
    assert_eq!(
        session.error_message,
        Some("Cannot move todo: Cannot move todo: would create a cycle".to_string())
    );
    session.tree_selected = Some(0);
    assert_eq!(
        press(&mut session, Key::Enter),
        Action::Store(StoreRequest::Move(5, None), FollowUp::AfterMove)
    );
    session.finish(FollowUp::AfterMove, store());
    assert_eq!(session.mode, AppMode::List);
    assert_eq!(session.move_todo_id, None);
    press(&mut session, Key::Char('m'));
    press(&mut session, Key::Esc);
    assert_eq!(session.mode, AppMode::List);
    assert_eq!(session.move_todo_id, None);
}

#[test]
fn no_task_below_the_moved_one_is_offered_as_parent() {
    let mut session = Session::new();
    session.refresh_todos(vec![
        task(1, "Garden", None, false),
        task(2, "Beds", Some(1), true),
        task(3, "Herbs", Some(2), false),
        task(4, "House", None, false),
    ]);
    assert_eq!(
        rows(&session),
        vec![
            "1 [ ] ▼ Garden".to_string(),
            "│   └── 2 [✓] ▼ Beds".to_string(),
            "│       └── 3 [ ] Herbs".to_string(),
            "4 [ ] House".to_string(),
        ]
    );
    press(&mut session, Key::Char('m'));
    assert_eq!(session.mode, AppMode::Move);
    assert_eq!(session.move_todo_id, Some(1));
    assert_eq!(session.tree_selected, Some(0));
    press(&mut session, Key::Char('j'));
    assert_eq!(session.tree_selected, Some(4));
    press(&mut session, Key::Char('j'));
    assert_eq!(session.tree_selected, Some(0));
    press(&mut session, Key::Char('k'));
    assert_eq!(session.tree_selected, Some(4));
    assert_eq!(
        press(&mut session, Key::Enter),
        Action::Store(StoreRequest::Move(1, Some(4)), FollowUp::AfterMove)
    );
    press(&mut session, Key::Esc);
    session.tree_selected = Some(2);
    press(&mut session, Key::Char('m'));
    assert_eq!(session.move_todo_id, Some(3));
    assert_eq!(session.tree_selected, Some(2));
    press(&mut session, Key::Char('j'));
    assert_eq!(session.tree_selected, Some(4));
    press(&mut session, Key::Char('j'));
    assert_eq!(session.tree_selected, Some(0));
    press(&mut session, Key::Char('j'));
    assert_eq!(session.tree_selected, Some(1));
}

#[test]
fn global_keys() {
    let mut session = begun();
    press(&mut session, Key::Char('a'));
    assert_eq!(session.mode, AppMode::Help);
    assert_eq!(session.previous_mode, AppMode::List);
    press(&mut session, Key::Char('j'));
    assert_eq!(session.mode, AppMode::Help);
    press(&mut session, Key::Char('a'));
    assert_eq!(session.mode, AppMode::List);
    assert_eq!(
        press(&mut session, Key::Char('h')),
        Action::Store(StoreRequest::ToggleHidden(1), FollowUp::KeepSelection)
    );
    assert_eq!(press(&mut session, Key::Char('H')), Action::Refresh(FollowUp::KeepSelection));
    assert!(session.show_hidden_items);
    let mut with_hidden = store();
    with_hidden[0].hidden = true;
    session.finish(FollowUp::KeepSelection, with_hidden.clone());
    assert_eq!(rows(&session).len(), 3);
    press(&mut session, Key::Char('H'));
    session.finish(FollowUp::KeepSelection, with_hidden);
    assert_eq!(rows(&session), vec!["5 [ ] ▼ House".to_string(), "    └── 6 [ ] Kitchen".to_string()]);
    press(&mut session, Key::Char('c'));
    assert_eq!(session.mode, AppMode::CompletedView);
    assert_eq!(session.completed_selected, Some(0));
    press(&mut session, Key::Char('j'));
    assert_eq!(session.completed_selected, Some(1));
    assert_eq!(
        press(&mut session, Key::Char(' ')),
        Action::Store(StoreRequest::Uncomplete(4), FollowUp::KeepSelection)
    );
    press(&mut session, Key::Enter);
    assert_eq!(session.editor_pending.as_ref().map(|t| t.id), Some(4));
    press(&mut session, Key::Esc);
    assert_eq!(session.mode, AppMode::List);
    assert_eq!(press(&mut session, Key::Other), Action::Nothing);
}

#[test]
fn jump_by_short_identifier() {
    let mut session = begun();
    press(&mut session, Key::Char('g'));
    assert_eq!(session.mode, AppMode::IdModGoto);
    press(&mut session, Key::Char('x'));
    assert_eq!(session.goto_query, "");
    press(&mut session, Key::Char('6'));
    assert_eq!(session.goto_query, "6");
    assert_eq!(session.goto.goto_matches, vec![6]);
    assert_eq!(session.tree_selected, Some(2));
    press(&mut session, Key::Enter);
    press(&mut session, Key::Char('k'));
    assert_eq!(session.tree_selected, Some(1));
    press(&mut session, Key::Char('n'));
    assert_eq!(session.tree_selected, Some(2));
    assert_eq!(
        press(&mut session, Key::Char(' ')),
        Action::Store(StoreRequest::Complete(6), FollowUp::KeepSelectionAndGoto)
    );
    session.finish(FollowUp::KeepSelectionAndGoto, store());
    assert_eq!(session.goto.goto_matches, vec![6]);
    press(&mut session, Key::Char('5'));
    assert!(session.search_input_mode);
    assert_eq!(session.goto_query, "65");
    assert!(session.goto.goto_matches.is_empty());
    press(&mut session, Key::Esc);
    assert_eq!(session.mode, AppMode::List);
    assert_eq!(session.goto_query, "");
}

#[test]
fn flat_list_and_flat_search() {
    let mut session = begun();
    session.use_tree_view = false;
    session.list_selected = Some(0);
    assert_eq!(press(&mut session, Key::Char('l')), Action::Refresh(FollowUp::SelectFirst));
    assert_eq!(session.current_parent, Some(1));
    session.finish(FollowUp::SelectFirst, store());
    assert!(session.incomplete_todos.is_empty());
    assert_eq!(press(&mut session, Key::Char('h')), Action::Refresh(FollowUp::SelectFirst));
    assert_eq!(session.current_parent, None);
    session.finish(FollowUp::SelectFirst, store());
    assert_eq!(session.incomplete_todos.len(), 3);
    assert_eq!(session.list_selected, Some(0));
    assert_eq!(press(&mut session, Key::Char('h')), Action::Nothing);
    press(&mut session, Key::Char('j'));
    assert_eq!(session.list_selected, Some(1));
    press(&mut session, Key::Char('t'));
    assert!(session.use_tree_view);
    assert_eq!(session.tree_selected, Some(0));
    press(&mut session, Key::Char('f'));
    assert_eq!(session.mode, AppMode::ListFind);
    type_text(&mut session, "k");
    let found: Vec<i64> = session.search_results.iter().map(|t| t.id).collect();
    assert_eq!(found, vec![6]);
    press(&mut session, Key::Enter);
    assert!(!session.search_input_mode);
    press(&mut session, Key::Enter);
    assert_eq!(session.editor_pending.as_ref().map(|t| t.id), Some(6));
    press(&mut session, Key::Char('j'));
    assert_eq!(session.search_selected, Some(0));
    press(&mut session, Key::Char('e'));
    assert!(session.search_input_mode);
    assert_eq!(session.search_query, "ke");
    assert!(session.search_results.is_empty());
    press(&mut session, Key::Esc);
    assert_eq!(session.mode, AppMode::List);
}
