use tododb::matches::{find_closest_match_index, sort_by_tree_order};
use tododb::todo::{Timestamp, Todo};
use tododb::tree::{index_lines, TodoTreeManager};
use tododb::tree_search::TreeSearch;

fn task(id: i64, title: &str, parent_id: Option<i64>, completed: bool) -> Todo {
    Todo {
        id,
        title: title.to_string(),
        description: String::new(),
        created_at: Timestamp::new(1_700_000_000 - id, 0),
        completed_at: if completed { Some(Timestamp::new(1_800_000_000, 0)) } else { None },
        due_by: None,
        parent_id,
        hidden: false,
    }
}

fn rows(manager: &TodoTreeManager) -> Vec<String> {
    manager
        .get_rendered_lines()
        .iter()
        .map(|line| format!("{}{}", line.prefix, line.display_text))
        .collect()
}

fn nested() -> Vec<Todo> {
    vec![
        task(1, "Garden", None, false),
        task(2, "Beds", Some(1), true),
        task(3, "Herbs", Some(2), true),
        task(4, "Plant needle parsley", Some(3), true),
        task(5, "House", None, false),
        task(6, "Kitchen", Some(5), true),
        task(7, "Sharpen needle", Some(6), true),
        task(8, "Errands", None, false),
    ]
}

#[test]
fn match_under_three_folded_levels_is_opened_and_folded_again() {
    let corpus = vec![
        task(1, "Garden", None, false),
        task(2, "Beds", Some(1), true),
        task(3, "Herbs", Some(2), true),
        task(4, "Plant parsley", Some(3), true),
        task(5, "House", None, false),
    ];
    let mut manager = TodoTreeManager::new();
    manager.rebuild_from_todos(corpus.clone());
    assert_eq!(rows(&manager), vec!["1 [ ] ▶ Garden".to_string(), "5 [ ] House".to_string()]);
    let mut selection = Some(1);
    let mut search = TreeSearch::new();
    search.begin(&manager);
    search.update_tree_search_matches(&manager, &mut selection, "parsley", &corpus);
    assert_eq!(search.search_matches, vec![4]);
    assert_eq!(search.current_match_index, Some(0));
    assert_eq!(selection, Some(1));

    search.navigate_to_next_match(&mut manager, &mut selection);
    assert_eq!(search.current_match_index, Some(0));
    assert_eq!(selection, Some(3));
    assert_eq!(search.search_opened_nodes, vec![3, 2, 1]);
    assert_eq!(manager.expansion_states.get(&1), Some(&true));
    assert_eq!(manager.expansion_states.get(&2), Some(&true));
    assert_eq!(manager.expansion_states.get(&3), Some(&true));
    assert_eq!(
        rows(&manager),
        vec![
            "1 [ ] ▼ Garden".to_string(),
            "│   └── 2 [✓] ▼ Beds".to_string(),
            "│       └── 3 [✓] ▼ Herbs".to_string(),
            "│           └── 4 [✓] Plant parsley".to_string(),
            "5 [ ] House".to_string(),
        ]
    );

    search.end(&mut manager, false);
    assert!(manager.expansion_states.is_empty());
    assert_eq!(rows(&manager), vec!["1 [ ] ▶ Garden".to_string(), "5 [ ] House".to_string()]);
    assert!(search.search_matches.is_empty());
    assert_eq!(search.current_match_index, None);
    assert!(search.search_opened_nodes.is_empty());
    assert!(search.pre_search_expansion_state.is_empty());
}

#[test]
fn exit_restores_every_opened_branch_to_what_it_was() {
    let corpus = nested();
    let mut manager = TodoTreeManager::new();
    manager.expansion_states.insert(2, false);
    manager.expansion_states.insert(5, false);
    manager.expansion_states.insert(8, true);
    manager.rebuild_from_todos(corpus.clone());
    let before = rows(&manager);
    assert_eq!(
        before,
        vec!["1 [ ] ▶ Garden".to_string(), "5 [ ] ▶ House".to_string(), "8 [ ] Errands".to_string()]
    );
    let mut selection = Some(0);
    let mut search = TreeSearch::new();
    search.begin(&manager);
    search.update_tree_search_matches(&manager, &mut selection, "needle", &corpus);
    assert_eq!(search.search_matches, vec![4, 7]);

    search.navigate_to_next_match(&mut manager, &mut selection);
    assert_eq!(search.current_match_index, Some(1));
    assert_eq!(manager.get_line_index_for_todo(7), selection);
    search.navigate_to_next_match(&mut manager, &mut selection);
    assert_eq!(search.current_match_index, Some(0));
    assert_eq!(manager.get_line_index_for_todo(4), selection);
    assert_eq!(search.search_opened_nodes, vec![6, 5, 3, 2, 1]);
    for id in [1, 2, 3, 5, 6] {
        assert_eq!(manager.expansion_states.get(&id), Some(&true));
    }

    search.restore_pre_search_expansion_state(&mut manager, false);
    assert_eq!(manager.expansion_states.get(&1), None);
    assert_eq!(manager.expansion_states.get(&2), Some(&false));
    assert_eq!(manager.expansion_states.get(&3), None);
    assert_eq!(manager.expansion_states.get(&5), Some(&false));
    assert_eq!(manager.expansion_states.get(&6), None);
    assert_eq!(manager.expansion_states.get(&8), Some(&true));
    assert_eq!(manager.expansion_states.len(), 3);
    assert_eq!(rows(&manager), before);
    assert!(search.search_opened_nodes.is_empty());
    assert!(search.pre_search_expansion_state.is_empty());
}

#[test]
fn a_branch_toggled_during_the_search_keeps_the_user_choice_unless_opened() {
    let corpus = nested();
    let mut manager = TodoTreeManager::new();
    manager.rebuild_from_todos(corpus.clone());
    let mut selection = Some(0);
    let mut search = TreeSearch::new();
    search.begin(&manager);
    manager.expansion_states.insert(8, false);
    search.update_tree_search_matches(&manager, &mut selection, "sharpen", &corpus);
    search.navigate_to_next_match(&mut manager, &mut selection);
    assert_eq!(search.search_opened_nodes, vec![6, 5]);
    search.end(&mut manager, false);
    assert_eq!(manager.expansion_states.get(&8), Some(&false));
    assert_eq!(manager.expansion_states.get(&5), None);
    assert_eq!(manager.expansion_states.get(&6), None);
}

#[test]
fn navigation_goes_round_in_both_directions() {
    let corpus = vec![
        task(1, "alpha one", None, false),
        task(2, "beta", None, false),
        task(3, "alpha two", None, false),
        task(4, "gamma", None, false),
        task(5, "alpha three", None, false),
    ];
    let mut manager = TodoTreeManager::new();
    manager.rebuild_from_todos(corpus.clone());
    let mut selection = Some(1);
    let mut search = TreeSearch::new();
    search.begin(&manager);
    search.update_tree_search_matches(&manager, &mut selection, "ALPHA", &corpus);
    assert_eq!(search.search_matches, vec![1, 3, 5]);
    assert_eq!(search.current_match_index, Some(0));
    assert_eq!(selection, Some(0));

    search.navigate_to_next_match(&mut manager, &mut selection);
    assert_eq!((search.current_match_index, selection), (Some(1), Some(2)));
    search.navigate_to_next_match(&mut manager, &mut selection);
    assert_eq!((search.current_match_index, selection), (Some(2), Some(4)));
    search.navigate_to_next_match(&mut manager, &mut selection);
    assert_eq!((search.current_match_index, selection), (Some(0), Some(0)));
    search.navigate_to_previous_match(&mut manager, &mut selection);
    assert_eq!((search.current_match_index, selection), (Some(2), Some(4)));
    search.navigate_to_previous_match(&mut manager, &mut selection);
    assert_eq!((search.current_match_index, selection), (Some(1), Some(2)));
    assert!(search.search_opened_nodes.is_empty());
}

#[test]
fn a_match_that_cannot_be_shown_is_passed_over() {
    let corpus = vec![
        task(1, "apple pie", None, false),
        task(2, "Finished", None, true),
        task(3, "apple sauce", Some(2), true),
        task(4, "apple lost", Some(99), false),
    ];
    let mut manager = TodoTreeManager::new();
    manager.rebuild_from_todos(corpus.clone());
    assert_eq!(rows(&manager), vec!["1 [ ] apple pie".to_string()]);
    let mut selection = Some(0);
    let mut search = TreeSearch::new();
    search.begin(&manager);
    search.update_tree_search_matches(&manager, &mut selection, "apple", &corpus);
    assert_eq!(search.search_matches, vec![1, 3, 4]);
    assert_eq!(search.current_match_index, Some(0));
    search.navigate_to_next_match(&mut manager, &mut selection);
    assert_eq!((search.current_match_index, selection), (Some(0), Some(0)));
    assert_eq!(search.search_opened_nodes, vec![2, 99]);
    search.end(&mut manager, false);
    assert!(manager.expansion_states.is_empty());
}

#[test]
fn no_visible_match_leaves_the_selection() {
    let corpus = vec![
        task(1, "plain", None, false),
        task(2, "Finished", None, true),
        task(3, "pear", Some(2), true),
    ];
    let mut manager = TodoTreeManager::new();
    manager.rebuild_from_todos(corpus.clone());
    let mut selection = Some(0);
    let mut search = TreeSearch::new();
    search.begin(&manager);
    search.update_tree_search_matches(&manager, &mut selection, "pear", &corpus);
    assert_eq!(search.search_matches, vec![3]);
    assert_eq!(search.current_match_index, Some(0));
    assert_eq!(selection, Some(0));
    search.navigate_to_next_match(&mut manager, &mut selection);
    assert_eq!(search.current_match_index, Some(0));
    assert_eq!(selection, Some(0));
    search.navigate_to_previous_match(&mut manager, &mut selection);
    assert_eq!(selection, Some(0));
}

#[test]
fn empty_query_and_empty_matches() {
    let corpus = nested();
    let mut manager = TodoTreeManager::new();
    manager.rebuild_from_todos(corpus.clone());
    let mut selection = Some(2);
    let mut search = TreeSearch::new();
    search.begin(&manager);
    search.update_tree_search_matches(&manager, &mut selection, "house", &corpus);
    assert_eq!(search.search_matches, vec![5]);
    assert_eq!(selection, Some(1));
    search.update_tree_search_matches(&manager, &mut selection, "", &corpus);
    assert!(search.search_matches.is_empty());
    assert_eq!(search.current_match_index, None);
    assert_eq!(selection, Some(1));
    search.update_tree_search_matches(&manager, &mut selection, "zzz", &corpus);
    assert!(search.search_matches.is_empty());
    assert_eq!(search.current_match_index, None);
    search.navigate_to_next_match(&mut manager, &mut selection);
    search.navigate_to_previous_match(&mut manager, &mut selection);
    assert_eq!(selection, Some(1));
    assert_eq!(search.current_match_index, None);
}

#[test]
fn matches_are_sorted_by_row_with_invisible_ones_last() {
    let mut manager = TodoTreeManager::new();
    manager.rebuild_from_todos(vec![
        task(1, "a", None, false),
        task(2, "b", None, false),
        task(3, "c", None, false),
    ]);
    let index = index_lines(manager.get_rendered_lines());
    assert_eq!(sort_by_tree_order(&vec![3, 50, 1, 40, 2], &index), vec![1, 2, 3, 50, 40]);
    assert_eq!(sort_by_tree_order(&vec![], &index), Vec::<i64>::new());
    let mut search = TreeSearch::new();
    search.search_matches = vec![2, 9, 1];
    search.sort_matches_by_tree_order(&manager);
    assert_eq!(search.search_matches, vec![1, 2, 9]);
}

#[test]
fn closest_match_prefers_the_selected_row_then_the_nearest_then_the_upper() {
    let mut manager = TodoTreeManager::new();
    manager.rebuild_from_todos(vec![
        task(1, "r0", None, false),
        task(2, "r1", None, false),
        task(3, "r2", None, false),
        task(4, "r3", None, false),
        task(5, "r4", None, false),
        task(6, "r5", None, false),
    ]);
    let lines = manager.get_rendered_lines();
    assert_eq!(find_closest_match_index(&vec![1, 4, 6], lines, Some(3)), 1);
    assert_eq!(find_closest_match_index(&vec![1, 6], lines, Some(4)), 1);
    assert_eq!(find_closest_match_index(&vec![1, 6], lines, Some(1)), 0);
    assert_eq!(find_closest_match_index(&vec![2, 4], lines, Some(2)), 0);
    assert_eq!(find_closest_match_index(&vec![4, 2], lines, Some(2)), 0);
    assert_eq!(find_closest_match_index(&vec![77, 5], lines, Some(0)), 1);
    assert_eq!(find_closest_match_index(&vec![77, 78], lines, Some(0)), 0);
    assert_eq!(find_closest_match_index(&vec![3, 5], lines, None), 0);
    assert_eq!(find_closest_match_index(&vec![3, 5], lines, Some(100)), 1);
    assert_eq!(find_closest_match_index(&vec![], lines, Some(1)), 0);
    let mut search = TreeSearch::new();
    search.search_matches = vec![1, 6];
    assert_eq!(search.find_closest_match_index(&manager, Some(4)), 1);
}

#[test]
fn unchanged_search_result_keeps_the_current_match() {
    let mut manager = TodoTreeManager::new();
    manager.rebuild_from_todos(vec![
        task(1, "x one", None, false),
        task(2, "x two", None, false),
        task(3, "x three", None, false),
    ]);
    let mut selection = Some(0);
    let mut search = TreeSearch::new();
    search.begin(&manager);
    search.set_matches(&manager, &mut selection, vec![1, 2, 3]);
    assert_eq!(search.current_match_index, Some(0));
    search.navigate_to_next_match(&mut manager, &mut selection);
    assert_eq!((search.current_match_index, selection), (Some(1), Some(1)));
    selection = Some(2);
    search.set_matches(&manager, &mut selection, vec![1, 2, 3]);
    assert_eq!((search.current_match_index, selection), (Some(1), Some(2)));
    search.set_matches(&manager, &mut selection, vec![3, 1]);
    assert_eq!(search.search_matches, vec![1, 3]);
    assert_eq!((search.current_match_index, selection), (Some(1), Some(2)));
    search.set_matches(&manager, &mut selection, vec![]);
    assert_eq!((search.current_match_index, selection), (None, Some(2)));
}
