use tododb::todo::{Timestamp, Todo};
use tododb::tree::{find_expansion, generate_prefix, RenderedLine, TodoTreeManager, TreeNode};

fn at(second: i64) -> Timestamp {
    Timestamp::new(second, 0)
}

fn task(id: i64, title: &str, parent_id: Option<i64>, completed: bool) -> Todo {
    Todo {
        id,
        title: title.to_string(),
        description: String::new(),
        created_at: at(1_700_000_000 + id),
        completed_at: if completed { Some(at(1_800_000_000)) } else { None },
        due_by: None,
        parent_id,
        hidden: false,
    }
}

fn rows(manager: &TodoTreeManager) -> Vec<String> {
    manager
        .get_rendered_lines()
        .iter()
        .map(|line| format!("{}{}", line.prefix, line.display_text))
        .collect()
}

fn leaf(id: i64) -> TreeNode {
    TreeNode { id, children: Vec::new(), is_expanded: false }
}

#[test]
fn root_with_open_work_is_shown_and_expanded() {
    let mut manager = TodoTreeManager::new();
    manager.rebuild_from_todos(vec![
        task(1, "Buy milk", None, false),
        task(2, "Find the shop", Some(1), true),
        task(3, "Take a bag", Some(1), false),
    ]);
    assert_eq!(
        manager.tree,
        vec![TreeNode { id: 1, children: vec![leaf(3), leaf(2)], is_expanded: true }]
    );
    assert_eq!(
        rows(&manager),
        vec![
            "1 [ ] ▼ Buy milk".to_string(),
            "    ├── 3 [ ] Take a bag".to_string(),
            "    └── 2 [✓] Find the shop".to_string(),
        ]
    );
    assert_eq!(manager.get_line_index_for_todo(1), Some(0));
    assert_eq!(manager.get_line_index_for_todo(3), Some(1));
    assert_eq!(manager.get_line_index_for_todo(2), Some(2));
    assert_eq!(manager.get_line_index_for_todo(4), None);
}

#[test]
fn rendered_line_fields() {
    let mut manager = TodoTreeManager::new();
    manager.rebuild_from_todos(vec![
        task(1, "Buy milk", None, false),
        task(3, "Take a bag", Some(1), false),
    ]);
    assert_eq!(
        manager.get_rendered_lines(),
        &vec![
            RenderedLine {
                todo_id: 1,
                prefix: String::new(),
                display_text: "1 [ ] ▼ Buy milk".to_string(),
                has_children: true,
            },
            RenderedLine {
                todo_id: 3,
                prefix: "    └── ".to_string(),
                display_text: "3 [ ] Take a bag".to_string(),
                has_children: false,
            },
        ]
    );
}

#[test]
fn rebuilding_twice_gives_the_same_rows() {
    let batch = || {
        vec![
            task(1, "Project", None, false),
            task(2, "Design", Some(1), false),
            task(3, "Sketch", Some(2), true),
            task(4, "Build", Some(1), false),
            task(5, "Errand", None, false),
        ]
    };
    let mut first = TodoTreeManager::new();
    first.rebuild_from_todos(batch());
    let mut second = TodoTreeManager::new();
    second.rebuild_from_todos(batch());
    assert_eq!(first.get_rendered_lines(), second.get_rendered_lines());
    let once = rows(&first);
    first.rebuild_from_todos(batch());
    assert_eq!(rows(&first), once);
    assert_eq!(
        once,
        vec![
            "5 [ ] Errand".to_string(),
            "1 [ ] ▼ Project".to_string(),
            "    ├── 4 [ ] Build".to_string(),
            "    └── 2 [ ] ▶ Design".to_string(),
        ]
    );
}

#[test]
fn continuation_bars_follow_ancestors_with_later_siblings() {
    let mut manager = TodoTreeManager::new();
    manager.rebuild_from_todos(vec![
        task(1, "A", None, false),
        task(2, "B", None, false),
        task(3, "B1", Some(2), false),
        task(4, "B2", Some(2), false),
        task(5, "B2a", Some(4), false),
        task(6, "B2b", Some(4), false),
        task(7, "B1a", Some(3), false),
    ]);
    assert_eq!(
        rows(&manager),
        vec![
            "2 [ ] ▼ B".to_string(),
            "│   ├── 4 [ ] ▼ B2".to_string(),
            "│   │   ├── 6 [ ] B2b".to_string(),
            "│   │   └── 5 [ ] B2a".to_string(),
            "│   └── 3 [ ] ▼ B1".to_string(),
            "│       └── 7 [ ] B1a".to_string(),
            "1 [ ] A".to_string(),
        ]
    );
}

#[test]
fn prefix_glyphs() {
    assert_eq!(generate_prefix(&vec![], true, 0), "");
    assert_eq!(generate_prefix(&vec![], false, 0), "");
    assert_eq!(generate_prefix(&vec![false], true, 1), "    └── ");
    assert_eq!(generate_prefix(&vec![true], false, 1), "│   ├── ");
    assert_eq!(generate_prefix(&vec![true, false, true], true, 3), "│       │   └── ");
}

#[test]
fn completed_root_without_open_work_is_pruned() {
    let mut manager = TodoTreeManager::new();
    manager.rebuild_from_todos(vec![
        task(1, "Done alone", None, true),
        task(2, "Done with done child", None, true),
        task(3, "Done child", Some(2), true),
        task(4, "Done with open grandchild", None, true),
        task(5, "Done child", Some(4), true),
        task(6, "Open grandchild", Some(5), false),
    ]);
    assert_eq!(
        rows(&manager),
        vec![
            "4 [✓] ▼ Done with open grandchild".to_string(),
            "    └── 5 [✓] ▼ Done child".to_string(),
            "        └── 6 [ ] Open grandchild".to_string(),
        ]
    );
    assert_eq!(manager.get_line_index_for_todo(1), None);
    assert_eq!(manager.get_line_index_for_todo(3), None);
}

#[test]
fn completed_children_are_kept_but_folded() {
    let mut manager = TodoTreeManager::new();
    manager.rebuild_from_todos(vec![
        task(1, "Open root", None, false),
        task(2, "Done child", Some(1), true),
        task(3, "Done grandchild", Some(2), true),
    ]);
    assert_eq!(rows(&manager), vec!["1 [ ] ▶ Open root".to_string()]);
    assert_eq!(
        manager.tree,
        vec![TreeNode {
            id: 1,
            children: vec![TreeNode { id: 2, children: vec![leaf(3)], is_expanded: false }],
            is_expanded: false,
        }]
    );
}

#[test]
fn hidden_tasks_leave_unless_asked_for() {
    let mut hidden = task(2, "Hidden", None, false);
    hidden.hidden = true;
    let mut hidden_parent = task(3, "Hidden parent", None, false);
    hidden_parent.hidden = true;
    let batch = vec![
        task(1, "Plain", None, false),
        hidden,
        hidden_parent,
        task(4, "Child of hidden", Some(3), false),
    ];
    let mut manager = TodoTreeManager::new();
    manager.rebuild_from_todos(batch.clone());
    assert_eq!(rows(&manager), vec!["1 [ ] Plain".to_string()]);
    assert!(manager.get_todo_by_id(2).is_none());
    assert!(manager.get_todo_by_id(4).is_some());
    manager.rebuild_from_todos_with_hidden_filter(batch, true);
    assert_eq!(
        rows(&manager),
        vec![
            "3 [ ] ▼ Hidden parent".to_string(),
            "│   └── 4 [ ] Child of hidden".to_string(),
            "2 [ ] Hidden".to_string(),
            "1 [ ] Plain".to_string(),
        ]
    );
}

#[test]
fn dangling_parent_drops_the_task_from_the_outline() {
    let mut manager = TodoTreeManager::new();
    manager.rebuild_from_todos(vec![
        task(1, "Root", None, false),
        task(2, "Orphan", Some(99), false),
        task(3, "Below orphan", Some(2), false),
    ]);
    assert_eq!(rows(&manager), vec!["1 [ ] Root".to_string()]);
    assert_eq!(manager.todos.len(), 3);
}

#[test]
fn records_with_the_same_identifier_keep_the_last() {
    let mut manager = TodoTreeManager::new();
    manager.rebuild_from_todos(vec![
        task(1, "First version", None, false),
        task(2, "Other", None, false),
        task(1, "Second version", None, false),
    ]);
    assert_eq!(rows(&manager), vec!["2 [ ] Other".to_string(), "1 [ ] Second version".to_string()]);
    assert_eq!(manager.get_todo_by_id(1).map(|t| t.title.clone()), Some("Second version".to_string()));
}

#[test]
fn tasks_of_the_same_instant_keep_their_order() {
    let mut a = task(1, "a", None, false);
    let mut b = task(2, "b", None, false);
    let mut c = task(3, "c", None, false);
    a.created_at = Timestamp::new(10, 5);
    b.created_at = Timestamp::new(10, 5);
    c.created_at = Timestamp::new(10, 6);
    let mut manager = TodoTreeManager::new();
    manager.rebuild_from_todos(vec![a, b, c]);
    assert_eq!(
        rows(&manager),
        vec!["3 [ ] c".to_string(), "1 [ ] a".to_string(), "2 [ ] b".to_string()]
    );
}

#[test]
fn short_identifier_is_the_remainder_by_one_hundred() {
    let mut manager = TodoTreeManager::new();
    manager.rebuild_from_todos(vec![
        task(12345, "big", None, false),
        task(200, "round", None, false),
        task(-7, "negative", None, false),
        task(-1234, "very negative", None, false),
    ]);
    assert_eq!(
        rows(&manager),
        vec![
            "45 [ ] big".to_string(),
            "0 [ ] round".to_string(),
            "-7 [ ] negative".to_string(),
            "-34 [ ] very negative".to_string(),
        ]
    );
    assert_eq!(task(12345, "", None, false).id_mod(), 45);
    assert_eq!(task(-1234, "", None, false).id_mod(), -34);
    assert!(task(1, "", None, true).is_completed());
    assert!(!task(1, "", None, false).is_completed());
}

#[test]
fn saved_expansion_wins_over_the_default() {
    let mut manager = TodoTreeManager::new();
    manager.expansion_states.insert(1, false);
    manager.expansion_states.insert(2, true);
    manager.rebuild_from_todos(vec![
        task(1, "Open work, folded", None, false),
        task(3, "Child", Some(1), false),
        task(2, "Done work, opened", None, false),
        task(4, "Done child", Some(2), true),
    ]);
    assert_eq!(
        rows(&manager),
        vec![
            "2 [ ] ▼ Done work, opened".to_string(),
            "│   └── 4 [✓] Done child".to_string(),
            "1 [ ] ▶ Open work, folded".to_string(),
        ]
    );
}

#[test]
fn toggling_flips_the_branch() {
    let mut manager = TodoTreeManager::new();
    manager.rebuild_from_todos(vec![task(1, "Root", None, false), task(2, "Child", Some(1), false)]);
    assert_eq!(rows(&manager).len(), 2);
    assert!(manager.toggle_expansion(1));
    assert_eq!(manager.expansion_states.get(&1), Some(&false));
    assert_eq!(rows(&manager), vec!["1 [ ] ▶ Root".to_string()]);
    assert_eq!(manager.get_line_index_for_todo(2), None);
    assert!(manager.toggle_expansion(1));
    assert_eq!(manager.expansion_states.get(&1), Some(&true));
    assert_eq!(rows(&manager), vec!["1 [ ] ▼ Root".to_string(), "    └── 2 [ ] Child".to_string()]);
}

#[test]
fn toggling_a_folded_default_opens_it() {
    let mut manager = TodoTreeManager::new();
    manager.rebuild_from_todos(vec![task(1, "Root", None, false), task(2, "Child", Some(1), true)]);
    assert_eq!(rows(&manager), vec!["1 [ ] ▶ Root".to_string()]);
    assert!(!manager.counts_as_open(1));
    assert!(manager.toggle_expansion(1));
    assert_eq!(manager.expansion_states.get(&1), Some(&true));
    assert_eq!(rows(&manager), vec!["1 [ ] ▼ Root".to_string(), "    └── 2 [✓] Child".to_string()]);
    assert!(manager.counts_as_open(1));
}

#[test]
fn toggling_twice_gives_the_rows_back() {
    let folded = vec![task(1, "Root", None, false), task(2, "Child", Some(1), true)];
    let open = vec![
        task(1, "Root", None, false),
        task(2, "Child", Some(1), true),
        task(3, "Grandchild", Some(2), false),
    ];
    for (tasks, id, began_open) in [(folded, 1, false), (open.clone(), 1, true), (open, 2, true)] {
        let mut manager = TodoTreeManager::new();
        manager.rebuild_from_todos(tasks);
        let before = rows(&manager);
        let tree_before = format!("{:?}", manager.tree);
        let index_before = manager.id_to_line.clone();
        assert!(manager.toggle_expansion(id));
        assert_eq!(manager.expansion_states.get(&id), Some(&!began_open));
        assert_ne!(rows(&manager), before);
        assert!(manager.toggle_expansion(id));
        assert_eq!(manager.expansion_states.get(&id), Some(&began_open));
        assert_eq!(manager.expansion_states.len(), 1);
        assert_eq!(rows(&manager), before);
        assert_eq!(format!("{:?}", manager.tree), tree_before);
        assert_eq!(manager.id_to_line, index_before);
    }
}

#[test]
fn open_work_below_is_found_through_completed_tasks() {
    let mut manager = TodoTreeManager::new();
    manager.rebuild_from_todos(vec![
        task(1, "Root", None, false),
        task(2, "Done", Some(1), true),
        task(3, "Open below done", Some(2), false),
        task(4, "Done leaf", Some(1), true),
        task(5, "Done root", None, true),
        task(6, "Done under done root", Some(5), true),
    ]);
    assert!(manager.has_incomplete_below(1));
    assert!(manager.has_incomplete_below(2));
    assert!(!manager.has_incomplete_below(3));
    assert!(!manager.has_incomplete_below(4));
    assert!(!manager.has_incomplete_below(5));
    assert!(!manager.has_incomplete_below(77));
    assert!(!manager.counts_as_open(5));
    manager.expansion_states.insert(5, true);
    manager.expansion_states.insert(1, false);
    assert!(manager.counts_as_open(5));
    assert!(!manager.counts_as_open(1));
}

#[test]
fn toggling_a_childless_task_changes_nothing() {
    let mut manager = TodoTreeManager::new();
    manager.rebuild_from_todos(vec![task(1, "Root", None, false), task(2, "Child", Some(1), false)]);
    let before = rows(&manager);
    let tree_before = format!("{:?}", manager.tree);
    assert!(!manager.toggle_expansion(2));
    assert!(!manager.toggle_expansion(77));
    assert!(manager.expansion_states.is_empty());
    assert_eq!(rows(&manager), before);
    assert_eq!(format!("{:?}", manager.tree), tree_before);
    assert_eq!(manager.id_to_line.len(), 2);
}

#[test]
fn completion_update_rewrites_only_the_row() {
    let mut manager = TodoTreeManager::new();
    manager.rebuild_from_todos(vec![
        task(1, "Root", None, false),
        task(2, "Child", Some(1), false),
        task(3, "Grandchild", Some(2), false),
    ]);
    let tree_before = format!("{:?}", manager.tree);
    manager.update_todo_completion(2, true);
    assert!(manager.get_todo_by_id(2).map(|t| t.is_completed()).unwrap_or(false));
    assert_eq!(
        rows(&manager),
        vec![
            "1 [ ] ▼ Root".to_string(),
            "    └── 2 [✓] ▼ Child".to_string(),
            "        └── 3 [ ] Grandchild".to_string(),
        ]
    );
    manager.update_todo_completion(2, false);
    assert!(!manager.get_todo_by_id(2).map(|t| t.is_completed()).unwrap_or(true));
    assert_eq!(rows(&manager)[1], "    └── 2 [ ] ▼ Child");
    manager.set_todo_completion(3, Some(at(5)));
    assert_eq!(manager.get_todo_by_id(3).and_then(|t| t.completed_at), Some(at(5)));
    assert_eq!(rows(&manager)[2], "        └── 3 [✓] Grandchild");
    manager.update_todo_completion(99, true);
    assert_eq!(rows(&manager).len(), 3);
    assert_eq!(format!("{:?}", manager.tree), tree_before);
    assert!(manager.expansion_states.is_empty());
    assert_eq!(manager.id_to_line.len(), 3);
}

#[test]
fn completion_update_keeps_the_arrow_of_a_folded_branch() {
    let mut manager = TodoTreeManager::new();
    manager.rebuild_from_todos(vec![
        task(1, "Root", None, false),
        task(2, "Child", Some(1), false),
        task(3, "Grandchild", Some(2), false),
    ]);
    assert!(manager.toggle_expansion(2));
    assert_eq!(
        rows(&manager),
        vec!["1 [ ] ▼ Root".to_string(), "    └── 2 [ ] ▶ Child".to_string()]
    );
    manager.set_todo_completion(2, Some(at(7)));
    assert_eq!(
        rows(&manager),
        vec!["1 [ ] ▼ Root".to_string(), "    └── 2 [✓] ▶ Child".to_string()]
    );
    let patched = rows(&manager);
    manager.refresh_outline();
    assert_eq!(rows(&manager), patched);
    manager.set_todo_completion(3, Some(at(8)));
    assert_eq!(rows(&manager), patched);
    assert_eq!(manager.get_todo_by_id(3).and_then(|t| t.completed_at), Some(at(8)));
}

#[test]
fn branch_of_a_task_is_looked_up_in_the_forest() {
    let forest = vec![
        TreeNode {
            id: 1,
            children: vec![TreeNode { id: 2, children: vec![leaf(3)], is_expanded: true }, leaf(4)],
            is_expanded: false,
        },
        TreeNode { id: 5, children: Vec::new(), is_expanded: true },
    ];
    assert_eq!(find_expansion(&forest, 1), Some(false));
    assert_eq!(find_expansion(&forest, 2), Some(true));
    assert_eq!(find_expansion(&forest, 3), Some(false));
    assert_eq!(find_expansion(&forest, 4), Some(false));
    assert_eq!(find_expansion(&forest, 5), Some(true));
    assert_eq!(find_expansion(&forest, 6), None);
    assert_eq!(find_expansion(&Vec::new(), 1), None);
}

#[test]
fn expanding_the_path_opens_every_ancestor() {
    let mut manager = TodoTreeManager::new();
    manager.rebuild_from_todos(vec![
        task(1, "Root", None, false),
        task(2, "Level one", Some(1), true),
        task(3, "Level two", Some(2), true),
        task(4, "Level three", Some(3), true),
    ]);
    assert_eq!(rows(&manager), vec!["1 [ ] ▶ Root".to_string()]);
    let opened = manager.expand_path_to_todo(4);
    assert_eq!(opened, vec![3, 2, 1]);
    assert_eq!(manager.get_line_index_for_todo(4), Some(3));
    assert_eq!(
        rows(&manager),
        vec![
            "1 [ ] ▼ Root".to_string(),
            "    └── 2 [✓] ▼ Level one".to_string(),
            "        └── 3 [✓] ▼ Level two".to_string(),
            "            └── 4 [✓] Level three".to_string(),
        ]
    );
    assert_eq!(manager.expand_path_to_todo(4), Vec::<i64>::new());
    assert_eq!(manager.expand_path_to_todo(1), Vec::<i64>::new());
    assert_eq!(manager.expand_path_to_todo(404), Vec::<i64>::new());
}

#[test]
fn expanding_the_path_ends_on_a_cycle() {
    let mut manager = TodoTreeManager::new();
    manager.rebuild_from_todos(vec![
        task(1, "Root", None, false),
        task(2, "Loop a", Some(3), false),
        task(3, "Loop b", Some(2), false),
    ]);
    let opened = manager.expand_path_to_todo(2);
    assert_eq!(opened, vec![3, 2]);
    assert_eq!(rows(&manager), vec!["1 [ ] Root".to_string()]);
}

#[test]
fn root_nodes_are_tested_for_open_work() {
    let mut manager = TodoTreeManager::new();
    manager.rebuild_from_todos(vec![task(1, "Done", None, true), task(2, "Open", Some(1), false)]);
    let done_root = TreeNode { id: 1, children: vec![leaf(2)], is_expanded: true };
    let done_leaf = TreeNode { id: 1, children: Vec::new(), is_expanded: false };
    let unknown = leaf(50);
    assert!(manager.should_show_root_node(&done_root));
    assert!(!manager.should_show_root_node(&done_leaf));
    assert!(!manager.should_show_root_node(&unknown));
    assert!(manager.has_incomplete_descendants(&vec![leaf(2)]));
    assert!(!manager.has_incomplete_descendants(&vec![leaf(1)]));
    assert!(manager.has_incomplete_descendants(&vec![TreeNode {
        id: 1,
        children: vec![leaf(2)],
        is_expanded: false
    }]));
    assert!(manager.node_has_children(1));
    assert!(!manager.node_has_children(2));
}

#[test]
fn no_task_has_two_rows_and_the_index_names_each_row() {
    let mut manager = TodoTreeManager::new();
    manager.rebuild_from_todos(vec![
        task(1, "Root", None, false),
        task(2, "Child", Some(1), false),
        task(3, "Grandchild", Some(2), false),
        task(4, "Second child", Some(1), true),
        task(5, "Other root", None, false),
        task(6, "Below other", Some(5), false),
        task(6, "Below other, again", Some(5), false),
        task(7, "Loop one", Some(8), false),
        task(8, "Loop two", Some(7), false),
    ]);
    let ids: Vec<i64> = manager.get_rendered_lines().iter().map(|line| line.todo_id).collect();
    assert_eq!(ids, vec![5, 6, 1, 4, 2, 3]);
    for (row, id) in ids.iter().enumerate() {
        assert_eq!(manager.get_line_index_for_todo(*id), Some(row));
    }
    assert_eq!(manager.id_to_line.len(), ids.len());
}

#[test]
fn builder_gives_the_nodes_under_a_parent() {
    let mut manager = TodoTreeManager::new();
    manager.rebuild_from_todos(vec![
        task(1, "Root", None, false),
        task(2, "Done child", Some(1), true),
        task(3, "Open grandchild", Some(2), false),
        task(4, "Done leaf", Some(1), true),
    ]);
    let (nodes, open_work) = manager.build_subtree(Some(1), 3);
    assert!(open_work);
    assert_eq!(
        nodes,
        vec![leaf(4), TreeNode { id: 2, children: vec![leaf(3)], is_expanded: true }]
    );
    let (cut, seen) = manager.build_subtree(Some(1), 0);
    assert!(!seen);
    assert_eq!(cut, vec![leaf(4), leaf(2)]);
    let (node, below) = manager.build_node(2, 1);
    assert!(below);
    assert_eq!(node, TreeNode { id: 2, children: vec![leaf(3)], is_expanded: true });
    let (none, nothing) = manager.build_subtree(Some(3), 3);
    assert!(none.is_empty());
    assert!(!nothing);
}

