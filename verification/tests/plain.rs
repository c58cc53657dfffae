use std::collections::HashMap;
use tododb::reparent::would_create_cycle;
use tododb::todo::{Timestamp, Todo};
use tododb::tree::TodoTreeManager;

/// A small generator of numbers that looks random and is the same on every run.
struct Numbers(u64);

impl Numbers {
    fn next(&mut self, below: u64) -> u64 {
        self.0 = self.0.wrapping_mul(6364136223846793005).wrapping_add(1442695040888963407);
        (self.0 >> 33) % below
    }
}

fn batch(numbers: &mut Numbers, count: i64) -> Vec<Todo> {
    let mut todos = Vec::new();
    for id in 1..=count {
        let parent_id = match numbers.next(4) {
            0 => None,
            1 => Some(count + 5),
            _ => {
                if id == 1 {
                    None
                } else {
                    Some(1 + numbers.next((id - 1) as u64) as i64)
                }
            }
        };
        todos.push(Todo {
            id,
            title: format!("task {}", id),
            description: String::new(),
            created_at: Timestamp::new(1_000 + numbers.next(50) as i64, id as u32),
            completed_at: if numbers.next(2) == 0 { Some(Timestamp::new(5_000, 0)) } else { None },
            due_by: None,
            parent_id,
            hidden: numbers.next(5) == 0,
        });
    }
    todos
}

struct Node {
    id: i64,
    children: Vec<Node>,
    is_expanded: bool,
}

struct Plain {
    todos: HashMap<i64, Todo>,
    expansion: HashMap<i64, bool>,
}

impl Plain {
    fn subtree(&self, groups: &HashMap<Option<i64>, Vec<i64>>, parent: Option<i64>) -> Vec<Node> {
        let mut nodes = Vec::new();
        if let Some(ids) = groups.get(&parent) {
            for &id in ids {
                let children = self.subtree(groups, Some(id));
                let open_work = self.has_incomplete(&children);
                let is_expanded = self.expansion.get(&id).copied().unwrap_or(open_work);
                nodes.push(Node { id, children, is_expanded });
            }
        }
        nodes.sort_by(|a, b| {
            let left = self.todos[&a.id].created_at;
            let right = self.todos[&b.id].created_at;
            (right.secs, right.nanos).cmp(&(left.secs, left.nanos))
        });
        nodes
    }

    fn has_incomplete(&self, nodes: &[Node]) -> bool {
        nodes.iter().any(|node| {
            !self.todos[&node.id].is_completed() || self.has_incomplete(&node.children)
        })
    }

    fn rows(&self) -> Vec<String> {
        let mut groups: HashMap<Option<i64>, Vec<i64>> = HashMap::new();
        for todo in self.todos.values() {
            groups.entry(todo.parent_id).or_default().push(todo.id);
        }
        let roots: Vec<Node> = self
            .subtree(&groups, None)
            .into_iter()
            .filter(|node| {
                !self.todos[&node.id].is_completed() || self.has_incomplete(&node.children)
            })
            .collect();
        let mut rows = Vec::new();
        for (i, root) in roots.iter().enumerate() {
            self.row(root, &mut rows, Vec::new(), i == roots.len() - 1, 0);
        }
        rows
    }

    fn row(&self, node: &Node, rows: &mut Vec<String>, bars: Vec<bool>, last: bool, depth: usize) {
        let todo = &self.todos[&node.id];
        let mut text = String::new();
        for &bar in &bars {
            text.push_str(if bar { "│   " } else { "    " });
        }
        if depth > 0 {
            text.push_str(if last { "└── " } else { "├── " });
        }
        let icon = if todo.is_completed() { "[✓]" } else { "[ ]" };
        let arrow = if node.children.is_empty() {
            ""
        } else if node.is_expanded {
            "▼ "
        } else {
            "▶ "
        };
        text.push_str(&format!("{} {} {}{}", todo.id % 100, icon, arrow, todo.title));
        rows.push(text);
        if !node.children.is_empty() && node.is_expanded {
            let mut below = bars.clone();
            below.push(!last);
            for (i, child) in node.children.iter().enumerate() {
                self.row(child, rows, below.clone(), i == node.children.len() - 1, depth + 1);
            }
        }
    }
}

#[test]
fn outline_agrees_with_a_plain_construction() {
    let mut numbers = Numbers(42);
    for round in 0..300 {
        let count = 1 + numbers.next(14) as i64;
        let todos = batch(&mut numbers, count);
        let show_hidden = numbers.next(2) == 0;
        let mut manager = TodoTreeManager::new();
        let mut plain = Plain { todos: HashMap::new(), expansion: HashMap::new() };
        for _ in 0..numbers.next(4) {
            let id = 1 + numbers.next(count as u64) as i64;
            let open = numbers.next(2) == 0;
            manager.expansion_states.insert(id, open);
            plain.expansion.insert(id, open);
        }
        for todo in &todos {
            if show_hidden || !todo.hidden {
                plain.todos.insert(todo.id, todo.clone());
            }
        }
        manager.rebuild_from_todos_with_hidden_filter(todos, show_hidden);
        let rows: Vec<String> = manager
            .get_rendered_lines()
            .iter()
            .map(|line| format!("{}{}", line.prefix, line.display_text))
            .collect();
        assert_eq!(rows, plain.rows(), "round {}", round);
        for (row, line) in manager.get_rendered_lines().iter().enumerate() {
            assert_eq!(manager.get_line_index_for_todo(line.todo_id), Some(row));
        }
    }
}

fn walk_finds(todos: &[Todo], todo_id: i64, potential_parent_id: i64) -> bool {
    if todo_id == potential_parent_id {
        return true;
    }
    let mut current = Some(potential_parent_id);
    let mut steps = 0;
    while let Some(id) = current {
        steps += 1;
        if steps > 1_000 {
            return false;
        }
        match todos.iter().find(|t| t.id == id) {
            Some(todo) => {
                current = todo.parent_id;
                if current == Some(todo_id) {
                    return true;
                }
            }
            None => break,
        }
    }
    false
}

#[test]
fn move_guard_agrees_with_a_plain_walk() {
    let mut numbers = Numbers(7);
    for _ in 0..200 {
        let count = 1 + numbers.next(10) as i64;
        let mut todos = batch(&mut numbers, count);
        if numbers.next(3) == 0 {
            let at = numbers.next(count as u64) as usize;
            todos[at].parent_id = Some(1 + numbers.next(count as u64) as i64);
        }
        for a in 0..=count + 1 {
            for b in 0..=count + 5 {
                assert_eq!(would_create_cycle(&todos, a, b), walk_finds(&todos, a, b));
            }
        }
    }
}
