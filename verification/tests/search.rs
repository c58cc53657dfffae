use tododb::search::{collect_marked, ids_of_todos, search_todos};
use tododb::todo::{Timestamp, Todo};

fn task(id: i64, title: &str, description: &str) -> Todo {
    Todo {
        id,
        title: title.to_string(),
        description: description.to_string(),
        created_at: Timestamp::new(1_700_000_000 + id, 0),
        completed_at: None,
        due_by: None,
        parent_id: None,
        hidden: false,
    }
}

fn corpus() -> Vec<Todo> {
    vec![
        task(1, "Buy milk", "whole milk, two litres"),
        task(2, "Write report", "quarterly numbers (Q3)"),
        task(3, "Call Anna", "about the MILK delivery"),
        task(4, "a(b", "odd title"),
        task(5, "Regex a.c", "dot is literal here: a.c"),
        task(6, "abc", ""),
    ]
}

fn found(pattern: &str) -> Vec<i64> {
    ids_of_todos(&search_todos(&corpus(), pattern))
}

#[test]
fn search_ignores_case_and_reads_title_and_description() {
    assert_eq!(found("milk"), vec![1, 3]);
    assert_eq!(found("MILK"), vec![1, 3]);
    assert_eq!(found("report"), vec![2]);
    assert_eq!(found("q3"), vec![2]);
    assert_eq!(found("no such thing"), Vec::<i64>::new());
}

#[test]
fn search_takes_regular_expressions() {
    assert_eq!(found("^buy"), vec![1]);
    assert_eq!(found("a.c"), vec![5, 6]);
    assert_eq!(found("a\\.c"), vec![5]);
    assert_eq!(found("milk$|^abc$"), vec![1, 6]);
    assert_eq!(found("\\d"), vec![2]);
}

#[test]
fn invalid_expression_is_searched_literally() {
    assert_eq!(found("a(b"), vec![4]);
    assert_eq!(found("A(B"), vec![4]);
    assert_eq!(found("(Q3"), vec![2]);
    assert_eq!(found("[milk"), Vec::<i64>::new());
    assert_eq!(found("*"), Vec::<i64>::new());
}

#[test]
fn blank_pattern_finds_nothing() {
    assert_eq!(found(""), Vec::<i64>::new());
    assert_eq!(found("   "), Vec::<i64>::new());
    assert_eq!(found("\t\n"), Vec::<i64>::new());
}

#[test]
fn search_keeps_the_records_whole_and_in_order() {
    let all = corpus();
    let hits = search_todos(&all, "milk");
    assert_eq!(hits, vec![all[0].clone(), all[2].clone()]);
    assert_eq!(search_todos(&Vec::new(), "milk"), Vec::<Todo>::new());
}

#[test]
fn marked_records_are_collected_in_order() {
    let all = corpus();
    let picked = collect_marked(&all, &vec![false, true, false, true, false, false]);
    assert_eq!(ids_of_todos(&picked), vec![2, 4]);
    assert_eq!(collect_marked(&all, &vec![false; 6]), Vec::<Todo>::new());
    assert_eq!(ids_of_todos(&collect_marked(&all, &vec![true; 6])), vec![1, 2, 3, 4, 5, 6]);
    assert_eq!(collect_marked(&Vec::new(), &Vec::new()), Vec::<Todo>::new());
}

#[test]
fn escaping_agrees_with_the_regex_crate() {
    for code in 0u32..0x250 {
        if let Some(c) = char::from_u32(code) {
            let text = format!("a{}b{}", c, c);
            assert_eq!(tododb::search::escape_pattern(&text), regex::escape(&text), "{:?}", c);
            assert_eq!(
                tododb::search::char_is_meta(c),
                regex::escape(&c.to_string()).chars().count() == 2,
                "{:?}",
                c
            );
        }
    }
    for text in ["", "plain", "a.b*c", "(unclosed", "[x]{2}^$", "back\\slash", "é-ß~#&|?+", "日本語(追加)"] {
        assert_eq!(tododb::search::escape_pattern(text), regex::escape(text));
    }
    assert_eq!(tododb::search::escape_pattern("(a+b)"), "\\(a\\+b\\)");
}

