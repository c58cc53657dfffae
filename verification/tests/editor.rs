use tododb::editor::{
    format_markdown, markdown_file_name, parse_markdown, parse_markdown_at, split_lines,
    str_starts_with, MarkdownError,
};
use tododb::form::{new_todo_from_form, new_todo_from_form_at, parent_label, FormError};
use tododb::todo::{NewTodo, Timestamp, Todo};

fn task() -> Todo {
    Todo {
        id: 42,
        title: "Write the report".to_string(),
        description: "First line\n\n## Not a section\nlast line".to_string(),
        created_at: Timestamp::new(1_700_000_000, 0),
        completed_at: None,
        due_by: None,
        parent_id: None,
        hidden: false,
    }
}

#[test]
fn lines_agree_with_the_standard_library() {
    for text in [
        "", "a", "a\n", "a\nb", "a\r\nb\r\n", "\n", "\n\n", "a\n\nb", "baz\r", "a\rb\n", "\r\n",
        "\r", "x\r\r\ny", "one\ntwo\nthree", "é\nü\n",
    ] {
        let expected: Vec<&str> = text.lines().collect();
        assert_eq!(split_lines(text), expected, "lines of {:?}", text);
    }
    assert_eq!(split_lines("foo\nbar\n\r\nbaz\r"), vec!["foo", "bar", "", "baz\r"]);
}

#[test]
fn prefixes() {
    assert!(str_starts_with("## Due Date", "## Due Date"));
    assert!(str_starts_with("## Due Date (local)", "## Due Date"));
    assert!(!str_starts_with("## Due", "## Due Date"));
    assert!(!str_starts_with(" ## Due Date", "## Due Date"));
    assert!(str_starts_with("anything", ""));
    assert!(str_starts_with("", ""));
    assert!(!str_starts_with("", "#"));
}

#[test]
fn document_of_a_task() {
    let document = format_markdown(&task(), "Not set", "2023-11-14 22:13:20");
    assert_eq!(
        document,
        "# Write the report\n\n## Due Date\nNot set\n\n## Description\nFirst line\n\n## Not a section\nlast line\n\n## Metadata\n- **ID:** 42\n- **Status:** ○ Incomplete\n- **Created:** 2023-11-14 22:13:20 UTC\n"
    );
    let mut done = task();
    done.description = "  \n".to_string();
    done.completed_at = Some(Timestamp::new(5, 0));
    assert_eq!(
        format_markdown(&done, "2024-03-05 14:30", "x"),
        "# Write the report\n\n## Due Date\n2024-03-05 14:30\n\n## Description\n(No description)\n\n## Metadata\n- **ID:** 42\n- **Status:** ✓ Completed\n- **Created:** x UTC\n"
    );
}

#[test]
fn document_is_read_back() {
    let now = Timestamp::new(1_700_000_000, 0);
    let document = format_markdown(&task(), "Not set", "2023-11-14 22:13:20");
    assert_eq!(
        parse_markdown_at(&document, now),
        Ok((
            "Write the report".to_string(),
            "First line\n\n## Not a section\nlast line".to_string(),
            None
        ))
    );
    let mut blank = task();
    blank.description = String::new();
    let document = format_markdown(&blank, "2024-03-05 14:30", "2023-11-14 22:13:20");
    assert_eq!(
        parse_markdown_at(&document, now),
        Ok(("Write the report".to_string(), String::new(), Some(Timestamp::new(1_709_649_000, 0))))
    );
    assert_eq!(
        parse_markdown(&document),
        Ok(("Write the report".to_string(), String::new(), Some(Timestamp::new(1_709_649_000, 0))))
    );
}

#[test]
fn edited_document() {
    let now = Timestamp::new(1_700_000_000, 7);
    let content = "#  New title  \r\n# Second heading\r\n\r\n## Due Date\r\n\r\n  2d  \r\nignored\r\n\r\n## Description\r\n\r\nline one\r\n(No description)\r\n  line two\r\n\r\n\r\n## Metadata\r\n- **ID:** 9\r\nafter\r\n";
    assert_eq!(
        parse_markdown_at(content, now),
        Ok((
            "New title".to_string(),
            "line one\n  line two".to_string(),
            Some(Timestamp::new(1_700_000_000 + 172_800, 7))
        ))
    );
    assert_eq!(parse_markdown_at("", now), Ok((String::new(), String::new(), None)));
    assert_eq!(
        parse_markdown_at("no headings at all\n", now),
        Ok((String::new(), String::new(), None))
    );
    assert_eq!(
        parse_markdown_at("# \n# Real\n## Description\n# kept\n", now),
        Ok(("Real".to_string(), "# kept".to_string(), None))
    );
    assert_eq!(
        parse_markdown_at("# T\n## Description\na\n## Due Date\nNot set\n2024-03-05\n", now),
        Ok(("T".to_string(), "a".to_string(), None))
    );
}

#[test]
fn invalid_due_date_is_reported() {
    let now = Timestamp::new(1_700_000_000, 0);
    let outcome = parse_markdown_at("# T\n## Due Date\n  next week \n## Description\nx\n", now);
    assert_eq!(outcome, Err(MarkdownError::InvalidDueDate("next week".to_string())));
    assert_eq!(
        MarkdownError::InvalidDueDate("next week".to_string()).message(),
        "Invalid due date format: 'next week'. Expected format: 'YYYY-MM-DD HH:MM', '2d', '1w', etc., or 'Not set'"
    );
    assert_eq!(
        parse_markdown("## Due Date\nsoon\n"),
        Err(MarkdownError::InvalidDueDate("soon".to_string()))
    );
}

#[test]
fn parent_field() {
    assert_eq!(parent_label(7, "Short"), "ID:7 Short");
    assert_eq!(parent_label(-3, ""), "ID:-3 ");
    let forty = "0123456789012345678901234567890123456789";
    assert_eq!(parent_label(1, forty), format!("ID:1 {}", forty));
    let long = "01234567890123456789012345678901234567890";
    assert_eq!(parent_label(1, long), "ID:1 0123456789012345678901234567890123456...");
    let accented = "éééééééééééééééééééééééééééééééééééééééééé";
    assert_eq!(
        parent_label(1, accented),
        "ID:1 ééééééééééééééééééééééééééééééééééééé..."
    );
}

#[test]
fn form_gives_a_new_task() {
    let now = Timestamp::new(1_700_000_000, 0);
    assert_eq!(
        new_todo_from_form_at(" Title ", "text", "", "", Some(3), now),
        Ok(NewTodo {
            title: " Title ".to_string(),
            description: "text".to_string(),
            parent_id: Some(3),
            due_by: None,
        })
    );
    assert_eq!(
        new_todo_from_form_at("T", "", "1d", "2024-03-05", None, now).map(|t| t.due_by),
        Ok(Some(Timestamp::new(1_700_086_400, 0)))
    );
    assert_eq!(
        new_todo_from_form_at("T", "", "  ", "2024-03-05", None, now).map(|t| t.due_by),
        Ok(Some(Timestamp::new(1_709_683_199, 0)))
    );
    assert_eq!(
        new_todo_from_form_at("T", "", "soon", "2024-03-05", None, now).map(|t| t.due_by),
        Ok(None)
    );
    assert_eq!(new_todo_from_form_at("", "d", "1d", "", None, now), Err(FormError::EmptyTitle));
    assert_eq!(new_todo_from_form_at(" \t", "d", "", "", None, now), Err(FormError::EmptyTitle));
    assert_eq!(new_todo_from_form("", "", "", "", None), Err(FormError::EmptyTitle));
    assert_eq!(
        new_todo_from_form("T", "", "", "2024-03-05 14:30", None).map(|t| t.due_by),
        Ok(Some(Timestamp::new(1_709_649_000, 0)))
    );
    assert_eq!(FormError::EmptyTitle.message(), "Title cannot be empty");
}

#[test]
fn file_is_named_after_the_task() {
    assert_eq!(markdown_file_name(42, "Write the report"), "42_Write_the_report.md");
    assert_eq!(markdown_file_name(-1, ""), "-1_.md");
    assert_eq!(markdown_file_name(7, "a/b: c? d-e_f"), "7_a_b__c__d-e_f.md");
    assert_eq!(markdown_file_name(7, "Größe ändern 東京"), "7_Größe_ändern_東京.md");
    let long = "x".repeat(60);
    assert_eq!(markdown_file_name(1, &long), format!("1_{}.md", "x".repeat(50)));
    for title in ["plain", "two words", "tab\there", "émigré & co.", "📱 phone", "a_b-c"] {
        let sanitized = title
            .chars()
            .map(|c| if c.is_alphanumeric() || c == ' ' || c == '-' || c == '_' { c } else { '_' })
            .collect::<String>()
            .replace(' ', "_")
            .chars()
            .take(50)
            .collect::<String>();
        assert_eq!(markdown_file_name(3, title), format!("3_{}.md", sanitized));
    }
}
