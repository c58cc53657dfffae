use tododb::colors::CatppuccinFrappe;
use tododb::help::{get_demo_db_path, get_markdown_help};
use tododb::modes::{AppMode, CreateFieldFocus, Cursor};

#[test]
fn text_modes() {
    assert!(AppMode::Create.is_text_input(false));
    assert!(AppMode::ParentSearch.is_text_input(false));
    assert!(AppMode::ListFind.is_text_input(true));
    assert!(!AppMode::ListFind.is_text_input(false));
    assert!(AppMode::TreeSearch.is_text_input(true));
    assert!(!AppMode::TreeSearch.is_text_input(false));
    assert!(AppMode::IdModGoto.is_text_input(true));
    assert!(!AppMode::IdModGoto.is_text_input(false));
    for mode in [
        AppMode::List,
        AppMode::CompletedView,
        AppMode::ConfirmDelete,
        AppMode::Move,
        AppMode::Help,
    ] {
        assert!(!mode.is_text_input(true));
        assert!(!mode.is_text_input(false));
    }
}

#[test]
fn cursor_of_each_mode() {
    assert_eq!(AppMode::CompletedView.cursor(true), Cursor::Completed);
    assert_eq!(AppMode::CompletedView.cursor(false), Cursor::Completed);
    assert_eq!(AppMode::List.cursor(true), Cursor::Tree);
    assert_eq!(AppMode::List.cursor(false), Cursor::List);
    assert_eq!(AppMode::TreeSearch.cursor(true), Cursor::Tree);
    assert_eq!(AppMode::Move.cursor(false), Cursor::List);
}

#[test]
fn fields_follow_each_other_round() {
    assert_eq!(CreateFieldFocus::Title.next(), CreateFieldFocus::DueDateRelative);
    assert_eq!(CreateFieldFocus::DueDateRelative.next(), CreateFieldFocus::DueDateAbsolute);
    assert_eq!(CreateFieldFocus::DueDateAbsolute.next(), CreateFieldFocus::Parent);
    assert_eq!(CreateFieldFocus::Parent.next(), CreateFieldFocus::Description);
    assert_eq!(CreateFieldFocus::Description.next(), CreateFieldFocus::Title);
}

#[test]
fn fixed_texts() {
    assert_eq!(get_demo_db_path(), "demo_todos.db");
    let lines = [
        "Markdown Formatting:",
        "# Heading 1",
        "## Heading 2",
        "### Heading 3",
        "",
        "**Bold Text**",
        "*Italic Text*",
        "~~Strikethrough~~",
        "",
        "- Unordered List Item",
        "1. Ordered List Item",
        "- [ ] Task (unchecked)",
        "- [x] Task (checked)",
        "",
        "> Blockquote text",
        "",
        "`inline code`",
        "```rust",
        "// Code block with language",
        "fn main() {",
        "    println!(\"Hello, world!\");",
        "}",
        "```",
        "",
        "[Link text](https://example.com)",
        "![Image alt text](image-url)",
        "",
        "Horizontal rule:",
        "---",
        "",
        "| Table | Header |",
        "|-------|--------|",
        "| Cell  | Cell   |",
    ];
    let mut expected = String::new();
    for line in lines {
        expected.push_str(line);
        expected.push('\n');
    }
    assert_eq!(get_markdown_help(), expected);
}

#[test]
fn palette() {
    assert_eq!(CatppuccinFrappe::channels(CatppuccinFrappe::BASE), (48, 52, 70));
    assert_eq!(CatppuccinFrappe::channels(CatppuccinFrappe::TEXT), (198, 208, 245));
    assert_eq!(CatppuccinFrappe::channels(CatppuccinFrappe::SUBTEXT1), (181, 191, 226));
    assert_eq!(CatppuccinFrappe::channels(CatppuccinFrappe::SUBTEXT0), (165, 173, 203));
    assert_eq!(CatppuccinFrappe::channels(CatppuccinFrappe::SURFACE2), (87, 96, 134));
    assert_eq!(CatppuccinFrappe::channels(CatppuccinFrappe::SURFACE0), (54, 58, 79));
    assert_eq!(CatppuccinFrappe::channels(CatppuccinFrappe::LAVENDER), (186, 187, 241));
    assert_eq!(CatppuccinFrappe::channels(CatppuccinFrappe::BLUE), (140, 170, 238));
    assert_eq!(CatppuccinFrappe::channels(CatppuccinFrappe::SAPPHIRE), (133, 193, 220));
    assert_eq!(CatppuccinFrappe::channels(CatppuccinFrappe::TEAL), (129, 200, 190));
    assert_eq!(CatppuccinFrappe::channels(CatppuccinFrappe::GREEN), (166, 209, 137));
    assert_eq!(CatppuccinFrappe::channels(CatppuccinFrappe::YELLOW), (229, 200, 144));
    assert_eq!(CatppuccinFrappe::channels(CatppuccinFrappe::PEACH), (239, 159, 118));
    assert_eq!(CatppuccinFrappe::channels(CatppuccinFrappe::RED), (231, 130, 132));
    assert_eq!(CatppuccinFrappe::channels(CatppuccinFrappe::MAUVE), (202, 158, 230));
    assert_eq!(CatppuccinFrappe::channels(CatppuccinFrappe::PINK), (244, 184, 228));
    assert_eq!(CatppuccinFrappe::channels(CatppuccinFrappe::SELECTED_BG), (65, 72, 104));
    assert_eq!(CatppuccinFrappe::SELECTED, CatppuccinFrappe::BLUE);
    assert_eq!(CatppuccinFrappe::BORDER, CatppuccinFrappe::SURFACE2);
    assert_eq!(CatppuccinFrappe::COMPLETED, CatppuccinFrappe::GREEN);
    assert_eq!(CatppuccinFrappe::INCOMPLETE, CatppuccinFrappe::TEXT);
    assert_eq!(CatppuccinFrappe::PARENT_INDICATOR, CatppuccinFrappe::LAVENDER);
    assert_eq!(CatppuccinFrappe::CREATION_TIME, CatppuccinFrappe::SUBTEXT0);
    assert_eq!(CatppuccinFrappe::ERROR, CatppuccinFrappe::RED);
}
