//! Fixed texts and names.

use vstd::prelude::*;
use vstd::string::*;

verus! {

/// The name of the database file that the demonstration works on.
pub open spec fn demo_db_name() -> Seq<char> {
    "demo_todos.db"@
}

/// The database file for the demonstration: always the same file in the
/// current directory.
pub fn get_demo_db_path() -> (path: String)
    ensures
        path@ == demo_db_name(),
{
    String::from_str("demo_todos.db")
}

/// The summary of the markdown notation that descriptions may use.
pub open spec fn markdown_help_text() -> Seq<char> {
    "Markdown Formatting:
# Heading 1
## Heading 2
### Heading 3

**Bold Text**
*Italic Text*
~~Strikethrough~~

- Unordered List Item
1. Ordered List Item
- [ ] Task (unchecked)
- [x] Task (checked)

> Blockquote text

`inline code`
```rust
// Code block with language
fn main() {
    println!(\"Hello, world!\");
}
```

[Link text](https://example.com)
![Image alt text](image-url)

Horizontal rule:
---

| Table | Header |
|-------|--------|
| Cell  | Cell   |
"@
}

/// The summary of the markdown notation, one construct to a line.
pub fn get_markdown_help() -> (help: String)
    ensures
        help@ == markdown_help_text(),
{
    String::from_str(
        "Markdown Formatting:
# Heading 1
## Heading 2
### Heading 3

**Bold Text**
*Italic Text*
~~Strikethrough~~

- Unordered List Item
1. Ordered List Item
- [ ] Task (unchecked)
- [x] Task (checked)

> Blockquote text

`inline code`
```rust
// Code block with language
fn main() {
    println!(\"Hello, world!\");
}
```

[Link text](https://example.com)
![Image alt text](image-url)

Horizontal rule:
---

| Table | Header |
|-------|--------|
| Cell  | Cell   |
",
    )
}

} // verus!
