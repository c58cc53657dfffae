//! A task as a markdown document for an editor, and reading the document
//! back once it was edited.

use crate::clock::current_time;
use crate::due::{due_date_of, parse_due_date_at};
use crate::text::{
    chars_of, decimal, lemma_trimmed_is_trimmed, push_char, to_decimal, trim_str, trimmed,
};
use crate::todo::{Timestamp, Todo};
use vstd::prelude::*;
use vstd::string::*;

verus! {

/// Index of the first line feed in `text`.
pub open spec fn first_line_feed(text: Seq<char>) -> Option<int>
    decreases text.len(),
{
    if text.len() == 0 {
        None
    } else {
        match first_line_feed(text.drop_last()) {
            Some(i) => Some(i),
            None => if text.last() == '\n' {
                Some(text.len() - 1)
            } else {
                None
            },
        }
    }
}

/// `line` without a carriage return at its end.
pub open spec fn without_carriage_return(line: Seq<char>) -> Seq<char> {
    if line.len() > 0 && line.last() == '\r' {
        line.drop_last()
    } else {
        line
    }
}

/// The lines of `text`. A line ends with a line feed, or with a carriage
/// return and a line feed; neither belongs to the line. The last line needs
/// no ending, and a text that ends with a line ending has no empty line
/// after it.
pub open spec fn lines_of(text: Seq<char>) -> Seq<Seq<char>>
    decreases text.len(),
{
    if text.len() == 0 {
        Seq::empty()
    } else {
        match first_line_feed(text) {
            None => seq![text],
            Some(end) => if 0 <= end < text.len() {
                seq![without_carriage_return(text.take(end))] + lines_of(text.skip(end + 1))
            } else {
                Seq::empty()
            },
        }
    }
}

/// `text` begins with `prefix`.
pub open spec fn starts_with(text: Seq<char>, prefix: Seq<char>) -> bool {
    prefix.len() <= text.len() && text.take(prefix.len() as int) == prefix
}

/// `first_line_feed` finds the first line feed, and none exactly when there
/// is none.
pub proof fn lemma_first_line_feed(text: Seq<char>)
    ensures
        match first_line_feed(text) {
            Some(i) => 0 <= i < text.len() && text[i] == '\n' && forall|j: int|
                0 <= j < i ==> text[j] != '\n',
            None => forall|j: int| 0 <= j < text.len() ==> text[j] != '\n',
        },
    decreases text.len(),
{
    if text.len() > 0 {
        let front = text.drop_last();
        lemma_first_line_feed(front);
        assert forall|j: int| 0 <= j < front.len() implies front[j] == text[j] by {}
        match first_line_feed(front) {
            Some(i) => {
                assert(text[i] == front[i]);
                assert forall|j: int| 0 <= j < i implies text[j] != '\n' by {
                    assert(front[j] != '\n');
                }
            },
            None => {
                assert forall|j: int| 0 <= j < front.len() implies text[j] != '\n' by {
                    assert(front[j] != '\n');
                }
            },
        }
    }
}

/// The lines of `text`.
pub fn split_lines(text: &str) -> (lines: Vec<&str>)
    ensures
        lines@.len() == lines_of(text@).len(),
        forall|i: int| 0 <= i < lines@.len() ==> (#[trigger] lines@[i])@ == lines_of(text@)[i],
{
    let chars = chars_of(text);
    let len = chars.len();
    let mut lines: Vec<&str> = Vec::new();
    let mut start: usize = 0;
    let mut i: usize = 0;
    let ghost mut done: Seq<Seq<char>> = Seq::empty();
    proof {
        assert(text@.skip(0) =~= text@);
        assert(done + lines_of(text@) =~= lines_of(text@));
    }
    while i < len
        invariant
            start <= i <= len,
            len == text@.len(),
            chars@ == text@,
            forall|j: int| start <= j < i ==> text@[j] != '\n',
            lines@.len() == done.len(),
            forall|k: int| 0 <= k < lines@.len() ==> (#[trigger] lines@[k])@ == done[k],
            done + lines_of(text@.skip(start as int)) == lines_of(text@),
        decreases len - i,
    {
        if chars[i] == '\n' {
            let ghost rest = text@.skip(start as int);
            proof {
                lemma_first_line_feed(rest);
                assert(rest[i - start] == '\n');
                match first_line_feed(rest) {
                    Some(at) => {
                        if at < i - start {
                            assert(rest[at] == text@[at + start]);
                        }
                    },
                    None => {},
                }
                assert(first_line_feed(rest) == Some((i - start) as int));
                assert(rest.take(i - start) =~= text@.subrange(start as int, i as int));
                assert(rest.skip(i - start + 1) =~= text@.skip(i + 1));
            }
            let end = if i > start && chars[i - 1] == '\r' {
                i - 1
            } else {
                i
            };
            let line = text.substring_char(start, end);
            proof {
                let whole = text@.subrange(start as int, i as int);
                if i > start {
                    assert(whole.last() == text@[i - 1]);
                }
                assert(line@ =~= without_carriage_return(whole));
                assert((done.push(line@)) + lines_of(text@.skip(i + 1)) =~= done + (seq![line@]
                    + lines_of(text@.skip(i + 1))));
                done = done.push(line@);
            }
            lines.push(line);
            start = i + 1;
        }
        i += 1;
    }
    if start < len {
        let line = text.substring_char(start, len);
        proof {
            let rest = text@.skip(start as int);
            lemma_first_line_feed(rest);
            match first_line_feed(rest) {
                Some(at) => {
                    assert(rest[at] == text@[at + start]);
                },
                None => {},
            }
            assert(first_line_feed(rest) is None);
            assert(line@ =~= rest);
            assert(done.push(line@) =~= done + seq![rest]);
            done = done.push(line@);
        }
        lines.push(line);
    } else {
        proof {
            assert(text@.skip(start as int).len() == 0);
            assert(done + Seq::<Seq<char>>::empty() =~= done);
        }
    }
    proof {
        assert(done == lines_of(text@));
    }
    lines
}

/// Whether `text` begins with `prefix`.
pub fn str_starts_with(text: &str, prefix: &str) -> (begins: bool)
    ensures
        begins == starts_with(text@, prefix@),
{
    let chars = chars_of(text);
    let wanted = chars_of(prefix);
    if wanted.len() > chars.len() {
        return false;
    }
    let mut i: usize = 0;
    while i < wanted.len()
        invariant
            i <= wanted.len() <= chars.len(),
            chars@ == text@,
            wanted@ == prefix@,
            forall|j: int| 0 <= j < i ==> chars@[j] == wanted@[j],
        decreases wanted.len() - i,
    {
        if chars[i] != wanted[i] {
            proof {
                assert(text@.take(prefix@.len() as int)[i as int] != prefix@[i as int]);
            }
            return false;
        }
        i += 1;
    }
    proof {
        assert(text@.take(prefix@.len() as int) =~= prefix@);
    }
    true
}

fn same_text(a: &str, b: &str) -> (same: bool)
    ensures
        same == (a@ == b@),
{
    let left = String::from_str(a);
    let right = String::from_str(b);
    left == right
}

/// Why an edited document was not taken.
#[derive(Debug, PartialEq, Eq)]
pub enum MarkdownError {
    /// The line under the due date heading is no due date; it is kept as it
    /// was written, without the white space around it.
    InvalidDueDate(String),
}

/// The sentence that tells the user that `text` is no due date.
pub open spec fn invalid_due_date_text(text: Seq<char>) -> Seq<char> {
    "Invalid due date format: '"@ + text
        + "'. Expected format: 'YYYY-MM-DD HH:MM', '2d', '1w', etc., or 'Not set'"@
}

impl MarkdownError {
    /// The sentence shown to the user.
    pub fn message(&self) -> (sentence: String)
        ensures
            self matches MarkdownError::InvalidDueDate(text) && sentence@ == invalid_due_date_text(
                text@,
            ),
    {
        match self {
            MarkdownError::InvalidDueDate(text) => {
                let mut sentence = String::from_str("Invalid due date format: '");
                sentence.append(text.as_str());
                sentence.append(
                    "'. Expected format: 'YYYY-MM-DD HH:MM', '2d', '1w', etc., or 'Not set'",
                );
                sentence
            },
        }
    }
}

/// What has been read of a document so far.
pub struct Draft {
    pub title: Seq<char>,
    pub description: Seq<char>,
    pub due_date: Option<Timestamp>,
    pub in_description: bool,
    pub in_due_date: bool,
    /// The line that was no due date, once there was one.
    pub invalid: Option<Seq<char>>,
}

/// Nothing read yet.
pub open spec fn empty_draft() -> Draft {
    Draft {
        title: Seq::empty(),
        description: Seq::empty(),
        due_date: None,
        in_description: false,
        in_due_date: false,
        invalid: None,
    }
}

/// The draft after one more line, read at the instant `now`. The first
/// heading of the first level that names anything is the title. The
/// headings `## Due Date`, `## Description` and `## Metadata` open their
/// sections. The first line of the due date section that is not blank is
/// the due date, unless it says `Not set`. The lines of the description
/// section are the description, all but those that say `(No description)`.
pub open spec fn read_line(draft: Draft, line: Seq<char>, now: Timestamp) -> Draft {
    if starts_with(line, "# "@) && draft.title.len() == 0 {
        Draft { title: trimmed(line.skip(2)), ..draft }
    } else if starts_with(line, "## Due Date"@) {
        Draft { in_due_date: true, in_description: false, ..draft }
    } else if starts_with(line, "## Description"@) {
        Draft { in_description: true, in_due_date: false, ..draft }
    } else if starts_with(line, "## Metadata"@) {
        Draft { in_description: false, in_due_date: false, ..draft }
    } else if draft.in_due_date && trimmed(line).len() > 0 {
        if trimmed(line) == "Not set"@ {
            Draft { in_due_date: false, ..draft }
        } else {
            match due_date_of(trimmed(line), now) {
                Some(due) => Draft { due_date: Some(due), in_due_date: false, ..draft },
                None => Draft { invalid: Some(trimmed(line)), ..draft },
            }
        }
    } else if draft.in_description {
        if trimmed(line) == "(No description)"@ {
            draft
        } else if draft.description.len() == 0 {
            Draft { description: line, ..draft }
        } else {
            Draft { description: draft.description + "\n"@ + line, ..draft }
        }
    } else {
        draft
    }
}

/// The draft after the first `count` lines, or after the line that was no
/// due date.
pub open spec fn read_lines(lines: Seq<Seq<char>>, now: Timestamp, count: nat) -> Draft
    decreases count,
{
    if count == 0 || count > lines.len() {
        empty_draft()
    } else {
        let before = read_lines(lines, now, (count - 1) as nat);
        if before.invalid is Some {
            before
        } else {
            read_line(before, lines[count - 1], now)
        }
    }
}

/// What a document says at the instant `now`: title, description without
/// the white space around it, and due date; or the line that was no due
/// date.
pub open spec fn parsed_markdown(content: Seq<char>, now: Timestamp) -> Result<
    (Seq<char>, Seq<char>, Option<Timestamp>),
    Seq<char>,
> {
    let lines = lines_of(content);
    let draft = read_lines(lines, now, lines.len());
    match draft.invalid {
        Some(line) => Err(line),
        None => Ok((draft.title, trimmed(draft.description), draft.due_date)),
    }
}

/// Reads an edited document at the instant `now`.
pub fn parse_markdown_at(content: &str, now: Timestamp) -> (parsed: Result<
    (String, String, Option<Timestamp>),
    MarkdownError,
>)
    ensures
        match (parsed, parsed_markdown(content@, now)) {
            (Ok((title, description, due_date)), Ok((t, d, due))) => title@ == t && description@
                == d && due_date == due,
            (Err(MarkdownError::InvalidDueDate(text)), Err(line)) => text@ == line,
            _ => false,
        },
{
    let lines = split_lines(content);
    let mut title = String::new();
    let mut description = String::new();
    let mut due_date: Option<Timestamp> = None;
    let mut in_description = false;
    let mut in_due_date = false;
    let mut i: usize = 0;
    while i < lines.len()
        invariant
            i <= lines.len(),
            lines@.len() == lines_of(content@).len(),
            forall|k: int|
                0 <= k < lines@.len() ==> (#[trigger] lines@[k])@ == lines_of(content@)[k],
            read_lines(lines_of(content@), now, i as nat) == (Draft {
                title: title@,
                description: description@,
                due_date,
                in_description,
                in_due_date,
                invalid: None,
            }),
        decreases lines.len() - i,
    {
        let line = lines[i];
        let ghost before = read_lines(lines_of(content@), now, i as nat);
        proof {
            assert(line@ == lines_of(content@)[i as int]);
            assert(read_lines(lines_of(content@), now, (i + 1) as nat) == read_line(
                before,
                line@,
                now,
            ));
        }
        if str_starts_with(line, "# ") && title.as_str().is_empty() {
            proof {
                reveal_strlit("# ");
            }
            let rest = line.substring_char(2, line.unicode_len());
            proof {
                assert(rest@ =~= line@.skip(2));
            }
            title = String::from_str(trim_str(rest));
        } else if str_starts_with(line, "## Due Date") {
            in_due_date = true;
            in_description = false;
        } else if str_starts_with(line, "## Description") {
            in_description = true;
            in_due_date = false;
        } else if str_starts_with(line, "## Metadata") {
            in_description = false;
            in_due_date = false;
        } else if in_due_date && trim_str(line).unicode_len() > 0 {
            let date_str = trim_str(line);
            if !same_text(date_str, "Not set") {
                proof {
                    lemma_trimmed_is_trimmed(line@);
                }
                match parse_due_date_at(date_str, now) {
                    Some(due) => {
                        due_date = Some(due);
                    },
                    None => {
                        proof {
                            assert(read_lines(
                                lines_of(content@),
                                now,
                                (i + 1) as nat,
                            ).invalid == Some(date_str@));
                            lemma_invalid_stays(
                                lines_of(content@),
                                now,
                                (i + 1) as nat,
                                lines@.len() as nat,
                            );
                        }
                        return Err(MarkdownError::InvalidDueDate(String::from_str(date_str)));
                    },
                }
            }
            in_due_date = false;
        } else if in_description {
            if !same_text(trim_str(line), "(No description)") {
                if !description.as_str().is_empty() {
                    description.append("\n");
                }
                description.append(line);
                proof {
                    assert(description@ =~= read_line(before, line@, now).description);
                }
            }
        }
        i += 1;
    }
    let body = String::from_str(trim_str(description.as_str()));
    Ok((title, body, due_date))
}

/// Once a line was no due date, the draft stays as it was then.
proof fn lemma_invalid_stays(lines: Seq<Seq<char>>, now: Timestamp, count: nat, more: nat)
    requires
        count <= more <= lines.len(),
        read_lines(lines, now, count).invalid is Some,
    ensures
        read_lines(lines, now, more) == read_lines(lines, now, count),
    decreases more - count,
{
    if count < more {
        lemma_invalid_stays(lines, now, count, (more - 1) as nat);
    }
}

/// Reads an edited document. A span as due date counts from the reading of
/// the clock.
pub fn parse_markdown(content: &str) -> (parsed: Result<
    (String, String, Option<Timestamp>),
    MarkdownError,
>)
    ensures
        exists|now: Timestamp|
            match (parsed, #[trigger] parsed_markdown(content@, now)) {
                (Ok((title, description, due_date)), Ok((t, d, due))) => title@ == t
                    && description@ == d && due_date == due,
                (Err(MarkdownError::InvalidDueDate(text)), Err(line)) => text@ == line,
                _ => false,
            },
{
    let now = current_time();
    let parsed = parse_markdown_at(content, now);
    proof {
        let expected = parsed_markdown(content@, now);
        assert(match (parsed, expected) {
            (Ok((title, description, due_date)), Ok((t, d, due))) => title@ == t && description@
                == d && due_date == due,
            (Err(MarkdownError::InvalidDueDate(text)), Err(line)) => text@ == line,
            _ => false,
        });
    }
    parsed
}

/// Whether `c` is a letter or a digit as Unicode has it: what
/// `char::is_alphanumeric` of the standard library answers.
pub uninterp spec fn is_alphanumeric_char(c: char) -> bool;

/// `char::is_alphanumeric` of the standard library.
#[verifier::external_body]
fn char_is_alphanumeric(c: char) -> (answer: bool)
    ensures
        answer == is_alphanumeric_char(c),
{
    c.is_alphanumeric()
}

/// How many characters of the title go into the name of the file.
pub const FILE_NAME_TITLE_WIDTH: usize = 50;

/// The character that stands for `c` in the name of a file: itself for a
/// letter, a digit, a hyphen or an underscore, an underscore for all else.
pub open spec fn file_name_char(c: char) -> char {
    if is_alphanumeric_char(c) || c == '-' || c == '_' {
        c
    } else {
        '_'
    }
}

/// The title as it goes into the name of a file: its first fifty
/// characters, each as it stands in a file name.
pub open spec fn sanitized_title(title: Seq<char>) -> Seq<char> {
    let kept = if title.len() > FILE_NAME_TITLE_WIDTH {
        title.take(FILE_NAME_TITLE_WIDTH as int)
    } else {
        title
    };
    Seq::new(kept.len(), |i: int| file_name_char(kept[i]))
}

/// The name of the file that holds the document of a task.
pub open spec fn markdown_file_name_text(id: i64, title: Seq<char>) -> Seq<char> {
    decimal(id as int) + "_"@ + sanitized_title(title) + ".md"@
}

/// The name of the file that holds the document of the task `id` with the
/// title `title`.
pub fn markdown_file_name(id: i64, title: &str) -> (name: String)
    ensures
        name@ == markdown_file_name_text(id, title@),
{
    let chars = chars_of(title);
    let mut name = to_decimal(id);
    name.append("_");
    let ghost stem = name@;
    let width = if chars.len() > FILE_NAME_TITLE_WIDTH {
        FILE_NAME_TITLE_WIDTH
    } else {
        chars.len()
    };
    let mut i: usize = 0;
    while i < width
        invariant
            i <= width <= chars.len(),
            chars@ == title@,
            width == sanitized_title(title@).len(),
            name@ == stem + sanitized_title(title@).take(i as int),
        decreases width - i,
    {
        let c = chars[i];
        let kept = if char_is_alphanumeric(c) || c == '-' || c == '_' {
            c
        } else {
            '_'
        };
        push_char(&mut name, kept);
        proof {
            assert(name@ =~= stem + sanitized_title(title@).take(i + 1));
        }
        i += 1;
    }
    proof {
        assert(sanitized_title(title@).take(width as int) =~= sanitized_title(title@));
    }
    name.append(".md");
    name
}

/// The description as the document shows it: a note in its place where it
/// is blank.
pub open spec fn shown_description(description: Seq<char>) -> Seq<char> {
    if trimmed(description).len() == 0 {
        "(No description)"@
    } else {
        description
    }
}

/// The document of a task: title, due date, description, and what else is
/// known of it. The due date and the time of creation come as the texts
/// that are to be shown.
pub open spec fn markdown_document(t: Todo, due_date_text: Seq<char>, created_text: Seq<char>) -> Seq<
    char,
> {
    "# "@ + t.title@ + "\n\n## Due Date\n"@ + due_date_text + "\n\n## Description\n"@
        + shown_description(t.description@) + "\n\n## Metadata\n- **ID:** "@ + decimal(
        t.id as int,
    ) + "\n- **Status:** "@ + (if t.completed() {
        "✓ Completed"@
    } else {
        "○ Incomplete"@
    }) + "\n- **Created:** "@ + created_text + " UTC\n"@
}

/// Writes the document of `todo` for the editor.
pub fn format_markdown(todo: &Todo, due_date_text: &str, created_text: &str) -> (document: String)
    ensures
        document@ == markdown_document(*todo, due_date_text@, created_text@),
{
    let mut document = String::from_str("# ");
    document.append(todo.title.as_str());
    document.append("\n\n## Due Date\n");
    document.append(due_date_text);
    document.append("\n\n## Description\n");
    if trim_str(todo.description.as_str()).unicode_len() == 0 {
        document.append("(No description)");
    } else {
        document.append(todo.description.as_str());
    }
    document.append("\n\n## Metadata\n- **ID:** ");
    let id = to_decimal(todo.id);
    document.append(id.as_str());
    document.append("\n- **Status:** ");
    if todo.is_completed() {
        document.append("✓ Completed");
    } else {
        document.append("○ Incomplete");
    }
    document.append("\n- **Created:** ");
    document.append(created_text);
    document.append(" UTC\n");
    document
}

} // verus!
