//! Search over the whole corpus of tasks: a query is tried as a regular
//! expression without regard to case, and as literal text where it is no
//! valid expression.

use crate::text::{chars_of, is_blank, push_char, str_is_blank};
use crate::todo::Todo;
use vstd::prelude::*;
use vstd::string::*;

verus! {

/// Whether `pattern` compiles as a case-insensitive regular expression of the
/// `regex` crate under its default limits.
pub uninterp spec fn ci_regex_compiles(pattern: Seq<char>) -> bool;

/// Whether the case-insensitive regular expression `pattern`, which
/// compiles, matches anywhere in `haystack`.
pub uninterp spec fn ci_regex_is_match(pattern: Seq<char>, haystack: Seq<char>) -> bool;

/// The characters that have a meaning of their own in a regular expression.
pub open spec fn is_meta_character(c: char) -> bool {
    c == '\\' || c == '.' || c == '+' || c == '*' || c == '?' || c == '(' || c == ')' || c == '|'
        || c == '[' || c == ']' || c == '{' || c == '}' || c == '^' || c == '$' || c == '#' || c
        == '&' || c == '-' || c == '~'
}

/// `text` with a backslash put before each meta character.
pub open spec fn escaped(text: Seq<char>) -> Seq<char>
    decreases text.len(),
{
    if text.len() == 0 {
        Seq::empty()
    } else if is_meta_character(text.last()) {
        escaped(text.drop_last()).push('\\').push(text.last())
    } else {
        escaped(text.drop_last()).push(text.last())
    }
}

/// Compiles `pattern` with `regex::RegexBuilder` (`new`, `case_insensitive`
/// switched on, `build`) and, where that succeeds, asks `Regex::is_match`
/// whether it matches anywhere in `haystack`. The expression is compiled anew
/// on every call. Both answers depend on the two texts alone; what they are
/// is not stated here.
#[verifier::external_body]
fn ci_regex_match(pattern: &str, haystack: &str) -> (answer: Option<bool>)
    ensures
        answer is Some <==> ci_regex_compiles(pattern@),
        answer matches Some(hit) ==> hit == ci_regex_is_match(pattern@, haystack@),
{
    match regex::RegexBuilder::new(pattern).case_insensitive(true).build() {
        Ok(expression) => Some(expression.is_match(haystack)),
        Err(_) => None,
    }
}

/// Whether `c` has a meaning of its own in a regular expression.
pub fn char_is_meta(c: char) -> (meta: bool)
    ensures
        meta == is_meta_character(c),
{
    c == '\\' || c == '.' || c == '+' || c == '*' || c == '?' || c == '(' || c == ')' || c == '|'
        || c == '[' || c == ']' || c == '{' || c == '}' || c == '^' || c == '$' || c == '#' || c
        == '&' || c == '-' || c == '~'
}

/// The text with a backslash before each meta character, so that it stands
/// for itself in a regular expression.
pub fn escape_pattern(pattern: &str) -> (quoted: String)
    ensures
        quoted@ == escaped(pattern@),
{
    let chars = chars_of(pattern);
    let mut quoted = String::new();
    let mut i: usize = 0;
    while i < chars.len()
        invariant
            i <= chars.len(),
            chars@ == pattern@,
            quoted@ == escaped(pattern@.take(i as int)),
        decreases chars.len() - i,
    {
        proof {
            assert(pattern@.take(i + 1).drop_last() =~= pattern@.take(i as int));
        }
        if char_is_meta(chars[i]) {
            push_char(&mut quoted, '\\');
        }
        push_char(&mut quoted, chars[i]);
        i += 1;
    }
    proof {
        assert(pattern@.take(chars.len() as int) =~= pattern@);
    }
    quoted
}

/// The expression that a query is searched with: the query itself where it
/// compiles, else the query taken literally, if that compiles.
pub open spec fn effective_pattern(query: Seq<char>) -> Option<Seq<char>> {
    if ci_regex_compiles(query) {
        Some(query)
    } else if ci_regex_compiles(escaped(query)) {
        Some(escaped(query))
    } else {
        None
    }
}

/// Whether a task is a hit for `query`: its title or its description
/// matches. A blank query has no hits, and neither has one that cannot be
/// searched with at all.
pub open spec fn is_hit(query: Seq<char>, t: Todo) -> bool {
    !is_blank(query) && (effective_pattern(query) matches Some(pattern) && (ci_regex_is_match(
        pattern,
        t.title@,
    ) || ci_regex_is_match(pattern, t.description@)))
}

/// A query that is no valid expression is searched for as literal text:
/// a task is a hit exactly when the query, with its meta characters
/// escaped, matches the title or the description.
pub proof fn lemma_invalid_query_is_taken_literally(query: Seq<char>, t: Todo)
    requires
        !is_blank(query),
        !ci_regex_compiles(query),
        ci_regex_compiles(escaped(query)),
    ensures
        is_hit(query, t) == (ci_regex_is_match(escaped(query), t.title@) || ci_regex_is_match(
            escaped(query),
            t.description@,
        )),
{
}

/// The tasks at the positions that `hits` marks, in their order.
pub open spec fn marked(todos: Seq<Todo>, hits: Seq<bool>) -> Seq<Todo>
    decreases todos.len(),
{
    if todos.len() == 0 || hits.len() != todos.len() {
        Seq::empty()
    } else if hits.last() {
        marked(todos.drop_last(), hits.drop_last()).push(todos.last())
    } else {
        marked(todos.drop_last(), hits.drop_last())
    }
}

/// For each task whether it is a hit for `query`.
pub open spec fn hits_of(query: Seq<char>, todos: Seq<Todo>) -> Seq<bool> {
    Seq::new(todos.len(), |i: int| is_hit(query, todos[i]))
}

/// The identifiers of `todos`, in their order.
pub open spec fn ids_in_order(todos: Seq<Todo>) -> Seq<i64> {
    Seq::new(todos.len(), |i: int| todos[i].id)
}

/// The tasks of `todos` that `hits` marks, one flag for each task, in the
/// order of `todos`; none where there are more or fewer flags than tasks.
pub fn collect_marked(todos: &Vec<Todo>, hits: &Vec<bool>) -> (found: Vec<Todo>)
    ensures
        found@ == marked(todos@, hits@),
{
    let mut found: Vec<Todo> = Vec::new();
    if hits.len() != todos.len() {
        return found;
    }
    let mut i: usize = 0;
    proof {
        assert(todos@.take(0) =~= Seq::<Todo>::empty());
    }
    while i < todos.len()
        invariant
            i <= todos.len(),
            hits.len() == todos.len(),
            found@ == marked(todos@.take(i as int), hits@.take(i as int)),
        decreases todos.len() - i,
    {
        proof {
            assert(todos@.take(i + 1).drop_last() =~= todos@.take(i as int));
            assert(hits@.take(i + 1).drop_last() =~= hits@.take(i as int));
        }
        if hits[i] {
            found.push(todos[i].clone());
        }
        i += 1;
    }
    proof {
        assert(todos@.take(todos.len() as int) =~= todos@);
        assert(hits@.take(hits.len() as int) =~= hits@);
    }
    found
}

/// The pattern to search with for `query`, if there is one.
fn choose_pattern(query: &str) -> (pattern: Option<String>)
    ensures
        match pattern {
            Some(p) => effective_pattern(query@) == Some(p@),
            None => effective_pattern(query@) is None,
        },
{
    if ci_regex_match(query, "").is_some() {
        Some(String::from_str(query))
    } else {
        let quoted = escape_pattern(query);
        if ci_regex_match(quoted.as_str(), "").is_some() {
            Some(quoted)
        } else {
            None
        }
    }
}

/// The tasks of `todos` whose title or description matches `pattern`, in the
/// order of `todos`. The pattern is a regular expression, matched without
/// regard to case; where it is no valid expression it is searched for as
/// literal text. A blank pattern finds nothing.
pub fn search_todos(todos: &Vec<Todo>, pattern: &str) -> (found: Vec<Todo>)
    ensures
        found@ == marked(todos@, hits_of(pattern@, todos@)),
{
    let mut hits: Vec<bool> = Vec::new();
    let usable = if str_is_blank(pattern) {
        None
    } else {
        choose_pattern(pattern)
    };
    let mut i: usize = 0;
    while i < todos.len()
        invariant
            i <= todos.len(),
            hits@ == hits_of(pattern@, todos@).take(i as int),
            match usable {
                Some(p) => !is_blank(pattern@) && effective_pattern(pattern@) == Some(p@),
                None => is_blank(pattern@) || effective_pattern(pattern@) is None,
            },
        decreases todos.len() - i,
    {
        let hit = match &usable {
            Some(expression) => {
                let in_title = ci_regex_match(expression.as_str(), todos[i].title.as_str());
                let in_description = ci_regex_match(
                    expression.as_str(),
                    todos[i].description.as_str(),
                );
                (match in_title {
                    Some(b) => b,
                    None => false,
                }) || (match in_description {
                    Some(b) => b,
                    None => false,
                })
            },
            None => false,
        };
        hits.push(hit);
        proof {
            assert(hits@ =~= hits_of(pattern@, todos@).take(i + 1));
        }
        i += 1;
    }
    proof {
        assert(hits_of(pattern@, todos@).take(todos.len() as int) =~= hits_of(pattern@, todos@));
    }
    collect_marked(todos, &hits)
}

/// The identifiers of `todos`, in their order.
pub fn ids_of_todos(todos: &Vec<Todo>) -> (ids: Vec<i64>)
    ensures
        ids@ == ids_in_order(todos@),
{
    let mut ids: Vec<i64> = Vec::new();
    let mut i: usize = 0;
    while i < todos.len()
        invariant
            i <= todos.len(),
            ids@ == ids_in_order(todos@).take(i as int),
        decreases todos.len() - i,
    {
        ids.push(todos[i].id);
        proof {
            assert(ids@ =~= ids_in_order(todos@).take(i + 1));
        }
        i += 1;
    }
    proof {
        assert(ids_in_order(todos@).take(todos.len() as int) =~= ids_in_order(todos@));
    }
    ids
}

} // verus!
