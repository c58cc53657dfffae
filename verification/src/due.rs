//! Due dates: reading them from what the user types, and judging how urgent
//! a task is.

use crate::clock::current_time;
use crate::colors::CatppuccinFrappe;
use crate::text::{lemma_trimmed_is_trimmed, parse_integer, parsed_integer, trim_str, trimmed};
use crate::todo::{Timestamp, Todo};
use vstd::prelude::*;
use vstd::string::*;

verus! {

/// The midnight, in seconds since the epoch, of the day that `text` names
/// when `chrono` reads it as a date in `format`; none where it cannot.
pub uninterp spec fn chrono_parse_date(text: Seq<char>, format: Seq<char>) -> Option<i64>;

/// The instant, in seconds since the epoch, that `text` names when `chrono`
/// reads it as a date with a time of day in `format`; none where it cannot.
pub uninterp spec fn chrono_parse_date_time(text: Seq<char>, format: Seq<char>) -> Option<i64>;

/// `chrono::NaiveDate::parse_from_str`, with the date handed back as the
/// seconds since the epoch of its midnight in UTC. A text that does not fit
/// the format gives none.
#[verifier::external_body]
fn parse_naive_date(text: &str, format: &str) -> (midnight: Option<i64>)
    ensures
        midnight == chrono_parse_date(text@, format@),
{
    match chrono::NaiveDate::parse_from_str(text, format) {
        Ok(date) => Some(date.and_time(chrono::NaiveTime::MIN).and_utc().timestamp()),
        Err(_) => None,
    }
}

/// `chrono::NaiveDateTime::parse_from_str`, with the date and time handed
/// back as the seconds since the epoch, taken as UTC. A text that does not
/// fit the format gives none.
#[verifier::external_body]
fn parse_naive_date_time(text: &str, format: &str) -> (instant: Option<i64>)
    ensures
        instant == chrono_parse_date_time(text@, format@),
{
    match chrono::NaiveDateTime::parse_from_str(text, format) {
        Ok(date_time) => Some(date_time.and_utc().timestamp()),
        Err(_) => None,
    }
}

/// The longest span that the library takes, in seconds: as many
/// milliseconds as a signed 64-bit number holds.
pub const MAX_SPAN_SECONDS: i64 = 9_223_372_036_854_775;

pub const SECONDS_PER_MINUTE: i64 = 60;

pub const SECONDS_PER_HOUR: i64 = 3_600;

pub const SECONDS_PER_DAY: i64 = 86_400;

pub const SECONDS_PER_WEEK: i64 = 604_800;

/// `count` units of `unit` seconds each, where that is no longer than the
/// longest span either way.
pub open spec fn span_seconds(count: i64, unit: i64) -> Option<i64> {
    if -MAX_SPAN_SECONDS <= count * unit <= MAX_SPAN_SECONDS {
        Some((count * unit) as i64)
    } else {
        None
    }
}

/// How many seconds a unit letter stands for: minutes, hours, days, weeks,
/// in either case.
pub open spec fn unit_seconds(unit: char) -> Option<i64> {
    if unit == 'm' || unit == 'M' {
        Some(SECONDS_PER_MINUTE)
    } else if unit == 'h' || unit == 'H' {
        Some(SECONDS_PER_HOUR)
    } else if unit == 'd' || unit == 'D' {
        Some(SECONDS_PER_DAY)
    } else if unit == 'w' || unit == 'W' {
        Some(SECONDS_PER_WEEK)
    } else {
        None
    }
}

/// The span, in seconds, that `text` writes: a bare number counts days, a
/// number with a unit letter behind it counts that unit.
pub open spec fn relative_seconds(text: Seq<char>) -> Option<i64> {
    if text.len() == 0 {
        None
    } else if parsed_integer(text) is Some {
        span_seconds(parsed_integer(text)->0, SECONDS_PER_DAY)
    } else if text.len() < 2 {
        None
    } else {
        match (parsed_integer(text.drop_last()), unit_seconds(text.last())) {
            (Some(count), Some(unit)) => span_seconds(count, unit),
            _ => None,
        }
    }
}

/// The format of a day.
pub open spec fn day_format() -> Seq<char> {
    "%Y-%m-%d"@
}

/// The format of a day with hour and minute.
pub open spec fn minute_format() -> Seq<char> {
    "%Y-%m-%d %H:%M"@
}

/// The due date that `input` asks for at the instant `now`: a span from now
/// on, else a day, which means its last second, else a day with hour and
/// minute. None for a blank input, for one that is none of these, and for a
/// date beyond what the seconds can count.
pub open spec fn due_date_of(input: Seq<char>, now: Timestamp) -> Option<Timestamp> {
    let text = trimmed(input);
    if text.len() == 0 {
        None
    } else {
        chosen_due_date(
            now,
            relative_seconds(text),
            chrono_parse_date(text, day_format()),
            chrono_parse_date_time(text, minute_format()),
        )
    }
}

/// The due date among three readings of one text at the instant `now`: the
/// span from now on where the text is a span, else the last second of the
/// day where it is a day, else the minute where it is a day with hour and
/// minute. None where it is none of these, and for a date beyond what the
/// seconds can count.
pub open spec fn chosen_due_date(
    now: Timestamp,
    span: Option<i64>,
    midnight: Option<i64>,
    minute: Option<i64>,
) -> Option<Timestamp> {
    if span is Some {
        let secs = now.secs + span->0;
        if i64::MIN <= secs <= i64::MAX {
            Some(Timestamp { secs: secs as i64, nanos: now.nanos })
        } else {
            None
        }
    } else if midnight is Some {
        let secs = midnight->0 + SECONDS_PER_DAY - 1;
        if secs <= i64::MAX {
            Some(Timestamp { secs: secs as i64, nanos: 0 })
        } else {
            None
        }
    } else {
        match minute {
            Some(secs) => Some(Timestamp { secs, nanos: 0 }),
            None => None,
        }
    }
}

/// The whole seconds from `earlier` to `later`, a part of a second dropped
/// either way.
pub open spec fn whole_seconds_between(later: Timestamp, earlier: Timestamp) -> int {
    let nanos = (later.secs - earlier.secs) * 1_000_000_000 + (later.nanos - earlier.nanos);
    if nanos >= 0 {
        nanos / 1_000_000_000
    } else {
        -((-nanos) / 1_000_000_000)
    }
}

/// The colour of a task by its due date at the instant `now`: the colour of
/// completed tasks once it is completed; red when it is overdue by a second
/// or more; teal when less than seven whole days are left; else, and without
/// a due date, the colour of incomplete tasks.
pub open spec fn due_date_colour(t: Todo, now: Timestamp) -> u32 {
    if t.completed() {
        CatppuccinFrappe::COMPLETED
    } else {
        match t.due_by {
            Some(due_by) => {
                let seconds = whole_seconds_between(due_by, now);
                if seconds < 0 {
                    CatppuccinFrappe::RED
                } else if seconds / (SECONDS_PER_DAY as int) < 7 {
                    CatppuccinFrappe::TEAL
                } else {
                    CatppuccinFrappe::INCOMPLETE
                }
            },
            None => CatppuccinFrappe::INCOMPLETE,
        }
    }
}

fn scaled(count: i64, unit: i64) -> (seconds: Option<i64>)
    requires
        0 < unit <= SECONDS_PER_WEEK,
    ensures
        seconds == span_seconds(count, unit),
{
    proof {
        assert(-0x8000_0000_0000_0000 * 604_800 <= count * unit <= 0x8000_0000_0000_0000
            * 604_800) by (nonlinear_arith)
            requires
                -0x8000_0000_0000_0000 <= count <= 0x7fff_ffff_ffff_ffff,
                0 < unit <= 604_800,
        ;
    }
    let product: i128 = count as i128 * unit as i128;
    if -(MAX_SPAN_SECONDS as i128) <= product && product <= MAX_SPAN_SECONDS as i128 {
        Some(product as i64)
    } else {
        None
    }
}

fn unit_of(unit: char) -> (seconds: Option<i64>)
    ensures
        seconds == unit_seconds(unit),
        seconds matches Some(s) ==> 0 < s <= SECONDS_PER_WEEK,
{
    if unit == 'm' || unit == 'M' {
        Some(SECONDS_PER_MINUTE)
    } else if unit == 'h' || unit == 'H' {
        Some(SECONDS_PER_HOUR)
    } else if unit == 'd' || unit == 'D' {
        Some(SECONDS_PER_DAY)
    } else if unit == 'w' || unit == 'W' {
        Some(SECONDS_PER_WEEK)
    } else {
        None
    }
}

/// Reads a span such as `3`, `2d`, `1w`, `4h` or `30m`; white space around
/// it does not count. Gives the span in seconds.
pub fn parse_relative_duration(input: &str) -> (seconds: Option<i64>)
    ensures
        seconds == relative_seconds(trimmed(input@)),
{
    let text = trim_str(input);
    let len = text.unicode_len();
    if len == 0 {
        return None;
    }
    match parse_integer(text) {
        Some(days) => {
            return scaled(days, SECONDS_PER_DAY);
        },
        None => {},
    }
    if len < 2 {
        return None;
    }
    let unit = text.get_char(len - 1);
    let number = text.substring_char(0, len - 1);
    proof {
        assert(number@ =~= text@.drop_last());
    }
    match (parse_integer(number), unit_of(unit)) {
        (Some(count), Some(seconds)) => scaled(count, seconds),
        _ => None,
    }
}

/// The due date that `input` asks for at the instant `now`.
pub fn parse_due_date_at(input: &str, now: Timestamp) -> (due: Option<Timestamp>)
    ensures
        due == due_date_of(input@, now),
{
    let text = trim_str(input);
    if text.unicode_len() == 0 {
        return None;
    }
    proof {
        assert(trimmed(text@) == text@) by {
            lemma_trimmed_is_trimmed(input@);
        }
    }
    let span = parse_relative_duration(text);
    let midnight = parse_naive_date(text, "%Y-%m-%d");
    let minute = parse_naive_date_time(text, "%Y-%m-%d %H:%M");
    choose_due_date(now, span, midnight, minute)
}

/// Chooses the due date among three readings of one text: as a span in
/// seconds, as the midnight of a day, and as a minute, the latter two in
/// seconds since the epoch.
pub fn choose_due_date(
    now: Timestamp,
    span: Option<i64>,
    midnight: Option<i64>,
    minute: Option<i64>,
) -> (due: Option<Timestamp>)
    ensures
        due == chosen_due_date(now, span, midnight, minute),
{
    match span {
        Some(seconds) => {
            return match now.secs.checked_add(seconds) {
                Some(secs) => Some(Timestamp { secs, nanos: now.nanos }),
                None => None,
            };
        },
        None => {},
    }
    match midnight {
        Some(midnight) => {
            return match midnight.checked_add(SECONDS_PER_DAY - 1) {
                Some(secs) => Some(Timestamp { secs, nanos: 0 }),
                None => None,
            };
        },
        None => {},
    }
    match minute {
        Some(secs) => Some(Timestamp { secs, nanos: 0 }),
        None => None,
    }
}

/// The due date that `input` asks for now. A span counts from the reading
/// of the clock.
pub fn parse_due_date(input: &str) -> (due: Option<Timestamp>)
    ensures
        exists|now: Timestamp| due == due_date_of(input@, now),
{
    let now = current_time();
    let due = parse_due_date_at(input, now);
    assert(due == due_date_of(input@, now));
    due
}

/// The colour of a task by its due date at the instant `now`.
pub fn due_date_style_at(todo: &Todo, now: Timestamp) -> (colour: u32)
    ensures
        colour == due_date_colour(*todo, now),
{
    if todo.is_completed() {
        return CatppuccinFrappe::COMPLETED;
    }
    match todo.due_by {
        Some(due_by) => {
            let nanos: i128 = (due_by.secs as i128 - now.secs as i128) * 1_000_000_000 + (
            due_by.nanos as i128 - now.nanos as i128);
            if nanos <= -1_000_000_000 {
                CatppuccinFrappe::RED
            } else if nanos < 7 * 86_400 * 1_000_000_000 {
                CatppuccinFrappe::TEAL
            } else {
                CatppuccinFrappe::INCOMPLETE
            }
        },
        None => CatppuccinFrappe::INCOMPLETE,
    }
}

/// The colour of a task by its due date as of now.
pub fn get_due_date_style(todo: &Todo) -> (colour: u32)
    ensures
        exists|now: Timestamp| colour == due_date_colour(*todo, now),
{
    let now = current_time();
    let colour = due_date_style_at(todo, now);
    assert(colour == due_date_colour(*todo, now));
    colour
}

} // verus!
