use tododb::colors::CatppuccinFrappe;
use tododb::due::{
    due_date_style_at, get_due_date_style, parse_due_date, parse_due_date_at,
    parse_relative_duration,
};
use tododb::order::get_all_completed_todos;
use tododb::text::trim_str;
use tododb::todo::{Timestamp, Todo};

fn task(id: i64, completed_at: Option<Timestamp>, due_by: Option<Timestamp>) -> Todo {
    Todo {
        id,
        title: format!("task {}", id),
        description: String::new(),
        created_at: Timestamp::new(0, 0),
        completed_at,
        due_by,
        parent_id: None,
        hidden: false,
    }
}

#[test]
fn spans_are_read_in_minutes_hours_days_and_weeks() {
    assert_eq!(parse_relative_duration("3"), Some(3 * 86_400));
    assert_eq!(parse_relative_duration("2d"), Some(2 * 86_400));
    assert_eq!(parse_relative_duration("1w"), Some(604_800));
    assert_eq!(parse_relative_duration("4h"), Some(4 * 3_600));
    assert_eq!(parse_relative_duration("30m"), Some(30 * 60));
    assert_eq!(parse_relative_duration("  2D \n"), Some(2 * 86_400));
    assert_eq!(parse_relative_duration("1W"), Some(604_800));
    assert_eq!(parse_relative_duration("-1d"), Some(-86_400));
    assert_eq!(parse_relative_duration("+5h"), Some(5 * 3_600));
    assert_eq!(parse_relative_duration("0"), Some(0));
    assert_eq!(parse_relative_duration(""), None);
    assert_eq!(parse_relative_duration("   "), None);
    assert_eq!(parse_relative_duration("d"), None);
    assert_eq!(parse_relative_duration("2x"), None);
    assert_eq!(parse_relative_duration("2 d"), None);
    assert_eq!(parse_relative_duration("d2"), None);
    assert_eq!(parse_relative_duration("two days"), None);
    assert_eq!(parse_relative_duration("1.5d"), None);
    assert_eq!(parse_relative_duration("2é"), None);
}

#[test]
fn spans_agree_with_chrono_and_stop_where_it_stops() {
    for count in [0i64, 1, -1, 7, 365, 100_000, -100_000, 106_751_991_167, -106_751_991_167] {
        assert_eq!(
            parse_relative_duration(&format!("{}d", count)),
            chrono::TimeDelta::try_days(count).map(|span| span.num_seconds())
        );
        assert_eq!(
            parse_relative_duration(&format!("{}", count)),
            chrono::TimeDelta::try_days(count).map(|span| span.num_seconds())
        );
        assert_eq!(
            parse_relative_duration(&format!("{}w", count)),
            chrono::TimeDelta::try_weeks(count).map(|span| span.num_seconds())
        );
        assert_eq!(
            parse_relative_duration(&format!("{}h", count)),
            chrono::TimeDelta::try_hours(count).map(|span| span.num_seconds())
        );
        assert_eq!(
            parse_relative_duration(&format!("{}m", count)),
            chrono::TimeDelta::try_minutes(count).map(|span| span.num_seconds())
        );
    }
    assert_eq!(parse_relative_duration("106751991168d"), None);
    assert_eq!(parse_relative_duration("9223372036854775807m"), None);
    assert_eq!(parse_relative_duration("153722867280912m"), Some(9_223_372_036_854_720));
    assert_eq!(parse_relative_duration("153722867280913m"), None);
    assert_eq!(
        Some(9_223_372_036_854_720),
        chrono::TimeDelta::try_minutes(153_722_867_280_912).map(|span| span.num_seconds())
    );
    assert!(chrono::TimeDelta::try_minutes(153_722_867_280_913).is_none());
}

#[test]
fn due_dates_are_spans_days_or_minutes() {
    let now = Timestamp::new(1_700_000_000, 123);
    assert_eq!(parse_due_date_at("2d", now), Some(Timestamp::new(1_700_000_000 + 172_800, 123)));
    assert_eq!(parse_due_date_at(" 1w ", now), Some(Timestamp::new(1_700_000_000 + 604_800, 123)));
    assert_eq!(parse_due_date_at("2024-03-05", now), Some(Timestamp::new(1_709_683_199, 0)));
    assert_eq!(parse_due_date_at("2024-03-05 14:30", now), Some(Timestamp::new(1_709_649_000, 0)));
    assert_eq!(parse_due_date_at("1970-01-01", now), Some(Timestamp::new(86_399, 0)));
    assert_eq!(parse_due_date_at("1970-01-01 00:00", now), Some(Timestamp::new(0, 0)));
    assert_eq!(parse_due_date_at("", now), None);
    assert_eq!(parse_due_date_at("   ", now), None);
    assert_eq!(parse_due_date_at("tomorrow", now), None);
    assert_eq!(parse_due_date_at("2024-13-05", now), None);
    assert_eq!(parse_due_date_at("2024-02-30", now), None);
    assert_eq!(parse_due_date_at("2024-03-05 25:00", now), None);
    assert_eq!(parse_due_date_at("Not set", now), None);
    assert_eq!(
        parse_due_date_at("1d", Timestamp::new(i64::MAX - 10, 0)),
        None
    );
}

#[test]
fn due_dates_agree_with_chrono() {
    let now = Timestamp::new(1_700_000_000, 0);
    for text in ["2024-03-05", "1999-12-31", "2024-02-29", "2023-02-29", "0001-01-01", "24-3-5"] {
        let expected = chrono::NaiveDate::parse_from_str(text, "%Y-%m-%d")
            .ok()
            .and_then(|day| day.and_hms_opt(23, 59, 59))
            .map(|day| Timestamp::new(day.and_utc().timestamp(), 0));
        assert_eq!(parse_due_date_at(text, now), expected, "reading {:?}", text);
    }
    for text in ["2024-03-05 14:30", "1999-12-31 23:59", "2024-03-05 7:05", "2024-03-05T14:30"] {
        let expected = chrono::NaiveDateTime::parse_from_str(text, "%Y-%m-%d %H:%M")
            .ok()
            .map(|minute| Timestamp::new(minute.and_utc().timestamp(), 0));
        assert_eq!(parse_due_date_at(text, now), expected, "reading {:?}", text);
    }
}

#[test]
fn a_span_counts_from_the_clock() {
    let before = chrono::Utc::now().timestamp();
    let due = parse_due_date("1h").map(|due| due.secs);
    let after = chrono::Utc::now().timestamp();
    let due = due.unwrap_or(0);
    assert!(before + 3_600 <= due && due <= after + 3_600);
    assert_eq!(parse_due_date("2024-03-05"), Some(Timestamp::new(1_709_683_199, 0)));
    assert_eq!(parse_due_date("nothing"), None);
}

#[test]
fn colour_follows_the_due_date() {
    let now = Timestamp::new(1_000_000, 500);
    let due = |secs: i64, nanos: u32| task(1, None, Some(Timestamp::new(secs, nanos)));
    assert_eq!(due_date_style_at(&task(1, None, None), now), CatppuccinFrappe::INCOMPLETE);
    assert_eq!(
        due_date_style_at(&task(1, Some(now), Some(Timestamp::new(0, 0))), now),
        CatppuccinFrappe::COMPLETED
    );
    assert_eq!(due_date_style_at(&due(999_000, 0), now), CatppuccinFrappe::RED);
    assert_eq!(due_date_style_at(&due(999_999, 500), now), CatppuccinFrappe::RED);
    assert_eq!(due_date_style_at(&due(999_999, 501), now), CatppuccinFrappe::TEAL);
    assert_eq!(due_date_style_at(&due(1_000_000, 0), now), CatppuccinFrappe::TEAL);
    assert_eq!(due_date_style_at(&due(1_000_000, 500), now), CatppuccinFrappe::TEAL);
    assert_eq!(due_date_style_at(&due(1_000_000 + 604_799, 500), now), CatppuccinFrappe::TEAL);
    assert_eq!(due_date_style_at(&due(1_000_000 + 604_800, 499), now), CatppuccinFrappe::TEAL);
    assert_eq!(
        due_date_style_at(&due(1_000_000 + 604_800, 500), now),
        CatppuccinFrappe::INCOMPLETE
    );
    assert_eq!(due_date_style_at(&due(i64::MAX, 0), now), CatppuccinFrappe::INCOMPLETE);
    assert_eq!(due_date_style_at(&due(i64::MIN, 0), now), CatppuccinFrappe::RED);
}

#[test]
fn colour_agrees_with_chrono() {
    let instant = |t: Timestamp| chrono::DateTime::from_timestamp(t.secs, t.nanos);
    let moments = [
        Timestamp::new(0, 0),
        Timestamp::new(1_000_000, 500),
        Timestamp::new(999_999, 999_999_999),
        Timestamp::new(1_000_001, 1),
        Timestamp::new(1_000_000 + 604_800, 500),
        Timestamp::new(1_000_000 + 604_800, 499),
        Timestamp::new(-5, 7),
    ];
    for now in moments {
        for due in moments {
            let span = instant(due).zip(instant(now)).map(|(d, n)| d.signed_duration_since(n));
            let expected = match span {
                Some(span) if span.num_seconds() < 0 => CatppuccinFrappe::RED,
                Some(span) if span.num_days() < 7 => CatppuccinFrappe::TEAL,
                _ => CatppuccinFrappe::INCOMPLETE,
            };
            assert_eq!(due_date_style_at(&task(1, None, Some(due)), now), expected);
        }
    }
    let far = task(1, None, Some(Timestamp::new(4_000_000_000_000, 0)));
    assert_eq!(get_due_date_style(&far), CatppuccinFrappe::INCOMPLETE);
    assert_eq!(get_due_date_style(&task(1, None, Some(Timestamp::new(0, 0)))), CatppuccinFrappe::RED);
}

#[test]
fn completed_tasks_come_latest_first() {
    let all = vec![
        task(1, Some(Timestamp::new(10, 0)), None),
        task(2, None, None),
        task(3, Some(Timestamp::new(30, 0)), None),
        task(4, Some(Timestamp::new(10, 0)), None),
        task(5, Some(Timestamp::new(10, 1)), None),
        task(6, None, None),
    ];
    let ids: Vec<i64> = get_all_completed_todos(&all).iter().map(|t| t.id).collect();
    assert_eq!(ids, vec![3, 5, 1, 4]);
    assert_eq!(get_all_completed_todos(&Vec::new()), Vec::<Todo>::new());
}

#[test]
fn trimming_agrees_with_the_standard_library() {
    for text in ["", " ", "a", " a", "a ", "  a b  ", "\t\na\r\n", "\u{a0}x\u{3000}", " \u{200b} "] {
        assert_eq!(trim_str(text), text.trim(), "trimming {:?}", text);
    }
}
