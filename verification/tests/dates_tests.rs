use stik_core::dates::{
    build_preview, compute_capture_streak_from_dates, format_capture_streak_label,
    parse_date_from_filename, prev_day, select_best_candidate, should_notify_today, Date,
    OnThisDayCandidate,
};

fn candidate(year: u32, month: u32, day: u32, folder: &str, preview: &str) -> OnThisDayCandidate {
    OnThisDayCandidate {
        date: Date::from_ymd(year, month, day).expect("valid date"),
        folder: folder.to_string(),
        preview: preview.to_string(),
    }
}

fn days_before(d: Date, n: u32) -> Date {
    let mut cur = d;
    let mut i = 0;
    while i < n {
        cur = prev_day(cur);
        i += 1;
    }
    cur
}

#[test]
fn on_this_day_parses_date_from_filename() {
    let date = parse_date_from_filename("20240206-101530-my-note.md");
    assert_eq!(date, Date::from_ymd(2024, 2, 6));
}

#[test]
fn selects_latest_matching_year() {
    let candidates = vec![
        candidate(2021, 2, 6, "Inbox", "old"),
        candidate(2025, 2, 6, "Work", "new"),
        candidate(2023, 2, 6, "Ideas", "mid"),
    ];

    let selected = select_best_candidate(&candidates).expect("candidate exists");
    assert_eq!(selected.date, Date::from_ymd(2025, 2, 6).expect("valid"));
    assert_eq!(selected.folder, "Work");
}

#[test]
fn skips_notification_if_already_shown_today() {
    let today = Date::from_ymd(2026, 2, 6).expect("valid date");
    assert!(!should_notify_today(Some("2026-02-06"), today));
    assert!(should_notify_today(Some("2026-02-05"), today));
    assert!(should_notify_today(None, today));
}

#[test]
fn builds_single_line_preview() {
    let preview = build_preview("\nFirst line\n\nSecond line\n");
    assert_eq!(preview, "First line Second line");
}

#[test]
fn preview_of_empty_note_is_marked() {
    assert_eq!(build_preview("\n  \n"), "(empty note)");
}

#[test]
fn stats_parses_date_from_filename() {
    let date = parse_date_from_filename("20260206-101530-my-note.md");
    assert_eq!(date, Date::from_ymd(2026, 2, 6));
    assert_eq!(parse_date_from_filename("note.md"), None);
    assert_eq!(parse_date_from_filename("2026026-1-x.md"), None);
    assert_eq!(parse_date_from_filename("20261306-1-x.md"), None);
}

#[test]
fn returns_zero_when_no_recent_activity() {
    let today = Date::from_ymd(2026, 2, 6).expect("valid date");
    let dates = vec![
        days_before(today, 2),
        days_before(today, 3),
        days_before(today, 4),
    ];

    let streak = compute_capture_streak_from_dates(&dates, today);
    assert_eq!(streak, 0);
}

#[test]
fn counts_streak_when_today_has_capture() {
    let today = Date::from_ymd(2026, 2, 6).expect("valid date");
    let dates = vec![
        today,
        days_before(today, 1),
        days_before(today, 2),
        days_before(today, 5),
    ];

    let streak = compute_capture_streak_from_dates(&dates, today);
    assert_eq!(streak, 3);
}

#[test]
fn counts_streak_from_yesterday_when_today_missing() {
    let today = Date::from_ymd(2026, 2, 6).expect("valid date");
    let dates = vec![
        days_before(today, 1),
        days_before(today, 2),
        days_before(today, 3),
        days_before(today, 7),
    ];

    let streak = compute_capture_streak_from_dates(&dates, today);
    assert_eq!(streak, 3);
}

#[test]
fn ignores_duplicate_captures_on_same_day() {
    let today = Date::from_ymd(2026, 2, 6).expect("valid date");
    let dates = vec![
        today,
        today,
        days_before(today, 1),
        days_before(today, 1),
    ];

    let streak = compute_capture_streak_from_dates(&dates, today);
    assert_eq!(streak, 2);
}

#[test]
fn streak_crosses_month_and_leap_boundaries() {
    let march_first = Date::from_ymd(2024, 3, 1).expect("valid date");
    assert_eq!(prev_day(march_first), Date::from_ymd(2024, 2, 29).expect("leap day"));
    let march_first_2026 = Date::from_ymd(2026, 3, 1).expect("valid date");
    assert_eq!(prev_day(march_first_2026), Date::from_ymd(2026, 2, 28).expect("valid"));
    assert_eq!(
        prev_day(Date::from_ymd(2026, 1, 1).expect("valid")),
        Date::from_ymd(2025, 12, 31).expect("valid")
    );
    assert_eq!(Date::from_ymd(2026, 2, 29), None);
}

#[test]
fn formats_streak_label_for_singular_day() {
    assert_eq!(format_capture_streak_label(1), "Streak: 1 day");
}

#[test]
fn formats_streak_label_for_plural_days() {
    assert_eq!(format_capture_streak_label(5), "Streak: 5 days");
}
