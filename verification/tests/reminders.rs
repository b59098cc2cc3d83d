use obsidian_notifications::file_scanner::time_reminder::countdown::{countdown_plan, CountdownPlan};
use obsidian_notifications::file_scanner::time_reminder::model::{
    parse_u32_str, reminder_captures, reminders_in_text, DateTimeParts, IntErrorKind, ReminderKey,
};
use obsidian_notifications::file_scanner::time_reminder::{ignored_dir, ignored_file};
use obsidian_notifications::clock::{Instant, LocalNow, LocalTime};
use obsidian_notifications::text::chars_of;

fn keys(text: &str) -> Vec<Result<ReminderKey, String>> {
    reminders_in_text("/vault/note.md", text)
}

fn parts(
    year: Option<u32>,
    month: Option<u32>,
    day: Option<u32>,
    hour: Option<u32>,
    minute: Option<u32>,
    second: Option<u32>,
    short_year: bool,
) -> DateTimeParts {
    DateTimeParts { year, month, day, hour, minute, second, short_year }
}

fn only_key(text: &str) -> ReminderKey {
    let ks = keys(text);
    assert_eq!(ks.len(), 1, "{:?}", ks);
    ks.into_iter().next().unwrap().unwrap()
}

#[test]
fn reminder_with_full_date_and_time() {
    let k = only_key("- [ ] Take out trash (@2025-01-30 2205)");
    assert_eq!(k.file_path, "/vault/note.md");
    assert_eq!(k.msg, "Take out trash ");
    assert!(!k.completed_checked);
    assert_eq!(k.time_parts, parts(Some(2025), Some(1), Some(30), Some(22), Some(5), None, false));
}

#[test]
fn ticked_box_marks_reminder_completed() {
    let k = only_key("- [x] call mum (@ 0725)");
    assert!(k.completed_checked);
    assert_eq!(k.msg, "call mum ");
    assert_eq!(k.time_parts, parts(None, None, None, Some(7), Some(25), None, false));
}

#[test]
fn bullet_without_box_is_not_completed() {
    let k = only_key("- water plants (@ 7:05)");
    assert!(!k.completed_checked);
    assert_eq!(k.msg, "water plants ");
    assert_eq!(k.time_parts, parts(None, None, None, Some(7), Some(5), None, false));
}

#[test]
fn seconds_with_and_without_colon() {
    let a = only_key("- a (@ 07:25:30)");
    let b = only_key("- a (@ 072530)");
    assert_eq!(a.time_parts, parts(None, None, None, Some(7), Some(25), Some(30), false));
    assert_eq!(b.time_parts, a.time_parts);
}

#[test]
fn time_needs_a_space_before_it() {
    assert!(keys("- a (@-0725)").is_empty());
    assert!(keys("- a (@2025)").is_empty());
    let k = only_key("- a (@ 2025)");
    assert_eq!(k.time_parts, parts(None, None, None, Some(20), Some(25), None, false));
}

#[test]
fn date_without_time() {
    let k = only_key("- pay rent (@2025.2.1)");
    assert_eq!(k.time_parts, parts(Some(2025), Some(2), Some(1), None, None, None, false));
}

#[test]
fn two_digit_year_is_marked_short() {
    let k = only_key("- a (@25-01-30 0900)");
    assert_eq!(k.time_parts, parts(Some(25), Some(1), Some(30), Some(9), Some(0), None, true));
    let now = LocalNow {
        year: 2031,
        month: 6,
        day: 2,
        hour: 10,
        minute: 30,
        second: 0,
        instant: Instant { secs: 0, nanos: 0 },
    };
    let f = k.time_parts.target_fields(&now);
    assert_eq!(f.year, 2025);
    assert_eq!((f.month, f.day, f.hour, f.minute, f.second), (1, 30, 9, 0, 0));
}

#[test]
fn message_reaches_the_last_time_stamp() {
    let k = only_key("- a (@ 0900) b (@ 1000)");
    assert_eq!(k.msg, "a (@ 0900) b ");
    assert_eq!(k.time_parts, parts(None, None, None, Some(10), Some(0), None, false));
}

#[test]
fn bullet_may_start_mid_line_and_reminders_follow_each_other() {
    let k = only_key("note - foo (@ 0900)");
    assert_eq!(k.msg, "foo ");
    let ks = keys("- a (@ 0900)\n- b (@ 1000)\r\nplain line\n");
    assert_eq!(ks.len(), 2);
    assert_eq!(ks[0].as_ref().unwrap().msg, "a ");
    assert_eq!(ks[1].as_ref().unwrap().msg, "b ");
}

#[test]
fn non_ascii_digits_are_reported() {
    let ks = keys("- a (@ \u{661}\u{662}:30)");
    assert_eq!(ks.len(), 1);
    let e = ks[0].as_ref().unwrap_err();
    assert_eq!(
        e,
        "Error parsing value (\u{661}\u{662}) as u32\nError at src/file_scanner/time_reminder/model.rs:425  with message:```ParseIntError { kind: InvalidDigit }```"
    );
}

#[test]
fn captures_of_a_line() {
    let line = chars_of("- [ ] x (@2024-12-24 18:00)");
    let caps = reminder_captures(&line);
    assert_eq!(caps.len(), 1);
    assert_eq!(caps[0].checked.as_deref(), Some(" "));
    assert_eq!(caps[0].message.as_deref(), Some("x "));
    assert_eq!(caps[0].year.as_deref(), Some("2024"));
    assert_eq!(caps[0].month.as_deref(), Some("12"));
    assert_eq!(caps[0].day.as_deref(), Some("24"));
    assert_eq!(caps[0].hour.as_deref(), Some("18"));
    assert_eq!(caps[0].minute.as_deref(), Some("00"));
    assert_eq!(caps[0].second, None);
}

#[test]
fn parse_u32_follows_std() {
    for s in ["0", "42", "+7", "4294967295", "", "+", "-", "-1", "4294967296", "12a", "99999999999x"] {
        let ours = parse_u32_str(&chars_of(s));
        let std = s.parse::<u32>();
        match (ours, std) {
            (Ok(a), Ok(b)) => assert_eq!(a, b),
            (Err(k), Err(e)) => {
                let want = match e.kind() {
                    std::num::IntErrorKind::Empty => IntErrorKind::Empty,
                    std::num::IntErrorKind::InvalidDigit => IntErrorKind::InvalidDigit,
                    std::num::IntErrorKind::PosOverflow => IntErrorKind::PosOverflow,
                    other => panic!("unexpected {:?}", other),
                };
                assert_eq!(k, want, "{}", s);
            }
            (a, b) => panic!("{}: {:?} vs {:?}", s, a, b),
        }
    }
}

#[test]
fn display_of_parts() {
    let p = parts(Some(2025), Some(1), Some(30), Some(7), Some(5), None, false);
    assert_eq!(p.to_display_string(), "2025-1-30 07:05");
    let q = parts(None, None, None, Some(22), None, Some(3), false);
    assert_eq!(q.to_display_string(), "~-~-~ 22:0~03");
}

#[test]
fn dateless_reminder_aims_at_today() {
    let now = LocalNow {
        year: 2025,
        month: 3,
        day: 9,
        hour: 23,
        minute: 30,
        second: 12,
        instant: Instant { secs: 0, nanos: 0 },
    };
    let p = parts(None, None, None, Some(7), Some(25), None, false);
    let f = p.target_fields(&now);
    assert_eq!((f.year, f.month, f.day, f.hour, f.minute, f.second), (2025, 3, 9, 7, 25, 0));
    let q = parts(None, None, None, None, None, None, false);
    let g = q.target_fields(&now);
    assert_eq!((g.hour, g.minute), (24, 0));
    assert_eq!(q.get_target_time_at(&now).time, LocalTime::Unresolved);
    let top = LocalNow { minute: 59, ..now };
    let h = q.target_fields(&top);
    assert_eq!((h.hour, h.minute), (23, 59));
}

#[test]
fn out_of_range_time_resolves_to_nothing() {
    let p = parts(Some(2025), Some(1), Some(1), Some(25), Some(0), None, false);
    assert_eq!(p.get_target_time().unwrap().time, LocalTime::Unresolved);
    let q = parts(Some(2025), Some(13), Some(1), Some(9), Some(0), None, false);
    assert_eq!(q.get_target_time().unwrap().time, LocalTime::Unresolved);
}

#[test]
fn calendar_time_resolves_within_a_day_of_utc() {
    let feb30 = parts(Some(2024), Some(2), Some(30), Some(9), Some(0), None, false);
    assert_eq!(feb30.get_target_time().unwrap().time, LocalTime::Unresolved);
    let p = parts(Some(2024), Some(6), Some(15), Some(12), Some(0), None, false);
    let as_utc: i64 = 1_718_452_800;
    let near = |t: &Instant| t.nanos == 0 && (t.secs - as_utc).abs() < 86_400;
    match p.get_target_time().unwrap().time {
        LocalTime::Unresolved => {}
        LocalTime::Single(t) => assert!(near(&t)),
        LocalTime::Ambiguous(a, b) => assert!(near(&a) && near(&b)),
    }
    let nine = obsidian_notifications::file_scanner::daily_todo::nine_today(&LocalNow {
        year: 2024,
        month: 6,
        day: 15,
        hour: 20,
        minute: 0,
        second: 0,
        instant: Instant { secs: as_utc, nanos: 0 },
    });
    let nine_utc: i64 = as_utc - 3 * 3600;
    match nine.time {
        LocalTime::Unresolved => {}
        LocalTime::Single(t) => assert!(t.nanos == 0 && (t.secs - nine_utc).abs() < 86_400),
        LocalTime::Ambiguous(a, b) => {
            assert!((a.secs - nine_utc).abs() < 86_400 && (b.secs - nine_utc).abs() < 86_400)
        }
    }
}

#[test]
fn countdown_decisions() {
    let open = only_key("- a (@ 0900)");
    let ticked = only_key("- [x] a (@ 0900)");
    let now = Instant { secs: 1000, nanos: 500 };
    let t = LocalTime::Single(Instant { secs: 1100, nanos: 400 });
    assert_eq!(countdown_plan(&ticked, &t, &now), CountdownPlan::Done);
    assert_eq!(
        countdown_plan(&open, &t, &now),
        CountdownPlan::Notify { wait_secs: 99, wait_nanos: 999_999_900 }
    );
    let recent = LocalTime::Single(Instant { secs: 950, nanos: 0 });
    assert_eq!(countdown_plan(&open, &recent, &now), CountdownPlan::Notify { wait_secs: 0, wait_nanos: 0 });
    let old = LocalTime::Single(Instant { secs: 940, nanos: 500 });
    assert_eq!(countdown_plan(&open, &old, &now), CountdownPlan::Missed);
    assert_eq!(countdown_plan(&open, &LocalTime::Unresolved, &now), CountdownPlan::Unresolved);
    let amb = LocalTime::Ambiguous(Instant { secs: 2000, nanos: 0 }, Instant { secs: 5600, nanos: 0 });
    assert_eq!(countdown_plan(&open, &amb, &now), CountdownPlan::Unresolved);
}

#[test]
fn ignored_files_and_dirs() {
    assert!(ignored_file("/v/.DS_Store"));
    assert!(ignored_file("/v/img.JPG"));
    assert!(ignored_file("/v/img.jPeG"));
    assert!(ignored_file("/v/a.png"));
    assert!(!ignored_file("/v/a.png.md"));
    assert!(!ignored_file("/v/x.DS_Store"));
    assert!(!ignored_file("/v/note.md"));
    assert!(ignored_dir(".trash"));
    assert!(ignored_dir(".trash/sub"));
    assert!(ignored_dir("_trash"));
    assert!(!ignored_dir("trash"));
    assert!(!ignored_dir("notes/.trash"));
}

#[test]
fn clock_reads_the_local_time() {
    let now = obsidian_notifications::clock::now().unwrap();
    assert!(now.year >= 2024);
    assert!((1..=12).contains(&now.month) && (1..=31).contains(&now.day));
    assert!(now.hour <= 23 && now.minute <= 59 && now.second <= 59);
    assert!(now.instant.secs > 1_700_000_000);
    let nine = obsidian_notifications::file_scanner::daily_todo::nine_today(&now);
    match nine.time {
        LocalTime::Single(t) => {
            assert_eq!(t.nanos, 0);
            assert!((t.secs - now.instant.secs).abs() < 2 * 86_400);
        }
        other => panic!("{:?}", other),
    }
    let p = parts(Some(2025), Some(1), Some(1), Some(9), Some(0), None, false);
    let r = p.get_target_time().unwrap();
    assert!(matches!(r.time, LocalTime::Single(t) if t.nanos == 0 && (1_735_680_000..1_735_800_000).contains(&t.secs)));
    assert!(r.debug.starts_with("Single(2025-01-01T09:00:00"));
}
