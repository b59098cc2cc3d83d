use obsidian_notifications::clock::Instant;
use obsidian_notifications::file_scanner::daily_todo::{
    build_regex, daily_wait, daily_wait_is_defined, header_pattern, parse_task, todo_message, todo_tasks,
    Task,
};
use obsidian_notifications::file_scanner::file_search_config::{
    FileSearchConfig, DEBUG_PATH, FUZ_VAULT_PATH, MAGIC_BEANS_VAULT_PATH,
};
use obsidian_notifications::file_scanner::recent_file_tracker::order_by_creation;
use obsidian_notifications::file_scanner::sync_conflict::{
    conflict_notice, is_sync_conflict, SyncConflictTracker,
};
use obsidian_notifications::file_scanner::time_reminder::model::reminders_in_text;
use obsidian_notifications::file_scanner::time_reminder::tracker::ReminderTracker;
use obsidian_notifications::file_scanner::{path_str_no_root, path_str_under_root};
use obsidian_notifications::bot::destination::Destination;
use obsidian_notifications::text::{chars_of, split_lines};

fn key(text: &str) -> obsidian_notifications::file_scanner::time_reminder::model::ReminderKey {
    reminders_in_text("/v/n.md", text).into_iter().next().unwrap().unwrap()
}

#[test]
fn tracker_starts_each_reminder_once() {
    let mut t = ReminderTracker::new();
    let a = key("- a (@2025-03-01 0900)");
    let b = key("- b (@ 1000)");
    assert!(t.observe(&a, 1));
    assert!(!t.observe(&a, 2));
    assert!(t.observe(&b, 3));
    assert_eq!(t.len(), 2);
    assert_eq!(t.task_of(&a), Some(1));
    // next pass finds only `a`: `b` is dropped and its task is to stop
    assert!(!t.observe(&a, 4));
    let stopped = t.end_pass(&vec![a.clone()]);
    assert_eq!(stopped, vec![3]);
    assert!(t.contains(&a));
    assert!(!t.contains(&b));
    // `a` has a date: once its countdown finishes it stays tracked without a task
    t.clear_finished(&vec![1]);
    assert!(t.contains(&a));
    assert_eq!(t.task_of(&a), None);
    assert!(!t.observe(&a, 5));
    // a pass that finds nothing drops everything; nothing runs to stop
    let stopped = t.end_pass(&vec![]);
    assert!(stopped.is_empty());
    assert_eq!(t.len(), 0);
}

#[test]
fn daily_reminder_is_counted_down_again() {
    let mut t = ReminderTracker::new();
    let daily = key("- stretch (@ 0725)");
    let ticked = key("- [x] stretch (@ 0725)");
    let dated = key("- call (@2025-03-01 0900)");
    let timeless = key("- someday (@)");
    let all = vec![daily.clone(), ticked.clone(), dated.clone(), timeless.clone()];
    let pass = t.run_pass(&all, 10);
    assert_eq!(pass.started.len(), 4);
    assert!(pass.stopped.is_empty());
    t.clear_finished(&vec![10, 11, 12, 13]);
    assert!(!t.contains(&daily));
    assert_eq!(t.task_of(&ticked), None);
    assert!(t.contains(&ticked));
    assert!(t.contains(&dated));
    assert!(t.contains(&timeless));
    assert_eq!(t.task_of(&timeless), None);
    let pass = t.run_pass(&all, 14);
    assert_eq!(pass.started.len(), 1);
    assert_eq!(pass.started[0].task, 14);
    assert!(pass.started[0].key == daily);
    assert_eq!(t.task_of(&daily), Some(14));
}

#[test]
fn pass_starts_new_reminders_once_and_stops_lost_ones() {
    let mut t = ReminderTracker::new();
    let a = key("- a (@ 0900)");
    let b = key("- b (@ 1000)");
    let c = key("- c (@ 1100)");
    let pass = t.run_pass(&vec![a.clone(), b.clone(), a.clone()], 0);
    let started: Vec<(String, u64)> = pass.started.iter().map(|s| (s.key.msg.clone(), s.task)).collect();
    assert_eq!(started, vec![("a ".to_string(), 0), ("b ".to_string(), 1)]);
    assert!(pass.stopped.is_empty());
    let pass = t.run_pass(&vec![c.clone(), a.clone()], 2);
    let started: Vec<(String, u64)> = pass.started.iter().map(|s| (s.key.msg.clone(), s.task)).collect();
    assert_eq!(started, vec![("c ".to_string(), 2)]);
    assert_eq!(pass.stopped, vec![1]);
    assert_eq!(t.len(), 2);
    assert_eq!(t.task_of(&a), Some(0));
    assert_eq!(t.task_of(&c), Some(2));
    assert!(!t.contains(&b));
}

#[test]
fn sync_conflicts_reported_once_while_they_exist() {
    assert!(is_sync_conflict("note.sync-conflict-20240101-123456-ABCDEF.md"));
    assert!(!is_sync_conflict("note.md"));
    assert!(!is_sync_conflict("sync conflict.md"));
    let mut t = SyncConflictTracker::new();
    assert!(t.report_new("/v/a.sync-conflict-1.md"));
    assert!(!t.report_new("/v/a.sync-conflict-1.md"));
    assert_eq!(t.paths(), vec!["/v/a.sync-conflict-1.md".to_string()]);
    t.forget_missing(&vec!["/v/a.sync-conflict-1.md".to_string()]);
    assert!(t.paths().is_empty());
    assert!(t.report_new("/v/a.sync-conflict-1.md"));
    assert_eq!(conflict_notice("a.sync-conflict-1.md"), "file sync conflict: a.sync-conflict-1.md");
}

#[test]
fn paths_relative_to_the_root() {
    assert_eq!(path_str_no_root("/v/notes/a.md", "/v"), "notes/a.md");
    assert_eq!(path_str_no_root("/v/notes/a.md", "/v/"), "notes/a.md");
    assert_eq!(path_str_under_root("/v/notes/a.md", "/v/notes/a.md"), Some(String::new()));
    assert_eq!(path_str_under_root("/v/notes/a.md", "/w"), None);
    assert_eq!(path_str_under_root("/vault/a.md", "/v"), None);
}

#[test]
fn todo_section_tasks() {
    let text = "# Notes\n- [ ] not in todo\n# TODO\n- [ ] buy milk\n- [x] done thing\n- plain bullet\n-  [ ] spaced\nsome text\n- [ ]\tfix bike\n# Later\n- [ ] later thing\n";
    let header = build_regex("TODO").unwrap();
    let tasks = todo_tasks(text, &header);
    assert_eq!(
        tasks,
        vec![
            Task { checked: false, msg: "buy milk".to_string() },
            Task { checked: true, msg: "done thing".to_string() },
            Task { checked: true, msg: "plain bullet".to_string() },
            Task { checked: true, msg: "[ ] spaced".to_string() },
            Task { checked: false, msg: "fix bike".to_string() },
        ]
    );
    assert_eq!(todo_message(&tasks), "- buy milk\n- fix bike\n");
}

#[test]
fn todo_heading_must_match_exactly() {
    let header = build_regex("TODO").unwrap();
    let tasks = todo_tasks("# TODO list\n- [ ] a\n# TODO\n- [ ] b\n", &header);
    assert_eq!(tasks, vec![Task { checked: false, msg: "b".to_string() }]);
    let none = todo_tasks("- [ ] a\n", &header);
    assert!(none.is_empty());
}

#[test]
fn heading_pattern_text_and_invalid_heading() {
    assert_eq!(header_pattern("TODO"), "(?<todo_header>^# TODO$)|(^# [A-Za-z0-9\\s]*$)");
    assert!(build_regex("bad(").is_none());
}

#[test]
fn task_lines() {
    assert_eq!(parse_task(&chars_of("- [ ] a")), Some(Task { checked: false, msg: "a".to_string() }));
    assert_eq!(parse_task(&chars_of("- [\u{3000}] a")), Some(Task { checked: false, msg: "a".to_string() }));
    assert_eq!(parse_task(&chars_of("-[ ] a")), None);
    assert_eq!(parse_task(&chars_of("- ")), Some(Task { checked: true, msg: String::new() }));
}

#[test]
fn digest_waits_for_next_nine() {
    let nine = Instant { secs: 36_000, nanos: 0 };
    let before = Instant { secs: 35_000, nanos: 250 };
    assert!(daily_wait_is_defined(&nine, &before));
    assert_eq!(daily_wait(&nine, &before), (999, 999_999_750));
    let after = Instant { secs: 40_000, nanos: 0 };
    assert_eq!(daily_wait(&nine, &after), (86_400 - 4_000, 0));
    let just_after = Instant { secs: 36_000, nanos: 10 };
    assert!(!daily_wait_is_defined(&nine, &just_after));
}

#[test]
fn lines_like_str_lines() {
    for text in ["", "a", "a\n", "a\r\nb", "\n\nx\r", "a\rb\n\r\n"] {
        let ours: Vec<String> = split_lines(&chars_of(text)).into_iter().map(|l| l.into_iter().collect()).collect();
        let std: Vec<String> = text.lines().map(|l| l.to_string()).collect();
        assert_eq!(ours, std, "{:?}", text);
    }
}

#[test]
fn creation_order_is_stable() {
    assert_eq!(order_by_creation(&vec![30, 10, 20, 10]), vec![1, 3, 2, 0]);
    assert_eq!(order_by_creation(&vec![]), Vec::<usize>::new());
    assert_eq!(order_by_creation(&vec![-5, -5, 7]), vec![0, 1, 2]);
}

#[test]
fn fixed_search_configs() {
    let all = FileSearchConfig::gen_all_configs();
    assert_eq!(all.len(), 2);
    assert_eq!(all[0].root_dir, FUZ_VAULT_PATH);
    assert_eq!(all[0].notification_channel, Destination::FuzzyObsidianCh);
    assert_eq!(all[1].root_dir, MAGIC_BEANS_VAULT_PATH);
    assert_eq!(all[1].notification_channel, Destination::MagicBeansObsidianCh);
    let dbg = FileSearchConfig::gen_all_debug_configs();
    assert_eq!(dbg[0].notification_channel, Destination::DebugObsidianFuzzyCh);
    assert_eq!(dbg[1].notification_channel, Destination::DebugObsidianMagicBeansCh);
    let short = FileSearchConfig::gen_short_debug_config();
    assert_eq!(short.len(), 1);
    assert_eq!(short[0].root_dir, DEBUG_PATH);
    assert_eq!(short[0].notification_channel, Destination::DebugObsidianFuzzyCh);
}
