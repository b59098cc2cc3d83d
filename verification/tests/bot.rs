use obsidian_notifications::bot::commands::get_reminders::run;
use obsidian_notifications::bot::commands::{get_reminders_reply, RemindersReply};
use obsidian_notifications::bot::destination::{Destination as Fixed, DestinationIds};
use obsidian_notifications::bot::send_msgs::{
    daily_todo_message, file_sync_conflict_message, reminder_notification, rust_error_message, Attachment,
};
use obsidian_notifications::config::destination::{ChannelTarget, ChannelType, Destination};
use obsidian_notifications::config::vault::{
    default_daily_on_start, default_todo_header, default_todo_path, Vault,
};
use obsidian_notifications::config::{Config, Context};
use obsidian_notifications::file_scanner::time_reminder::model::reminders_in_text;
use obsidian_notifications::state::State;

fn vault(dest: &str, root: &str) -> Vault {
    Vault::new(dest.to_string(), "dbg".to_string(), root.to_string(), None, None, None)
}

fn config() -> Config {
    Config {
        bot_token: "SECRET-REDACTED".to_string(),
        rust_error_ch: "errors".to_string(),
        destinations: vec![
            ("errors".to_string(), Destination::new(11, ChannelType::Server)),
            ("me".to_string(), Destination::new(22, ChannelType::Dm)),
            ("notes".to_string(), Destination::new(33, ChannelType::Server)),
            ("dbg".to_string(), Destination::new(44, ChannelType::Server)),
        ],
        vaults: vec![("main".to_string(), vault("notes", "/v")), ("other".to_string(), vault("me", "/w"))],
    }
}

#[test]
fn vault_defaults() {
    assert_eq!(default_todo_path(), "General/TODO.md");
    assert_eq!(default_todo_header(), "TODO");
    assert!(!default_daily_on_start());
    let v = vault("notes", "/v");
    assert_eq!(v.todo_path, "General/TODO.md");
    assert_eq!(v.todo_section_header, "TODO");
    assert!(!v.daily_on_start);
    assert_eq!(v.todo_file_path(), "/v/General/TODO.md");
    let w = Vault::new("a".into(), "b".into(), "/w/".into(), Some(true), Some("//x/T.md".into()), Some("Tasks".into()));
    assert!(w.daily_on_start);
    assert_eq!(w.todo_section_header, "Tasks");
    assert_eq!(w.todo_file_path(), "/w/x/T.md");
}

#[test]
fn context_lookups() {
    let c = config();
    assert!(c.well_formed());
    let ctx = Context { dis_ctx: (), config: c };
    assert_eq!(ctx.get_error_ch().id, 11);
    assert_eq!(ctx.get_dest("me").id, 22);
    assert_eq!(ctx.get_vault_dest("main").id, 33);
    assert_eq!(ctx.get_vault_dbg_dest("main").id, 44);
    assert_eq!(ctx.get_all_vault_names(), vec!["main".to_string(), "other".to_string()]);
    let mut dup = config();
    dup.vaults.push(("main".to_string(), vault("x", "/x")));
    assert!(!dup.well_formed());
}

#[test]
fn destination_targets() {
    assert_eq!(Destination::new(5, ChannelType::Dm).id(), ChannelTarget::DirectMessage(5));
    assert_eq!(Destination::new(6, ChannelType::Server).id(), ChannelTarget::Channel(6));
    let ids = DestinationIds {
        fuzzy: 1,
        bean: 2,
        magic_beans_obsidian_ch: 3,
        fuzzy_obsidian_ch: 4,
        debug_obsidian_fuzzy_ch: 5,
        debug_obsidian_magic_beans_ch: 6,
    };
    assert_eq!(Fixed::Fuzzy.id(&ids), ChannelTarget::DirectMessage(1));
    assert_eq!(Fixed::Bean.id(&ids), ChannelTarget::DirectMessage(2));
    assert_eq!(Fixed::MagicBeansObsidianCh.id(&ids), ChannelTarget::Channel(3));
    assert_eq!(Fixed::FuzzyObsidianCh.id(&ids), ChannelTarget::Channel(4));
    assert_eq!(Fixed::DebugObsidianFuzzyCh.id(&ids), ChannelTarget::Channel(5));
    assert_eq!(Fixed::DebugObsidianMagicBeansCh.id(&ids), ChannelTarget::Channel(6));
}

#[test]
fn messages() {
    let m = reminder_notification("water plants", "~-~-~ 07:25", "garden.md");
    assert_eq!(m.content, "water plants");
    assert_eq!(m.embeds.len(), 1);
    assert_eq!(m.embeds[0].title, "water plants");
    assert_eq!(m.embeds[0].description, "time: ~-~-~ 07:25\nfile: garden.md");
    assert!(daily_todo_message("").is_none());
    let short = daily_todo_message("- a\n").unwrap();
    assert_eq!(short.content, "- a\n");
    assert!(short.files.is_empty());
    let long_text = "x".repeat(2000);
    let long = daily_todo_message(&long_text).unwrap();
    assert_eq!(long.content, "");
    assert_eq!(long.files, vec![Attachment::Text { name: "TODO_tasks.txt".into(), data: long_text.clone() }]);
    let just_under = "é".repeat(999);
    assert_eq!(daily_todo_message(&just_under).unwrap().content, just_under);
    let over = "é".repeat(1000);
    assert_eq!(daily_todo_message(&over).unwrap().files.len(), 1);
    let c = file_sync_conflict_message("a.sync-conflict.md", "/v/a.sync-conflict.md");
    assert_eq!(c.content, "file sync conflict: a.sync-conflict.md");
    assert_eq!(c.files, vec![Attachment::File { path: "/v/a.sync-conflict.md".into() }]);
    assert_eq!(rust_error_message("boom").content, "boom");
}

#[test]
fn get_reminders_answers() {
    let c = config();
    let mut state = State::default();
    assert!(state.reminders.is_empty());
    match get_reminders_reply(&c, &state, 99) {
        RemindersReply::Say(t) => assert_eq!(t, "Get the fuck out"),
        other => panic!("{:?}", other),
    }
    match get_reminders_reply(&c, &state, 11) {
        RemindersReply::Say(t) => assert_eq!(t, "Get the fuck out"),
        other => panic!("{:?}", other),
    }
    match get_reminders_reply(&c, &state, 33) {
        RemindersReply::Say(t) => assert_eq!(t, "reminders contained None, check back later"),
        other => panic!("{:?}", other),
    }
    let ks: Vec<_> = reminders_in_text("/v/dir/n.md/", "- a (@ 0900)\n- b (@2025-01-02 10:30)")
        .into_iter()
        .map(|r| r.unwrap())
        .collect();
    state.reminders.push(("main".to_string(), ks.clone()));
    match get_reminders_reply(&c, &state, 33) {
        RemindersReply::Listing { reminders, text, inline } => {
            assert_eq!(reminders, ks);
            assert_eq!(
                text,
                "- time: ~-~-~ 09:00\n  location: dir/n.md\n  msg: `a `\n- time: 2025-1-2 10:30\n  location: dir/n.md\n  msg: `b `"
            );
            assert!(inline);
        }
        other => panic!("{:?}", other),
    }
    assert_eq!(run(&c, &state, 33), "");
    assert_eq!(run(&c, &state, 22), "reminders contained None, check back later");
    assert_eq!(run(&c, &state, 1), "Get the fuck out");
}
