# obsidian_notifications

A Discord bot that sends reminders written in Markdown notes (an Obsidian
vault, or any folder of notes), reports files that the syncing tool left
behind after a sync conflict, and sends a daily digest of the unchecked tasks
under the TODO heading of a TODO note.

Reminders are bullet points or check boxes with a time stamp later in the
line: `- [ ] call mum (@2025-01-30 2205)`, or `- water plants (@ 0725)` for a
time of day with the date left out, which goes off every day at that time.
A ticked box keeps a reminder from going off.

Layout:

- `src/` is the library, verified with Verus: the reminder grammar
  (`file_scanner/time_reminder/grammar.rs`), reminder keys and their time
  stamps (`model.rs`), the bookkeeping of running countdowns (`tracker.rs`),
  when a countdown notifies (`countdown.rs`), the TODO digest
  (`file_scanner/daily_todo.rs`), sync conflicts, the configuration, and the
  messages and command answers of the bot (`bot/`). The local clock and
  time zone are read through `chrono`, heading patterns are matched with
  `regex`, and relative paths come from `std::path`; the contracts of those
  calls are stated where they are made.
- `app/` is the program: reading the configuration file and the notes,
  the Discord client (serenity and poise), and the tasks that run the
  library's decisions.
- `tests/` exercises the library, including a comparison of the reminder
  grammar with the same grammar written as a `regex` pattern.
