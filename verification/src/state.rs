//! State shared between the bot's tasks.
use crate::file_scanner::time_reminder::model::ReminderKey;
use vstd::prelude::*;

verus! {

/// The reminders known for each vault, by vault name.
#[derive(Debug)]
pub struct State {
    pub reminders: Vec<(String, Vec<ReminderKey>)>,
}

impl Default for State {
    /// No reminders known for any vault.
    fn default() -> (r: Self)
        ensures
            r.reminders@.len() == 0,
    {
        State { reminders: Vec::new() }
    }
}

} // verus!
