//! The text-only form of `get_reminders`.
use crate::bot::commands::{
    channel_vault, channel_vault_index, known_reminders_index, known_reminders, not_ready, refusal,
};
use crate::config::Config;
use crate::state::State;
use vstd::prelude::*;

verus! {

/// The text answer of `get_reminders` asked in channel `channel_id`: the
/// refusal or the wait-and-see of the full command, and otherwise an empty
/// text (this form collects no entries into its answer).
pub fn run(config: &Config, state: &State, channel_id: u64) -> (r: String)
    ensures
        match channel_vault(*config, channel_id) {
            None => r@ == refusal(),
            Some(v) => match known_reminders(*state, config.vaults@[v].0@) {
                None => r@ == not_ready(),
                Some(_) => r@ == Seq::<char>::empty(),
            },
        },
{
    let v = match channel_vault_index(config, channel_id) {
        None => {
            return String::from_str("Get the fuck out");
        },
        Some(v) => v,
    };
    match known_reminders_index(state, &config.vaults[v].0) {
        None => String::from_str("reminders contained None, check back later"),
        Some(_) => String::new(),
    }
}

} // verus!
