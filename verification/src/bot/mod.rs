//! What the bot sends, and its commands.
use vstd::prelude::*;

pub mod commands;
pub mod destination;
pub mod send_msgs;

verus! {

/// The data that the bot's command framework hands to each command: none.
#[derive(Clone, Copy, Debug, PartialEq, Eq, Structural)]
pub struct BotData {}

} // verus!
