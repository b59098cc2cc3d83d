//! Fixed message destinations, named in code; their Discord ids are handed
//! in as `DestinationIds` rather than written here.
use crate::config::destination::ChannelTarget;
use vstd::prelude::*;

verus! {

/// A fixed destination: two users (by direct message) and four channels.
#[derive(Clone, Copy, Debug, PartialEq, Eq, Structural)]
pub enum Destination {
    Fuzzy,
    Bean,
    MagicBeansObsidianCh,
    FuzzyObsidianCh,
    DebugObsidianFuzzyCh,
    DebugObsidianMagicBeansCh,
}

/// The ids of the fixed destinations.
#[derive(Clone, Copy, Debug, PartialEq, Eq, Structural)]
pub struct DestinationIds {
    pub fuzzy: u64,
    pub bean: u64,
    pub magic_beans_obsidian_ch: u64,
    pub fuzzy_obsidian_ch: u64,
    pub debug_obsidian_fuzzy_ch: u64,
    pub debug_obsidian_magic_beans_ch: u64,
}

impl Destination {
    /// Where the destination sends to: the two users by direct message, the
    /// channels directly.
    pub fn id(&self, ids: &DestinationIds) -> (r: ChannelTarget)
        ensures
            r == match *self {
                Destination::Fuzzy => ChannelTarget::DirectMessage(ids.fuzzy),
                Destination::Bean => ChannelTarget::DirectMessage(ids.bean),
                Destination::MagicBeansObsidianCh => ChannelTarget::Channel(ids.magic_beans_obsidian_ch),
                Destination::FuzzyObsidianCh => ChannelTarget::Channel(ids.fuzzy_obsidian_ch),
                Destination::DebugObsidianFuzzyCh => ChannelTarget::Channel(ids.debug_obsidian_fuzzy_ch),
                Destination::DebugObsidianMagicBeansCh => ChannelTarget::Channel(
                    ids.debug_obsidian_magic_beans_ch,
                ),
            },
    {
        match self {
            Destination::Fuzzy => ChannelTarget::DirectMessage(ids.fuzzy),
            Destination::Bean => ChannelTarget::DirectMessage(ids.bean),
            Destination::MagicBeansObsidianCh => ChannelTarget::Channel(ids.magic_beans_obsidian_ch),
            Destination::FuzzyObsidianCh => ChannelTarget::Channel(ids.fuzzy_obsidian_ch),
            Destination::DebugObsidianFuzzyCh => ChannelTarget::Channel(ids.debug_obsidian_fuzzy_ch),
            Destination::DebugObsidianMagicBeansCh => ChannelTarget::Channel(
                ids.debug_obsidian_magic_beans_ch,
            ),
        }
    }
}

} // verus!
