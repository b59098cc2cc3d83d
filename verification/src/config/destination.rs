//! Where messages go: a Discord user (by direct message) or a server channel.
use vstd::prelude::*;

verus! {

/// How a destination's id is to be read.
#[derive(Clone, Copy, Debug, PartialEq, Eq, Structural)]
pub enum ChannelType {
    /// The id is a user's; messages go to a direct-message channel with them.
    Dm,
    /// The id is a server channel's.
    Server,
}

/// A configured destination.
#[derive(Clone, Copy, Debug, PartialEq, Eq, Structural)]
pub struct Destination {
    pub id: u64,
    pub ch_type: ChannelType,
}

/// Where a destination sends to.
#[derive(Clone, Copy, Debug, PartialEq, Eq, Structural)]
pub enum ChannelTarget {
    /// Open (or reuse) the direct-message channel with this user.
    DirectMessage(u64),
    /// This channel.
    Channel(u64),
}

impl Destination {
    pub fn new(id: u64, ch_type: ChannelType) -> (r: Destination)
        ensures
            r.id == id,
            r.ch_type == ch_type,
    {
        Destination { id, ch_type }
    }

    /// Where this destination sends to: the direct-message channel with the
    /// user of the configured id, or the server channel of that id.
    pub fn id(&self) -> (r: ChannelTarget)
        ensures
            r == match self.ch_type {
                ChannelType::Dm => ChannelTarget::DirectMessage(self.id),
                ChannelType::Server => ChannelTarget::Channel(self.id),
            },
    {
        match self.ch_type {
            ChannelType::Dm => ChannelTarget::DirectMessage(self.id),
            ChannelType::Server => ChannelTarget::Channel(self.id),
        }
    }
}

} // verus!
