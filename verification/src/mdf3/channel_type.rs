//! Whether a channel holds data or the time of each record.
use vstd::prelude::*;

verus! {

#[derive(Debug, Clone, Copy, PartialEq, Eq, Structural)]
pub enum ChannelType {
    Data,
    Time,
}

impl ChannelType {
    /// Code 0 is a data channel, code 1 the time channel; no other code is defined.
    pub fn new(channel_type: u16) -> (r: Self)
        requires
            channel_type <= 1,
        ensures
            r == (if channel_type == 0 {
                ChannelType::Data
            } else {
                ChannelType::Time
            }),
    {
        if channel_type == 0 {
            ChannelType::Data
        } else {
            ChannelType::Time
        }
    }

    pub fn is_time(&self) -> (r: bool)
        ensures
            r == (*self == ChannelType::Time),
    {
        match self {
            ChannelType::Data => false,
            ChannelType::Time => true,
        }
    }
}

} // verus!
