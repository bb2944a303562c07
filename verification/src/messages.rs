//! Decoded records of the two logs.
use crate::{Channel, DigitizerId, Intensity, Time, Timestamp};
use vstd::prelude::*;

verus! {

/// What a search reads of a record: when its frame was sampled, and by which
/// digitiser.
pub trait FBMessage: Sized {
    spec fn spec_timestamp(&self) -> Timestamp;

    spec fn spec_digitiser_id(&self) -> DigitizerId;

    fn timestamp(&self) -> (t: Timestamp)
        ensures
            t == self.spec_timestamp(),
    ;

    fn digitiser_id(&self) -> (d: DigitizerId)
        ensures
            d == self.spec_digitiser_id(),
    ;
}

/// The samples of one channel.
#[derive(Clone, Debug, PartialEq, Eq)]
pub struct ChannelTrace {
    pub channel: Channel,
    pub voltage: Vec<Intensity>,
}

/// A record of the trace log: the traces that one digitiser took in one frame.
#[derive(Clone, Debug, PartialEq, Eq)]
pub struct TraceMessage {
    pub timestamp: Timestamp,
    pub digitiser_id: DigitizerId,
    pub channels: Vec<ChannelTrace>,
}

/// A record of the event-list log: the events that one digitiser saw in one frame.
/// Event `i` is on channel `channel[i]`, in time bin `time[i]`, of intensity
/// `voltage[i]`.
#[derive(Clone, Debug, PartialEq, Eq)]
pub struct EventListMessage {
    pub timestamp: Timestamp,
    pub digitiser_id: DigitizerId,
    pub time: Vec<Time>,
    pub voltage: Vec<Intensity>,
    pub channel: Vec<Channel>,
}

impl TraceMessage {
    /// Whether the record holds a trace of `channel`.
    pub open spec fn spec_has_channel(&self, channel: Channel) -> bool {
        exists|i: int| 0 <= i < self.channels@.len() && self.channels@[i].channel == channel
    }

    /// Decides `spec_has_channel`.
    pub fn has_channel(&self, channel: Channel) -> (b: bool)
        ensures
            b == self.spec_has_channel(channel),
    {
        let mut i: usize = 0;
        while i < self.channels.len()
            invariant
                i <= self.channels.len(),
                forall|j: int| 0 <= j < i ==> self.channels@[j].channel != channel,
            decreases self.channels.len() - i,
        {
            if self.channels[i].channel == channel {
                return true;
            }
            i += 1;
        }
        false
    }
}

impl FBMessage for TraceMessage {
    open spec fn spec_timestamp(&self) -> Timestamp {
        self.timestamp
    }

    open spec fn spec_digitiser_id(&self) -> DigitizerId {
        self.digitiser_id
    }

    fn timestamp(&self) -> (t: Timestamp) {
        self.timestamp
    }

    fn digitiser_id(&self) -> (d: DigitizerId) {
        self.digitiser_id
    }
}

impl EventListMessage {
    /// Whether every event has its channel, its time bin and its intensity.
    pub open spec fn wf(&self) -> bool {
        self.time@.len() == self.channel@.len() && self.voltage@.len() == self.channel@.len()
    }

    /// Decides `wf`.
    pub fn is_valid(&self) -> (b: bool)
        ensures
            b == self.wf(),
    {
        self.time.len() == self.channel.len() && self.voltage.len() == self.channel.len()
    }
}

impl FBMessage for EventListMessage {
    open spec fn spec_timestamp(&self) -> Timestamp {
        self.timestamp
    }

    open spec fn spec_digitiser_id(&self) -> DigitizerId {
        self.digitiser_id
    }

    fn timestamp(&self) -> (t: Timestamp) {
        self.timestamp
    }

    fn digitiser_id(&self) -> (d: DigitizerId) {
        self.digitiser_id
    }
}

} // verus!
