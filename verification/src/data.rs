//! What a frame holds of one digitiser: traces and events, by channel.
use crate::assoc::{distinct_keys, has_key, lemma_map_of, lemma_map_of_push, lemma_map_of_update, map_of};
use crate::messages::{ChannelTrace, EventListMessage, TraceMessage};
use crate::{Channel, DigitizerId, Intensity, Time, Timestamp};
use vstd::prelude::*;

verus! {

/// Timeseries of signal intensities. The time and value scaling is not stored here,
/// so interpretation is owner dependent.
pub type Trace = Vec<Intensity>;

/// Bundles all metadata which uniquely defines each digitiser message.
#[derive(Clone, Copy, Debug, PartialEq, Eq, Structural, Hash)]
pub struct DigitiserMetadata {
    /// Unique to each digitiser.
    pub id: DigitizerId,
    /// Unique to each frame.
    pub timestamp: Timestamp,
}

/// A detected pulse.
#[derive(Clone, Copy, Debug, PartialEq, Eq, Structural)]
pub struct Event {
    pub time: Time,
    pub intensity: Intensity,
}

pub type EventList = Vec<Event>;

/// A map from channels to values, which keeps its channels in the order in which
/// they came.
#[derive(Debug)]
pub struct ChannelMap<V> {
    entries: Vec<(Channel, V)>,
}

pub type DigitiserEventList = ChannelMap<EventList>;

impl<V> ChannelMap<V> {
    #[verifier::type_invariant]
    spec fn inv(self) -> bool {
        distinct_keys(self.entries@)
    }

    /// The channels with their values, in the order in which the channels came.
    pub closed spec fn entries(&self) -> Seq<(Channel, V)> {
        self.entries@
    }

    pub open spec fn view(&self) -> Map<Channel, V> {
        map_of(self.entries())
    }

    /// The channels, in the order in which they came.
    pub open spec fn keys(&self) -> Seq<Channel> {
        self.entries().map_values(|e: (Channel, V)| e.0)
    }

    /// The empty map.
    pub fn new() -> (m: Self)
        ensures
            m.entries() == Seq::<(Channel, V)>::empty(),
            m@ == Map::<Channel, V>::empty(),
            m.keys() == Seq::<Channel>::empty(),
    {
        proof {
            assert(Seq::<(Channel, V)>::empty().map_values(|e: (Channel, V)| e.0)
                =~= Seq::<Channel>::empty());
        }
        ChannelMap { entries: Vec::new() }
    }

    /// The number of channels.
    pub fn len(&self) -> (n: usize)
        ensures
            n == self.entries().len(),
            n == self@.dom().len(),
            distinct_keys(self.entries()),
    {
        proof {
            use_type_invariant(self);
            lemma_map_of(self.entries@);
        }
        self.entries.len()
    }

    /// The place of `channel` among the entries.
    pub fn position(&self, channel: Channel) -> (r: Option<usize>)
        ensures
            match r {
                Some(i) => i < self.entries().len() && self.entries()[i as int].0 == channel,
                None => !has_key(self.entries(), channel),
            },
            r is Some <==> self@.contains_key(channel),
    {
        let mut i: usize = 0;
        while i < self.entries.len()
            invariant
                i <= self.entries.len(),
                forall|j: int| 0 <= j < i ==> self.entries@[j].0 != channel,
            decreases self.entries.len() - i,
        {
            if self.entries[i].0 == channel {
                proof {
                    lemma_map_of(self.entries@);
                    assert(has_key(self.entries@, channel));
                }
                return Some(i);
            }
            i += 1;
        }
        proof {
            lemma_map_of(self.entries@);
        }
        None
    }

    /// Whether the map has a value for `channel`.
    pub fn contains_key(&self, channel: Channel) -> (b: bool)
        ensures
            b == self@.contains_key(channel),
    {
        self.position(channel).is_some()
    }

    /// The value of `channel`.
    pub fn get(&self, channel: Channel) -> (r: Option<&V>)
        ensures
            match r {
                Some(v) => self@.contains_key(channel) && *v == self@[channel],
                None => !self@.contains_key(channel),
            },
    {
        proof {
            use_type_invariant(self);
            lemma_map_of(self.entries@);
        }
        match self.position(channel) {
            Some(i) => Some(&self.entries[i].1),
            None => None,
        }
    }

    /// The channel of entry `i`.
    pub fn key_at(&self, i: usize) -> (channel: Channel)
        requires
            i < self.entries().len(),
        ensures
            channel == self.entries()[i as int].0,
            self@.contains_key(channel),
    {
        proof {
            lemma_map_of(self.entries@);
        }
        self.entries[i].0
    }

    /// The value of entry `i`.
    pub fn value_at(&self, i: usize) -> (value: &V)
        requires
            i < self.entries().len(),
        ensures
            *value == self.entries()[i as int].1,
            *value == self@[self.entries()[i as int].0],
    {
        proof {
            use_type_invariant(self);
            lemma_map_of(self.entries@);
        }
        &self.entries[i].1
    }

    /// Puts `value` under `channel`, in place of the value that was there.
    pub fn insert(&mut self, channel: Channel, value: V)
        ensures
            final(self)@ == old(self)@.insert(channel, value),
            old(self)@.contains_key(channel) ==> final(self).entries().len() == old(
                self,
            ).entries().len(),
            !old(self)@.contains_key(channel) ==> final(self).entries() == old(
                self,
            ).entries().push((channel, value)),
            final(self).keys() == with_channel(old(self).keys(), channel),
            old(self)@.contains_key(channel) ==> forall|j: int|
                0 <= j < old(self).entries().len() ==> (#[trigger] final(self).entries()[j]) == (
                if old(self).entries()[j].0 == channel {
                    (channel, value)
                } else {
                    old(self).entries()[j]
                }),
    {
        proof {
            use_type_invariant(&*self);
        }
        let found = self.position(channel);
        // The entries are taken out, changed and put back.
        let mut entries: Vec<(Channel, V)> = Vec::new();
        core::mem::swap(&mut self.entries, &mut entries);
        match found {
            Some(i) => {
                proof {
                    lemma_map_of_update(entries@, i as int, value);
                    assert forall|j: int| 0 <= j < entries@.len() && j != i implies entries@[j].0
                        != channel by {
                        if j < i {
                            assert(entries@[j].0 != entries@[i as int].0);
                        } else {
                            assert(entries@[i as int].0 != entries@[j].0);
                        }
                    }
                }
                entries.set(i, (channel, value));
            },
            None => {
                proof {
                    lemma_map_of_push(entries@, channel, value);
                }
                entries.push((channel, value));
            },
        }
        proof {
            lemma_keys_with_channel(old(self).entries@, entries@, channel);
        }
        self.entries = entries;
    }
}

/// `keys` with `channel` behind them, unless it is one of them.
pub open spec fn with_channel(keys: Seq<Channel>, channel: Channel) -> Seq<Channel> {
    if keys.contains(channel) {
        keys
    } else {
        keys.push(channel)
    }
}

/// The channels of `s`, each once, in the order in which they first occur.
pub open spec fn distinct_in_order(s: Seq<Channel>) -> Seq<Channel>
    decreases s.len(),
{
    if s.len() == 0 {
        s
    } else {
        with_channel(distinct_in_order(s.drop_last()), s.last())
    }
}

/// The channels of the traces of a record, in the order of the record.
pub open spec fn channels_of(channels: Seq<ChannelTrace>) -> Seq<Channel> {
    channels.map_values(|c: ChannelTrace| c.channel)
}

/// The keys of a list that was given a value for `channel`, in place or behind, are
/// the keys that it had, with `channel`.
proof fn lemma_keys_with_channel<V>(
    before: Seq<(Channel, V)>,
    after: Seq<(Channel, V)>,
    channel: Channel,
)
    requires
        has_key(before, channel) ==> after.len() == before.len() && forall|j: int|
            0 <= j < before.len() ==> (#[trigger] after[j]).0 == before[j].0,
        !has_key(before, channel) ==> after.len() == before.len() + 1 && after.drop_last()
            =~= before && after.last().0 == channel,
    ensures
        after.map_values(|e: (Channel, V)| e.0) == with_channel(
            before.map_values(|e: (Channel, V)| e.0),
            channel,
        ),
{
    let old_keys = before.map_values(|e: (Channel, V)| e.0);
    let new_keys = after.map_values(|e: (Channel, V)| e.0);
    if has_key(before, channel) {
        let i = choose|i: int| 0 <= i < before.len() && before[i].0 == channel;
        assert(old_keys[i] == channel);
        assert(new_keys =~= old_keys);
    } else {
        if old_keys.contains(channel) {
            let i = choose|i: int| 0 <= i < old_keys.len() && old_keys[i] == channel;
            assert(before[i].0 == channel);
        }
        assert forall|j: int| 0 <= j < before.len() implies new_keys[j] == old_keys[j] by {
            assert(after.drop_last()[j] == before[j]);
        }
        assert(new_keys =~= old_keys.push(channel));
    }
}

/// The values of `m`, each as the sequence that it holds.
pub open spec fn trace_seqs(m: Map<Channel, Trace>) -> Map<Channel, Seq<Intensity>> {
    m.map_values(|v: Trace| v@)
}

/// The values of `m`, each as the sequence that it holds.
pub open spec fn event_seqs(m: Map<Channel, EventList>) -> Map<Channel, Seq<Event>> {
    m.map_values(|v: EventList| v@)
}

/// The traces of a record by channel; of two traces of one channel, the later.
pub open spec fn channel_traces(channels: Seq<ChannelTrace>) -> Map<Channel, Seq<Intensity>>
    decreases channels.len(),
{
    if channels.len() == 0 {
        Map::empty()
    } else {
        channel_traces(channels.drop_last()).insert(
            channels.last().channel,
            channels.last().voltage@,
        )
    }
}

/// The first `n` events of a record by channel, each channel's in the order of the
/// record.
pub open spec fn channel_events(
    channel: Seq<Channel>,
    time: Seq<Time>,
    voltage: Seq<Intensity>,
    n: nat,
) -> Map<Channel, Seq<Event>>
    decreases n,
{
    if n == 0 {
        Map::empty()
    } else {
        let before = channel_events(channel, time, voltage, (n - 1) as nat);
        let c = channel[n - 1];
        let event = Event { time: time[n - 1], intensity: voltage[n - 1] };
        if before.contains_key(c) {
            before.insert(c, before[c].push(event))
        } else {
            before.insert(c, seq![event])
        }
    }
}

/// The events of a record by channel.
pub open spec fn events_of(msg: EventListMessage) -> Map<Channel, Seq<Event>> {
    channel_events(msg.channel@, msg.time@, msg.voltage@, msg.channel@.len())
}

impl ChannelMap<EventList> {
    /// The events by channel, each list as a sequence.
    pub open spec fn lists(&self) -> Map<Channel, Seq<Event>> {
        event_seqs(self@)
    }

    /// Puts `event` behind the events of `channel`.
    pub fn push_event(&mut self, channel: Channel, event: Event)
        ensures
            final(self).keys() == with_channel(old(self).keys(), channel),
            final(self).lists() == (if old(self).lists().contains_key(channel) {
                old(self).lists().insert(channel, old(self).lists()[channel].push(event))
            } else {
                old(self).lists().insert(channel, seq![event])
            }),
    {
        proof {
            use_type_invariant(&*self);
            lemma_map_of(self.entries@);
        }
        let found = self.position(channel);
        // The entries are taken out, changed and put back.
        let mut entries: Vec<(Channel, EventList)> = Vec::new();
        core::mem::swap(&mut self.entries, &mut entries);
        let ghost before = entries@;
        match found {
            Some(i) => {
                entries[i].1.push(event);
                proof {
                    assert(entries@ =~= before.update(i as int, (channel, entries@[i as int].1)));
                    lemma_map_of_update(before, i as int, entries@[i as int].1);
                    lemma_keys_with_channel(before, entries@, channel);
                }
                self.entries = entries;
                proof {
                    assert(final(self).lists() =~= old(self).lists().insert(
                        channel,
                        old(self).lists()[channel].push(event),
                    ));
                }
            },
            None => {
                let mut list: EventList = Vec::new();
                list.push(event);
                proof {
                    lemma_map_of_push(entries@, channel, list);
                }
                entries.push((channel, list));
                proof {
                    lemma_keys_with_channel(before, entries@, channel);
                }
                self.entries = entries;
                proof {
                    assert(final(self).lists() =~= old(self).lists().insert(channel, seq![event]));
                }
            },
        }
    }

    /// Sorts the events of a record by channel.
    pub fn create_from_message(msg: &EventListMessage) -> (events: Self)
        requires
            msg.wf(),
        ensures
            events.lists() == events_of(*msg),
            events.keys() == distinct_in_order(msg.channel@),
    {
        let mut events: ChannelMap<EventList> = ChannelMap::new();
        let mut idx: usize = 0;
        proof {
            assert(events.lists() =~= Map::<Channel, Seq<Event>>::empty());
        }
        while idx < msg.channel.len()
            invariant
                idx <= msg.channel.len(),
                msg.wf(),
                events.lists() == channel_events(
                    msg.channel@,
                    msg.time@,
                    msg.voltage@,
                    idx as nat,
                ),
                events.keys() == distinct_in_order(msg.channel@.take(idx as int)),
            decreases msg.channel.len() - idx,
        {
            proof {
                assert(msg.channel@.take(idx + 1).drop_last() =~= msg.channel@.take(idx as int));
            }
            events.push_event(
                msg.channel[idx],
                Event { time: msg.time[idx], intensity: msg.voltage[idx] },
            );
            idx += 1;
        }
        proof {
            assert(msg.channel@.take(msg.channel@.len() as int) =~= msg.channel@);
        }
        events
    }
}

/// Encapsulates all traces of a digitiser trace message.
#[derive(Debug)]
pub struct DigitiserTrace {
    pub traces: ChannelMap<Trace>,
    pub events: Option<DigitiserEventList>,
}

/// A digitiser's part of a frame, as contracts see it.
pub struct DigitiserTraceView {
    /// The samples of each channel.
    pub traces: Map<Channel, Seq<Intensity>>,
    /// The events of each channel, once an event list has been attached.
    pub events: Option<Map<Channel, Seq<Event>>>,
}

impl DigitiserTrace {
    pub open spec fn view(&self) -> DigitiserTraceView {
        DigitiserTraceView {
            traces: trace_seqs(self.traces@),
            events: match self.events {
                Some(events) => Some(events.lists()),
                None => None,
            },
        }
    }

    /// The traces of a record by channel, with no events.
    pub fn create_from_message(msg: &TraceMessage) -> (trace: Self)
        ensures
            trace@ == (DigitiserTraceView {
                traces: channel_traces(msg.channels@),
                events: None,
            }),
            trace.traces.keys() == distinct_in_order(channels_of(msg.channels@)),
    {
        let mut traces: ChannelMap<Trace> = ChannelMap::new();
        let mut i: usize = 0;
        proof {
            assert(trace_seqs(traces@) =~= Map::<Channel, Seq<Intensity>>::empty());
        }
        while i < msg.channels.len()
            invariant
                i <= msg.channels.len(),
                trace_seqs(traces@) == channel_traces(msg.channels@.take(i as int)),
                traces.keys() == distinct_in_order(channels_of(msg.channels@.take(i as int))),
            decreases msg.channels.len() - i,
        {
            proof {
                let now = channels_of(msg.channels@.take(i + 1));
                assert(now.drop_last() =~= channels_of(msg.channels@.take(i as int)));
                assert(now.last() == msg.channels@[i as int].channel);
            }
            let ghost before = traces@;
            let voltage = msg.channels[i].voltage.clone();
            traces.insert(msg.channels[i].channel, voltage);
            proof {
                assert(msg.channels@.take(i + 1).drop_last() =~= msg.channels@.take(i as int));
                assert(trace_seqs(traces@) =~= trace_seqs(before).insert(
                    msg.channels@[i as int].channel,
                    voltage@,
                ));
            }
            i += 1;
        }
        proof {
            assert(msg.channels@.take(msg.channels@.len() as int) =~= msg.channels@);
        }
        DigitiserTrace { traces, events: None }
    }
}

} // verus!
