//! The frames that a search has collected, traces and events merged by identity.
use crate::assoc::{
    count_where, distinct_keys, has_key, keys_where, lemma_count_where, lemma_map_of,
    lemma_map_of_push, lemma_map_of_remove, map_of,
};
use crate::data::{
    channel_traces, events_of, DigitiserEventList, DigitiserMetadata, DigitiserTrace,
    DigitiserTraceView, Event,
};
use crate::messages::{EventListMessage, TraceMessage};
use crate::{Channel, DigitizerId};
use vstd::prelude::*;

verus! {

/// The cache, as contracts see it.
pub struct CacheView {
    /// The traces of each digitiser in each frame, with the events attached to them.
    pub traces: Map<DigitiserMetadata, DigitiserTraceView>,
    /// The event lists that are attached to no trace.
    pub events: Map<DigitiserMetadata, Map<Channel, Seq<Event>>>,
}

/// `trace` with `events` attached, in place of what was attached before.
pub open spec fn with_events(
    trace: DigitiserTraceView,
    events: Map<Channel, Seq<Event>>,
) -> DigitiserTraceView {
    DigitiserTraceView { traces: trace.traces, events: Some(events) }
}

/// The identity of a trace record.
pub open spec fn trace_key(msg: TraceMessage) -> DigitiserMetadata {
    DigitiserMetadata { id: msg.digitiser_id, timestamp: msg.timestamp }
}

/// The identity of an event-list record.
pub open spec fn events_key(msg: EventListMessage) -> DigitiserMetadata {
    DigitiserMetadata { id: msg.digitiser_id, timestamp: msg.timestamp }
}

impl CacheView {
    /// The cache with nothing in it.
    pub open spec fn empty() -> CacheView {
        CacheView { traces: Map::empty(), events: Map::empty() }
    }

    /// The cache after a trace record was pushed: the first record of an identity
    /// stays.
    pub open spec fn push_trace(self, msg: TraceMessage) -> CacheView {
        if self.traces.contains_key(trace_key(msg)) {
            self
        } else {
            CacheView {
                traces: self.traces.insert(
                    trace_key(msg),
                    DigitiserTraceView { traces: channel_traces(msg.channels@), events: None },
                ),
                ..self
            }
        }
    }

    /// The cache after an event-list record was pushed to wait for its trace: the
    /// first record of an identity stays.
    pub open spec fn push_events(self, msg: EventListMessage) -> CacheView {
        if self.events.contains_key(events_key(msg)) {
            self
        } else {
            CacheView { events: self.events.insert(events_key(msg), events_of(msg)), ..self }
        }
    }

    /// The cache after an event-list record was pushed to its trace: it is attached
    /// to the trace of its identity, and dropped where there is none.
    pub open spec fn push_event_list_to_trace(self, msg: EventListMessage) -> CacheView {
        if self.traces.contains_key(events_key(msg)) {
            CacheView {
                traces: self.traces.insert(
                    events_key(msg),
                    with_events(self.traces[events_key(msg)], events_of(msg)),
                ),
                ..self
            }
        } else {
            self
        }
    }

    /// The cache after the waiting event lists were attached: each that has a trace
    /// of its identity is attached to it and waits no longer; the others wait on.
    pub open spec fn attached(self) -> CacheView {
        CacheView {
            traces: Map::new(
                |k: DigitiserMetadata| self.traces.contains_key(k),
                |k: DigitiserMetadata|
                    if self.events.contains_key(k) {
                        with_events(self.traces[k], self.events[k])
                    } else {
                        self.traces[k]
                    },
            ),
            events: self.events.remove_keys(self.traces.dom()),
        }
    }
}

/// The traces of a list of entries, each as contracts see it.
pub open spec fn trace_views(entries: Seq<(DigitiserMetadata, DigitiserTrace)>) -> Map<
    DigitiserMetadata,
    DigitiserTraceView,
> {
    map_of(entries).map_values(|t: DigitiserTrace| t@)
}

/// The event lists of a list of entries, each as contracts see it.
pub open spec fn event_views(entries: Seq<(DigitiserMetadata, DigitiserEventList)>) -> Map<
    DigitiserMetadata,
    Map<Channel, Seq<Event>>,
> {
    map_of(entries).map_values(|e: DigitiserEventList| e.lists())
}

/// The frames collected so far. Traces and event lists are kept in the order in
/// which they came.
#[derive(Debug)]
pub struct Cache {
    traces: Vec<(DigitiserMetadata, DigitiserTrace)>,
    events: Vec<(DigitiserMetadata, DigitiserEventList)>,
}

impl Cache {
    #[verifier::type_invariant]
    spec fn inv(self) -> bool {
        distinct_keys(self.traces@) && distinct_keys(self.events@)
    }

    /// The traces with their identities, in the order in which they came.
    pub closed spec fn trace_entries(&self) -> Seq<(DigitiserMetadata, DigitiserTrace)> {
        self.traces@
    }

    /// The waiting event lists with their identities, in the order in which they came.
    pub closed spec fn event_entries(&self) -> Seq<(DigitiserMetadata, DigitiserEventList)> {
        self.events@
    }

    pub open spec fn view(&self) -> CacheView {
        CacheView {
            traces: trace_views(self.trace_entries()),
            events: event_views(self.event_entries()),
        }
    }

    /// The empty cache.
    pub fn new() -> (cache: Cache)
        ensures
            cache@ == CacheView::empty(),
            cache.trace_entries().len() == 0,
            cache.event_entries().len() == 0,
    {
        let cache = Cache { traces: Vec::new(), events: Vec::new() };
        proof {
            assert(cache@.traces =~= Map::empty());
            assert(cache@.events =~= Map::empty());
        }
        cache
    }

    /// The place of the trace of identity `key`.
    fn trace_position(&self, key: &DigitiserMetadata) -> (r: Option<usize>)
        ensures
            match r {
                Some(i) => i < self.trace_entries().len() && self.trace_entries()[i as int].0
                    == *key,
                None => !has_key(self.trace_entries(), *key),
            },
            r is Some <==> self@.traces.contains_key(*key),
    {
        let r = find_key(&self.traces, key);
        proof {
            lemma_map_of(self.traces@);
        }
        r
    }

    /// Puts in the traces of `msg`, unless traces of its identity are there. Tells
    /// whether it did.
    pub fn push_trace(&mut self, msg: &TraceMessage) -> (pushed: bool)
        ensures
            final(self)@ == old(self)@.push_trace(*msg),
            pushed == !old(self)@.traces.contains_key(trace_key(*msg)),
            final(self).event_entries() == old(self).event_entries(),
            !pushed ==> final(self).trace_entries() == old(self).trace_entries(),
            pushed ==> final(self).trace_entries().len() == old(self).trace_entries().len() + 1
                && final(self).trace_entries().drop_last() == old(self).trace_entries()
                && final(self).trace_entries().last().0 == trace_key(*msg),
    {
        proof {
            use_type_invariant(&*self);
        }
        let metadata = DigitiserMetadata { id: msg.digitiser_id, timestamp: msg.timestamp };
        match self.trace_position(&metadata) {
            Some(_) => false,
            None => {
                let trace = DigitiserTrace::create_from_message(msg);
                let mut traces: Vec<(DigitiserMetadata, DigitiserTrace)> = Vec::new();
                core::mem::swap(&mut self.traces, &mut traces);
                proof {
                    lemma_map_of_push(traces@, metadata, trace);
                }
                traces.push((metadata, trace));
                self.traces = traces;
                proof {
                    assert(final(self).trace_entries().drop_last() =~= old(self).trace_entries());
                    assert(final(self)@.traces =~= old(self)@.traces.insert(metadata, trace@));
                }
                true
            },
        }
    }

    /// Puts in the events of `msg` to wait for their trace, unless events of its
    /// identity are waiting. Tells whether it did.
    pub fn push_events(&mut self, msg: &EventListMessage) -> (pushed: bool)
        requires
            msg.wf(),
        ensures
            final(self)@ == old(self)@.push_events(*msg),
            pushed == !old(self)@.events.contains_key(events_key(*msg)),
            final(self).trace_entries() == old(self).trace_entries(),
            !pushed ==> final(self).event_entries() == old(self).event_entries(),
            pushed ==> final(self).event_entries().len() == old(self).event_entries().len() + 1
                && final(self).event_entries().drop_last() == old(self).event_entries()
                && final(self).event_entries().last().0 == events_key(*msg),
    {
        proof {
            use_type_invariant(&*self);
            lemma_map_of(self.events@);
        }
        let metadata = DigitiserMetadata { id: msg.digitiser_id, timestamp: msg.timestamp };
        match find_key(&self.events, &metadata) {
            Some(_) => false,
            None => {
                let list = DigitiserEventList::create_from_message(msg);
                let mut events: Vec<(DigitiserMetadata, DigitiserEventList)> = Vec::new();
                core::mem::swap(&mut self.events, &mut events);
                proof {
                    lemma_map_of_push(events@, metadata, list);
                }
                events.push((metadata, list));
                self.events = events;
                proof {
                    assert(final(self).event_entries().drop_last() =~= old(self).event_entries());
                    assert(final(self)@.events =~= old(self)@.events.insert(
                        metadata,
                        list.lists(),
                    ));
                }
                true
            },
        }
    }

    /// Attaches the events of `msg` to the trace of its identity; drops them where
    /// there is none. Tells whether it attached them.
    pub fn push_event_list_to_trace(&mut self, msg: &EventListMessage) -> (attached: bool)
        requires
            msg.wf(),
        ensures
            final(self)@ == old(self)@.push_event_list_to_trace(*msg),
            attached == old(self)@.traces.contains_key(events_key(*msg)),
            final(self).event_entries() == old(self).event_entries(),
            final(self).trace_entries().len() == old(self).trace_entries().len(),
            forall|j: int|
                0 <= j < old(self).trace_entries().len() ==> (
                #[trigger] final(self).trace_entries()[j]).0 == old(self).trace_entries()[j].0,
    {
        proof {
            use_type_invariant(&*self);
        }
        let metadata = DigitiserMetadata { id: msg.digitiser_id, timestamp: msg.timestamp };
        match self.trace_position(&metadata) {
            Some(i) => {
                let list = DigitiserEventList::create_from_message(msg);
                let mut traces: Vec<(DigitiserMetadata, DigitiserTrace)> = Vec::new();
                core::mem::swap(&mut self.traces, &mut traces);
                let ghost before = traces@;
                traces[i].1.events = Some(list);
                proof {
                    lemma_same_keys_distinct(before, traces@);
                    lemma_map_of(before);
                    lemma_map_of(traces@);
                    assert forall|k: DigitiserMetadata| has_key(before, k) <==> has_key(
                        traces@,
                        k,
                    ) by {
                        lemma_same_keys(before, traces@, k);
                    }
                    let goal = trace_views(before).insert(
                        metadata,
                        with_events(trace_views(before)[metadata], events_of(*msg)),
                    );
                    assert forall|k: DigitiserMetadata| #[trigger]
                        trace_views(traces@).contains_key(k) implies trace_views(traces@)[k]
                        == goal[k] by {
                        let j = choose|j: int| 0 <= j < traces@.len() && traces@[j].0 == k;
                        assert(map_of(traces@)[traces@[j].0] == traces@[j].1);
                        assert(map_of(before)[before[j].0] == before[j].1);
                        if j != i {
                            assert(before[j].0 != before[i as int].0);
                        }
                    }
                    assert(trace_views(traces@) =~= goal);
                }
                self.traces = traces;
                true
            },
            None => false,
        }
    }

    /// Attaches each waiting event list to the trace of its identity, where there is
    /// one; the others wait on.
    pub fn attach_event_lists_to_trace(&mut self)
        ensures
            final(self)@ == old(self)@.attached(),
            final(self).trace_entries().len() == old(self).trace_entries().len(),
            forall|j: int|
                0 <= j < old(self).trace_entries().len() ==> (
                #[trigger] final(self).trace_entries()[j]).0 == old(self).trace_entries()[j].0,
    {
        proof {
            use_type_invariant(&*self);
        }
        // Both lists are taken out, changed and put back.
        let mut traces: Vec<(DigitiserMetadata, DigitiserTrace)> = Vec::new();
        let mut events: Vec<(DigitiserMetadata, DigitiserEventList)> = Vec::new();
        core::mem::swap(&mut self.traces, &mut traces);
        core::mem::swap(&mut self.events, &mut events);
        let ghost t0 = traces@;
        let ghost e0 = events@;
        let mut i: usize = 0;
        while i < traces.len()
            invariant
                i <= traces.len(),
                distinct_keys(t0),
                distinct_keys(e0),
                distinct_keys(events@),
                traces@.len() == t0.len(),
                forall|j: int| 0 <= j < t0.len() ==> (#[trigger] traces@[j]).0 == t0[j].0,
                forall|j: int|
                    i <= j < t0.len() ==> (#[trigger] traces@[j]).1 == t0[j].1,
                forall|j: int|
                    0 <= j < i ==> (#[trigger] traces@[j]).1@ == (if has_key(e0, t0[j].0) {
                        with_events(t0[j].1@, map_of(e0)[t0[j].0].lists())
                    } else {
                        t0[j].1@
                    }),
                forall|k: DigitiserMetadata| #[trigger]
                    has_key(events@, k) <==> has_key(e0, k) && !has_key(t0.take(i as int), k),
                forall|k: DigitiserMetadata| #[trigger]
                    has_key(events@, k) ==> map_of(events@)[k] == map_of(e0)[k],
            decreases traces.len() - i,
        {
            let key = traces[i].0;
            let ghost before = events@;
            proof {
                lemma_map_of(before);
                lemma_map_of(e0);
                assert(t0.take(i + 1) =~= t0.take(i as int).push(t0[i as int]));
                assert(!has_key(t0.take(i as int), key)) by {
                    if has_key(t0.take(i as int), key) {
                        let j = choose|j: int|
                            0 <= j < t0.take(i as int).len() && t0.take(i as int)[j].0 == key;
                        assert(t0[j].0 != t0[i as int].0);
                    }
                }
            }
            match find_key(&events, &key) {
                Some(at) => {
                    proof {
                        lemma_map_of_remove(before, at as int);
                        lemma_map_of(before.remove(at as int));
                        assert(has_key(before, key));
                    }
                    let entry = events.remove(at);
                    traces[i].1.events = Some(entry.1);
                    proof {
                        assert(entry.1 == map_of(e0)[key]);
                        assert forall|k: DigitiserMetadata| #[trigger]
                            has_key(events@, k) <==> has_key(e0, k) && !has_key(
                                t0.take(i + 1),
                                k,
                            ) by {
                            lemma_has_key_push(t0.take(i as int), t0[i as int], k);
                            assert(has_key(before, k) <==> map_of(before).contains_key(k));
                            assert(has_key(events@, k) <==> map_of(events@).contains_key(k));
                        }
                        assert forall|k: DigitiserMetadata| #[trigger]
                            has_key(events@, k) implies map_of(events@)[k] == map_of(e0)[k] by {
                            assert(map_of(events@).contains_key(k));
                            assert(has_key(before, k));
                        }
                    }
                },
                None => {
                    proof {
                        assert forall|k: DigitiserMetadata| #[trigger]
                            has_key(events@, k) <==> has_key(e0, k) && !has_key(
                                t0.take(i + 1),
                                k,
                            ) by {
                            lemma_has_key_push(t0.take(i as int), t0[i as int], k);
                        }
                    }
                },
            }
            i += 1;
        }
        proof {
            assert(t0.take(t0.len() as int) =~= t0);
            lemma_same_keys_distinct(t0, traces@);
            lemma_map_of(t0);
            lemma_map_of(e0);
            lemma_map_of(traces@);
            lemma_map_of(events@);
            let was = CacheView { traces: trace_views(t0), events: event_views(e0) };
            assert forall|k: DigitiserMetadata| has_key(t0, k) <==> has_key(traces@, k) by {
                lemma_same_keys(t0, traces@, k);
            }
            assert forall|k: DigitiserMetadata| #[trigger]
                trace_views(traces@).contains_key(k) implies trace_views(traces@)[k]
                == was.attached().traces[k] by {
                let j = choose|j: int| 0 <= j < traces@.len() && traces@[j].0 == k;
                assert(map_of(traces@)[traces@[j].0] == traces@[j].1);
                assert(map_of(t0)[t0[j].0] == t0[j].1);
            }
            assert(trace_views(traces@) =~= was.attached().traces);
            assert(event_views(events@) =~= was.attached().events);
        }
        self.traces = traces;
        self.events = events;
    }

    /// The number of digitiser traces.
    pub fn get_num_traces(&self) -> (n: usize)
        ensures
            n == self@.traces.dom().len(),
            n == self.trace_entries().len(),
    {
        proof {
            use_type_invariant(self);
            lemma_map_of(self.traces@);
            assert(self@.traces.dom() =~= map_of(self.traces@).dom());
        }
        self.traces.len()
    }

    /// The number of event lists that wait for their trace.
    pub fn get_num_events(&self) -> (n: usize)
        ensures
            n == self@.events.dom().len(),
            n == self.event_entries().len(),
    {
        proof {
            use_type_invariant(self);
            lemma_map_of(self.events@);
            assert(self@.events.dom() =~= map_of(self.events@).dom());
        }
        self.events.len()
    }

    /// The number of digitiser traces that have events attached.
    pub fn get_num_traces_with_events(&self) -> (n: usize)
        ensures
            n == self@.traces.dom().filter(
                |k: DigitiserMetadata| self@.traces[k].events is Some,
            ).len(),
    {
        proof {
            use_type_invariant(self);
        }
        let ghost has = |t: DigitiserTrace| t.events is Some;
        let mut n: usize = 0;
        let mut i: usize = 0;
        while i < self.traces.len()
            invariant
                i <= self.traces.len(),
                n <= i,
                forall|t: DigitiserTrace| #[trigger] has(t) == (t.events is Some),
                n == count_where(self.traces@.take(i as int), has),
            decreases self.traces.len() - i,
        {
            proof {
                assert(self.traces@.take(i + 1).drop_last() =~= self.traces@.take(i as int));
            }
            if self.traces[i].1.events.is_some() {
                n += 1;
            }
            i += 1;
        }
        proof {
            assert(self.traces@.take(self.traces@.len() as int) =~= self.traces@);
            lemma_count_where(self.traces@, has);
            lemma_map_of(self.traces@);
            assert(keys_where(self.traces@, has) =~= self@.traces.dom().filter(
                |k: DigitiserMetadata| self@.traces[k].events is Some,
            ));
        }
        n
    }

    /// The identity and the traces of entry `i`.
    pub fn trace_at(&self, i: usize) -> (entry: (&DigitiserMetadata, &DigitiserTrace))
        requires
            i < self.trace_entries().len(),
        ensures
            *entry.0 == self.trace_entries()[i as int].0,
            *entry.1 == self.trace_entries()[i as int].1,
            self@.traces.contains_key(*entry.0),
            self@.traces[*entry.0] == entry.1@,
    {
        proof {
            use_type_invariant(self);
            lemma_map_of(self.traces@);
        }
        (&self.traces[i].0, &self.traces[i].1)
    }

    /// The identity and the events of waiting entry `i`.
    pub fn events_at(&self, i: usize) -> (entry: (&DigitiserMetadata, &DigitiserEventList))
        requires
            i < self.event_entries().len(),
        ensures
            *entry.0 == self.event_entries()[i as int].0,
            *entry.1 == self.event_entries()[i as int].1,
            self@.events.contains_key(*entry.0),
            self@.events[*entry.0] == entry.1.lists(),
    {
        proof {
            use_type_invariant(self);
            lemma_map_of(self.events@);
        }
        (&self.events[i].0, &self.events[i].1)
    }

    /// The traces of identity `key`.
    pub fn get_trace(&self, key: &DigitiserMetadata) -> (r: Option<&DigitiserTrace>)
        ensures
            match r {
                Some(trace) => self@.traces.contains_key(*key) && self@.traces[*key] == trace@,
                None => !self@.traces.contains_key(*key),
            },
    {
        proof {
            use_type_invariant(self);
            lemma_map_of(self.traces@);
        }
        match self.trace_position(key) {
            Some(i) => Some(&self.traces[i].1),
            None => None,
        }
    }
}

impl Default for Cache {
    fn default() -> (cache: Cache)
        ensures
            cache@ == CacheView::empty(),
    {
        Cache::new()
    }
}

/// Puts the traces of `msg` into the cache if it has a trace of `channel` and no
/// traces of its identity are cached, and tells the digitiser of a record that has
/// a trace of `channel`.
pub fn push_trace(cache: &mut Cache, channel: Channel, msg: &TraceMessage) -> (digitiser: Option<
    DigitizerId,
>)
    ensures
        digitiser == (if msg.spec_has_channel(channel) {
            Some(msg.digitiser_id)
        } else {
            None
        }),
        final(cache)@ == (if msg.spec_has_channel(channel) {
            old(cache)@.push_trace(*msg)
        } else {
            old(cache)@
        }),
{
    if msg.has_channel(channel) {
        let _ = cache.push_trace(msg);
        Some(msg.digitiser_id)
    } else {
        None
    }
}

/// An event list pushed to its trace after the trace was pushed is attached to the
/// trace of its identity, whatever the cache held before.
pub proof fn lemma_events_reach_trace(cache: CacheView, trace: TraceMessage, events: EventListMessage)
    requires
        trace_key(trace) == events_key(events),
    ensures
        ({
            let merged = cache.push_trace(trace).push_event_list_to_trace(events);
            &&& merged.traces.contains_key(trace_key(trace))
            &&& merged.traces[trace_key(trace)].events == Some(events_of(events))
            &&& merged.events == cache.events
        }),
{
}

/// An event list pushed to wait after its trace was pushed is attached to the trace
/// of its identity by the merge pass, unless an earlier list of that identity
/// waited: then that one is attached. It waits no longer.
pub proof fn lemma_waiting_events_attach(
    cache: CacheView,
    trace: TraceMessage,
    events: EventListMessage,
)
    requires
        trace_key(trace) == events_key(events),
    ensures
        ({
            let key = trace_key(trace);
            let merged = cache.push_trace(trace).push_events(events).attached();
            &&& merged.traces.contains_key(key)
            &&& merged.traces[key].events == Some(
                if cache.events.contains_key(key) {
                    cache.events[key]
                } else {
                    events_of(events)
                },
            )
            &&& !merged.events.contains_key(key)
        }),
{
}

/// An event list of an identity that has no trace, pushed to wait, waits on after
/// the merge pass, and leaves the traces as they were.
pub proof fn lemma_orphan_events_wait(cache: CacheView, events: EventListMessage)
    requires
        !cache.traces.contains_key(events_key(events)),
    ensures
        ({
            let key = events_key(events);
            let pushed = cache.push_events(events);
            &&& pushed.traces == cache.traces
            &&& pushed.events.contains_key(key)
            &&& pushed.attached().events.contains_key(key)
            &&& pushed.attached().events[key] == pushed.events[key]
            &&& pushed.attached().traces.dom() == cache.traces.dom()
            &&& !cache.events.contains_key(key) ==> pushed.events[key] == events_of(events)
        }),
{
    let pushed = cache.push_events(events);
    assert(pushed.attached().traces.dom() =~= cache.traces.dom());
}

/// The merge pass leaves the traces as they were, each with the events that it
/// had, where no waiting event list has the identity of a trace.
pub proof fn lemma_attach_without_match(cache: CacheView)
    requires
        forall|k: DigitiserMetadata| cache.events.contains_key(k) ==> !cache.traces.contains_key(k),
    ensures
        cache.attached() == cache,
{
    assert(cache.attached().traces =~= cache.traces);
    assert(cache.attached().events =~= cache.events);
}

/// An event list of an identity that has no trace, pushed to its trace, is dropped:
/// the cache is as it was.
pub proof fn lemma_orphan_events_dropped(cache: CacheView, events: EventListMessage)
    requires
        !cache.traces.contains_key(events_key(events)),
    ensures
        cache.push_event_list_to_trace(events) == cache,
{
}

/// Finds the entry of key `key`.
fn find_key<V>(entries: &Vec<(DigitiserMetadata, V)>, key: &DigitiserMetadata) -> (r: Option<
    usize,
>)
    ensures
        match r {
            Some(i) => i < entries@.len() && entries@[i as int].0 == *key,
            None => !has_key(entries@, *key),
        },
{
    let mut i: usize = 0;
    while i < entries.len()
        invariant
            i <= entries.len(),
            forall|j: int| 0 <= j < i ==> entries@[j].0 != *key,
        decreases entries.len() - i,
    {
        if entries[i].0 == *key {
            return Some(i);
        }
        i += 1;
    }
    None
}

/// A list has the keys of a list with the same key at each place.
proof fn lemma_same_keys<K, V>(a: Seq<(K, V)>, b: Seq<(K, V)>, k: K)
    requires
        a.len() == b.len(),
        forall|j: int| 0 <= j < a.len() ==> (#[trigger] b[j]).0 == a[j].0,
    ensures
        has_key(a, k) <==> has_key(b, k),
{
    if has_key(a, k) {
        let j = choose|j: int| 0 <= j < a.len() && a[j].0 == k;
        assert(b[j].0 == k);
    }
    if has_key(b, k) {
        let j = choose|j: int| 0 <= j < b.len() && b[j].0 == k;
        assert(a[j].0 == k);
    }
}

/// A list repeats no key if a list with the same key at each place repeats none.
proof fn lemma_same_keys_distinct<K, V>(a: Seq<(K, V)>, b: Seq<(K, V)>)
    requires
        a.len() == b.len(),
        forall|j: int| 0 <= j < a.len() ==> (#[trigger] b[j]).0 == a[j].0,
        distinct_keys(a),
    ensures
        distinct_keys(b),
{
    assert forall|i: int, j: int| 0 <= i < j < b.len() implies b[i].0 != b[j].0 by {
        assert(a[i].0 != a[j].0);
        assert(b[i].0 == a[i].0);
        assert(b[j].0 == a[j].0);
    }
}

/// The keys of a list with one more entry are its keys and the key of that entry.
proof fn lemma_has_key_push<K, V>(s: Seq<(K, V)>, entry: (K, V), k: K)
    ensures
        has_key(s.push(entry), k) <==> has_key(s, k) || entry.0 == k,
{
    let t = s.push(entry);
    if has_key(t, k) {
        let j = choose|j: int| 0 <= j < t.len() && t[j].0 == k;
        if j < s.len() {
            assert(s[j].0 == k);
        }
    }
    if has_key(s, k) {
        let j = choose|j: int| 0 <= j < s.len() && s[j].0 == k;
        assert(t[j].0 == k);
    }
    if entry.0 == k {
        assert(t[s.len() as int].0 == k);
    }
}

} // verus!
