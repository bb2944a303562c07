//! Collecting the records of a live log, as they come.
use crate::cache::{Cache, CacheView};
use crate::cli_structs::CollectType;
use crate::data::DigitiserMetadata;
use crate::messages::{EventListMessage, TraceMessage};
use vstd::prelude::*;

verus! {

/// A decoded record of either log.
#[derive(Clone, Debug, PartialEq, Eq)]
pub enum DigitizerMessage {
    Trace(TraceMessage),
    EventList(EventListMessage),
}

impl DigitizerMessage {
    /// Whether the record, if it is an event list, has every part of every event.
    pub open spec fn wf(&self) -> bool {
        self matches DigitizerMessage::EventList(msg) ==> msg.wf()
    }

    /// Decides `wf`.
    pub fn is_valid(&self) -> (b: bool)
        ensures
            b == self.wf(),
    {
        match self {
            DigitizerMessage::Trace(_) => true,
            DigitizerMessage::EventList(msg) => msg.is_valid(),
        }
    }
}

/// The cache after a record came, by what is collected: traces alone, event lists
/// alone to wait, or traces with each event list pushed to its trace.
pub open spec fn collected(
    cache: CacheView,
    mode: CollectType,
    message: DigitizerMessage,
) -> CacheView {
    match mode {
        CollectType::Traces => match message {
            DigitizerMessage::Trace(msg) => cache.push_trace(msg),
            DigitizerMessage::EventList(_) => cache,
        },
        CollectType::Events => match message {
            DigitizerMessage::Trace(_) => cache,
            DigitizerMessage::EventList(msg) => cache.push_events(msg),
        },
        CollectType::All => match message {
            DigitizerMessage::Trace(msg) => cache.push_trace(msg),
            DigitizerMessage::EventList(msg) => cache.push_event_list_to_trace(msg),
        },
    }
}

/// What a collection has so far, by what is collected: traces, waiting event lists,
/// or traces that have their events.
pub open spec fn counted(cache: CacheView, mode: CollectType) -> nat {
    match mode {
        CollectType::Traces => cache.traces.dom().len(),
        CollectType::Events => cache.events.dom().len(),
        CollectType::All => cache.traces.dom().filter(
            |k: DigitiserMetadata| cache.traces[k].events is Some,
        ).len(),
    }
}

/// A collection of records of one kind or both.
pub struct Engine {
    cache: Cache,
    collect_mode: CollectType,
}

impl Engine {
    /// What the engine has collected.
    pub closed spec fn collection(&self) -> CacheView {
        self.cache@
    }

    /// What the engine collects.
    pub closed spec fn mode(&self) -> CollectType {
        self.collect_mode
    }

    /// An engine that has collected nothing.
    pub fn new(collect_mode: CollectType) -> (engine: Engine)
        ensures
            engine.collection() == CacheView::empty(),
            engine.mode() == collect_mode,
    {
        Engine { cache: Cache::new(), collect_mode }
    }

    /// Takes a record in, if it is of a kind that the engine collects.
    pub fn process_message(&mut self, message: &DigitizerMessage)
        requires
            message.wf(),
        ensures
            final(self).mode() == old(self).mode(),
            final(self).collection() == collected(
                old(self).collection(),
                old(self).mode(),
                *message,
            ),
    {
        match self.collect_mode {
            CollectType::Traces => {
                if let DigitizerMessage::Trace(msg) = message {
                    let _ = self.cache.push_trace(msg);
                }
            },
            CollectType::Events => {
                if let DigitizerMessage::EventList(msg) = message {
                    let _ = self.cache.push_events(msg);
                }
            },
            CollectType::All => {
                match message {
                    DigitizerMessage::Trace(msg) => {
                        let _ = self.cache.push_trace(msg);
                    },
                    DigitizerMessage::EventList(msg) => {
                        let _ = self.cache.push_event_list_to_trace(msg);
                    },
                }
            },
        }
    }

    /// The number of records collected, of the kind that the engine collects.
    pub fn get_count(&self) -> (count: usize)
        ensures
            count == counted(self.collection(), self.mode()),
    {
        match self.collect_mode {
            CollectType::Traces => self.cache.get_num_traces(),
            CollectType::Events => self.cache.get_num_events(),
            CollectType::All => self.cache.get_num_traces_with_events(),
        }
    }

    /// Ends the collection and hands out what was collected.
    pub fn into_cache(self) -> (cache: Cache)
        ensures
            cache@ == self.collection(),
    {
        self.cache
    }
}

} // verus!
