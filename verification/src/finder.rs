//! Searching the logs for the frames that follow a target timestamp.
use crate::{Channel, DigitizerId, Timestamp};
use vstd::prelude::*;

pub mod engine;
pub mod laws;
pub mod log;
pub mod searcher;
pub mod task;

verus! {

/// What a search reports while it runs and when it ends.
#[derive(Clone, Debug, PartialEq, Eq)]
pub enum SearchStatus {
    /// No search has run.
    Off,
    /// A remark for the operator.
    Text(String),
    /// The trace log is being searched: steps done, and steps in all.
    TraceSearchInProgress(u32, u32),
    /// The event-list log is being searched: steps done, and steps in all.
    EventListSearchInProgress(u32, u32),
    /// The search was cancelled; it has no results.
    Halted,
    /// The search ran to its end; its cache can be taken.
    Successful,
}

impl Default for SearchStatus {
    fn default() -> (s: SearchStatus)
        ensures
            s == SearchStatus::Off,
    {
        SearchStatus::Off
    }
}

/// What one search looks for.
#[derive(Clone, Debug, PartialEq, Eq)]
pub struct SearchTarget {
    /// Frames at or after this instant are wanted.
    pub timestamp: Timestamp,
    /// Channels of interest.
    pub channels: Vec<Channel>,
    /// Digitisers whose records are kept.
    pub digitiser_ids: Vec<DigitizerId>,
    /// Number of frames to collect.
    pub number: usize,
}

/// Whether `id` is one of `ids`.
pub open spec fn accepted(ids: Seq<DigitizerId>, id: DigitizerId) -> bool {
    ids.contains(id)
}

impl SearchTarget {
    /// Whether records of digitiser `id` are kept.
    pub fn accepts(&self, id: DigitizerId) -> (b: bool)
        ensures
            b == accepted(self.digitiser_ids@, id),
    {
        let mut i: usize = 0;
        while i < self.digitiser_ids.len()
            invariant
                i <= self.digitiser_ids.len(),
                forall|j: int| 0 <= j < i ==> self.digitiser_ids@[j] != id,
            decreases self.digitiser_ids.len() - i,
        {
            if self.digitiser_ids[i] == id {
                return true;
            }
            i += 1;
        }
        false
    }
}

impl Default for SearchTarget {
    /// The epoch, no channel, no digitiser, no frame.
    fn default() -> (t: SearchTarget)
        ensures
            t.timestamp == (Timestamp { secs: 0, nanos: 0 }),
            t.channels@ == Seq::<Channel>::empty(),
            t.digitiser_ids@ == Seq::<DigitizerId>::empty(),
            t.number == 0,
    {
        SearchTarget {
            timestamp: Timestamp { secs: 0, nanos: 0 },
            channels: Vec::new(),
            digitiser_ids: Vec::new(),
            number: 0,
        }
    }
}

} // verus!
