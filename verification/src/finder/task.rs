//! One search from its first status to its last, as a step function.
use crate::cache::{Cache, CacheView};
use crate::cli_structs::Steps;
use crate::finder::searcher::{
    BackstepIter, BackstepPhase, BackstepState, ForwardPhase, ForwardSearchIter, ForwardState,
    Searcher,
};
use crate::finder::{SearchStatus, SearchTarget};
use crate::messages::{EventListMessage, FBMessage, TraceMessage};
use crate::{DigitizerId, Timestamp};
use vstd::prelude::*;

verus! {

/// Where the search of one log stands.
#[derive(Clone, Copy, Debug, PartialEq, Eq, Structural)]
pub enum TopicStage {
    /// It is about to say that it begins.
    Announce,
    /// It is about to turn the accessor to its log.
    Open,
    /// It is about to say that pass `pass` begins.
    PassAnnounce { pass: u32 },
    /// Pass `pass` of the backward search is under way.
    Pass { pass: u32 },
    /// It is about to say that the backward search is over.
    Bridge,
    /// The forward scan is under way.
    Scan,
    /// It is about to say that the forward scan is over.
    Report,
    /// It is over.
    Done,
}

/// What the search of one log asks of its caller next.
#[derive(Clone, Copy, Debug, PartialEq, Eq, Structural)]
pub enum TopicRequest {
    /// To report that this many steps are done.
    Progress(u32),
    /// To turn the accessor to this log, with its cursor at the newest end.
    Open,
    /// To fetch the record at this trailing offset.
    FetchAt(i64),
    /// To fetch the record at the cursor.
    FetchNext,
    /// Nothing: the search of this log is over.
    Done,
}

/// The search of one log, as contracts see it.
pub struct TopicSearchState<M> {
    pub stage: TopicStage,
    pub back: BackstepState,
    pub forward: ForwardState<M>,
}

/// The timestamp of what a fetch brought.
pub open spec fn stamp_of<M: FBMessage>(fetched: Option<M>) -> Option<Timestamp> {
    match fetched {
        Some(m) => Some(m.spec_timestamp()),
        None => None,
    }
}

/// The stage after pass `pass`: the next finer pass, or the forward scan.
pub open spec fn stage_after_pass(pass: u32) -> TopicStage {
    if pass == 0 {
        TopicStage::Bridge
    } else {
        TopicStage::PassAnnounce { pass: (pass - 1) as u32 }
    }
}

impl<M: FBMessage> TopicSearchState<M> {
    /// The search before its first step: at trailing offset 1, with nothing
    /// collected.
    pub open spec fn initial() -> TopicSearchState<M> {
        TopicSearchState {
            stage: TopicStage::Announce,
            back: BackstepState { offset: 1, step: 0, phase: BackstepPhase::Finished },
            forward: ForwardState {
                results: Seq::<M>::empty(),
                message: None::<M>,
                phase: ForwardPhase::Locate,
            },
        }
    }

    /// The states that a search passes through.
    pub open spec fn wf(self, steps: Steps) -> bool {
        &&& steps.wf()
        &&& i64::MIN <= self.back.offset <= i64::MAX
        &&& match self.stage {
            TopicStage::PassAnnounce { pass } => pass < steps.num_step_passes,
            TopicStage::Pass { pass } => pass < steps.num_step_passes && self.back.request() is Some
                && i64::MIN <= self.back.request()->0 <= i64::MAX,
            TopicStage::Scan => self.forward.wants_next(),
            _ => true,
        }
    }

    /// What the search asks of its caller next. It reports its progress before the
    /// backward search, before each pass, between the two scans and at the end.
    pub open spec fn request(self, steps: Steps) -> TopicRequest {
        match self.stage {
            TopicStage::Announce => TopicRequest::Progress(0),
            TopicStage::Open => TopicRequest::Open,
            TopicStage::PassAnnounce { pass } => TopicRequest::Progress(
                (steps.num_step_passes - 1 - pass) as u32,
            ),
            TopicStage::Pass { pass } => TopicRequest::FetchAt(self.back.request()->0 as i64),
            TopicStage::Bridge => TopicRequest::Progress(steps.num_step_passes),
            TopicStage::Scan => TopicRequest::FetchNext,
            TopicStage::Report => TopicRequest::Progress((steps.num_step_passes + 1) as u32),
            TopicStage::Done => TopicRequest::Done,
        }
    }

    /// The forward scan after a fetch: it looks for its first record, begins to
    /// collect as soon as it has found one, and collects.
    pub open spec fn scanned(
        self,
        target: Timestamp,
        ids: Seq<DigitizerId>,
        number: usize,
        fetched: Option<M>,
    ) -> ForwardState<M> {
        if self.forward.phase is Locate {
            self.forward.located(target, fetched).begun(ids, number)
        } else {
            self.forward.acquired(ids, fetched)
        }
    }

    /// The search after its request was met, with `fetched` what a fetch brought. The
    /// passes run from the coarsest down; the forward scan follows the last.
    pub open spec fn next(
        self,
        target: Timestamp,
        ids: Seq<DigitizerId>,
        number: usize,
        steps: Steps,
        fetched: Option<M>,
    ) -> TopicSearchState<M> {
        match self.stage {
            TopicStage::Announce => TopicSearchState { stage: TopicStage::Open, ..self },
            TopicStage::Open => TopicSearchState {
                stage: if steps.num_step_passes == 0 {
                    TopicStage::Bridge
                } else {
                    TopicStage::PassAnnounce { pass: (steps.num_step_passes - 1) as u32 }
                },
                ..self
            },
            TopicStage::PassAnnounce { pass } => TopicSearchState {
                stage: TopicStage::Pass { pass },
                back: BackstepState {
                    offset: self.back.offset,
                    step: steps.step_size_at(pass as nat),
                    phase: BackstepPhase::Current,
                },
                ..self
            },
            TopicStage::Pass { pass } => {
                let back = self.back.next(target, stamp_of(fetched));
                TopicSearchState {
                    stage: if back.phase is Finished {
                        stage_after_pass(pass)
                    } else {
                        TopicStage::Pass { pass }
                    },
                    back,
                    ..self
                }
            },
            TopicStage::Bridge => TopicSearchState {
                stage: if self.forward.wants_next() {
                    TopicStage::Scan
                } else {
                    TopicStage::Report
                },
                ..self
            },
            TopicStage::Scan => {
                let forward = self.scanned(target, ids, number, fetched);
                TopicSearchState {
                    stage: if forward.wants_next() {
                        TopicStage::Scan
                    } else {
                        TopicStage::Report
                    },
                    forward,
                    ..self
                }
            },
            TopicStage::Report => TopicSearchState { stage: TopicStage::Done, ..self },
            TopicStage::Done => self,
        }
    }
}

/// The search of one log: the backward search, pass by pass, then the forward scan.
pub struct TopicSearch<M> {
    stage: TopicStage,
    steps: Steps,
    back: BackstepIter<M>,
    forward: ForwardSearchIter<M>,
}

impl<M: FBMessage> TopicSearch<M> {
    pub closed spec fn view(&self) -> TopicSearchState<M> {
        TopicSearchState { stage: self.stage, back: self.back@, forward: self.forward@ }
    }

    /// The settings of the backward search.
    pub closed spec fn steps(&self) -> Steps {
        self.steps
    }

    /// Whether the search is in a state that a search passes through.
    pub open spec fn wf(&self) -> bool {
        self@.wf(self.steps())
    }

    /// A search that has not begun.
    pub fn new(steps: Steps) -> (search: Self)
        requires
            steps.wf(),
        ensures
            search.wf(),
            search.steps() == steps,
            search@ == TopicSearchState::<M>::initial(),
    {
        let back: Searcher<M> = Searcher::new(1);
        let forward: Searcher<M> = Searcher::new(1);
        TopicSearch {
            stage: TopicStage::Announce,
            steps,
            back: back.iter_backstep(),
            forward: forward.iter_forward(),
        }
    }

    /// What the search asks of its caller next.
    pub fn request(&self) -> (r: TopicRequest)
        requires
            self.wf(),
        ensures
            r == self@.request(self.steps()),
    {
        match self.stage {
            TopicStage::Announce => TopicRequest::Progress(0),
            TopicStage::Open => TopicRequest::Open,
            TopicStage::PassAnnounce { pass } => TopicRequest::Progress(
                self.steps.num_step_passes - 1 - pass,
            ),
            TopicStage::Pass { pass } => {
                match self.back.request() {
                    Some(offset) => TopicRequest::FetchAt(offset),
                    None => TopicRequest::Done,
                }
            },
            TopicStage::Bridge => TopicRequest::Progress(self.steps.num_step_passes),
            TopicStage::Scan => TopicRequest::FetchNext,
            TopicStage::Report => TopicRequest::Progress(self.steps.num_step_passes + 1),
            TopicStage::Done => TopicRequest::Done,
        }
    }

    /// Whether the search is over.
    pub fn is_done(&self) -> (b: bool)
        ensures
            b == (self@.stage is Done),
    {
        match self.stage {
            TopicStage::Done => true,
            _ => false,
        }
    }

    /// Goes on after the request was met. `fetched` is what a fetch brought, `None`
    /// where there was no record or the request was no fetch.
    pub fn advance(&mut self, target: &SearchTarget, fetched: Option<M>)
        requires
            old(self).wf(),
        ensures
            final(self).wf(),
            final(self).steps() == old(self).steps(),
            final(self)@ == old(self)@.next(
                target.timestamp,
                target.digitiser_ids@,
                target.number,
                old(self).steps(),
                fetched,
            ),
    {
        match self.stage {
            TopicStage::Announce => {
                self.stage = TopicStage::Open;
            },
            TopicStage::Open => {
                if self.steps.num_step_passes == 0 {
                    self.stage = TopicStage::Bridge;
                } else {
                    self.stage = TopicStage::PassAnnounce { pass: self.steps.num_step_passes - 1 };
                }
            },
            TopicStage::PassAnnounce { pass } => {
                let size = self.steps.step_size(pass);
                self.back.step_size(size);
                self.stage = TopicStage::Pass { pass };
            },
            TopicStage::Pass { pass } => {
                let stamp = match &fetched {
                    Some(m) => Some(m.timestamp()),
                    None => None,
                };
                self.back.backstep_until_time(&target.timestamp, stamp);
                let more = self.back.request();
                if more.is_none() {
                    if pass == 0 {
                        self.stage = TopicStage::Bridge;
                    } else {
                        self.stage = TopicStage::PassAnnounce { pass: pass - 1 };
                    }
                }
            },
            TopicStage::Bridge => {
                if self.forward.wants_next() {
                    self.stage = TopicStage::Scan;
                } else {
                    self.stage = TopicStage::Report;
                }
            },
            TopicStage::Scan => {
                if self.forward.is_locating() {
                    self.forward.move_until(&target.timestamp, fetched);
                    self.forward.begin_acquire(target, target.number);
                } else {
                    self.forward.acquire_while(target, fetched);
                }
                if !self.forward.wants_next() {
                    self.stage = TopicStage::Report;
                }
            },
            TopicStage::Report => {
                self.stage = TopicStage::Done;
            },
            TopicStage::Done => {},
        }
    }

    /// Ends the search and hands out the records that it collected.
    pub fn into_results(self) -> (results: Vec<M>)
        ensures
            results@ == self@.forward.results,
    {
        self.forward.collect().into_results()
    }
}

/// One of the two logs.
#[derive(Clone, Copy, Debug, PartialEq, Eq, Structural)]
pub enum Topic {
    /// The log of digitiser traces.
    Trace,
    /// The log of digitiser event lists.
    EventList,
}

/// What a search asks of its caller next.
#[derive(Clone, Debug, PartialEq, Eq)]
pub enum TaskRequest {
    /// To send this status on.
    Emit(SearchStatus),
    /// To turn the accessor to this log, with its cursor at the newest end.
    Open(Topic),
    /// To fetch the record of this log at this trailing offset.
    FetchAt(Topic, i64),
    /// To fetch the record of this log at the cursor.
    FetchNext(Topic),
    /// Nothing: the search is over.
    Finished,
}

/// What the caller hands back once the request is met.
#[derive(Clone, Debug, PartialEq, Eq)]
pub enum TaskEvent {
    /// The request was no fetch, and is met.
    Done,
    /// What a fetch from the trace log brought.
    Trace(Option<TraceMessage>),
    /// What a fetch from the event-list log brought.
    EventList(Option<EventListMessage>),
}

/// Where a search stands.
#[derive(Clone, Copy, Debug, PartialEq, Eq, Structural)]
pub enum TaskStage {
    /// The trace log is searched.
    Traces,
    /// The event-list log is searched.
    EventLists,
    /// It is about to say that it has succeeded.
    Closing,
    /// It is about to say that it was halted.
    Halting,
    /// It is over, and has succeeded.
    Succeeded,
    /// It is over, and was halted.
    Halted,
}

/// A search, as contracts see it.
pub struct SearchTaskState {
    pub stage: TaskStage,
    pub traces: TopicSearchState<TraceMessage>,
    pub events: TopicSearchState<EventListMessage>,
}

/// The record that an event brings to the search of the trace log.
pub open spec fn trace_in(event: TaskEvent) -> Option<TraceMessage> {
    match event {
        TaskEvent::Trace(fetched) => fetched,
        _ => None,
    }
}

/// The record that an event brings to the search of the event-list log.
pub open spec fn events_in(event: TaskEvent) -> Option<EventListMessage> {
    match event {
        TaskEvent::EventList(fetched) => fetched,
        _ => None,
    }
}

/// Whether an event brings no event list that lacks a part of an event.
pub open spec fn event_wf(event: TaskEvent) -> bool {
    event matches TaskEvent::EventList(Some(msg)) ==> msg.wf()
}

/// What the trace log's search asks, as a request of the whole search.
pub open spec fn trace_request(r: TopicRequest, steps: Steps) -> TaskRequest {
    match r {
        TopicRequest::Progress(done) => TaskRequest::Emit(
            SearchStatus::TraceSearchInProgress(done, (steps.num_step_passes + 1) as u32),
        ),
        TopicRequest::Open => TaskRequest::Open(Topic::Trace),
        TopicRequest::FetchAt(offset) => TaskRequest::FetchAt(Topic::Trace, offset),
        TopicRequest::FetchNext => TaskRequest::FetchNext(Topic::Trace),
        TopicRequest::Done => TaskRequest::Finished,
    }
}

/// What the event-list log's search asks, as a request of the whole search.
pub open spec fn events_request(r: TopicRequest, steps: Steps) -> TaskRequest {
    match r {
        TopicRequest::Progress(done) => TaskRequest::Emit(
            SearchStatus::EventListSearchInProgress(done, (steps.num_step_passes + 1) as u32),
        ),
        TopicRequest::Open => TaskRequest::Open(Topic::EventList),
        TopicRequest::FetchAt(offset) => TaskRequest::FetchAt(Topic::EventList, offset),
        TopicRequest::FetchNext => TaskRequest::FetchNext(Topic::EventList),
        TopicRequest::Done => TaskRequest::Finished,
    }
}

/// The cache after the trace records `msgs` were pushed, in their order.
pub open spec fn push_traces(cache: CacheView, msgs: Seq<TraceMessage>) -> CacheView
    decreases msgs.len(),
{
    if msgs.len() == 0 {
        cache
    } else {
        push_traces(cache, msgs.drop_last()).push_trace(msgs.last())
    }
}

/// The cache after the event-list records `msgs` were pushed to their traces, in
/// their order.
pub open spec fn push_event_lists(cache: CacheView, msgs: Seq<EventListMessage>) -> CacheView
    decreases msgs.len(),
{
    if msgs.len() == 0 {
        cache
    } else {
        push_event_lists(cache, msgs.drop_last()).push_event_list_to_trace(msgs.last())
    }
}

/// The cache of a search that collected `traces` and `events`.
pub open spec fn merged(traces: Seq<TraceMessage>, events: Seq<EventListMessage>) -> CacheView {
    push_event_lists(push_traces(CacheView::empty(), traces), events)
}

impl SearchTaskState {
    /// The search before its first step.
    pub open spec fn initial() -> SearchTaskState {
        SearchTaskState {
            stage: TaskStage::Traces,
            traces: TopicSearchState::initial(),
            events: TopicSearchState::initial(),
        }
    }

    /// The states that a search passes through.
    pub open spec fn wf(self, steps: Steps) -> bool {
        &&& self.traces.wf(steps)
        &&& self.events.wf(steps)
        &&& self.stage is Traces ==> !(self.traces.stage is Done) && self.events.stage is Announce
        &&& self.stage is EventLists ==> !(self.events.stage is Done)
        &&& forall|i: int|
            0 <= i < self.events.forward.results.len() ==> (
            #[trigger] self.events.forward.results[i]).wf()
        &&& self.events.forward.message matches Some(msg) ==> msg.wf()
    }

    /// Whether the search has said how it ended.
    pub open spec fn is_over(self) -> bool {
        self.stage is Succeeded || self.stage is Halted
    }

    /// What the search asks of its caller next: what the search of the trace log
    /// asks, then what that of the event-list log asks, then to send its last
    /// status.
    pub open spec fn request(self, steps: Steps) -> TaskRequest {
        match self.stage {
            TaskStage::Traces => trace_request(self.traces.request(steps), steps),
            TaskStage::EventLists => events_request(self.events.request(steps), steps),
            TaskStage::Closing => TaskRequest::Emit(SearchStatus::Successful),
            TaskStage::Halting => TaskRequest::Emit(SearchStatus::Halted),
            TaskStage::Succeeded => TaskRequest::Finished,
            TaskStage::Halted => TaskRequest::Finished,
        }
    }

    /// The search after its request was met and `event` handed back. An event that
    /// brings no record of the log that is searched counts as a fetch that brought
    /// nothing.
    pub open spec fn next(self, target: SearchTarget, steps: Steps, event: TaskEvent) -> SearchTaskState {
        match self.stage {
            TaskStage::Traces => {
                let traces = self.traces.next(
                    target.timestamp,
                    target.digitiser_ids@,
                    target.number,
                    steps,
                    trace_in(event),
                );
                SearchTaskState {
                    stage: if traces.stage is Done {
                        TaskStage::EventLists
                    } else {
                        TaskStage::Traces
                    },
                    traces,
                    ..self
                }
            },
            TaskStage::EventLists => {
                let events = self.events.next(
                    target.timestamp,
                    target.digitiser_ids@,
                    target.number,
                    steps,
                    events_in(event),
                );
                SearchTaskState {
                    stage: if events.stage is Done {
                        TaskStage::Closing
                    } else {
                        TaskStage::EventLists
                    },
                    events,
                    ..self
                }
            },
            TaskStage::Closing => SearchTaskState { stage: TaskStage::Succeeded, ..self },
            TaskStage::Halting => SearchTaskState { stage: TaskStage::Halted, ..self },
            TaskStage::Succeeded => self,
            TaskStage::Halted => self,
        }
    }

    /// The search after it was told to halt: unless it has said how it ended, or is
    /// about to say that it was halted, it does no more than to say so.
    pub open spec fn halted(self) -> SearchTaskState {
        match self.stage {
            TaskStage::Traces | TaskStage::EventLists | TaskStage::Closing => SearchTaskState {
                stage: TaskStage::Halting,
                ..self
            },
            _ => self,
        }
    }

    /// The cache that the search hands out: none unless it has succeeded.
    pub open spec fn outcome(self) -> Option<CacheView> {
        if self.stage is Succeeded {
            Some(merged(self.traces.forward.results, self.events.forward.results))
        } else {
            None
        }
    }
}

/// One search: the trace log, then the event-list log, then the merge.
pub struct SearchTask {
    stage: TaskStage,
    target: SearchTarget,
    steps: Steps,
    traces: TopicSearch<TraceMessage>,
    events: TopicSearch<EventListMessage>,
}

impl SearchTask {
    pub closed spec fn view(&self) -> SearchTaskState {
        SearchTaskState { stage: self.stage, traces: self.traces@, events: self.events@ }
    }

    /// What the search looks for.
    pub closed spec fn target(&self) -> SearchTarget {
        self.target
    }

    /// The settings of the backward search.
    pub closed spec fn steps(&self) -> Steps {
        self.steps
    }

    /// Whether the search is in a state that a search passes through.
    pub closed spec fn wf(&self) -> bool {
        &&& self@.wf(self.steps)
        &&& self.traces.steps() == self.steps
        &&& self.events.steps() == self.steps
    }

    /// A search for `target` that has not begun.
    pub fn new(target: SearchTarget, steps: Steps) -> (task: Self)
        requires
            steps.wf(),
        ensures
            task.wf(),
            task.target() == target,
            task.steps() == steps,
            task@ == SearchTaskState::initial(),
    {
        SearchTask {
            stage: TaskStage::Traces,
            target,
            steps,
            traces: TopicSearch::new(steps),
            events: TopicSearch::new(steps),
        }
    }

    /// What the search asks of its caller next.
    pub fn request(&self) -> (r: TaskRequest)
        requires
            self.wf(),
        ensures
            r == self@.request(self.steps()),
    {
        let total = self.steps.num_step_passes + 1;
        match self.stage {
            TaskStage::Traces => match self.traces.request() {
                TopicRequest::Progress(done) => TaskRequest::Emit(
                    SearchStatus::TraceSearchInProgress(done, total),
                ),
                TopicRequest::Open => TaskRequest::Open(Topic::Trace),
                TopicRequest::FetchAt(offset) => TaskRequest::FetchAt(Topic::Trace, offset),
                TopicRequest::FetchNext => TaskRequest::FetchNext(Topic::Trace),
                TopicRequest::Done => TaskRequest::Finished,
            },
            TaskStage::EventLists => match self.events.request() {
                TopicRequest::Progress(done) => TaskRequest::Emit(
                    SearchStatus::EventListSearchInProgress(done, total),
                ),
                TopicRequest::Open => TaskRequest::Open(Topic::EventList),
                TopicRequest::FetchAt(offset) => TaskRequest::FetchAt(Topic::EventList, offset),
                TopicRequest::FetchNext => TaskRequest::FetchNext(Topic::EventList),
                TopicRequest::Done => TaskRequest::Finished,
            },
            TaskStage::Closing => TaskRequest::Emit(SearchStatus::Successful),
            TaskStage::Halting => TaskRequest::Emit(SearchStatus::Halted),
            TaskStage::Succeeded => TaskRequest::Finished,
            TaskStage::Halted => TaskRequest::Finished,
        }
    }

    /// Whether the search has said how it ended.
    pub fn is_over(&self) -> (b: bool)
        ensures
            b == self@.is_over(),
    {
        match self.stage {
            TaskStage::Succeeded => true,
            TaskStage::Halted => true,
            _ => false,
        }
    }

    /// Goes on after the request was met and `event` handed back.
    pub fn advance(&mut self, event: TaskEvent)
        requires
            old(self).wf(),
            event_wf(event),
        ensures
            final(self).wf(),
            final(self).target() == old(self).target(),
            final(self).steps() == old(self).steps(),
            final(self)@ == old(self)@.next(old(self).target(), old(self).steps(), event),
    {
        match self.stage {
            TaskStage::Traces => {
                let fetched = match event {
                    TaskEvent::Trace(fetched) => fetched,
                    _ => None,
                };
                self.traces.advance(&self.target, fetched);
                if self.traces.is_done() {
                    self.stage = TaskStage::EventLists;
                }
            },
            TaskStage::EventLists => {
                let fetched = match event {
                    TaskEvent::EventList(fetched) => fetched,
                    _ => None,
                };
                let ghost brought = fetched;
                let ghost before = self.events@.forward;
                self.events.advance(&self.target, fetched);
                proof {
                    let after = self.events@.forward;
                    assert(after.results == before.results || (brought matches Some(msg)
                        && after.results == before.results.push(msg)) || (
                    before.message matches Some(msg) && after.results == before.results.push(msg)));
                    assert forall|i: int| 0 <= i < after.results.len() implies (
                    #[trigger] after.results[i]).wf() by {
                        if i < before.results.len() {
                            assert(before.results[i].wf());
                        }
                    }
                }
                if self.events.is_done() {
                    self.stage = TaskStage::Closing;
                }
            },
            TaskStage::Closing => {
                self.stage = TaskStage::Succeeded;
            },
            TaskStage::Halting => {
                self.stage = TaskStage::Halted;
            },
            TaskStage::Succeeded => {},
            TaskStage::Halted => {},
        }
    }

    /// Tells the search to halt.
    pub fn halt(&mut self)
        requires
            old(self).wf(),
        ensures
            final(self).wf(),
            final(self).target() == old(self).target(),
            final(self).steps() == old(self).steps(),
            final(self)@ == old(self)@.halted(),
    {
        match self.stage {
            TaskStage::Traces => {
                self.stage = TaskStage::Halting;
            },
            TaskStage::EventLists => {
                self.stage = TaskStage::Halting;
            },
            TaskStage::Closing => {
                self.stage = TaskStage::Halting;
            },
            _ => {},
        }
    }

    /// Ends the search and hands out its cache: the traces collected, each with the
    /// event list of its identity. A search that has not succeeded hands out none.
    pub fn into_cache(self) -> (cache: Option<Cache>)
        requires
            self.wf(),
        ensures
            cache is Some <==> self@.outcome() is Some,
            cache matches Some(c) ==> Some(c@) == self@.outcome(),
    {
        match self.stage {
            TaskStage::Succeeded => {
                let traces = self.traces.into_results();
                let events = self.events.into_results();
                Some(merge(&traces, &events))
            },
            _ => None,
        }
    }
}

/// Puts the traces into a new cache, then each event list to the trace of its
/// identity.
pub fn merge(traces: &Vec<TraceMessage>, events: &Vec<EventListMessage>) -> (cache: Cache)
    requires
        forall|i: int| 0 <= i < events@.len() ==> (#[trigger] events@[i]).wf(),
    ensures
        cache@ == merged(traces@, events@),
{
    let mut cache = Cache::new();
    let mut i: usize = 0;
    while i < traces.len()
        invariant
            i <= traces.len(),
            cache@ == push_traces(CacheView::empty(), traces@.take(i as int)),
        decreases traces.len() - i,
    {
        proof {
            assert(traces@.take(i + 1).drop_last() =~= traces@.take(i as int));
        }
        let _ = cache.push_trace(&traces[i]);
        i += 1;
    }
    proof {
        assert(traces@.take(traces@.len() as int) =~= traces@);
    }
    let mut j: usize = 0;
    while j < events.len()
        invariant
            j <= events.len(),
            forall|i: int| 0 <= i < events@.len() ==> (#[trigger] events@[i]).wf(),
            cache@ == push_event_lists(
                push_traces(CacheView::empty(), traces@),
                events@.take(j as int),
            ),
        decreases events.len() - j,
    {
        proof {
            assert(events@.take(j + 1).drop_last() =~= events@.take(j as int));
        }
        let _ = cache.push_event_list_to_trace(&events[j]);
        j += 1;
    }
    proof {
        assert(events@.take(events@.len() as int) =~= events@);
    }
    cache
}

} // verus!
