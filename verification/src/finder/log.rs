//! A log held in memory, and what the scans find in it.
//!
//! A log is a sequence of records, oldest first. Its cursor is the position of the
//! record that a sequential fetch brings next. Trailing offset 0 is the newest
//! record.
use crate::cache::{Cache, CacheView};
use crate::cli_structs::{lemma_step_grows, Steps};
use crate::finder::searcher::{
    is_later, BackstepIter, BackstepPhase, ForwardPhase, ForwardState, Searcher,
};
use crate::finder::task::{
    merged, push_event_lists, push_traces, TopicRequest, TopicSearch, TopicSearchState,
    TopicStage,
};
use crate::finder::SearchTarget;
use crate::messages::{EventListMessage, FBMessage, TraceMessage};
use crate::{DigitizerId, Timestamp};
use vstd::prelude::*;

verus! {

/// The record at trailing offset `offset`, where the log has one.
pub open spec fn record_at<M>(log: Seq<M>, offset: int) -> Option<M> {
    if 0 <= offset < log.len() {
        Some(log[log.len() - 1 - offset])
    } else {
        None
    }
}

/// The timestamp of the record at trailing offset `offset`.
pub open spec fn stamp_at<M: FBMessage>(log: Seq<M>, offset: int) -> Option<Timestamp> {
    match record_at(log, offset) {
        Some(m) => Some(m.spec_timestamp()),
        None => None,
    }
}

/// The cursor after a fetch at trailing offset `offset`: behind the record fetched,
/// or, where the log has no such record, before its oldest record.
pub open spec fn seek(len: nat, offset: int) -> int {
    if 0 <= offset < len {
        len - offset
    } else {
        0
    }
}

/// The record that a sequential fetch brings with the cursor at `cursor`.
pub open spec fn record_next<M>(log: Seq<M>, cursor: int) -> Option<M> {
    if 0 <= cursor < log.len() {
        Some(log[cursor])
    } else {
        None
    }
}

/// The cursor after a sequential fetch: one on, unless the log had no more.
pub open spec fn advance(len: nat, cursor: int) -> int {
    if 0 <= cursor < len {
        cursor + 1
    } else {
        cursor
    }
}

/// Where a pass of the backward search ends that begins at `offset` and steps by
/// `step`: the offset that it settles on, and the offset of its last fetch.
pub open spec fn pass_end<M: FBMessage>(log: Seq<M>, target: Timestamp, offset: int, step: int) -> (
    int,
    int,
)
    decreases log.len() - offset,
{
    if step < 1 || !is_later(stamp_at(log, offset), target) || !(i64::MIN <= offset + step
        <= i64::MAX) {
        (offset, offset)
    } else if !is_later(stamp_at(log, offset + step), target) {
        (offset, offset + step)
    } else {
        pass_end(log, target, offset + step, step)
    }
}

/// Where the backward search ends that still has the passes below `passes` to run,
/// stands at `offset`, and made its last fetch at `last`.
pub open spec fn backstep_end<M: FBMessage>(
    log: Seq<M>,
    target: Timestamp,
    steps: Steps,
    passes: nat,
    offset: int,
    last: Option<int>,
) -> (int, Option<int>)
    decreases passes,
{
    if passes == 0 {
        (offset, last)
    } else {
        let end = pass_end(log, target, offset, steps.step_size_at((passes - 1) as nat));
        backstep_end(log, target, steps, (passes - 1) as nat, end.0, Some(end.1))
    }
}

/// The number of fetches that a pass of the backward search makes that begins at
/// `offset` and steps by `step`.
pub open spec fn pass_fetches<M: FBMessage>(log: Seq<M>, target: Timestamp, offset: int, step: int) -> nat
    decreases log.len() - offset,
{
    if step < 1 || !is_later(stamp_at(log, offset), target) || !(i64::MIN <= offset + step
        <= i64::MAX) {
        1
    } else if !is_later(stamp_at(log, offset + step), target) {
        2
    } else {
        2 + pass_fetches(log, target, offset + step, step)
    }
}

/// The number of fetches that the backward search makes that still has the passes
/// below `passes` to run and stands at `offset`.
pub open spec fn backstep_fetches_from<M: FBMessage>(
    log: Seq<M>,
    target: Timestamp,
    steps: Steps,
    passes: nat,
    offset: int,
) -> nat
    decreases passes,
{
    if passes == 0 {
        0
    } else {
        let step = steps.step_size_at((passes - 1) as nat);
        pass_fetches(log, target, offset, step) + backstep_fetches_from(
            log,
            target,
            steps,
            (passes - 1) as nat,
            pass_end(log, target, offset, step).0,
        )
    }
}

/// The number of fetches that the backward search of `log` for `target` makes.
pub open spec fn backstep_fetches<M: FBMessage>(log: Seq<M>, target: Timestamp, steps: Steps) -> nat {
    backstep_fetches_from(log, target, steps, steps.num_step_passes as nat, 1)
}

/// A count that has stopped at the largest number that its counter can hold.
pub open spec fn saturated(count: int) -> int {
    if count < u64::MAX {
        count
    } else {
        u64::MAX as int
    }
}

/// The trailing offset at which the backward search of `log` for `target` ends. It
/// begins at offset 1.
pub open spec fn backstep_offset<M: FBMessage>(log: Seq<M>, target: Timestamp, steps: Steps) -> int {
    backstep_end(log, target, steps, steps.num_step_passes as nat, 1, None).0
}

/// The cursor that the backward search leaves: where its last fetch put it, or, if
/// it made none, at the newest end of the log.
pub open spec fn backstep_cursor<M: FBMessage>(log: Seq<M>, target: Timestamp, steps: Steps) -> int {
    match backstep_end(log, target, steps, steps.num_step_passes as nat, 1, None).1 {
        Some(last) => seek(log.len(), last),
        None => log.len() as int,
    }
}

/// The forward scan `st`, and the cursor, once it no longer looks for its first
/// record, with the log read on from `cursor`.
pub open spec fn locate_end<M: FBMessage>(
    log: Seq<M>,
    target: Timestamp,
    cursor: int,
    st: ForwardState<M>,
) -> (ForwardState<M>, int)
    decreases log.len() - cursor,
{
    if !(st.phase is Locate) {
        (st, cursor)
    } else if 0 <= cursor < log.len() {
        locate_end(log, target, cursor + 1, st.located(target, Some(log[cursor])))
    } else {
        (st.located(target, None), cursor)
    }
}

/// The forward scan `st`, and the cursor, once it no longer collects frames, with
/// the log read on from `cursor`.
pub open spec fn acquire_end<M: FBMessage>(
    log: Seq<M>,
    ids: Seq<DigitizerId>,
    cursor: int,
    st: ForwardState<M>,
) -> (ForwardState<M>, int)
    decreases log.len() - cursor,
{
    if !(st.phase is Acquire) {
        (st, cursor)
    } else if 0 <= cursor < log.len() {
        acquire_end(log, ids, cursor + 1, st.acquired(ids, Some(log[cursor])))
    } else {
        (st.acquired(ids, None), cursor)
    }
}

/// The forward scan, and the cursor, at the end of a scan of `log` from `cursor` for
/// `number` frames at or after `target` of the digitisers `ids`.
pub open spec fn scan_end<M: FBMessage>(
    log: Seq<M>,
    target: Timestamp,
    ids: Seq<DigitizerId>,
    number: usize,
    cursor: int,
) -> (ForwardState<M>, int) {
    let fresh = ForwardState {
        results: Seq::<M>::empty(),
        message: None::<M>,
        phase: ForwardPhase::Locate,
    };
    let found = locate_end(log, target, cursor, fresh);
    acquire_end(log, ids, found.1, found.0.begun(ids, number))
}

/// The records that a search of `log` collects: the backward search for `target`,
/// then the forward scan from where it left the cursor.
pub open spec fn search_results<M: FBMessage>(
    log: Seq<M>,
    target: Timestamp,
    ids: Seq<DigitizerId>,
    number: usize,
    steps: Steps,
) -> Seq<M> {
    scan_end(log, target, ids, number, backstep_cursor(log, target, steps)).0.results
}

/// Whether the cursor is where the last fetch at a trailing offset put it, or, with
/// no such fetch, at the newest end.
spec fn cursor_after(len: nat, cursor: int, last: Option<int>) -> bool {
    match last {
        Some(offset) => cursor == seek(len, offset),
        None => cursor == len,
    }
}

/// What holds of a search of `log` that has come to the state `st` with the cursor
/// at `cursor` and its last fetch at a trailing offset at `last`: what is left of
/// it to run ends as the whole search does.
spec fn on_course<M: FBMessage>(
    log: Seq<M>,
    cursor: int,
    last: Option<int>,
    st: TopicSearchState<M>,
    target: Timestamp,
    ids: Seq<DigitizerId>,
    number: usize,
    steps: Steps,
) -> bool {
    let whole = backstep_end(log, target, steps, steps.num_step_passes as nat, 1, None);
    let fin = scan_end(log, target, ids, number, backstep_cursor(log, target, steps));
    let fresh = TopicSearchState::<M>::initial().forward;
    match st.stage {
        TopicStage::Announce => st.back.offset == 1 && st.forward == fresh && last is None,
        TopicStage::Open => st.back.offset == 1 && st.forward == fresh && last is None,
        TopicStage::PassAnnounce { pass } => {
            &&& st.forward == fresh
            &&& cursor_after(log.len(), cursor, last)
            &&& backstep_end(log, target, steps, (pass + 1) as nat, st.back.offset, last)
                == whole
        },
        TopicStage::Pass { pass } => {
            let end = pass_end(log, target, st.back.offset, st.back.step);
            &&& st.forward == fresh
            &&& st.back.step == steps.step_size_at(pass as nat)
            &&& st.back.step >= 1
            &&& backstep_end(log, target, steps, pass as nat, end.0, Some(end.1)) == whole
            &&& st.back.phase is Probe ==> is_later(stamp_at(log, st.back.offset), target)
                && i64::MIN <= st.back.offset + st.back.step <= i64::MAX
        },
        TopicStage::Bridge => {
            &&& st.forward == fresh
            &&& cursor_after(log.len(), cursor, last)
            &&& st.back.offset == whole.0
            &&& last == whole.1
        },
        TopicStage::Scan => {
            &&& st.back.offset == whole.0
            &&& if st.forward.phase is Locate {
                let found = locate_end(log, target, cursor, st.forward);
                acquire_end(log, ids, found.1, found.0.begun(ids, number)) == fin
            } else {
                acquire_end(log, ids, cursor, st.forward) == fin
            }
        },
        TopicStage::Report => st.back.offset == whole.0 && st.forward == fin.0 && cursor == fin.1,
        TopicStage::Done => st.back.offset == whole.0 && st.forward == fin.0 && cursor == fin.1,
    }
}

/// The number of fetches at a trailing offset that a search of `log` in the state
/// `st` has still to make.
spec fn fetches_left<M: FBMessage>(
    log: Seq<M>,
    st: TopicSearchState<M>,
    target: Timestamp,
    steps: Steps,
) -> int {
    match st.stage {
        TopicStage::Announce => backstep_fetches(log, target, steps) as int,
        TopicStage::Open => backstep_fetches(log, target, steps) as int,
        TopicStage::PassAnnounce { pass } => backstep_fetches_from(
            log,
            target,
            steps,
            (pass + 1) as nat,
            st.back.offset,
        ) as int,
        TopicStage::Pass { pass } => pass_fetches(log, target, st.back.offset, st.back.step)
            + backstep_fetches_from(
            log,
            target,
            steps,
            pass as nat,
            pass_end(log, target, st.back.offset, st.back.step).0,
        ) - (if st.back.phase is Probe {
            1int
        } else {
            0int
        }),
        _ => 0,
    }
}

/// How far a search is from its end, by stage.
spec fn stage_rank<M>(st: TopicSearchState<M>) -> int {
    match st.stage {
        TopicStage::Announce => 6,
        TopicStage::Open => 5,
        TopicStage::PassAnnounce { .. } => 4,
        TopicStage::Pass { .. } => 4,
        TopicStage::Bridge => 3,
        TopicStage::Scan => 2,
        TopicStage::Report => 1,
        TopicStage::Done => 0,
    }
}

/// How far a backward search is from its end, by pass.
spec fn pass_rank<M>(st: TopicSearchState<M>) -> int {
    match st.stage {
        TopicStage::PassAnnounce { pass } => 2 * pass + 1,
        TopicStage::Pass { pass } => 2 * pass,
        _ => 0,
    }
}

/// How far a pass or a forward scan is from its end in a log of `len` records with
/// the cursor at `cursor`.
spec fn step_rank<M>(st: TopicSearchState<M>, len: nat, cursor: int) -> int {
    match st.stage {
        TopicStage::Pass { .. } => (if st.back.offset < len {
            2 * (len - st.back.offset)
        } else {
            0
        }) + (match st.back.phase {
            BackstepPhase::Current => 2int,
            BackstepPhase::Probe => 1int,
            BackstepPhase::Finished => 0int,
        }),
        TopicStage::Scan => 2 * (len - cursor) + (if st.forward.phase is Locate {
            1int
        } else {
            0int
        }),
        _ => 0,
    }
}

/// What a search reads of a record held elsewhere, with the record's position.
#[derive(Clone, Copy, Debug, PartialEq, Eq, Structural)]
pub struct Located {
    /// Position of the record in its log, counted from the oldest.
    pub position: usize,
    pub timestamp: Timestamp,
    pub digitiser_id: DigitizerId,
}

impl FBMessage for Located {
    open spec fn spec_timestamp(&self) -> Timestamp {
        self.timestamp
    }

    open spec fn spec_digitiser_id(&self) -> DigitizerId {
        self.digitiser_id
    }

    fn timestamp(&self) -> (t: Timestamp) {
        self.timestamp
    }

    fn digitiser_id(&self) -> (d: DigitizerId) {
        self.digitiser_id
    }
}

/// The records of `log`, each as the search reads it.
pub open spec fn headers<M: FBMessage>(log: Seq<M>) -> Seq<Located> {
    Seq::new(
        log.len(),
        |i: int|
            Located {
                position: i as usize,
                timestamp: log[i].spec_timestamp(),
                digitiser_id: log[i].spec_digitiser_id(),
            },
    )
}

/// A log in memory, with its cursor.
pub struct MemoryLog {
    records: Vec<Located>,
    cursor: usize,
    seeks: u64,
}

impl MemoryLog {
    #[verifier::type_invariant]
    spec fn inv(self) -> bool {
        self.cursor <= self.records@.len()
    }

    /// The records, oldest first.
    pub closed spec fn records(&self) -> Seq<Located> {
        self.records@
    }

    /// The position of the record that a sequential fetch brings next.
    pub closed spec fn cursor(&self) -> int {
        self.cursor as int
    }

    /// The number of fetches at a trailing offset that the log has served.
    pub closed spec fn seeks(&self) -> int {
        self.seeks as int
    }

    /// Reads `seeks`.
    pub fn seek_count(&self) -> (count: u64)
        ensures
            count == self.seeks(),
    {
        self.seeks
    }

    /// Reads `cursor`.
    pub fn position(&self) -> (cursor: usize)
        ensures
            cursor == self.cursor(),
    {
        self.cursor
    }

    /// The log of `records`, oldest first, with the cursor at its newest end.
    pub fn new<M: FBMessage>(records: &Vec<M>) -> (log: MemoryLog)
        ensures
            log.records() == headers(records@),
            log.cursor() == records@.len(),
            log.seeks() == 0,
    {
        let mut list: Vec<Located> = Vec::new();
        let mut i: usize = 0;
        while i < records.len()
            invariant
                i <= records.len(),
                list@ == headers(records@).take(i as int),
            decreases records.len() - i,
        {
            let record = &records[i];
            list.push(
                Located {
                    position: i,
                    timestamp: record.timestamp(),
                    digitiser_id: record.digitiser_id(),
                },
            );
            proof {
                assert(list@ =~= headers(records@).take(i + 1));
            }
            i += 1;
        }
        proof {
            assert(headers(records@).take(records@.len() as int) =~= headers(records@));
        }
        MemoryLog { records: list, cursor: i, seeks: 0 }
    }

    /// Puts the cursor at the newest end, where a search begins.
    pub fn open(&mut self)
        ensures
            final(self).records() == old(self).records(),
            final(self).cursor() == old(self).records().len(),
            final(self).seeks() == old(self).seeks(),
    {
        proof {
            use_type_invariant(&*self);
        }
        self.cursor = self.records.len();
    }

    /// Fetches the record at trailing offset `offset` and leaves the cursor behind
    /// it; where the log has no such record, the cursor is left before the oldest.
    pub fn fetch_at(&mut self, offset: i64) -> (fetched: Option<Located>)
        ensures
            fetched == record_at(old(self).records(), offset as int),
            final(self).records() == old(self).records(),
            final(self).cursor() == seek(old(self).records().len(), offset as int),
            final(self).seeks() == saturated(old(self).seeks() + 1),
    {
        proof {
            use_type_invariant(&*self);
        }
        self.seeks = self.seeks.saturating_add(1);
        let len = self.records.len();
        if offset >= 0 && (offset as u64) < (len as u64) {
            let index: usize = len - 1 - (offset as usize);
            self.cursor = index + 1;
            Some(self.records[index])
        } else {
            self.cursor = 0;
            None
        }
    }

    /// Fetches the record at the cursor and moves the cursor on; `None` at the
    /// newest end.
    pub fn fetch_next(&mut self) -> (fetched: Option<Located>)
        ensures
            fetched == record_next(old(self).records(), old(self).cursor()),
            final(self).records() == old(self).records(),
            final(self).cursor() == advance(old(self).records().len(), old(self).cursor()),
            final(self).seeks() == old(self).seeks(),
    {
        proof {
            use_type_invariant(&*self);
        }
        if self.cursor < self.records.len() {
            let fetched = self.records[self.cursor];
            self.cursor = self.cursor + 1;
            Some(fetched)
        } else {
            None
        }
    }

    /// Runs the pass that `it` has begun, to its end.
    pub fn run_pass(&mut self, it: &mut BackstepIter<Located>, target: &Timestamp)
        requires
            old(it)@.phase is Current,
            old(it)@.step >= 1,
        ensures
            final(self).records() == old(self).records(),
            final(self).cursor() == seek(
                old(self).records().len(),
                pass_end(old(self).records(), *target, old(it)@.offset, old(it)@.step).1,
            ),
            final(it)@.offset == pass_end(
                old(self).records(),
                *target,
                old(it)@.offset,
                old(it)@.step,
            ).0,
            final(it)@.step == old(it)@.step,
            final(it)@.phase is Finished,
            final(it).spec_results() == old(it).spec_results(),
            final(self).seeks() == saturated(
                old(self).seeks() + pass_fetches(
                    old(self).records(),
                    *target,
                    old(it)@.offset,
                    old(it)@.step,
                ),
            ),
    {
        let ghost log = self.records();
        let ghost step = it@.step;
        let ghost end = pass_end(log, *target, it@.offset, step);
        let ghost count = old(self).seeks() + pass_fetches(log, *target, it@.offset, step);
        loop
            invariant
                self.records() == log,
                it@.phase is Current ==> saturated(
                    self.seeks() + pass_fetches(log, *target, it@.offset, step),
                ) == saturated(count),
                it@.phase is Probe ==> saturated(
                    self.seeks() + pass_fetches(log, *target, it@.offset, step) - 1,
                ) == saturated(count),
                it@.phase is Finished ==> self.seeks() == saturated(count),
                it@.step == step,
                step >= 1,
                it.spec_results() == old(it).spec_results(),
                it@.phase is Current ==> pass_end(log, *target, it@.offset, step) == end,
                it@.phase is Probe ==> pass_end(log, *target, it@.offset, step) == end && is_later(
                    stamp_at(log, it@.offset),
                    *target,
                ) && i64::MIN <= it@.offset + step <= i64::MAX,
                it@.phase is Finished ==> it@.offset == end.0 && self.cursor() == seek(
                    log.len(),
                    end.1,
                ),
            ensures
                it@.phase is Finished,
            decreases
                    (if it@.offset < log.len() {
                        2 * (log.len() - it@.offset)
                    } else {
                        0
                    }) + (match it@.phase {
                        BackstepPhase::Current => 2int,
                        BackstepPhase::Probe => 1int,
                        BackstepPhase::Finished => 0int,
                    }),
        {
            match it.request() {
                Some(offset) => {
                    let fetched = self.fetch_at(offset);
                    let stamp = match fetched {
                        Some(record) => Some(record.timestamp),
                        None => None,
                    };
                    it.backstep_until_time(target, stamp);
                },
                None => {
                    break ;
                },
            }
        }
    }

    /// Runs the backward search for `target` from trailing offset 1, and returns the
    /// offset at which it ends.
    pub fn positional_search(&mut self, target: &Timestamp, steps: &Steps) -> (offset: i64)
        requires
            steps.wf(),
        ensures
            final(self).records() == old(self).records(),
            offset == backstep_offset(old(self).records(), *target, *steps),
            steps.num_step_passes > 0 ==> final(self).cursor() == backstep_cursor(
                old(self).records(),
                *target,
                *steps,
            ),
            steps.num_step_passes == 0 ==> final(self).cursor() == old(self).cursor(),
            final(self).seeks() == saturated(
                old(self).seeks() + backstep_fetches(old(self).records(), *target, *steps),
            ),
    {
        let ghost log = self.records();
        let ghost whole = backstep_end(log, *target, *steps, steps.num_step_passes as nat, 1, None);
        let ghost count = old(self).seeks() + backstep_fetches(log, *target, *steps);
        let searcher: Searcher<Located> = Searcher::new(1);
        let mut it = searcher.iter_backstep();
        let mut pass: u32 = steps.num_step_passes;
        let ghost mut last: Option<int> = None;
        while pass > 0
            invariant
                steps.wf(),
                pass <= steps.num_step_passes,
                self.records() == log,
                backstep_end(log, *target, *steps, pass as nat, it@.offset, last) == whole,
                last matches Some(k) ==> self.cursor() == seek(log.len(), k),
                last is None ==> self.cursor() == old(self).cursor() && pass
                    == steps.num_step_passes,
                saturated(
                    self.seeks() + backstep_fetches_from(
                        log,
                        *target,
                        *steps,
                        pass as nat,
                        it@.offset,
                    ),
                ) == saturated(count),
            decreases pass,
        {
            pass = pass - 1;
            let size = steps.step_size(pass);
            it.step_size(size);
            proof {
                last = Some(pass_end(log, *target, it@.offset, size as int).1);
            }
            self.run_pass(&mut it, target);
        }
        it.collect().get_offset()
    }

    /// Runs the forward scan from the cursor: looks for the first record at or after
    /// the target's timestamp, then collects the target's number of frames.
    pub fn group_scan(&mut self, target: &SearchTarget) -> (results: Vec<Located>)
        ensures
            final(self).records() == old(self).records(),
            final(self).seeks() == old(self).seeks(),
            results@ == scan_end(
                old(self).records(),
                target.timestamp,
                target.digitiser_ids@,
                target.number,
                old(self).cursor(),
            ).0.results,
            final(self).cursor() == scan_end(
                old(self).records(),
                target.timestamp,
                target.digitiser_ids@,
                target.number,
                old(self).cursor(),
            ).1,
    {
        proof {
            use_type_invariant(&*self);
        }
        let ghost log = self.records();
        let ghost ids = target.digitiser_ids@;
        let searcher: Searcher<Located> = Searcher::new(1);
        let mut it = searcher.iter_forward();
        let ghost found = locate_end(log, target.timestamp, self.cursor(), it@);
        while it.wants_next()
            invariant
                self.records() == log,
                self.seeks() == old(self).seeks(),
                it@.phase is Locate || it@.phase is Ready,
                locate_end(log, target.timestamp, self.cursor(), it@) == found,
                0 <= self.cursor() <= log.len(),
            decreases
                    (log.len() - self.cursor()) + (if it@.phase is Locate {
                        1int
                    } else {
                        0int
                    }),
        {
            let fetched = self.fetch_next();
            it.move_until(&target.timestamp, fetched);
        }
        it.begin_acquire(target, target.number);
        let ghost end = acquire_end(log, ids, self.cursor(), it@);
        while it.wants_next()
            invariant
                self.records() == log,
                self.seeks() == old(self).seeks(),
                ids == target.digitiser_ids@,
                !(it@.phase is Locate),
                acquire_end(log, ids, self.cursor(), it@) == end,
                0 <= self.cursor() <= log.len(),
            decreases
                    (log.len() - self.cursor()) + (if it@.phase is Acquire {
                        1int
                    } else {
                        0int
                    }),
        {
            let fetched = self.fetch_next();
            it.acquire_while(target, fetched);
        }
        it.collect().into_results()
    }

    /// Runs a search that has not begun to its end, and meets each of its requests
    /// but those to report progress.
    pub fn run_topic(&mut self, search: &mut TopicSearch<Located>, target: &SearchTarget)
        requires
            old(search).wf(),
            old(search)@ == TopicSearchState::<Located>::initial(),
        ensures
            final(self).records() == old(self).records(),
            final(search).wf(),
            final(search).steps() == old(search).steps(),
            final(search)@.stage is Done,
            final(search)@.back.offset == backstep_offset(
                old(self).records(),
                target.timestamp,
                old(search).steps(),
            ),
            final(search)@.forward.results == search_results(
                old(self).records(),
                target.timestamp,
                target.digitiser_ids@,
                target.number,
                old(search).steps(),
            ),
            final(search)@.forward == scan_end(
                old(self).records(),
                target.timestamp,
                target.digitiser_ids@,
                target.number,
                backstep_cursor(old(self).records(), target.timestamp, old(search).steps()),
            ).0,
            final(self).cursor() == scan_end(
                old(self).records(),
                target.timestamp,
                target.digitiser_ids@,
                target.number,
                backstep_cursor(old(self).records(), target.timestamp, old(search).steps()),
            ).1,
            final(self).seeks() == saturated(
                old(self).seeks() + backstep_fetches(
                    old(self).records(),
                    target.timestamp,
                    old(search).steps(),
                ),
            ),
    {
        proof {
            use_type_invariant(&*self);
        }
        let ghost log = self.records();
        let ghost steps = search.steps();
        let ghost ids = target.digitiser_ids@;
        let ghost mut last: Option<int> = None;
        let ghost count = self.seeks() + backstep_fetches(log, target.timestamp, steps);
        loop
            invariant
                self.records() == log,
                0 <= self.cursor() <= log.len(),
                search.wf(),
                search.steps() == steps,
                ids == target.digitiser_ids@,
                on_course(
                    log,
                    self.cursor(),
                    last,
                    search@,
                    target.timestamp,
                    ids,
                    target.number,
                    steps,
                ),
                saturated(self.seeks() + fetches_left(log, search@, target.timestamp, steps))
                    == saturated(count),
            ensures
                search@.stage is Done,
            decreases stage_rank(search@), pass_rank(search@), step_rank(
                search@,
                log.len(),
                self.cursor(),
            ),
        {
            match search.request() {
                TopicRequest::Progress(_) => {
                    proof {
                        reveal_with_fuel(backstep_end, 2);
                        reveal_with_fuel(backstep_fetches_from, 2);
                        reveal_with_fuel(locate_end, 2);
                        reveal_with_fuel(acquire_end, 2);
                        if let TopicStage::PassAnnounce { pass } = search@.stage {
                            lemma_step_grows(steps, pass as nat, pass as nat);
                        }
                    }
                    search.advance(target, None);
                },
                TopicRequest::Open => {
                    proof {
                        reveal_with_fuel(backstep_end, 2);
                        reveal_with_fuel(backstep_fetches_from, 2);
                    }
                    self.open();
                    search.advance(target, None);
                },
                TopicRequest::FetchAt(offset) => {
                    proof {
                        reveal_with_fuel(backstep_fetches_from, 2);
                    }
                    let fetched = self.fetch_at(offset);
                    proof {
                        last = Some(offset as int);
                    }
                    search.advance(target, fetched);
                },
                TopicRequest::FetchNext => {
                    proof {
                        reveal_with_fuel(locate_end, 3);
                        reveal_with_fuel(acquire_end, 3);
                    }
                    let fetched = self.fetch_next();
                    search.advance(target, fetched);
                },
                TopicRequest::Done => {
                    break ;
                },
            }
        }
    }

    /// Searches the log for `target`: the backward search from the newest end, then
    /// the forward scan from where it left the cursor.
    pub fn search(&mut self, target: &SearchTarget, steps: &Steps) -> (results: Vec<Located>)
        requires
            steps.wf(),
        ensures
            final(self).records() == old(self).records(),
            results@ == search_results(
                old(self).records(),
                target.timestamp,
                target.digitiser_ids@,
                target.number,
                *steps,
            ),
            final(self).cursor() == scan_end(
                old(self).records(),
                target.timestamp,
                target.digitiser_ids@,
                target.number,
                backstep_cursor(old(self).records(), target.timestamp, *steps),
            ).1,
            final(self).seeks() == saturated(
                old(self).seeks() + backstep_fetches(old(self).records(), target.timestamp, *steps),
            ),
    {
        let mut search: TopicSearch<Located> = TopicSearch::new(*steps);
        self.run_topic(&mut search, target);
        search.into_results()
    }
}

/// The records of `log` at the positions of `found`.
pub open spec fn picked<M>(log: Seq<M>, found: Seq<Located>) -> Seq<M> {
    Seq::new(found.len(), |i: int| log[found[i].position as int])
}

/// The cache of a search of the two logs: the traces that the search of the trace
/// log collects, each with the event list of its identity among those that the
/// search of the event-list log collects.
pub open spec fn logs_cache(
    traces: Seq<TraceMessage>,
    events: Seq<EventListMessage>,
    target: SearchTarget,
    steps: Steps,
) -> CacheView {
    merged(
        picked(
            traces,
            search_results(
                headers(traces),
                target.timestamp,
                target.digitiser_ids@,
                target.number,
                steps,
            ),
        ),
        picked(
            events,
            search_results(
                headers(events),
                target.timestamp,
                target.digitiser_ids@,
                target.number,
                steps,
            ),
        ),
    )
}

/// A scan that collects frames collects records of the log, if what it has
/// collected and what it holds pending are records of the log.
pub proof fn lemma_acquire_within<M: FBMessage>(
    log: Seq<M>,
    ids: Seq<DigitizerId>,
    cursor: int,
    st: ForwardState<M>,
)
    requires
        forall|i: int| 0 <= i < st.results.len() ==> log.contains(#[trigger] st.results[i]),
    ensures
        forall|i: int|
            0 <= i < acquire_end(log, ids, cursor, st).0.results.len() ==> log.contains(
                #[trigger] acquire_end(log, ids, cursor, st).0.results[i],
            ),
    decreases log.len() - cursor,
{
    if st.phase is Acquire && 0 <= cursor < log.len() {
        let next = st.acquired(ids, Some(log[cursor]));
        assert(log.contains(log[cursor]));
        assert forall|i: int| 0 <= i < next.results.len() implies log.contains(
            #[trigger] next.results[i],
        ) by {
            if i < st.results.len() {
                assert(next.results[i] == st.results[i]);
            }
        }
        lemma_acquire_within(log, ids, cursor + 1, next);
    }
}

/// A scan that looks for its first record finds a record of the log, and collects
/// nothing while it looks.
pub proof fn lemma_locate_within<M: FBMessage>(
    log: Seq<M>,
    target: Timestamp,
    cursor: int,
    st: ForwardState<M>,
)
    requires
        st.phase is Locate,
        st.message is None,
    ensures
        locate_end(log, target, cursor, st).0.results == st.results,
        locate_end(log, target, cursor, st).0.message matches Some(m) ==> log.contains(m),
    decreases log.len() - cursor,
{
    if 0 <= cursor < log.len() {
        assert(log.contains(log[cursor]));
        let next = st.located(target, Some(log[cursor]));
        if next.phase is Locate {
            lemma_locate_within(log, target, cursor + 1, next);
        }
    }
}

/// A search collects records of the log.
pub proof fn lemma_results_within<M: FBMessage>(
    log: Seq<M>,
    target: Timestamp,
    ids: Seq<DigitizerId>,
    number: usize,
    steps: Steps,
)
    ensures
        forall|i: int|
            0 <= i < search_results(log, target, ids, number, steps).len() ==> log.contains(
                #[trigger] search_results(log, target, ids, number, steps)[i],
            ),
{
    let cursor = backstep_cursor(log, target, steps);
    let fresh = ForwardState {
        results: Seq::<M>::empty(),
        message: None::<M>,
        phase: ForwardPhase::Locate,
    };
    lemma_locate_within(log, target, cursor, fresh);
    let found = locate_end(log, target, cursor, fresh);
    let begun = found.0.begun(ids, number);
    assert forall|i: int| 0 <= i < begun.results.len() implies log.contains(
        #[trigger] begun.results[i],
    ) by {
        assert(begun.results[i] == found.0.message->0);
    }
    lemma_acquire_within(log, ids, found.1, begun);
}

/// Searches the two logs in memory for `target`, and merges what the two searches
/// collect.
pub fn search_logs(
    traces: &Vec<TraceMessage>,
    events: &Vec<EventListMessage>,
    target: &SearchTarget,
    steps: &Steps,
) -> (cache: Cache)
    requires
        steps.wf(),
        forall|i: int| 0 <= i < events@.len() ==> (#[trigger] events@[i]).wf(),
    ensures
        cache@ == logs_cache(traces@, events@, *target, *steps),
{
    let mut trace_log = MemoryLog::new(traces);
    let trace_found = trace_log.search(target, steps);
    let mut event_log = MemoryLog::new(events);
    let event_found = event_log.search(target, steps);
    proof {
        lemma_results_within(
            headers(traces@),
            target.timestamp,
            target.digitiser_ids@,
            target.number,
            *steps,
        );
        lemma_results_within(
            headers(events@),
            target.timestamp,
            target.digitiser_ids@,
            target.number,
            *steps,
        );
    }
    let ghost trace_picked = picked(traces@, trace_found@);
    let ghost event_picked = picked(events@, event_found@);
    let mut cache = Cache::new();
    let mut i: usize = 0;
    while i < trace_found.len()
        invariant
            i <= trace_found.len(),
            trace_picked == picked(traces@, trace_found@),
            forall|k: int|
                0 <= k < trace_found@.len() ==> headers(traces@).contains(
                    #[trigger] trace_found@[k],
                ),
            cache@ == push_traces(CacheView::empty(), trace_picked.take(i as int)),
        decreases trace_found.len() - i,
    {
        let position = trace_found[i].position;
        proof {
            let header = trace_found@[i as int];
            let j = choose|j: int| 0 <= j < headers(traces@).len() && headers(traces@)[j] == header;
            assert(headers(traces@)[j].position == j as usize);
            assert(j < traces.len());
            assert(position == j);
            assert(trace_picked.take(i + 1).drop_last() =~= trace_picked.take(i as int));
            assert(trace_picked.take(i + 1).last() == traces@[position as int]);
        }
        let _ = cache.push_trace(&traces[position]);
        i += 1;
    }
    proof {
        assert(trace_picked.take(trace_picked.len() as int) =~= trace_picked);
    }
    let mut j: usize = 0;
    while j < event_found.len()
        invariant
            j <= event_found.len(),
            event_picked == picked(events@, event_found@),
            forall|i: int| 0 <= i < events@.len() ==> (#[trigger] events@[i]).wf(),
            forall|k: int|
                0 <= k < event_found@.len() ==> headers(events@).contains(
                    #[trigger] event_found@[k],
                ),
            cache@ == push_event_lists(
                push_traces(CacheView::empty(), trace_picked),
                event_picked.take(j as int),
            ),
        decreases event_found.len() - j,
    {
        let position = event_found[j].position;
        proof {
            let header = event_found@[j as int];
            let k = choose|k: int| 0 <= k < headers(events@).len() && headers(events@)[k] == header;
            assert(headers(events@)[k].position == k as usize);
            assert(k < events.len());
            assert(position == k);
            assert(event_picked.take(j + 1).drop_last() =~= event_picked.take(j as int));
            assert(event_picked.take(j + 1).last() == events@[position as int]);
        }
        let _ = cache.push_event_list_to_trace(&events[position]);
        j += 1;
    }
    proof {
        assert(event_picked.take(event_picked.len() as int) =~= event_picked);
    }
    cache
}

} // verus!
