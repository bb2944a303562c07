//! What holds of the scans on every log.
use crate::cli_structs::{lemma_step_grows, lemma_step_succ, Steps};
use crate::finder::log::{
    acquire_end, backstep_end, backstep_fetches, backstep_fetches_from, backstep_offset,
    locate_end, pass_end, pass_fetches, scan_end, search_results, stamp_at, MemoryLog,
};
use crate::finder::searcher::{is_later, ForwardPhase, ForwardState};
use crate::finder::task::{
    SearchTaskState, TaskEvent, TaskRequest, TaskStage, TopicRequest, TopicSearchState,
    TopicStage,
};
use crate::finder::{accepted, SearchStatus, SearchTarget};
use crate::messages::FBMessage;
use crate::{DigitizerId, Timestamp};
use vstd::arithmetic::power::lemma_pow0;
use vstd::prelude::*;

verus! {

/// Whether no record of the log is earlier than a record before it.
pub open spec fn chronological<M: FBMessage>(log: Seq<M>) -> bool {
    forall|i: int, j: int|
        0 <= i <= j < log.len() ==> log[i].spec_timestamp().key() <= log[j].spec_timestamp().key()
}

/// In a chronological log, no record at or beyond the trailing offset of a record
/// that is not later than the target is later than the target.
pub proof fn lemma_older_not_later<M: FBMessage>(
    log: Seq<M>,
    target: Timestamp,
    bound: int,
    offset: int,
)
    requires
        chronological(log),
        0 <= bound <= offset,
        !is_later(stamp_at(log, bound), target),
    ensures
        !is_later(stamp_at(log, offset), target),
{
    if offset < log.len() {
        let i = log.len() - 1 - offset;
        let j = log.len() - 1 - bound;
        assert(log[i].spec_timestamp().key() <= log[j].spec_timestamp().key());
    }
}

/// A pass never moves towards the newest end. Begun at a record that is not later
/// than the target, it makes one fetch and stays. Begun at one that is, it ends at
/// a record later than the target such that the record one step beyond is not, or
/// is missing. It makes at most two fetches for each record that it moves by, and
/// two more.
pub proof fn lemma_pass_end<M: FBMessage>(log: Seq<M>, target: Timestamp, offset: int, step: int)
    requires
        step >= 1,
        log.len() <= i64::MAX,
    ensures
        ({
            let end = pass_end(log, target, offset, step).0;
            let fetches = pass_fetches(log, target, offset, step);
            &&& end >= offset
            &&& 1 <= fetches <= 2 * (end - offset) + 2
            &&& !is_later(stamp_at(log, offset), target) ==> end == offset && fetches == 1
            &&& is_later(stamp_at(log, offset), target) ==> is_later(stamp_at(log, end), target)
                && !is_later(stamp_at(log, end + step), target)
        }),
    decreases log.len() - offset,
{
    if is_later(stamp_at(log, offset), target) && i64::MIN <= offset + step <= i64::MAX
        && is_later(stamp_at(log, offset + step), target) {
        lemma_pass_end(log, target, offset + step, step);
    }
}

/// A pass that steps by one record, begun at a record later than the target, makes
/// exactly two fetches for each record that it moves by, and two more.
pub proof fn lemma_linear_fetches<M: FBMessage>(log: Seq<M>, target: Timestamp, offset: int)
    requires
        log.len() <= i64::MAX,
        is_later(stamp_at(log, offset), target),
    ensures
        pass_fetches(log, target, offset, 1) == 2 * (pass_end(log, target, offset, 1).0 - offset)
            + 2,
    decreases log.len() - offset,
{
    if is_later(stamp_at(log, offset + 1), target) {
        lemma_linear_fetches(log, target, offset + 1);
    }
}

/// The passes that are left never move the search towards the newest end. From a
/// record that is not later than the target they make one fetch each and stay.
/// From one that is, they end at a record later than the target such that the
/// record one minimum step beyond is not, or is missing. They make at most two
/// fetches for each record that they move by, and two more for each pass.
pub proof fn lemma_backstep_end<M: FBMessage>(
    log: Seq<M>,
    target: Timestamp,
    steps: Steps,
    passes: nat,
    offset: int,
    last: Option<int>,
)
    requires
        steps.min_step_size >= 1,
        steps.step_mul_coef >= 1,
        log.len() <= i64::MAX,
    ensures
        ({
            let end = backstep_end(log, target, steps, passes, offset, last).0;
            let fetches = backstep_fetches_from(log, target, steps, passes, offset);
            &&& end >= offset
            &&& fetches <= 2 * (end - offset) + 2 * passes
            &&& !is_later(stamp_at(log, offset), target) ==> end == offset && fetches == passes
            &&& is_later(stamp_at(log, offset), target) ==> is_later(stamp_at(log, end), target)
            &&& is_later(stamp_at(log, offset), target) && passes >= 1 ==> !is_later(
                stamp_at(log, end + steps.min_step_size),
                target,
            )
        }),
    decreases passes,
{
    if passes > 0 {
        let step = steps.step_size_at((passes - 1) as nat);
        lemma_step_grows(steps, (passes - 1) as nat, (passes - 1) as nat);
        lemma_pass_end(log, target, offset, step);
        let end = pass_end(log, target, offset, step);
        lemma_backstep_end(log, target, steps, (passes - 1) as nat, end.0, Some(end.1));
        if passes == 1 {
            lemma_pow0(steps.step_mul_coef as int);
            assert(step == steps.min_step_size) by (nonlinear_arith)
                requires
                    step == steps.min_step_size * 1,
            ;
        }
    }
}

/// Where the record at trailing offset 1 is not later than the target, the backward
/// search stays at offset 1 and makes one fetch in each pass.
pub proof fn lemma_backstep_stays<M: FBMessage>(log: Seq<M>, target: Timestamp, steps: Steps)
    requires
        steps.wf(),
        log.len() <= i64::MAX,
        !is_later(stamp_at(log, 1), target),
    ensures
        backstep_offset(log, target, steps) == 1,
        backstep_fetches(log, target, steps) == steps.num_step_passes,
{
    lemma_backstep_end(log, target, steps, steps.num_step_passes as nat, 1, None);
}

/// In a chronological log whose record at trailing offset 1 is later than the
/// target, the backward search ends at a record later than the target, and every
/// record later than the target is less than one minimum step beyond it. With a
/// minimum step of one record it ends at the oldest record later than the target:
/// no record later than the target is earlier than the one at which it ends.
pub proof fn lemma_backstep_converges<M: FBMessage>(log: Seq<M>, target: Timestamp, steps: Steps)
    requires
        chronological(log),
        log.len() <= i64::MAX,
        steps.wf(),
        steps.num_step_passes >= 1,
        is_later(stamp_at(log, 1), target),
    ensures
        ({
            let end = backstep_offset(log, target, steps);
            &&& end >= 1
            &&& is_later(stamp_at(log, end), target)
            &&& forall|offset: int| #[trigger]
                is_later(stamp_at(log, offset), target) ==> offset < end + steps.min_step_size
            &&& steps.min_step_size == 1 ==> forall|offset: int| #[trigger]
                is_later(stamp_at(log, offset), target) ==> stamp_at(log, end)->0.key()
                    <= stamp_at(log, offset)->0.key()
        }),
{
    lemma_backstep_end(log, target, steps, steps.num_step_passes as nat, 1, None);
    let end = backstep_offset(log, target, steps);
    let bound = end + steps.min_step_size;
    assert forall|offset: int| #[trigger]
        is_later(stamp_at(log, offset), target) implies offset < bound by {
        if offset >= bound {
            lemma_older_not_later(log, target, bound, offset);
        }
    }
    if steps.min_step_size == 1 {
        assert forall|offset: int| #[trigger]
            is_later(stamp_at(log, offset), target) implies stamp_at(log, end)->0.key()
            <= stamp_at(log, offset)->0.key() by {
            let i = log.len() - 1 - end;
            let j = log.len() - 1 - offset;
            assert(log[i].spec_timestamp().key() <= log[j].spec_timestamp().key());
        }
    }
}

/// In a chronological log, the backward search makes at most two fetches more for
/// each pass after its first than a single pass would that steps by one record.
pub proof fn lemma_backstep_fetches<M: FBMessage>(log: Seq<M>, target: Timestamp, steps: Steps)
    requires
        chronological(log),
        log.len() <= i64::MAX,
        steps.wf(),
        steps.num_step_passes >= 1,
    ensures
        backstep_fetches(log, target, steps) <= pass_fetches(log, target, 1, 1) + 2 * (
        steps.num_step_passes - 1),
{
    lemma_backstep_end(log, target, steps, steps.num_step_passes as nat, 1, None);
    lemma_pass_end(log, target, 1, 1);
    if is_later(stamp_at(log, 1), target) {
        let end = backstep_offset(log, target, steps);
        let linear = pass_end(log, target, 1, 1).0;
        lemma_linear_fetches(log, target, 1);
        if end > linear {
            lemma_older_not_later(log, target, linear + 1, end);
        }
    }
}

/// In a chronological log, a pass that begins at or before a record that is not
/// later than the target makes at most two fetches for each step that fits
/// between its offset and that record, and two more.
pub proof fn lemma_pass_fetches_before<M: FBMessage>(
    log: Seq<M>,
    target: Timestamp,
    offset: int,
    step: int,
    bound: int,
)
    requires
        chronological(log),
        log.len() <= i64::MAX,
        step >= 1,
        0 <= offset <= bound,
        !is_later(stamp_at(log, bound), target),
    ensures
        step * pass_fetches(log, target, offset, step) <= 2 * (bound - offset) + 2 * step,
    decreases log.len() - offset,
{
    let fetches = pass_fetches(log, target, offset, step) as int;
    if is_later(stamp_at(log, offset), target) && i64::MIN <= offset + step <= i64::MAX
        && is_later(stamp_at(log, offset + step), target) {
        if offset + step > bound {
            lemma_older_not_later(log, target, bound, offset + step);
        }
        lemma_pass_fetches_before(log, target, offset + step, step, bound);
        let rest = pass_fetches(log, target, offset + step, step) as int;
        assert(step * (2 + rest) == 2 * step + step * rest) by (nonlinear_arith);
    } else {
        assert(step * fetches <= 2 * step) by (nonlinear_arith)
            requires
                step >= 1,
                0 <= fetches <= 2,
        ;
    }
}

/// In a chronological log, the passes below one that has ended make at most
/// `2 * step_mul_coef + 2` fetches each: one that begins at a record later than the
/// target moves by less than the step of the pass above it.
pub proof fn lemma_finer_passes_fetches<M: FBMessage>(
    log: Seq<M>,
    target: Timestamp,
    steps: Steps,
    passes: nat,
    offset: int,
)
    requires
        chronological(log),
        log.len() <= i64::MAX,
        steps.min_step_size >= 1,
        steps.step_mul_coef >= 1,
        offset >= 0,
        is_later(stamp_at(log, offset), target) ==> !is_later(
            stamp_at(log, offset + steps.step_size_at(passes)),
            target,
        ),
    ensures
        backstep_fetches_from(log, target, steps, passes, offset) <= passes * (2
            * steps.step_mul_coef + 2),
    decreases passes,
{
    let coef = steps.step_mul_coef as int;
    if passes > 0 {
        let step = steps.step_size_at((passes - 1) as nat);
        let fetches = pass_fetches(log, target, offset, step) as int;
        lemma_step_grows(steps, (passes - 1) as nat, (passes - 1) as nat);
        lemma_step_succ(steps, (passes - 1) as nat);
        lemma_pass_end(log, target, offset, step);
        let end = pass_end(log, target, offset, step).0;
        if is_later(stamp_at(log, offset), target) {
            let bound = offset + step * coef;
            lemma_pass_fetches_before(log, target, offset, step, bound);
            assert(fetches <= 2 * coef + 2) by (nonlinear_arith)
                requires
                    step >= 1,
                    step * fetches <= 2 * (step * coef) + 2 * step,
            ;
        }
        lemma_finer_passes_fetches(log, target, steps, (passes - 1) as nat, end);
        let rest = backstep_fetches_from(log, target, steps, (passes - 1) as nat, end) as int;
        assert(fetches + rest <= passes * (2 * coef + 2)) by (nonlinear_arith)
            requires
                fetches <= 2 * coef + 2,
                rest <= (passes - 1) * (2 * coef + 2),
        ;
    }
}

/// In a chronological log, the backward search makes at most `2 * step_mul_coef + 2`
/// fetches in each pass after its first: however long the log, only the first pass
/// makes more.
pub proof fn lemma_backstep_fetches_by_pass<M: FBMessage>(
    log: Seq<M>,
    target: Timestamp,
    steps: Steps,
)
    requires
        chronological(log),
        log.len() <= i64::MAX,
        steps.wf(),
        steps.num_step_passes >= 1,
    ensures
        backstep_fetches(log, target, steps) <= pass_fetches(
            log,
            target,
            1,
            steps.step_size_at((steps.num_step_passes - 1) as nat),
        ) + (steps.num_step_passes - 1) * (2 * steps.step_mul_coef + 2),
{
    let top = (steps.num_step_passes - 1) as nat;
    let step = steps.step_size_at(top);
    lemma_step_grows(steps, top, top);
    lemma_pass_end(log, target, 1, step);
    lemma_finer_passes_fetches(log, target, steps, top, pass_end(log, target, 1, step).0);
}

/// The test that a record is of one of the digitisers `ids`.
pub open spec fn accepts<M: FBMessage>(ids: Seq<DigitizerId>) -> spec_fn(M) -> bool {
    |m: M| accepted(ids, m.spec_digitiser_id())
}

/// The position of the first record at or behind `from` that is not earlier than
/// the target; the length of the log where there is none.
pub open spec fn first_at_or_after<M: FBMessage>(log: Seq<M>, target: Timestamp, from: int) -> int
    decreases log.len() - from,
{
    if !(0 <= from < log.len()) {
        from
    } else if log[from].spec_timestamp().key() >= target.key() {
        from
    } else {
        first_at_or_after(log, target, from + 1)
    }
}

/// The position behind the last of `left` frames, the first of which was sampled at
/// `frame` and goes on at `from`; the length of the log where it ends before.
pub open spec fn frames_end<M: FBMessage>(log: Seq<M>, from: int, frame: Timestamp, left: usize) -> int
    decreases log.len() - from,
{
    if !(0 <= from < log.len()) {
        from
    } else if log[from].spec_timestamp() == frame {
        frames_end(log, from + 1, frame, left)
    } else if left <= 1 {
        from
    } else {
        frames_end(log, from + 1, log[from].spec_timestamp(), (left - 1) as usize)
    }
}

/// The number of records of `s` whose timestamp differs from that of the record
/// before: one less than the number of frames of `s`, where `s` is not empty.
pub open spec fn frame_breaks<M: FBMessage>(s: Seq<M>) -> nat
    decreases s.len(),
{
    if s.len() <= 1 {
        0
    } else {
        frame_breaks(s.drop_last()) + (if s[s.len() - 1].spec_timestamp() != s[s.len()
            - 2].spec_timestamp() {
            1nat
        } else {
            0nat
        })
    }
}

/// A scan that collects frames keeps, of the records from the cursor to the end of
/// its last frame, exactly those of the accepted digitisers, in the order of the
/// log. It stops at the end of the log, or with the record that follows its last
/// frame pending and the cursor behind that record.
pub proof fn lemma_acquire_collects<M: FBMessage>(
    log: Seq<M>,
    ids: Seq<DigitizerId>,
    cursor: int,
    st: ForwardState<M>,
)
    requires
        0 <= cursor <= log.len(),
        st.phase is Acquire,
    ensures
        ({
            let end = acquire_end(log, ids, cursor, st);
            let stop = frames_end(log, cursor, st.phase->frame, st.phase->left);
            &&& cursor <= stop <= log.len()
            &&& end.0.results == st.results + log.subrange(cursor, stop).filter(accepts(ids))
            &&& end.0.phase is Finished
            &&& stop < log.len() ==> end.0.message == Some(log[stop]) && end.1 == stop + 1
            &&& stop == log.len() ==> end.0.message == st.message && end.1 == log.len()
        }),
    decreases log.len() - cursor,
{
    let keep = accepts::<M>(ids);
    let stop = frames_end(log, cursor, st.phase->frame, st.phase->left);
    reveal_with_fuel(Seq::filter, 2);
    if cursor < log.len() {
        let m = log[cursor];
        let next = st.acquired(ids, Some(m));
        if next.phase is Acquire {
            lemma_acquire_collects(log, ids, cursor + 1, next);
            let head = log.subrange(cursor, cursor + 1);
            let tail = log.subrange(cursor + 1, stop);
            assert(log.subrange(cursor, stop) =~= head + tail);
            Seq::filter_distributes_over_add(head, tail, keep);
            assert(head.drop_last() =~= Seq::<M>::empty());
            assert(head.last() == m);
            assert(head.filter(keep) =~= (if keep(m) {
                seq![m]
            } else {
                Seq::<M>::empty()
            }));
            assert(next.results =~= st.results + head.filter(keep));
            assert(st.results + (head.filter(keep) + tail.filter(keep)) =~= next.results
                + tail.filter(keep));
        } else {
            assert(log.subrange(cursor, cursor) =~= Seq::<M>::empty());
            assert(st.results + Seq::<M>::empty() =~= st.results);
        }
    } else {
        assert(log.subrange(cursor, cursor) =~= Seq::<M>::empty());
        assert(st.results + Seq::<M>::empty() =~= st.results);
    }
}

/// A scan that looks for its first record finds the first record at or behind the
/// cursor that is not earlier than the target, and leaves the cursor behind it;
/// where there is none it finds nothing and leaves the cursor at the end of the log.
pub proof fn lemma_locate_finds<M: FBMessage>(
    log: Seq<M>,
    target: Timestamp,
    cursor: int,
    st: ForwardState<M>,
)
    requires
        0 <= cursor <= log.len(),
        st.phase is Locate,
    ensures
        ({
            let end = locate_end(log, target, cursor, st);
            let first = first_at_or_after(log, target, cursor);
            &&& cursor <= first <= log.len()
            &&& end.0.phase is Ready
            &&& end.0.results == st.results
            &&& first < log.len() ==> end.0.message == Some(log[first]) && end.1 == first + 1
                && log[first].spec_timestamp().key() >= target.key()
            &&& first == log.len() ==> end.0.message == st.message && end.1 == log.len()
            &&& forall|i: int| cursor <= i < first ==> (#[trigger] log[i]).spec_timestamp().key()
                < target.key()
        }),
    decreases log.len() - cursor,
{
    if cursor < log.len() {
        let next = st.located(target, Some(log[cursor]));
        if next.phase is Locate {
            lemma_locate_finds(log, target, cursor + 1, next);
        }
    }
}

/// The records from `start` to the end of the frames collected from there span at
/// most `left` frames. Where the log goes on, they span exactly `left` frames, and
/// the record that follows them was sampled at another time than the last of them.
pub proof fn lemma_frames_end<M: FBMessage>(log: Seq<M>, start: int, from: int, left: usize)
    requires
        0 <= start < from <= log.len(),
        left >= 1,
    ensures
        ({
            let stop = frames_end(log, from, log[from - 1].spec_timestamp(), left);
            let before = frame_breaks(log.subrange(start, from));
            let within = frame_breaks(log.subrange(start, stop));
            &&& from <= stop <= log.len()
            &&& before <= within <= before + left - 1
            &&& stop < log.len() ==> within == before + left - 1 && log[stop].spec_timestamp()
                != log[stop - 1].spec_timestamp()
        }),
    decreases log.len() - from,
{
    if from < log.len() {
        let longer = log.subrange(start, from + 1);
        assert(longer.drop_last() =~= log.subrange(start, from));
        assert(longer[longer.len() - 1] == log[from]);
        assert(longer[longer.len() - 2] == log[from - 1]);
        if log[from].spec_timestamp() == log[from - 1].spec_timestamp() {
            lemma_frames_end(log, start, from + 1, left);
        } else if left > 1 {
            lemma_frames_end(log, start, from + 1, (left - 1) as usize);
        }
    }
}

/// A forward scan collects the accepted records of the frames that begin with the
/// first record at or behind the cursor that is not earlier than the target: of at
/// most `number` frames, in the order of the log, and of exactly `number` unless the
/// log ends before. It collects nothing where there is no such record.
pub proof fn lemma_scan_collects<M: FBMessage>(
    log: Seq<M>,
    target: Timestamp,
    ids: Seq<DigitizerId>,
    number: usize,
    cursor: int,
)
    requires
        0 <= cursor <= log.len(),
        number >= 1,
    ensures
        ({
            let end = scan_end(log, target, ids, number, cursor);
            let first = first_at_or_after(log, target, cursor);
            &&& first == log.len() ==> end.0.results == Seq::<M>::empty() && end.1 == log.len()
            &&& first < log.len() ==> {
                let stop = frames_end(log, first + 1, log[first].spec_timestamp(), number);
                &&& first < stop <= log.len()
                &&& end.0.results == log.subrange(first, stop).filter(accepts(ids))
                &&& frame_breaks(log.subrange(first, stop)) <= number - 1
                &&& stop < log.len() ==> frame_breaks(log.subrange(first, stop)) == number - 1
                    && log[stop].spec_timestamp() != log[stop - 1].spec_timestamp()
                    && end.0.message == Some(log[stop]) && end.1 == stop + 1
                &&& stop == log.len() ==> end.1 == log.len()
            }
        }),
{
    let keep = accepts::<M>(ids);
    let fresh = ForwardState {
        results: Seq::<M>::empty(),
        message: None::<M>,
        phase: ForwardPhase::Locate,
    };
    lemma_locate_finds(log, target, cursor, fresh);
    let found = locate_end(log, target, cursor, fresh);
    let first = first_at_or_after(log, target, cursor);
    let begun = found.0.begun(ids, number);
    reveal_with_fuel(Seq::filter, 2);
    if first < log.len() {
        let m = log[first];
        let stop = frames_end(log, first + 1, m.spec_timestamp(), number);
        lemma_acquire_collects(log, ids, first + 1, begun);
        lemma_frames_end(log, first, first + 1, number);
        let head = log.subrange(first, first + 1);
        let tail = log.subrange(first + 1, stop);
        assert(log.subrange(first, stop) =~= head + tail);
        Seq::filter_distributes_over_add(head, tail, keep);
        assert(head.drop_last() =~= Seq::<M>::empty());
        assert(head.last() == m);
        assert(head.filter(keep) =~= (if keep(m) {
            seq![m]
        } else {
            Seq::<M>::empty()
        }));
        assert(begun.results =~= head.filter(keep));
        assert(frame_breaks(head) == 0);
    }
}

/// A search depends on the records of the log alone: two searches of the same
/// records for the same target collect the same records, wherever an earlier
/// search has left the cursor of the log.
pub proof fn lemma_search_repeatable(
    first: MemoryLog,
    second: MemoryLog,
    target: Timestamp,
    ids: Seq<DigitizerId>,
    number: usize,
    steps: Steps,
)
    requires
        first.records() == second.records(),
    ensures
        search_results(first.records(), target, ids, number, steps) == search_results(
            second.records(),
            target,
            ids,
            number,
            steps,
        ),
{
}

/// A search that is told to halt before it has said how it ended asks for nothing
/// more than to send `Halted`. Once that is sent it is over, asks for nothing, and
/// hands out no cache, whatever it had collected. To tell it again changes nothing.
pub proof fn lemma_halt_ends_search(
    state: SearchTaskState,
    target: SearchTarget,
    steps: Steps,
    event: TaskEvent,
)
    requires
        !state.is_over(),
    ensures
        ({
            let halting = state.halted();
            let ended = halting.next(target, steps, event);
            &&& halting.request(steps) == TaskRequest::Emit(SearchStatus::Halted)
            &&& halting.outcome() is None
            &&& halting.halted() == halting
            &&& ended.stage is Halted
            &&& ended.request(steps) == TaskRequest::Finished
            &&& ended.outcome() is None
            &&& ended.halted() == ended
            &&& ended.next(target, steps, event) == ended
        }),
{
}

/// A search that has said how it ended stays as it is, whether it is told to halt
/// or handed an event: one that has succeeded keeps its cache.
pub proof fn lemma_over_is_final(
    state: SearchTaskState,
    target: SearchTarget,
    steps: Steps,
    event: TaskEvent,
)
    requires
        state.is_over(),
    ensures
        state.halted() == state,
        state.next(target, steps, event) == state,
        state.request(steps) == TaskRequest::Finished,
{
}

/// How far the search of one log has come, with `passes` passes to run: its stages
/// in their order, the passes from the coarsest down.
pub open spec fn topic_rank(stage: TopicStage, passes: u32) -> int {
    match stage {
        TopicStage::Announce => 0,
        TopicStage::Open => 1,
        TopicStage::PassAnnounce { pass } => 2 + 2 * (passes - 1 - pass),
        TopicStage::Pass { pass } => 3 + 2 * (passes - 1 - pass),
        TopicStage::Bridge => 2 + 2 * passes,
        TopicStage::Scan => 3 + 2 * passes,
        TopicStage::Report => 4 + 2 * passes,
        TopicStage::Done => 5 + 2 * passes,
    }
}

/// The search of one log never goes back to an earlier stage, and goes on to a
/// later one whenever it has reported its progress. The progress that it reports
/// is the number of passes that are over, then one more when the forward scan is
/// over: it never exceeds the number of passes and one, and never falls.
pub proof fn lemma_topic_goes_forward<M: FBMessage>(
    state: TopicSearchState<M>,
    target: Timestamp,
    ids: Seq<DigitizerId>,
    number: usize,
    steps: Steps,
    fetched: Option<M>,
)
    requires
        state.wf(steps),
    ensures
        ({
            let next = state.next(target, ids, number, steps, fetched);
            let passes = steps.num_step_passes;
            &&& next.wf(steps)
            &&& topic_rank(next.stage, passes) >= topic_rank(state.stage, passes)
            &&& state.request(steps) is Progress ==> topic_rank(next.stage, passes) > topic_rank(
                state.stage,
                passes,
            )
            &&& state.request(steps) matches TopicRequest::Progress(done) ==> done <= passes + 1
            &&& state.request(steps) matches TopicRequest::Progress(done) ==> (next.request(
                steps,
            ) matches TopicRequest::Progress(then) ==> done <= then)
        }),
{
    if let TopicStage::PassAnnounce { pass } = state.stage {
        lemma_step_grows(steps, pass as nat, pass as nat);
    }
}

/// How far a search has come: the trace log, the event-list log, its last status,
/// its end.
pub open spec fn task_rank(stage: TaskStage) -> int {
    match stage {
        TaskStage::Traces => 0,
        TaskStage::EventLists => 1,
        TaskStage::Closing => 2,
        TaskStage::Halting => 2,
        TaskStage::Succeeded => 3,
        TaskStage::Halted => 3,
    }
}

/// A search never goes back: it says `Successful` only after both logs were
/// searched, and sends a status of the event-list log only after the search of the
/// trace log is over.
pub proof fn lemma_search_goes_forward(
    state: SearchTaskState,
    target: SearchTarget,
    steps: Steps,
    event: TaskEvent,
)
    ensures
        task_rank(state.next(target, steps, event).stage) >= task_rank(state.stage),
        task_rank(state.halted().stage) >= task_rank(state.stage),
        state.request(steps) == TaskRequest::Emit(SearchStatus::Successful) ==> state.stage
            is Closing,
        state.next(target, steps, event).stage is Closing && !(state.stage is Closing)
            ==> state.stage is EventLists && state.next(target, steps, event).events.stage
            is Done,
        state.next(target, steps, event).stage is EventLists && !(state.stage is EventLists)
            ==> state.stage is Traces && state.next(target, steps, event).traces.stage is Done,
{
}

} // verus!
