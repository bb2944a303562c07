//! The two scans of one log, as step functions.
//!
//! A scan never reads the log itself. It says which fetch it waits for, and is
//! handed what that fetch brought.
use crate::finder::{accepted, SearchTarget};
use crate::messages::FBMessage;
use crate::{DigitizerId, Timestamp};
use vstd::prelude::*;

verus! {

/// Whether a fetch brought a record that is later than `target`.
pub open spec fn is_later(fetched: Option<Timestamp>, target: Timestamp) -> bool {
    fetched matches Some(t) && t.key() > target.key()
}

/// Where a pass of the backward search stands.
#[derive(Clone, Copy, Debug, PartialEq, Eq, Structural)]
pub enum BackstepPhase {
    /// It waits for the record at its offset.
    Current,
    /// It waits for the record one step beyond its offset.
    Probe,
    /// It waits for nothing: no pass has begun, or the last one is over.
    Finished,
}

/// The backward search, as contracts see it.
pub struct BackstepState {
    /// The trailing offset that the search has settled on so far.
    pub offset: int,
    /// The step of the current pass.
    pub step: int,
    pub phase: BackstepPhase,
}

impl BackstepState {
    /// The trailing offset of the record that the search waits for.
    pub open spec fn request(self) -> Option<int> {
        match self.phase {
            BackstepPhase::Current => Some(self.offset),
            BackstepPhase::Probe => Some(self.offset + self.step),
            BackstepPhase::Finished => None,
        }
    }

    /// The search after the fetch that it waited for brought `fetched`.
    ///
    /// A pass goes on while the record at its offset and the record one step
    /// beyond are both later than the target, and moves its offset by that step
    /// each time. It ends without a probe where the offset one step beyond is
    /// outside of what a trailing offset can be.
    pub open spec fn next(self, target: Timestamp, fetched: Option<Timestamp>) -> BackstepState {
        match self.phase {
            BackstepPhase::Current => if is_later(fetched, target) && i64::MIN <= self.offset
                + self.step <= i64::MAX {
                BackstepState { phase: BackstepPhase::Probe, ..self }
            } else {
                BackstepState { phase: BackstepPhase::Finished, ..self }
            },
            BackstepPhase::Probe => if is_later(fetched, target) {
                BackstepState {
                    offset: self.offset + self.step,
                    phase: BackstepPhase::Current,
                    ..self
                }
            } else {
                BackstepState { phase: BackstepPhase::Finished, ..self }
            },
            BackstepPhase::Finished => self,
        }
    }
}

/// Where the forward scan stands.
#[derive(Clone, Copy, Debug, PartialEq, Eq, Structural)]
pub enum ForwardPhase {
    /// It looks for the first record at or after the target.
    Locate,
    /// It has looked: the record it found, if any, is pending.
    Ready,
    /// It collects the frame sampled at `frame`, the first of `left` still to come.
    Acquire { frame: Timestamp, left: usize },
    /// It is over.
    Finished,
}

/// The forward scan, as contracts see it.
pub struct ForwardState<M> {
    /// The records kept so far, in the order of the log.
    pub results: Seq<M>,
    /// A record that was fetched and belongs to no frame collected so far.
    pub message: Option<M>,
    pub phase: ForwardPhase,
}

/// `results` with `m` behind it where its digitiser is one of `ids`.
pub open spec fn keep_accepted<M: FBMessage>(results: Seq<M>, ids: Seq<DigitizerId>, m: M) -> Seq<
    M,
> {
    if accepted(ids, m.spec_digitiser_id()) {
        results.push(m)
    } else {
        results
    }
}

impl<M: FBMessage> ForwardState<M> {
    /// Whether the scan waits for the next record of the log.
    pub open spec fn wants_next(self) -> bool {
        self.phase is Locate || self.phase is Acquire
    }

    /// The scan after the next record was fetched while it looked for the first
    /// record at or after `target`: it goes on looking past an earlier record, and
    /// is ready once a record is found or the log has no more.
    pub open spec fn located(self, target: Timestamp, fetched: Option<M>) -> ForwardState<M> {
        if !(self.phase is Locate) {
            self
        } else {
            match fetched {
                Some(m) => if m.spec_timestamp().key() >= target.key() {
                    ForwardState { message: Some(m), phase: ForwardPhase::Ready, ..self }
                } else {
                    self
                },
                None => ForwardState { phase: ForwardPhase::Ready, ..self },
            }
        }
    }

    /// The scan after it was told to collect `number` frames of the digitisers
    /// `ids`: the pending record opens the first frame. With no pending record, or
    /// no frame to collect, it is over.
    pub open spec fn begun(self, ids: Seq<DigitizerId>, number: usize) -> ForwardState<M> {
        if !(self.phase is Ready) {
            self
        } else {
            match self.message {
                Some(m) => if number == 0 {
                    ForwardState { phase: ForwardPhase::Finished, ..self }
                } else {
                    ForwardState {
                        results: keep_accepted(self.results, ids, m),
                        message: None,
                        phase: ForwardPhase::Acquire { frame: m.spec_timestamp(), left: number },
                    }
                },
                None => ForwardState { phase: ForwardPhase::Finished, ..self },
            }
        }
    }

    /// The scan after the next record was fetched while it collected frames. A
    /// record of the current frame is kept if its digitiser is accepted. A record
    /// with another timestamp ends the frame: it opens the next frame, or, after
    /// the last frame, stays pending. With no record, the scan is over.
    pub open spec fn acquired(self, ids: Seq<DigitizerId>, fetched: Option<M>) -> ForwardState<M> {
        match self.phase {
            ForwardPhase::Acquire { frame, left } => match fetched {
                Some(m) => if m.spec_timestamp() == frame {
                    ForwardState { results: keep_accepted(self.results, ids, m), ..self }
                } else if left <= 1 {
                    ForwardState { message: Some(m), phase: ForwardPhase::Finished, ..self }
                } else {
                    ForwardState {
                        results: keep_accepted(self.results, ids, m),
                        phase: ForwardPhase::Acquire {
                            frame: m.spec_timestamp(),
                            left: (left - 1) as usize,
                        },
                        ..self
                    }
                },
                None => ForwardState { phase: ForwardPhase::Finished, ..self },
            },
            _ => self,
        }
    }
}

/// A position in one log, and the records collected there.
pub struct Searcher<M> {
    /// Current trailing offset.
    offset: i64,
    /// Results accumulate here.
    results: Vec<M>,
}

impl<M> Searcher<M> {
    pub closed spec fn spec_offset(&self) -> i64 {
        self.offset
    }

    pub closed spec fn spec_results(&self) -> Seq<M> {
        self.results@
    }

    /// A searcher at trailing offset `offset`, with no results.
    pub fn new(offset: i64) -> (s: Self)
        ensures
            s.spec_offset() == offset,
            s.spec_results() == Seq::<M>::empty(),
    {
        Searcher { offset, results: Vec::new() }
    }

    /// Consumes the searcher and makes a backward search of it, with no pass begun.
    pub fn iter_backstep(self) -> (it: BackstepIter<M>)
        ensures
            it@ == (BackstepState {
                offset: self.spec_offset() as int,
                step: 0,
                phase: BackstepPhase::Finished,
            }),
            it.spec_results() == self.spec_results(),
    {
        BackstepIter { inner: self, step_size: None, phase: BackstepPhase::Finished }
    }

    /// Gets the offset.
    pub fn get_offset(&self) -> (offset: i64)
        ensures
            offset == self.spec_offset(),
    {
        self.offset
    }

    /// Hands out the results, when the caller is finished with the searcher.
    pub fn into_results(self) -> (results: Vec<M>)
        ensures
            results@ == self.spec_results(),
    {
        self.results
    }
}

impl<M: FBMessage> Searcher<M> {
    /// Consumes the searcher and makes a forward scan of it, which looks for its
    /// first record.
    pub fn iter_forward(self) -> (it: ForwardSearchIter<M>)
        ensures
            it@ == (ForwardState {
                results: self.spec_results(),
                message: None::<M>,
                phase: ForwardPhase::Locate,
            }),
            it.spec_offset() == self.spec_offset(),
    {
        ForwardSearchIter { inner: self, message: None, phase: ForwardPhase::Locate }
    }
}

/// The backward search on one log, from the searcher's offset.
///
/// It moves the searcher's offset and collects nothing.
pub struct BackstepIter<M> {
    inner: Searcher<M>,
    step_size: Option<i64>,
    phase: BackstepPhase,
}

impl<M> BackstepIter<M> {
    #[verifier::type_invariant]
    spec fn inv(self) -> bool {
        &&& self.phase is Probe ==> self.step_size is Some && i64::MIN <= self.inner.offset
            + self.step_size->0 <= i64::MAX
        &&& self.phase is Current ==> self.step_size is Some
    }

    pub closed spec fn view(&self) -> BackstepState {
        BackstepState {
            offset: self.inner.offset as int,
            step: match self.step_size {
                Some(s) => s as int,
                None => 0,
            },
            phase: self.phase,
        }
    }

    pub closed spec fn spec_results(&self) -> Seq<M> {
        self.inner.results@
    }

    /// Sets the step and begins a pass at the offset reached so far.
    pub fn step_size(&mut self, step_size: i64)
        ensures
            final(self)@ == (BackstepState {
                offset: old(self)@.offset,
                step: step_size as int,
                phase: BackstepPhase::Current,
            }),
            final(self).spec_results() == old(self).spec_results(),
    {
        proof {
            use_type_invariant(&*self);
        }
        // No pass is under way while the step changes.
        self.phase = BackstepPhase::Finished;
        self.step_size = Some(step_size);
        self.phase = BackstepPhase::Current;
    }

    /// The trailing offset of the record that the search waits for; `None` when no
    /// pass is under way.
    pub fn request(&self) -> (r: Option<i64>)
        ensures
            r is Some <==> self@.request() is Some,
            r matches Some(offset) ==> self@.request() == Some(offset as int),
    {
        proof {
            use_type_invariant(self);
        }
        match self.phase {
            BackstepPhase::Current => Some(self.inner.offset),
            BackstepPhase::Probe => {
                let step = self.step_size.unwrap();
                Some(self.inner.offset + step)
            },
            BackstepPhase::Finished => None,
        }
    }

    /// Takes the timestamp of the record that was fetched at the requested offset,
    /// `None` where there was no record, and goes on with the pass.
    pub fn backstep_until_time(&mut self, target: &Timestamp, fetched: Option<Timestamp>)
        ensures
            final(self)@ == old(self)@.next(*target, fetched),
            final(self).spec_results() == old(self).spec_results(),
    {
        proof {
            use_type_invariant(&*self);
        }
        let later = match fetched {
            Some(t) => t.is_after(target),
            None => false,
        };
        match self.phase {
            BackstepPhase::Current => {
                let step = self.step_size.unwrap();
                if later && self.inner.offset.checked_add(step).is_some() {
                    self.phase = BackstepPhase::Probe;
                } else {
                    self.phase = BackstepPhase::Finished;
                }
            },
            BackstepPhase::Probe => {
                if later {
                    let step = self.step_size.unwrap();
                    // The probe is over before the offset moves.
                    self.phase = BackstepPhase::Current;
                    self.inner.offset = self.inner.offset + step;
                } else {
                    self.phase = BackstepPhase::Finished;
                }
            },
            BackstepPhase::Finished => {},
        }
    }

    /// Consumes the search and returns the searcher, at the offset reached.
    pub fn collect(self) -> (s: Searcher<M>)
        ensures
            s.spec_offset() == self@.offset,
            s.spec_results() == self.spec_results(),
    {
        self.inner
    }
}

/// The forward scan on one log, one record at a time.
///
/// It collects results and leaves the searcher's offset as it was.
pub struct ForwardSearchIter<M> {
    inner: Searcher<M>,
    message: Option<M>,
    phase: ForwardPhase,
}

impl<M: FBMessage> ForwardSearchIter<M> {
    pub closed spec fn view(&self) -> ForwardState<M> {
        ForwardState { results: self.inner.results@, message: self.message, phase: self.phase }
    }

    pub closed spec fn spec_offset(&self) -> i64 {
        self.inner.offset
    }

    /// Whether the scan waits for the next record of the log.
    pub fn wants_next(&self) -> (b: bool)
        ensures
            b == self@.wants_next(),
    {
        match self.phase {
            ForwardPhase::Locate => true,
            ForwardPhase::Acquire { .. } => true,
            _ => false,
        }
    }

    /// Whether the scan looks for its first record.
    pub fn is_locating(&self) -> (b: bool)
        ensures
            b == (self@.phase is Locate),
    {
        match self.phase {
            ForwardPhase::Locate => true,
            _ => false,
        }
    }

    /// Takes the next record of the log, `None` where it has no more, while the
    /// scan looks for the first record at or after `target`.
    pub fn move_until(&mut self, target: &Timestamp, fetched: Option<M>)
        ensures
            final(self)@ == old(self)@.located(*target, fetched),
            final(self).spec_offset() == old(self).spec_offset(),
    {
        match self.phase {
            ForwardPhase::Locate => {
                match fetched {
                    Some(m) => {
                        if m.timestamp().is_at_or_after(target) {
                            self.message = Some(m);
                            self.phase = ForwardPhase::Ready;
                        }
                    },
                    None => {
                        self.phase = ForwardPhase::Ready;
                    },
                }
            },
            _ => {},
        }
    }

    /// Begins to collect `number` frames of the digitisers that `target` accepts,
    /// from the record that was found.
    pub fn begin_acquire(&mut self, target: &SearchTarget, number: usize)
        ensures
            final(self)@ == old(self)@.begun(target.digitiser_ids@, number),
            final(self).spec_offset() == old(self).spec_offset(),
    {
        match self.phase {
            ForwardPhase::Ready => {
                if number == 0 {
                    self.phase = ForwardPhase::Finished;
                } else {
                    match self.message.take() {
                        Some(m) => {
                            let frame = m.timestamp();
                            if target.accepts(m.digitiser_id()) {
                                self.inner.results.push(m);
                            }
                            self.phase = ForwardPhase::Acquire { frame, left: number };
                        },
                        None => {
                            self.phase = ForwardPhase::Finished;
                        },
                    }
                }
            },
            _ => {},
        }
    }

    /// Takes the next record of the log, `None` where it has no more, while the
    /// scan collects frames.
    pub fn acquire_while(&mut self, target: &SearchTarget, fetched: Option<M>)
        ensures
            final(self)@ == old(self)@.acquired(target.digitiser_ids@, fetched),
            final(self).spec_offset() == old(self).spec_offset(),
    {
        match self.phase {
            ForwardPhase::Acquire { frame, left } => {
                match fetched {
                    Some(m) => {
                        let stamp = m.timestamp();
                        if stamp == frame {
                            if target.accepts(m.digitiser_id()) {
                                self.inner.results.push(m);
                            }
                        } else if left <= 1 {
                            self.message = Some(m);
                            self.phase = ForwardPhase::Finished;
                        } else {
                            if target.accepts(m.digitiser_id()) {
                                self.inner.results.push(m);
                            }
                            self.phase = ForwardPhase::Acquire { frame: stamp, left: left - 1 };
                        }
                    },
                    None => {
                        self.phase = ForwardPhase::Finished;
                    },
                }
            },
            _ => {},
        }
    }

    /// The record that was fetched and belongs to no frame collected so far.
    pub fn pending(&self) -> (message: Option<&M>)
        ensures
            message is Some <==> self@.message is Some,
            message matches Some(m) ==> self@.message == Some(*m),
    {
        self.message.as_ref()
    }

    /// Consumes the scan and returns the searcher, with the results collected.
    pub fn collect(self) -> (s: Searcher<M>)
        ensures
            s.spec_offset() == self.spec_offset(),
            s.spec_results() == self@.results,
    {
        self.inner
    }
}

} // verus!
