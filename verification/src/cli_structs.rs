//! Settings that the operator gives on the command line.
use crate::{Channel, Intensity, Time, Timestamp};
use vstd::arithmetic::power::{lemma_pow0, lemma_pow_increases, lemma_pow_positive, pow};
use vstd::prelude::*;

verus! {

/// The two logs that are searched.
#[derive(Clone, Debug)]
pub struct Topics {
    /// Name of the log of digitiser traces.
    pub trace_topic: String,
    /// Name of the log of digitiser event lists.
    pub digitiser_event_topic: String,
}

/// Limits of a graph that the operator fixed; a limit left out is taken from the data.
#[derive(Clone, Copy, Debug)]
pub struct UserBounds {
    pub time_min: Option<Time>,
    pub time_max: Option<Time>,
    pub intensity_min: Option<Intensity>,
    pub intensity_max: Option<Intensity>,
}

/// Which records a collection run keeps.
#[derive(Clone, Copy, Debug, PartialEq, Eq, Structural)]
pub enum CollectType {
    /// Digitiser traces only.
    Traces,
    /// Digitiser event lists only.
    Events,
    /// Traces, each with the event list of its frame.
    All,
}

/// How the backward search steps through a log.
///
/// Pass `p` of `num_step_passes`, counted down to 0, steps by
/// `min_step_size * step_mul_coef^p` records.
#[derive(Clone, Copy, Debug, PartialEq, Eq, Structural)]
pub struct Steps {
    /// Step of the last, finest pass.
    pub min_step_size: i64,
    /// Factor between the steps of consecutive passes.
    pub step_mul_coef: i64,
    /// Number of passes.
    pub num_step_passes: u32,
}

/// What to look for at start-up.
#[derive(Clone, Copy, Debug)]
pub struct Select {
    /// The timestamp of the frame to search for.
    pub timestamp: Timestamp,
    pub step: Steps,
    /// The channel to search for.
    pub channel: Channel,
}

impl Steps {
    /// The step of pass `pass`.
    pub open spec fn step_size_at(self, pass: nat) -> int {
        self.min_step_size * pow(self.step_mul_coef as int, pass)
    }

    /// The settings that a search can run on: steps of at least one record, and a
    /// largest step and a pass count, plus one, that the machine can hold.
    pub open spec fn wf(self) -> bool {
        &&& self.min_step_size >= 1
        &&& self.step_mul_coef >= 1
        &&& self.num_step_passes < u32::MAX
        &&& self.num_step_passes >= 1 ==> self.step_size_at((self.num_step_passes - 1) as nat)
            <= i64::MAX
    }

    /// Decides `wf`.
    pub fn is_valid(&self) -> (b: bool)
        ensures
            b == self.wf(),
    {
        if self.min_step_size < 1 || self.step_mul_coef < 1 || self.num_step_passes == u32::MAX {
            return false;
        }
        if self.num_step_passes == 0 {
            return true;
        }
        let top: u32 = self.num_step_passes - 1;
        if self.step_mul_coef == 1 {
            proof {
                lemma_pow_one(top as nat);
            }
            return true;
        }
        let mut acc: i64 = self.min_step_size;
        let mut i: u32 = 0;
        proof {
            lemma_pow0(self.step_mul_coef as int);
        }
        while i < top
            invariant
                i <= top,
                top == self.num_step_passes - 1,
                self.min_step_size >= 1,
                self.step_mul_coef >= 2,
                acc == self.step_size_at(i as nat),
                acc >= 1,
            decreases top - i,
        {
            proof {
                lemma_step_succ(*self, i as nat);
                lemma_step_grows(*self, (i + 1) as nat, top as nat);
            }
            match acc.checked_mul(self.step_mul_coef) {
                Some(next) => {
                    acc = next;
                },
                None => {
                    return false;
                },
            }
            i += 1;
        }
        true
    }

    /// Computes the step of pass `pass`.
    pub fn step_size(&self, pass: u32) -> (s: i64)
        requires
            self.wf(),
            pass < self.num_step_passes,
        ensures
            s == self.step_size_at(pass as nat),
            s >= 1,
    {
        let mut acc: i64 = self.min_step_size;
        let mut i: u32 = 0;
        proof {
            lemma_pow0(self.step_mul_coef as int);
        }
        while i < pass
            invariant
                i <= pass,
                pass < self.num_step_passes,
                self.wf(),
                acc == self.step_size_at(i as nat),
                acc >= 1,
            decreases pass - i,
        {
            proof {
                lemma_step_succ(*self, i as nat);
                lemma_step_grows(*self, (i + 1) as nat, (self.num_step_passes - 1) as nat);
                lemma_step_grows(*self, i as nat, (i + 1) as nat);
            }
            acc = acc * self.step_mul_coef;
            i += 1;
        }
        acc
    }
}

/// Every power of one is one.
proof fn lemma_pow_one(e: nat)
    ensures
        pow(1, e) == 1,
    decreases e,
{
    reveal(pow);
    if e > 0 {
        lemma_pow_one((e - 1) as nat);
    }
}

/// The step of a pass is the step of the pass below it times the coefficient.
pub proof fn lemma_step_succ(steps: Steps, pass: nat)
    ensures
        steps.step_size_at(pass + 1) == steps.step_size_at(pass) * steps.step_mul_coef,
{
    reveal(pow);
    let c = steps.step_mul_coef as int;
    let s = steps.min_step_size as int;
    let p = pow(c, pass);
    assert(pow(c, pass + 1) == c * p);
    assert(s * (c * p) == (s * p) * c) by (nonlinear_arith);
}

/// With a step of at least one and a coefficient of at least one, no pass has a
/// smaller step than a pass below it, and no step is smaller than one.
pub proof fn lemma_step_grows(steps: Steps, low: nat, high: nat)
    requires
        steps.min_step_size >= 1,
        steps.step_mul_coef >= 1,
        low <= high,
    ensures
        1 <= steps.step_size_at(low) <= steps.step_size_at(high),
{
    let c = steps.step_mul_coef as int;
    let s = steps.min_step_size as int;
    lemma_pow_positive(c, low);
    lemma_pow_increases(c as nat, low, high);
    let a = pow(c, low);
    let b = pow(c, high);
    assert(1 <= s * a && s * a <= s * b) by (nonlinear_arith)
        requires
            s >= 1,
            1 <= a <= b,
    ;
}

} // verus!
