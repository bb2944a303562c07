//! The limits of a graph of traces and events.
use crate::cli_structs::UserBounds;
use crate::data::{DigitiserEventList, DigitiserTrace, Event, EventList, Trace};
use crate::{Channel, Intensity, Time};
use vstd::prelude::*;

verus! {

/// The smallest of `s`; 0 for the empty sequence.
pub open spec fn least(s: Seq<int>) -> int
    decreases s.len(),
{
    if s.len() == 0 {
        0
    } else if s.len() == 1 {
        s[0]
    } else if s.last() < least(s.drop_last()) {
        s.last()
    } else {
        least(s.drop_last())
    }
}

/// The largest of `s`; 0 for the empty sequence.
pub open spec fn greatest(s: Seq<int>) -> int
    decreases s.len(),
{
    if s.len() == 0 {
        0
    } else if s.len() == 1 {
        s[0]
    } else if s.last() > greatest(s.drop_last()) {
        s.last()
    } else {
        greatest(s.drop_last())
    }
}

/// The least and the greatest of a sequence that is not empty are among its
/// elements, and no element is smaller than the one or larger than the other.
pub proof fn lemma_least_greatest(s: Seq<int>)
    requires
        s.len() > 0,
    ensures
        s.contains(least(s)),
        s.contains(greatest(s)),
        forall|i: int| 0 <= i < s.len() ==> least(s) <= #[trigger] s[i] <= greatest(s),
    decreases s.len(),
{
    if s.len() == 1 {
        assert(s[0] == least(s));
    } else {
        let t = s.drop_last();
        lemma_least_greatest(t);
        let a = choose|i: int| 0 <= i < t.len() && t[i] == least(t);
        let b = choose|i: int| 0 <= i < t.len() && t[i] == greatest(t);
        assert(s[a] == least(t));
        assert(s[b] == greatest(t));
        assert(s[s.len() - 1] == s.last());
        assert forall|i: int| 0 <= i < s.len() implies least(s) <= #[trigger] s[i] <= greatest(
            s,
        ) by {
            if i < t.len() {
                assert(t[i] == s[i]);
            }
        }
    }
}

/// The samples of a trace, as integers.
pub open spec fn samples(trace: Seq<Intensity>) -> Seq<int> {
    trace.map_values(|x: Intensity| x as int)
}

/// The time bins of a list of events.
pub open spec fn times(events: Seq<Event>) -> Seq<int> {
    events.map_values(|e: Event| e.time as int)
}

/// The intensities of a list of events.
pub open spec fn intensities(events: Seq<Event>) -> Seq<int> {
    events.map_values(|e: Event| e.intensity as int)
}

/// The limits of a graph: the time bins and the intensities that it shows.
#[derive(Clone, Copy, Debug, PartialEq, Eq, Structural)]
pub struct Bounds {
    /// Minimum time bin to graph.
    pub time_min: Time,
    /// Maximum time bin to graph.
    pub time_max: Time,
    /// Minimum intensity value to graph.
    pub intensity_min: Intensity,
    /// Maximum intensity value to graph.
    pub intensity_max: Intensity,
}

/// The limits that hold both of two, where there are two.
pub open spec fn merge_some(a: Option<Bounds>, b: Option<Bounds>) -> Option<Bounds> {
    match a {
        Some(x) => match b {
            Some(y) => Some(x.spec_merge(y)),
            None => a,
        },
        None => b,
    }
}

/// The limits of a trace: its bins from 0 to its length, counted as a time bin is,
/// and its samples from the least to the greatest. An empty trace has none.
pub open spec fn trace_bounds(trace: Seq<Intensity>) -> Option<Bounds> {
    if trace.len() == 0 {
        None
    } else {
        Some(
            Bounds {
                time_min: 0,
                time_max: (trace.len() % 0x1_0000_0000) as Time,
                intensity_min: least(samples(trace)) as Intensity,
                intensity_max: greatest(samples(trace)) as Intensity,
            },
        )
    }
}

/// The limits of a list of events: from the least to the greatest of their time
/// bins and of their intensities. An empty list has none.
pub open spec fn event_list_bounds(events: Seq<Event>) -> Option<Bounds> {
    if events.len() == 0 {
        None
    } else {
        Some(
            Bounds {
                time_min: least(times(events)) as Time,
                time_max: greatest(times(events)) as Time,
                intensity_min: least(intensities(events)) as Intensity,
                intensity_max: greatest(intensities(events)) as Intensity,
            },
        )
    }
}

/// The limits that hold the first `n` of the traces.
pub open spec fn traces_bounds(entries: Seq<(Channel, Trace)>, n: nat) -> Option<Bounds>
    decreases n,
{
    if n == 0 {
        None
    } else {
        merge_some(traces_bounds(entries, (n - 1) as nat), trace_bounds(entries[n - 1].1@))
    }
}

/// The limits that hold the first `n` of the event lists.
pub open spec fn event_lists_bounds(entries: Seq<(Channel, EventList)>, n: nat) -> Option<Bounds>
    decreases n,
{
    if n == 0 {
        None
    } else {
        merge_some(
            event_lists_bounds(entries, (n - 1) as nat),
            event_list_bounds(entries[n - 1].1@),
        )
    }
}

impl Bounds {
    /// The limits that hold both `self` and `bound`.
    pub open spec fn spec_merge(self, bound: Bounds) -> Bounds {
        Bounds {
            time_min: if self.time_min <= bound.time_min {
                self.time_min
            } else {
                bound.time_min
            },
            time_max: if self.time_max >= bound.time_max {
                self.time_max
            } else {
                bound.time_max
            },
            intensity_min: if self.intensity_min <= bound.intensity_min {
                self.intensity_min
            } else {
                bound.intensity_min
            },
            intensity_max: if self.intensity_max >= bound.intensity_max {
                self.intensity_max
            } else {
                bound.intensity_max
            },
        }
    }

    /// Computes `spec_merge`.
    pub fn merge(self, bound: Self) -> (merged: Self)
        ensures
            merged == self.spec_merge(bound),
    {
        Bounds {
            time_min: if self.time_min <= bound.time_min {
                self.time_min
            } else {
                bound.time_min
            },
            time_max: if self.time_max >= bound.time_max {
                self.time_max
            } else {
                bound.time_max
            },
            intensity_min: if self.intensity_min <= bound.intensity_min {
                self.intensity_min
            } else {
                bound.intensity_min
            },
            intensity_max: if self.intensity_max >= bound.intensity_max {
                self.intensity_max
            } else {
                bound.intensity_max
            },
        }
    }

    /// The limits of `trace`.
    pub fn from_trace(trace: &Trace) -> (bounds: Option<Self>)
        ensures
            bounds == trace_bounds(trace@),
    {
        if trace.len() == 0 {
            return None;
        }
        let mut low: Intensity = trace[0];
        let mut high: Intensity = trace[0];
        let mut i: usize = 1;
        proof {
            assert(samples(trace@).take(1) =~= seq![trace@[0] as int]);
        }
        while i < trace.len()
            invariant
                1 <= i <= trace.len(),
                low == least(samples(trace@).take(i as int)),
                high == greatest(samples(trace@).take(i as int)),
            decreases trace.len() - i,
        {
            proof {
                let next = samples(trace@).take(i + 1);
                assert(next.drop_last() =~= samples(trace@).take(i as int));
                assert(next.last() == trace@[i as int]);
            }
            let sample = trace[i];
            if sample < low {
                low = sample;
            }
            if sample > high {
                high = sample;
            }
            i += 1;
        }
        proof {
            assert(samples(trace@).take(trace@.len() as int) =~= samples(trace@));
        }
        let bins: u64 = (trace.len() as u64) % 0x1_0000_0000;
        Some(Bounds { time_min: 0, time_max: bins as Time, intensity_min: low, intensity_max: high })
    }

    /// The limits of `events`.
    pub fn from_events_list(events: &EventList) -> (bounds: Option<Self>)
        ensures
            bounds == event_list_bounds(events@),
    {
        if events.len() == 0 {
            return None;
        }
        let first = events[0];
        let mut bounds = Bounds {
            time_min: first.time,
            time_max: first.time,
            intensity_min: first.intensity,
            intensity_max: first.intensity,
        };
        let mut i: usize = 1;
        proof {
            assert(times(events@).take(1) =~= seq![events@[0].time as int]);
            assert(intensities(events@).take(1) =~= seq![events@[0].intensity as int]);
        }
        while i < events.len()
            invariant
                1 <= i <= events.len(),
                bounds.time_min == least(times(events@).take(i as int)),
                bounds.time_max == greatest(times(events@).take(i as int)),
                bounds.intensity_min == least(intensities(events@).take(i as int)),
                bounds.intensity_max == greatest(intensities(events@).take(i as int)),
            decreases events.len() - i,
        {
            proof {
                let t = times(events@).take(i + 1);
                assert(t.drop_last() =~= times(events@).take(i as int));
                assert(t.last() == events@[i as int].time);
                let v = intensities(events@).take(i + 1);
                assert(v.drop_last() =~= intensities(events@).take(i as int));
                assert(v.last() == events@[i as int].intensity);
            }
            let event = events[i];
            if event.time < bounds.time_min {
                bounds.time_min = event.time;
            }
            if event.time > bounds.time_max {
                bounds.time_max = event.time;
            }
            if event.intensity < bounds.intensity_min {
                bounds.intensity_min = event.intensity;
            }
            if event.intensity > bounds.intensity_max {
                bounds.intensity_max = event.intensity;
            }
            i += 1;
        }
        proof {
            assert(times(events@).take(events@.len() as int) =~= times(events@));
            assert(intensities(events@).take(events@.len() as int) =~= intensities(events@));
        }
        Some(bounds)
    }

    /// The limits that hold the events of every channel.
    pub fn from_digitiser_events_list(events: &DigitiserEventList) -> (bounds: Option<Self>)
        ensures
            bounds == event_lists_bounds(events.entries(), events.entries().len()),
    {
        let mut bounds: Option<Bounds> = None;
        let mut i: usize = 0;
        while i < events.len()
            invariant
                i <= events.entries().len(),
                bounds == event_lists_bounds(events.entries(), i as nat),
            decreases events.entries().len() - i,
        {
            let found = Self::from_events_list(events.value_at(i));
            bounds = merge_options(bounds, found);
            i += 1;
        }
        bounds
    }

    /// The limits that hold the traces of every channel and, with them, the events
    /// that are attached. Without a sample in any trace there are none.
    pub fn from_digitiser_trace(trace: &DigitiserTrace) -> (bounds: Option<Self>)
        ensures
            bounds == (match traces_bounds(trace.traces.entries(), trace.traces.entries().len()) {
                Some(of_traces) => merge_some(
                    Some(of_traces),
                    match trace.events {
                        Some(events) => event_lists_bounds(
                            events.entries(),
                            events.entries().len(),
                        ),
                        None => None,
                    },
                ),
                None => None,
            }),
    {
        let mut bounds: Option<Bounds> = None;
        let mut i: usize = 0;
        while i < trace.traces.len()
            invariant
                i <= trace.traces.entries().len(),
                bounds == traces_bounds(trace.traces.entries(), i as nat),
            decreases trace.traces.entries().len() - i,
        {
            let found = Self::from_trace(trace.traces.value_at(i));
            bounds = merge_options(bounds, found);
            i += 1;
        }
        match bounds {
            Some(of_traces) => {
                let of_events = match &trace.events {
                    Some(events) => Self::from_digitiser_events_list(events),
                    None => None,
                };
                merge_options(Some(of_traces), of_events)
            },
            None => None,
        }
    }

    /// `self` with each limit that the user fixed in place of its own.
    pub open spec fn spec_ammended(self, user: UserBounds) -> Bounds {
        Bounds {
            time_min: match user.time_min {
                Some(t) => t,
                None => self.time_min,
            },
            time_max: match user.time_max {
                Some(t) => t,
                None => self.time_max,
            },
            intensity_min: match user.intensity_min {
                Some(v) => v,
                None => self.intensity_min,
            },
            intensity_max: match user.intensity_max {
                Some(v) => v,
                None => self.intensity_max,
            },
        }
    }

    /// Puts each limit that the user fixed in place of the one taken from the data.
    pub fn ammend_with_user_input(&mut self, bounds: &UserBounds)
        ensures
            *final(self) == old(self).spec_ammended(*bounds),
    {
        if let Some(time_min) = bounds.time_min {
            self.time_min = time_min;
        }
        if let Some(time_max) = bounds.time_max {
            self.time_max = time_max;
        }
        if let Some(intensity_min) = bounds.intensity_min {
            self.intensity_min = intensity_min;
        }
        if let Some(intensity_max) = bounds.intensity_max {
            self.intensity_max = intensity_max;
        }
    }

    /// The first and the last time bin.
    pub fn time_range(&self) -> (range: (Time, Time))
        ensures
            range == (self.time_min, self.time_max),
    {
        (self.time_min, self.time_max)
    }

    /// The least and the greatest intensity.
    pub fn intensity_range(&self) -> (range: (Intensity, Intensity))
        ensures
            range == (self.intensity_min, self.intensity_max),
    {
        (self.intensity_min, self.intensity_max)
    }
}

impl Default for Bounds {
    /// Limits that hold nothing, and give way to any limits that they are merged
    /// with.
    fn default() -> (bounds: Bounds)
        ensures
            bounds == (Bounds {
                time_min: Time::MAX,
                time_max: Time::MIN,
                intensity_min: Intensity::MAX,
                intensity_max: Intensity::MIN,
            }),
    {
        Bounds {
            time_min: Time::MAX,
            time_max: Time::MIN,
            intensity_min: Intensity::MAX,
            intensity_max: Intensity::MIN,
        }
    }
}

/// Computes `merge_some`.
fn merge_options(a: Option<Bounds>, b: Option<Bounds>) -> (merged: Option<Bounds>)
    ensures
        merged == merge_some(a, b),
{
    match a {
        Some(x) => match b {
            Some(y) => Some(x.merge(y)),
            None => a,
        },
        None => b,
    }
}

/// Merging with the default limits changes nothing.
pub proof fn lemma_merge_default(bounds: Bounds)
    ensures
        (Bounds {
            time_min: Time::MAX,
            time_max: Time::MIN,
            intensity_min: Intensity::MAX,
            intensity_max: Intensity::MIN,
        }).spec_merge(bounds) == bounds,
{
}

} // verus!
