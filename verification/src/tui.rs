//! What the screen decides without drawing: which component has the focus, which
//! entry of a list is chosen, how far the progress bar has come.
use crate::finder::SearchStatus;
use crate::Channel;
use vstd::prelude::*;

verus! {

/// The place `index` among `count` places in a ring: one place before the first is
/// the last, one place behind the last is the first.
pub open spec fn ring_index(count: int, index: int) -> int {
    (count + index) % count
}

/// Computes `ring_index` for a place that is at most one round before the first.
pub fn focus_index(count: usize, index: isize) -> (place: usize)
    requires
        0 < count <= isize::MAX,
        -count <= index,
        count + index <= isize::MAX,
    ensures
        place == ring_index(count as int, index as int),
        place < count,
{
    let sum: isize = count as isize + index;
    (sum as usize) % count
}

/// The entry before `offset` in a list of `len` entries, read as a ring.
pub open spec fn ring_before(len: int, offset: int) -> int {
    if offset == 0 {
        len - 1
    } else {
        offset - 1
    }
}

/// The entry behind `offset` in a list of `len` entries, read as a ring.
pub open spec fn ring_behind(len: int, offset: int) -> int {
    if offset + 1 == len {
        0
    } else {
        offset + 1
    }
}

/// Where a list of `len` entries has its focus, and which entry is chosen.
#[derive(Clone, Copy, Debug, PartialEq, Eq, Structural)]
pub struct ListCursor {
    len: usize,
    offset: usize,
    selected: Option<usize>,
    has_state_changed: bool,
}

/// A list cursor, as contracts see it.
pub struct ListCursorView {
    pub len: nat,
    pub offset: nat,
    pub selected: Option<nat>,
    pub changed: bool,
}

impl ListCursor {
    #[verifier::type_invariant]
    spec fn inv(self) -> bool {
        &&& self.len > 0 ==> self.offset < self.len
        &&& self.len == 0 ==> self.offset == 0 && self.selected is None
        &&& self.selected matches Some(i) ==> i < self.len
    }

    pub closed spec fn view(&self) -> ListCursorView {
        ListCursorView {
            len: self.len as nat,
            offset: self.offset as nat,
            selected: match self.selected {
                Some(i) => Some(i as nat),
                None => None,
            },
            changed: self.has_state_changed,
        }
    }

    /// The cursor of a new list of `len` entries: on the first, with none chosen.
    pub fn new(len: usize) -> (cursor: ListCursor)
        ensures
            cursor@ == (ListCursorView { len: len as nat, offset: 0, selected: None, changed: true }),
    {
        ListCursor { len, offset: 0, selected: None, has_state_changed: true }
    }

    /// Puts the cursor on a list of `len` entries, on the first, with none chosen.
    pub fn set(&mut self, len: usize)
        ensures
            final(self)@ == (ListCursorView {
                len: len as nat,
                offset: 0,
                selected: None,
                changed: old(self)@.changed,
            }),
    {
        proof {
            use_type_invariant(&*self);
        }
        self.selected = None;
        self.offset = 0;
        self.len = len;
    }

    /// The entry that has the focus.
    pub fn offset(&self) -> (offset: usize)
        ensures
            offset == self@.offset,
            self@.len > 0 ==> offset < self@.len,
    {
        proof {
            use_type_invariant(self);
        }
        self.offset
    }

    /// The entry that is chosen.
    pub fn get_index(&self) -> (index: Option<usize>)
        ensures
            index is Some <==> self@.selected is Some,
            index matches Some(i) ==> self@.selected == Some(i as nat) && i < self@.len,
    {
        proof {
            use_type_invariant(self);
        }
        self.selected
    }

    /// Tells whether the cursor has moved or chosen since this was last asked.
    pub fn pop_state_change(&mut self) -> (changed: bool)
        ensures
            changed == old(self)@.changed,
            final(self)@ == (ListCursorView { changed: false, ..old(self)@ }),
    {
        proof {
            use_type_invariant(&*self);
        }
        if self.has_state_changed {
            self.has_state_changed = false;
            true
        } else {
            false
        }
    }

    /// Chooses the entry that has the focus; an empty list has none to choose.
    pub fn select(&mut self) -> (chosen: Option<usize>)
        ensures
            old(self)@.len == 0 ==> chosen is None && final(self)@ == old(self)@,
            old(self)@.len > 0 ==> chosen is Some && chosen->0 == old(self)@.offset,
            old(self)@.len > 0 ==> final(self)@ == (ListCursorView {
                selected: Some(old(self)@.offset),
                changed: true,
                ..old(self)@
            }),
    {
        proof {
            use_type_invariant(&*self);
        }
        if self.len == 0 {
            None
        } else {
            self.selected = Some(self.offset);
            self.has_state_changed = true;
            Some(self.offset)
        }
    }

    /// Moves the focus to the entry before, from the first to the last.
    pub fn up(&mut self)
        ensures
            old(self)@.len == 0 ==> final(self)@ == old(self)@,
            old(self)@.len > 0 ==> final(self)@ == (ListCursorView {
                offset: ring_before(old(self)@.len as int, old(self)@.offset as int) as nat,
                changed: true,
                ..old(self)@
            }),
    {
        proof {
            use_type_invariant(&*self);
        }
        if self.len > 0 {
            self.offset = if self.offset == 0 {
                self.len - 1
            } else {
                self.offset - 1
            };
            self.has_state_changed = true;
        }
    }

    /// Moves the focus to the entry behind, from the last to the first.
    pub fn down(&mut self)
        ensures
            old(self)@.len == 0 ==> final(self)@ == old(self)@,
            old(self)@.len > 0 ==> final(self)@ == (ListCursorView {
                offset: ring_behind(old(self)@.len as int, old(self)@.offset as int) as nat,
                changed: true,
                ..old(self)@
            }),
    {
        proof {
            use_type_invariant(&*self);
        }
        if self.len > 0 {
            self.offset = if self.offset + 1 == self.len {
                0
            } else {
                self.offset + 1
            };
            self.has_state_changed = true;
        }
    }
}

/// The channels of a trace, one of them chosen.
#[derive(Debug)]
pub struct Channels {
    channels: Vec<Channel>,
    channel_index: usize,
}

impl Channels {
    #[verifier::type_invariant]
    spec fn inv(self) -> bool {
        self.channels@.len() > 0 ==> self.channel_index < self.channels@.len()
    }

    /// The channels.
    pub closed spec fn channels(&self) -> Seq<Channel> {
        self.channels@
    }

    /// The place of the chosen channel.
    pub closed spec fn index(&self) -> int {
        self.channel_index as int
    }

    /// No channels.
    pub fn new() -> (channels: Channels)
        ensures
            channels.channels() == Seq::<Channel>::empty(),
            channels.index() == 0,
    {
        Channels { channels: Vec::new(), channel_index: 0 }
    }

    /// Takes `channels`, and chooses the first.
    pub fn set(&mut self, channels: Vec<Channel>)
        ensures
            final(self).channels() == channels@,
            final(self).index() == 0,
    {
        self.channel_index = 0;
        self.channels = channels;
    }

    /// The chosen channel.
    pub fn get(&self) -> (channel: Option<Channel>)
        ensures
            channel == (if self.channels().len() == 0 {
                None
            } else {
                Some(self.channels()[self.index()])
            }),
    {
        proof {
            use_type_invariant(self);
        }
        if self.channels.len() == 0 {
            None
        } else {
            Some(self.channels[self.channel_index])
        }
    }

    /// Chooses the channel before, from the first to the last.
    pub fn left(&mut self)
        ensures
            final(self).channels() == old(self).channels(),
            final(self).index() == (if old(self).channels().len() == 0 {
                old(self).index()
            } else {
                ring_before(old(self).channels().len() as int, old(self).index())
            }),
    {
        proof {
            use_type_invariant(&*self);
        }
        let len = self.channels.len();
        if len > 0 {
            self.channel_index = if self.channel_index == 0 {
                len - 1
            } else {
                self.channel_index - 1
            };
        }
    }

    /// Chooses the channel behind, from the last to the first.
    pub fn right(&mut self)
        ensures
            final(self).channels() == old(self).channels(),
            final(self).index() == (if old(self).channels().len() == 0 {
                old(self).index()
            } else {
                ring_behind(old(self).channels().len() as int, old(self).index())
            }),
    {
        proof {
            use_type_invariant(&*self);
        }
        let len = self.channels.len();
        if len > 0 {
            self.channel_index = if self.channel_index + 1 == len {
                0
            } else {
                self.channel_index + 1
            };
        }
    }
}

/// The steps of the progress bar of a search with `passes` passes for each log.
pub open spec fn total_steps(passes: u32) -> int {
    2 * passes + 4
}

/// The step of the progress bar at `status`, with `current` the step before: the
/// search of the trace log fills the first half, that of the event-list log the
/// second, and success the last step but one. Other statuses leave the bar as it is.
pub open spec fn progress_at(status: SearchStatus, passes: u32, current: u64) -> int {
    match status {
        SearchStatus::TraceSearchInProgress(done, _) => done + 1,
        SearchStatus::EventListSearchInProgress(done, _) => done + passes + 2,
        SearchStatus::Successful => 2 * passes + 3,
        _ => current as int,
    }
}

/// Computes `progress_at`.
pub fn progress_steps(status: &SearchStatus, passes: u32, current: u64) -> (steps: u64)
    ensures
        steps == progress_at(*status, passes, current),
{
    match status {
        SearchStatus::TraceSearchInProgress(done, _) => *done as u64 + 1,
        SearchStatus::EventListSearchInProgress(done, _) => *done as u64 + passes as u64 + 2,
        SearchStatus::Successful => 2 * (passes as u64) + 3,
        _ => current,
    }
}

/// While a search of `passes` passes runs in order, the bar never passes its last
/// step.
pub proof fn lemma_progress_within_total(status: SearchStatus, passes: u32, current: u64)
    requires
        current <= total_steps(passes),
        status matches SearchStatus::TraceSearchInProgress(done, _) ==> done <= passes + 1,
        status matches SearchStatus::EventListSearchInProgress(done, _) ==> done <= passes + 1,
    ensures
        progress_at(status, passes, current) <= total_steps(passes),
{
}

} // verus!
