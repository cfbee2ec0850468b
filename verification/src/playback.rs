//! Playback of scheduled MIDI events on the timeline: the events are kept
//! in order of their sample position, and each processed frame hands out
//! those that fall in it.
//!
//! Converting note ticks to sample positions depends on the tempo and is
//! done by the caller.

use vstd::prelude::*;

verus! {

/// A MIDI event scheduled at a sample position.
#[derive(Debug, Clone, Copy, PartialEq, Eq, Structural)]
pub struct ScheduledMidiEvent {
    pub track_id: u128,
    pub note: u8,
    pub velocity: u8,
    pub sample_position: u64,
    pub is_note_on: bool,
}

/// The first index below `n` whose event comes after `position`, or `n`.
pub open spec fn event_insertion_point(sorted: Seq<ScheduledMidiEvent>, position: u64, n: nat) -> int
    decreases n,
{
    if n == 0 {
        0
    } else if event_insertion_point(sorted, position, (n - 1) as nat) < n - 1 {
        event_insertion_point(sorted, position, (n - 1) as nat)
    } else if sorted[n - 1].sample_position > position {
        n - 1
    } else {
        n as int
    }
}

/// The events stably sorted by sample position.
pub open spec fn events_by_position(events: Seq<ScheduledMidiEvent>) -> Seq<ScheduledMidiEvent>
    decreases events.len(),
{
    if events.len() == 0 {
        Seq::empty()
    } else {
        let sorted = events_by_position(events.drop_last());
        let x = events.last();
        sorted.insert(event_insertion_point(sorted, x.sample_position, sorted.len()), x)
    }
}

/// The index of the first event from `from` on at or after `position`
/// (the length where there is none).
pub open spec fn first_at_or_after(events: Seq<ScheduledMidiEvent>, position: u64, from: int) -> int
    decreases events.len() - from,
{
    if from >= events.len() {
        events.len() as int
    } else if events[from].sample_position >= position {
        from
    } else {
        first_at_or_after(events, position, from + 1)
    }
}

/// The first event at or after a position, searching from `from`: every
/// event passed over comes before the position, and the one found, if
/// any, comes at or after it.
pub proof fn lemma_first_at_or_after(events: Seq<ScheduledMidiEvent>, position: u64, from: int)
    requires
        0 <= from <= events.len(),
    ensures
        from <= first_at_or_after(events, position, from) <= events.len(),
        forall|j: int|
            from <= j < first_at_or_after(events, position, from) ==> #[trigger] events[j].sample_position
                < position,
        first_at_or_after(events, position, from) < events.len() ==> events[first_at_or_after(
            events,
            position,
            from,
        )].sample_position >= position,
    decreases events.len() - from,
{
    if from < events.len() && events[from].sample_position < position {
        lemma_first_at_or_after(events, position, from + 1);
    }
}

/// Once found below `m`, the insertion point stays for longer prefixes.
pub proof fn lemma_event_point_stays(sorted: Seq<ScheduledMidiEvent>, position: u64, m: nat, n: nat)
    requires
        m <= n,
        event_insertion_point(sorted, position, m) < m,
    ensures
        event_insertion_point(sorted, position, n) == event_insertion_point(sorted, position, m),
    decreases n - m,
{
    if m < n {
        lemma_event_point_stays(sorted, position, m, (n - 1) as nat);
    }
}

/// Sort events stably by sample position.
pub fn sort_events(events: Vec<ScheduledMidiEvent>) -> (r: Vec<ScheduledMidiEvent>)
    ensures
        r@ == events_by_position(events@),
{
    let mut sorted: Vec<ScheduledMidiEvent> = Vec::new();
    let mut i: usize = 0;
    while i < events.len()
        invariant
            i <= events@.len(),
            sorted@ == events_by_position(events@.subrange(0, i as int)),
        decreases events@.len() - i,
    {
        let x = events[i];
        proof {
            assert(events@.subrange(0, i + 1).drop_last() =~= events@.subrange(0, i as int));
        }
        let mut p: usize = 0;
        while p < sorted.len() && sorted[p].sample_position <= x.sample_position
            invariant
                p <= sorted@.len(),
                event_insertion_point(sorted@, x.sample_position, p as nat) == p as int,
            decreases sorted@.len() - p,
        {
            p = p + 1;
        }
        proof {
            if p < sorted@.len() {
                lemma_event_point_stays(sorted@, x.sample_position, (p + 1) as nat, sorted@.len());
            }
        }
        sorted.insert(p, x);
        i = i + 1;
    }
    proof {
        assert(events@.subrange(0, events@.len() as int) =~= events@);
    }
    sorted
}

/// Clip playback engine.
#[derive(Debug, Clone)]
pub struct ClipPlaybackEngine {
    /// Sample rate
    pub sample_rate: u32,
    /// Current position in samples
    pub position: u64,
    /// Is playing
    pub is_playing: bool,
    /// Scheduled events, in order of sample position
    pub scheduled_events: Vec<ScheduledMidiEvent>,
    /// Index of the next event to hand out
    pub next_event_index: usize,
}

impl ClipPlaybackEngine {
    /// A stopped engine at the start with nothing scheduled.
    pub fn new(sample_rate: u32) -> (e: ClipPlaybackEngine)
        ensures
            e.sample_rate == sample_rate,
            e.position == 0,
            !e.is_playing,
            e.scheduled_events@.len() == 0,
            e.next_event_index == 0,
    {
        ClipPlaybackEngine {
            sample_rate,
            position: 0,
            is_playing: false,
            scheduled_events: Vec::new(),
            next_event_index: 0,
        }
    }

    /// Schedule events (replacing those scheduled), in order of sample
    /// position; the next event is the first.
    pub fn load_events(&mut self, events: Vec<ScheduledMidiEvent>)
        ensures
            final(self).scheduled_events@ == events_by_position(events@),
            final(self).next_event_index == 0,
            final(self).position == old(self).position,
            final(self).is_playing == old(self).is_playing,
            final(self).sample_rate == old(self).sample_rate,
    {
        self.scheduled_events = sort_events(events);
        self.next_event_index = 0;
    }

    /// Start playback.
    pub fn play(&mut self)
        ensures
            final(self).is_playing,
            final(self).position == old(self).position,
            final(self).next_event_index == old(self).next_event_index,
            final(self).scheduled_events@ == old(self).scheduled_events@,
    {
        self.is_playing = true;
    }

    /// Pause playback.
    pub fn pause(&mut self)
        ensures
            !final(self).is_playing,
            final(self).position == old(self).position,
            final(self).next_event_index == old(self).next_event_index,
            final(self).scheduled_events@ == old(self).scheduled_events@,
    {
        self.is_playing = false;
    }

    /// Stop and return to the start.
    pub fn stop(&mut self)
        ensures
            !final(self).is_playing,
            final(self).position == 0,
            final(self).next_event_index == 0,
            final(self).scheduled_events@ == old(self).scheduled_events@,
    {
        self.is_playing = false;
        self.position = 0;
        self.next_event_index = 0;
    }

    /// Move to a position; the next event is the first at or after it.
    pub fn seek(&mut self, position: u64)
        ensures
            final(self).position == position,
            final(self).next_event_index == first_at_or_after(old(self).scheduled_events@, position, 0),
            final(self).next_event_index <= old(self).scheduled_events@.len(),
            forall|j: int|
                0 <= j < final(self).next_event_index ==> #[trigger] old(self).scheduled_events@[j].sample_position
                    < position,
            final(self).next_event_index < old(self).scheduled_events@.len() ==> old(
                self,
            ).scheduled_events@[final(self).next_event_index as int].sample_position >= position,
            final(self).is_playing == old(self).is_playing,
            final(self).scheduled_events@ == old(self).scheduled_events@,
    {
        proof {
            lemma_first_at_or_after(self.scheduled_events@, position, 0);
        }
        self.position = position;
        let mut i: usize = 0;
        while i < self.scheduled_events.len() && self.scheduled_events[i].sample_position < position
            invariant
                i <= self.scheduled_events@.len(),
                first_at_or_after(self.scheduled_events@, position, i as int)
                    == first_at_or_after(self.scheduled_events@, position, 0),
            decreases self.scheduled_events@.len() - i,
        {
            i = i + 1;
        }
        self.next_event_index = i;
    }

    /// Whether the engine plays.
    pub fn is_playing(&self) -> (b: bool)
        ensures
            b == self.is_playing,
    {
        self.is_playing
    }

    /// The current position.
    pub fn position(&self) -> (p: u64)
        ensures
            p == self.position,
    {
        self.position
    }

    /// Hand out the events of the next frame and advance past it; nothing
    /// while paused.
    pub fn process_frame(&mut self, frame_size: u64) -> (events: Vec<ScheduledMidiEvent>)
        requires
            old(self).is_playing ==> old(self).position + frame_size <= u64::MAX,
            old(self).next_event_index <= old(self).scheduled_events@.len(),
        ensures
            !old(self).is_playing ==> events@.len() == 0 && final(self).position == old(self).position
                && final(self).next_event_index == old(self).next_event_index,
            old(self).is_playing ==> {
                let end = (old(self).position + frame_size) as u64;
                let k = first_at_or_after(old(self).scheduled_events@, end, old(self).next_event_index as int);
                &&& final(self).position == end
                &&& final(self).next_event_index == k
                &&& events@ == old(self).scheduled_events@.subrange(old(self).next_event_index as int, k)
            },
            final(self).is_playing == old(self).is_playing,
            final(self).scheduled_events@ == old(self).scheduled_events@,
    {
        if !self.is_playing {
            return Vec::new();
        }
        let frame_end = self.position + frame_size;
        let start = self.next_event_index;
        let mut events: Vec<ScheduledMidiEvent> = Vec::new();
        while self.next_event_index < self.scheduled_events.len()
            && self.scheduled_events[self.next_event_index].sample_position < frame_end
            invariant
                start <= self.next_event_index <= self.scheduled_events@.len(),
                self.scheduled_events@ == old(self).scheduled_events@,
                start == old(self).next_event_index,
                self.is_playing == old(self).is_playing,
                first_at_or_after(self.scheduled_events@, frame_end, self.next_event_index as int)
                    == first_at_or_after(self.scheduled_events@, frame_end, start as int),
                events@ == self.scheduled_events@.subrange(start as int, self.next_event_index as int),
            decreases self.scheduled_events@.len() - self.next_event_index,
        {
            let event = self.scheduled_events[self.next_event_index];
            events.push(event);
            self.next_event_index = self.next_event_index + 1;
            proof {
                assert(events@ =~= self.scheduled_events@.subrange(start as int, self.next_event_index as int));
            }
        }
        self.position = frame_end;
        events
    }

    /// The number of scheduled events.
    pub fn event_count(&self) -> (n: usize)
        ensures
            n == self.scheduled_events@.len(),
    {
        self.scheduled_events.len()
    }

    /// The number of events not yet handed out.
    pub fn remaining_events(&self) -> (n: usize)
        ensures
            n == if self.scheduled_events@.len() >= self.next_event_index {
                (self.scheduled_events@.len() - self.next_event_index) as usize
            } else {
                0
            },
    {
        if self.scheduled_events.len() >= self.next_event_index {
            self.scheduled_events.len() - self.next_event_index
        } else {
            0
        }
    }
}

/// Events in order of sample position.
pub open spec fn positions_sorted(s: Seq<ScheduledMidiEvent>) -> bool {
    forall|a: int, b: int| 0 <= a < b < s.len() ==> s[a].sample_position <= s[b].sample_position
}

/// The insertion point follows every event at or before the position and,
/// below `n`, names one after it.
pub proof fn lemma_event_insertion_point(sorted: Seq<ScheduledMidiEvent>, position: u64, n: nat)
    requires
        n <= sorted.len(),
    ensures
        0 <= event_insertion_point(sorted, position, n) <= n,
        event_insertion_point(sorted, position, n) < n ==> sorted[event_insertion_point(sorted, position, n)].sample_position > position,
        forall|j: int| 0 <= j < event_insertion_point(sorted, position, n) ==> sorted[j].sample_position <= position,
    decreases n,
{
    if n > 0 {
        lemma_event_insertion_point(sorted, position, (n - 1) as nat);
    }
}

/// Scheduled events come in order of sample position, all of them.
pub proof fn lemma_events_sorted(events: Seq<ScheduledMidiEvent>)
    ensures
        positions_sorted(events_by_position(events)),
        events_by_position(events).len() == events.len(),
    decreases events.len(),
{
    if events.len() > 0 {
        lemma_events_sorted(events.drop_last());
        let s = events_by_position(events.drop_last());
        let x = events.last();
        let p = event_insertion_point(s, x.sample_position, s.len());
        lemma_event_insertion_point(s, x.sample_position, s.len());
        let r = s.insert(p, x);
        assert forall|a: int, b: int| 0 <= a < b < r.len() implies r[a].sample_position <= r[b].sample_position by {
            if b < p {
                assert(r[a] == s[a] && r[b] == s[b]);
            } else if b == p {
                assert(r[a] == s[a]);
            } else if a < p {
                assert(r[a] == s[a] && r[b] == s[b - 1]);
                if p < s.len() && b - 1 > p {
                    assert(s[p].sample_position <= s[b - 1].sample_position);
                }
            } else if a == p {
                assert(r[b] == s[b - 1]);
                if b - 1 > p {
                    assert(s[p].sample_position <= s[b - 1].sample_position);
                }
            } else {
                assert(r[a] == s[a - 1] && r[b] == s[b - 1]);
            }
        }
    }
}

/// On events in order of position, seeking to `p` and then processing a
/// frame of `n` samples hands out exactly the events at or after `p` and
/// before `p + n`.
pub proof fn lemma_seek_then_frame(events: Seq<ScheduledMidiEvent>, p: u64, n: u64)
    requires
        positions_sorted(events),
        p + n <= u64::MAX,
    ensures
        ({
            let s = first_at_or_after(events, p, 0);
            let k = first_at_or_after(events, (p + n) as u64, s);
            &&& forall|j: int| s <= j < k ==> p <= #[trigger] events[j].sample_position < p + n
            &&& forall|j: int|
                0 <= j < events.len() && p <= #[trigger] events[j].sample_position < p + n ==> s <= j < k
        }),
{
    let s = first_at_or_after(events, p, 0);
    let end = (p + n) as u64;
    lemma_first_at_or_after(events, p, 0);
    lemma_first_at_or_after(events, end, s);
    let k = first_at_or_after(events, end, s);
    assert forall|j: int| s <= j < k implies p <= #[trigger] events[j].sample_position < p + n by {
        if j > s {
            assert(events[s].sample_position <= events[j].sample_position);
        }
    }
    assert forall|j: int| 0 <= j < events.len() && p <= #[trigger] events[j].sample_position < p + n implies s
        <= j < k by {
        if j >= k {
            assert(k < events.len());
            assert(events[k].sample_position <= events[j].sample_position);
        }
    }
}

} // verus!
