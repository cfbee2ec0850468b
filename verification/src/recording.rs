//! Recording buffers: the MIDI events recorded on a track and the notes
//! held while recording.
//!
//! Converting sample positions to musical ticks depends on the tempo and
//! is left to the caller.

use std::collections::HashMap;
use vstd::prelude::*;
use crate::project::{Clip, ClipContent, MidiNote};

verus! {

broadcast use vstd::std_specs::hash::group_hash_axioms;

/// A recorded MIDI event (before conversion to notes).
#[derive(Debug, Clone, Copy, PartialEq, Eq, Structural)]
pub struct RecordedMidiEvent {
    /// Note number
    pub note: u8,
    /// Velocity (0 for note off)
    pub velocity: u8,
    /// Sample position when event occurred
    pub sample_position: u64,
    /// Is note on (true) or note off (false)
    pub is_note_on: bool,
}

/// Recording buffer for a single track.
#[derive(Debug, Clone)]
pub struct TrackRecordingBuffer {
    /// Track this buffer belongs to
    pub track_id: u128,
    /// Start position in samples
    pub start_position: u64,
    /// Current position in samples
    pub current_position: u64,
    /// Recorded MIDI events
    pub midi_events: Vec<RecordedMidiEvent>,
    /// Notes currently held: note to its start position
    pub held_notes: HashMap<u8, u64>,
    /// Sample rate
    pub sample_rate: u32,
}

impl TrackRecordingBuffer {
    /// An empty buffer that starts at `start_position`.
    pub fn new(track_id: u128, start_position: u64, sample_rate: u32) -> (b: TrackRecordingBuffer)
        ensures
            b.track_id == track_id,
            b.start_position == start_position,
            b.current_position == start_position,
            b.midi_events@.len() == 0,
            b.held_notes@ == Map::<u8, u64>::empty(),
            b.sample_rate == sample_rate,
    {
        TrackRecordingBuffer {
            track_id,
            start_position,
            current_position: start_position,
            midi_events: Vec::new(),
            held_notes: HashMap::new(),
            sample_rate,
        }
    }

    /// Record a note on.
    pub fn note_on(&mut self, note: u8, velocity: u8, sample_position: u64)
        ensures
            final(self).midi_events@ == old(self).midi_events@.push(
                RecordedMidiEvent { note, velocity, sample_position, is_note_on: true },
            ),
            final(self).held_notes@ == old(self).held_notes@.insert(note, sample_position),
            final(self).current_position == sample_position,
            final(self).start_position == old(self).start_position,
            final(self).track_id == old(self).track_id,
            final(self).sample_rate == old(self).sample_rate,
    {
        self.midi_events.push(RecordedMidiEvent { note, velocity, sample_position, is_note_on: true });
        let _ = self.held_notes.insert(note, sample_position);
        self.current_position = sample_position;
    }

    /// Record a note off.
    pub fn note_off(&mut self, note: u8, sample_position: u64)
        ensures
            final(self).midi_events@ == old(self).midi_events@.push(
                RecordedMidiEvent { note, velocity: 0, sample_position, is_note_on: false },
            ),
            final(self).held_notes@ == old(self).held_notes@.remove(note),
            final(self).current_position == sample_position,
            final(self).start_position == old(self).start_position,
            final(self).track_id == old(self).track_id,
            final(self).sample_rate == old(self).sample_rate,
    {
        self.midi_events.push(
            RecordedMidiEvent { note, velocity: 0, sample_position, is_note_on: false },
        );
        let _ = self.held_notes.remove(&note);
        self.current_position = sample_position;
    }

    /// Update the current position.
    pub fn update_position(&mut self, sample_position: u64)
        ensures
            final(self).current_position == sample_position,
            final(self).midi_events@ == old(self).midi_events@,
            final(self).held_notes@ == old(self).held_notes@,
            final(self).start_position == old(self).start_position,
            final(self).track_id == old(self).track_id,
            final(self).sample_rate == old(self).sample_rate,
    {
        self.current_position = sample_position;
    }

    /// Recording length in samples (zero before the start).
    pub fn length(&self) -> (n: u64)
        ensures
            n == if self.current_position > self.start_position {
                (self.current_position - self.start_position) as u64
            } else {
                0
            },
    {
        if self.current_position > self.start_position {
            self.current_position - self.start_position
        } else {
            0
        }
    }
}

/// A note's length from `start` to `end` ticks, at least one tick.
pub open spec fn span(start: u64, end: u64) -> u64 {
    if end > start {
        (end - start) as u64
    } else {
        1
    }
}

/// Pairing the first `n` events (the i-th at tick `ticks[i]`): the notes
/// completed, in the order of their note-offs, and the notes still
/// pending (note to start tick and velocity). A note-on with velocity
/// restarts a pending note; any other event ends the pending note, if any.
pub open spec fn paired(events: Seq<RecordedMidiEvent>, ticks: Seq<u64>, n: nat) -> (Seq<MidiNote>, Map<u8, (u64, u8)>)
    decreases n,
{
    if n == 0 {
        (Seq::empty(), Map::empty())
    } else {
        let (notes, pending) = paired(events, ticks, (n - 1) as nat);
        let e = events[n - 1];
        let tick = ticks[n - 1];
        if e.is_note_on && e.velocity > 0 {
            (notes, pending.insert(e.note, (tick, e.velocity)))
        } else if pending.contains_key(e.note) {
            let (start, velocity) = pending[e.note];
            (
                notes.push(MidiNote { note: e.note, velocity, start, duration: span(start, tick) }),
                pending.remove(e.note),
            )
        } else {
            (notes, pending)
        }
    }
}

/// The notes still pending, in increasing note order, each held to
/// `end`.
pub open spec fn held_to_end(pending: Map<u8, (u64, u8)>, end: u64, n: nat) -> Seq<MidiNote>
    decreases n,
{
    if n == 0 {
        Seq::empty()
    } else {
        let prev = held_to_end(pending, end, (n - 1) as nat);
        let note = (n - 1) as u8;
        if pending.contains_key(note) {
            let (start, velocity) = pending[note];
            prev.push(MidiNote { note, velocity, start, duration: span(start, end) })
        } else {
            prev
        }
    }
}

/// `x` inserted after every note that starts no later than it.
pub open spec fn insert_by_start(sorted: Seq<MidiNote>, x: MidiNote) -> Seq<MidiNote> {
    let p = insertion_point(sorted, x.start, sorted.len());
    sorted.insert(p, x)
}

/// The first index below `n` whose note starts after `start`, or `n`.
pub open spec fn insertion_point(sorted: Seq<MidiNote>, start: u64, n: nat) -> int
    decreases n,
{
    if n == 0 {
        0
    } else if insertion_point(sorted, start, (n - 1) as nat) < n - 1 {
        insertion_point(sorted, start, (n - 1) as nat)
    } else if sorted[n - 1].start > start {
        n - 1
    } else {
        n as int
    }
}

/// The notes stably sorted by start: each inserted after the notes that
/// start no later.
pub open spec fn sorted_by_start(notes: Seq<MidiNote>) -> Seq<MidiNote>
    decreases notes.len(),
{
    if notes.len() == 0 {
        Seq::empty()
    } else {
        insert_by_start(sorted_by_start(notes.drop_last()), notes.last())
    }
}

/// The notes recorded from events at the given ticks, with notes still
/// held ending at `end`, by start.
pub open spec fn recorded_notes(events: Seq<RecordedMidiEvent>, ticks: Seq<u64>, end: u64) -> Seq<MidiNote> {
    let (done, pending) = paired(events, ticks, events.len());
    sorted_by_start(done + held_to_end(pending, end, 256))
}

/// The insertion point of a start among notes.
fn find_insertion_point(sorted: &Vec<MidiNote>, start: u64) -> (p: usize)
    ensures
        p as int == insertion_point(sorted@, start, sorted@.len()),
        p <= sorted@.len(),
{
    let mut i: usize = 0;
    while i < sorted.len()
        invariant
            i <= sorted@.len(),
            insertion_point(sorted@, start, i as nat) == i as int,
        decreases sorted@.len() - i,
    {
        if sorted[i].start > start {
            proof {
                lemma_insertion_point_stays(sorted@, start, (i + 1) as nat, sorted@.len());
            }
            return i;
        }
        i = i + 1;
    }
    i
}

/// Once the point is found below `m`, later prefixes keep it.
pub proof fn lemma_insertion_point_stays(sorted: Seq<MidiNote>, start: u64, m: nat, n: nat)
    requires
        m <= n,
        insertion_point(sorted, start, m) < m,
    ensures
        insertion_point(sorted, start, n) == insertion_point(sorted, start, m),
    decreases n - m,
{
    if m < n {
        lemma_insertion_point_stays(sorted, start, m, (n - 1) as nat);
    }
}

/// Sort notes stably by start.
pub fn sort_by_start(notes: Vec<MidiNote>) -> (r: Vec<MidiNote>)
    ensures
        r@ == sorted_by_start(notes@),
{
    let mut sorted: Vec<MidiNote> = Vec::new();
    let mut i: usize = 0;
    while i < notes.len()
        invariant
            i <= notes@.len(),
            sorted@ == sorted_by_start(notes@.subrange(0, i as int)),
        decreases notes@.len() - i,
    {
        let x = notes[i];
        proof {
            assert(notes@.subrange(0, i + 1).drop_last() =~= notes@.subrange(0, i as int));
        }
        let p = find_insertion_point(&sorted, x.start);
        sorted.insert(p, x);
        i = i + 1;
    }
    proof {
        assert(notes@.subrange(0, notes@.len() as int) =~= notes@);
    }
    sorted
}

impl TrackRecordingBuffer {
    /// Convert the events to notes, the i-th event taken at tick
    /// `ticks[i]` and notes still held ending at `end_tick`; by start.
    pub fn convert_to_notes(&self, ticks: &Vec<u64>, end_tick: u64) -> (r: Vec<MidiNote>)
        requires
            ticks@.len() == self.midi_events@.len(),
        ensures
            r@ == recorded_notes(self.midi_events@, ticks@, end_tick),
    {
        let ghost events = self.midi_events@;
        let mut notes: Vec<MidiNote> = Vec::new();
        let mut pending: HashMap<u8, (u64, u8)> = HashMap::new();
        let mut i: usize = 0;
        while i < self.midi_events.len()
            invariant
                i <= events.len(),
                events == self.midi_events@,
                ticks@.len() == events.len(),
                (notes@, pending@) == paired(events, ticks@, i as nat),
            decreases events.len() - i,
        {
            let e = self.midi_events[i];
            let tick = ticks[i];
            if e.is_note_on && e.velocity > 0 {
                let _ = pending.insert(e.note, (tick, e.velocity));
            } else {
                match pending.remove(&e.note) {
                    Some(entry) => {
                        let (start, velocity) = entry;
                        let duration = if tick > start {
                            tick - start
                        } else {
                            1
                        };
                        notes.push(MidiNote { note: e.note, velocity, start, duration });
                    },
                    None => {},
                }
            }
            proof {
                assert((notes@, pending@) == paired(events, ticks@, (i + 1) as nat));
            }
            i = i + 1;
        }
        let ghost done = notes@;
        let mut n: u16 = 0;
        while n < 256
            invariant
                n <= 256,
                notes@ == done + held_to_end(pending@, end_tick, n as nat),
            decreases 256 - n,
        {
            let note = n as u8;
            match pending.get(&note) {
                Some(entry) => {
                    let (start, velocity) = *entry;
                    let duration = if end_tick > start {
                        end_tick - start
                    } else {
                        1
                    };
                    notes.push(MidiNote { note, velocity, start, duration });
                    proof {
                        assert(notes@ =~= done + held_to_end(pending@, end_tick, (n + 1) as nat));
                    }
                },
                None => {
                    proof {
                        assert(notes@ =~= done + held_to_end(pending@, end_tick, (n + 1) as nat));
                    }
                },
            }
            n = n + 1;
        }
        sort_by_start(notes)
    }

    /// Record a note-off at the current position for every held note, in
    /// increasing note order.
    pub fn close_held_notes(&mut self)
        ensures
            final(self).midi_events@ == old(self).midi_events@ + closing_events(
                old(self).held_notes@,
                old(self).current_position,
                256,
            ),
            final(self).held_notes@ == old(self).held_notes@,
            final(self).current_position == old(self).current_position,
            final(self).start_position == old(self).start_position,
            final(self).track_id == old(self).track_id,
            final(self).sample_rate == old(self).sample_rate,
    {
        let ghost before = self.midi_events@;
        let mut n: u16 = 0;
        while n < 256
            invariant
                n <= 256,
                self.midi_events@ == before + closing_events(self.held_notes@, self.current_position, n as nat),
                self.held_notes@ == old(self).held_notes@,
                self.current_position == old(self).current_position,
                self.start_position == old(self).start_position,
                self.track_id == old(self).track_id,
                self.sample_rate == old(self).sample_rate,
            decreases 256 - n,
        {
            let note = n as u8;
            if self.held_notes.contains_key(&note) {
                self.midi_events.push(
                    RecordedMidiEvent {
                        note,
                        velocity: 0,
                        sample_position: self.current_position,
                        is_note_on: false,
                    },
                );
            }
            proof {
                assert(self.midi_events@ =~= before + closing_events(self.held_notes@, self.current_position, (n + 1) as nat));
            }
            n = n + 1;
        }
    }

    /// The clip recorded: `None` where nothing was recorded (no length,
    /// no events, or no complete note). Held notes are closed at the
    /// current position first; `ticks` gives the tick of each event
    /// recorded so far, `close_tick` that of the current position and
    /// `end_tick` that of the end.
    pub fn finalize(self, ticks: &Vec<u64>, close_tick: u64, end_tick: u64, clip_id: u128, name: String) -> (r: Option<Clip>)
        requires
            ticks@.len() == self.midi_events@.len(),
        ensures
            ({
                let length = if self.current_position > self.start_position {
                    (self.current_position - self.start_position) as u64
                } else {
                    0u64
                };
                let closing = closing_events(self.held_notes@, self.current_position, 256);
                let all_ticks = ticks@ + Seq::new(closing.len(), |i: int| close_tick);
                let notes = recorded_notes(self.midi_events@ + closing, all_ticks, end_tick);
                if length == 0 || self.midi_events@.len() == 0 || notes.len() == 0 {
                    r is None
                } else {
                    r is Some && r->0@ == (crate::project::ClipView {
                        id: clip_id,
                        name: name@,
                        start: self.start_position,
                        length,
                        content: crate::project::ClipContentView::Midi { notes },
                    })
                }
            }),
    {
        let length = self.length();
        if length == 0 || self.midi_events.len() == 0 {
            return None;
        }
        let ghost closing = closing_events(self.held_notes@, self.current_position, 256);
        let ghost start = self.start_position;
        let mut buffer = self;
        buffer.close_held_notes();
        let ghost events = buffer.midi_events@;
        let mut all_ticks: Vec<u64> = Vec::new();
        let mut i: usize = 0;
        while i < ticks.len()
            invariant
                i <= ticks@.len(),
                all_ticks@ == ticks@.subrange(0, i as int),
            decreases ticks@.len() - i,
        {
            all_ticks.push(ticks[i]);
            i = i + 1;
        }
        while all_ticks.len() < buffer.midi_events.len()
            invariant
                buffer.midi_events@ == events,
                ticks@.len() <= all_ticks@.len() <= events.len(),
                all_ticks@.subrange(0, ticks@.len() as int) == ticks@,
                forall|k: int| ticks@.len() <= k < all_ticks@.len() ==> all_ticks@[k] == close_tick,
            decreases events.len() - all_ticks@.len(),
        {
            all_ticks.push(close_tick);
            proof {
                assert(all_ticks@.subrange(0, ticks@.len() as int) =~= ticks@);
            }
        }
        proof {
            assert(all_ticks@ =~= ticks@ + Seq::new(closing.len(), |k: int| close_tick));
        }
        let notes = buffer.convert_to_notes(&all_ticks, end_tick);
        if notes.len() == 0 {
            return None;
        }
        let clip = Clip { id: clip_id, name, start: buffer.start_position, length, content: ClipContent::Midi { notes } };
        Some(clip)
    }
}

/// Note-offs at `position` for the held notes below `n`, in increasing
/// note order.
pub open spec fn closing_events(held: Map<u8, u64>, position: u64, n: nat) -> Seq<RecordedMidiEvent>
    decreases n,
{
    if n == 0 {
        Seq::empty()
    } else {
        let prev = closing_events(held, position, (n - 1) as nat);
        let note = (n - 1) as u8;
        if held.contains_key(note) {
            prev.push(RecordedMidiEvent { note, velocity: 0, sample_position: position, is_note_on: false })
        } else {
            prev
        }
    }
}

/// Notes in order of start.
pub open spec fn starts_sorted(s: Seq<MidiNote>) -> bool {
    forall|a: int, b: int| 0 <= a < b < s.len() ==> s[a].start <= s[b].start
}

/// The insertion point follows every note that starts no later and, where
/// it is below `n`, names one that starts later.
pub proof fn lemma_insertion_point(sorted: Seq<MidiNote>, start: u64, n: nat)
    requires
        n <= sorted.len(),
    ensures
        0 <= insertion_point(sorted, start, n) <= n,
        insertion_point(sorted, start, n) < n ==> sorted[insertion_point(sorted, start, n)].start > start,
        forall|j: int| 0 <= j < insertion_point(sorted, start, n) ==> sorted[j].start <= start,
    decreases n,
{
    if n > 0 {
        lemma_insertion_point(sorted, start, (n - 1) as nat);
    }
}

/// Stable sorting by start gives notes in order of start.
pub proof fn lemma_sorted_by_start(notes: Seq<MidiNote>)
    ensures
        starts_sorted(sorted_by_start(notes)),
        sorted_by_start(notes).len() == notes.len(),
    decreases notes.len(),
{
    if notes.len() > 0 {
        lemma_sorted_by_start(notes.drop_last());
        let s = sorted_by_start(notes.drop_last());
        let x = notes.last();
        let p = insertion_point(s, x.start, s.len());
        lemma_insertion_point(s, x.start, s.len());
        let r = s.insert(p, x);
        assert forall|a: int, b: int| 0 <= a < b < r.len() implies r[a].start <= r[b].start by {
            if b < p {
                assert(r[a] == s[a] && r[b] == s[b]);
            } else if b == p {
                assert(r[a] == s[a]);
            } else if a < p {
                assert(r[a] == s[a] && r[b] == s[b - 1]);
                if p < s.len() {
                    assert(s[p].start > x.start);
                    if b - 1 > p {
                        assert(s[p].start <= s[b - 1].start);
                    }
                }
            } else if a == p {
                assert(r[b] == s[b - 1]);
                assert(s[p].start > x.start);
                if b - 1 > p {
                    assert(s[p].start <= s[b - 1].start);
                }
            } else {
                assert(r[a] == s[a - 1] && r[b] == s[b - 1]);
            }
        }
    }
}

/// The track identifiers of buffers, in order.
pub open spec fn buffer_ids(buffers: Seq<TrackRecordingBuffer>) -> Seq<u128> {
    buffers.map_values(|b: TrackRecordingBuffer| b.track_id)
}

/// The armed tracks without repeats, in order of first appearance.
pub open spec fn distinct_ids(ids: Seq<u128>) -> Seq<u128>
    decreases ids.len(),
{
    if ids.len() == 0 {
        Seq::empty()
    } else {
        let prev = distinct_ids(ids.drop_last());
        if prev.contains(ids.last()) {
            prev
        } else {
            prev.push(ids.last())
        }
    }
}

/// Recording state: one buffer per recorded track.
#[derive(Debug, Clone)]
pub struct RecordingState {
    /// Buffers, one per track, in order of arming
    pub buffers: Vec<TrackRecordingBuffer>,
    /// Whether recording is active
    pub is_recording: bool,
}

impl RecordingState {
    /// Not recording, with no buffers.
    pub fn new() -> (s: RecordingState)
        ensures
            s.buffers@.len() == 0,
            !s.is_recording,
    {
        RecordingState { buffers: Vec::new(), is_recording: false }
    }

    /// The index of the buffer of a track.
    fn find(&self, track_id: u128) -> (r: Option<usize>)
        ensures
            match r {
                Some(i) => i < self.buffers@.len() && self.buffers@[i as int].track_id == track_id
                    && forall|j: int| 0 <= j < i ==> self.buffers@[j].track_id != track_id,
                None => !buffer_ids(self.buffers@).contains(track_id),
            },
    {
        let mut i: usize = 0;
        while i < self.buffers.len()
            invariant
                i <= self.buffers@.len(),
                forall|j: int| 0 <= j < i ==> self.buffers@[j].track_id != track_id,
            decreases self.buffers@.len() - i,
        {
            if self.buffers[i].track_id == track_id {
                return Some(i);
            }
            i = i + 1;
        }
        proof {
            assert(!buffer_ids(self.buffers@).contains(track_id)) by {
                if buffer_ids(self.buffers@).contains(track_id) {
                    let k = choose|k: int| 0 <= k < buffer_ids(self.buffers@).len() && buffer_ids(self.buffers@)[k] == track_id;
                    assert(self.buffers@[k].track_id == track_id);
                }
            }
        }
        None
    }

    /// Start recording: a fresh buffer for each armed track (once each).
    pub fn start(&mut self, armed_track_ids: &Vec<u128>, start_position: u64, sample_rate: u32)
        ensures
            final(self).is_recording,
            buffer_ids(final(self).buffers@) == distinct_ids(armed_track_ids@),
            forall|k: int|
                0 <= k < final(self).buffers@.len() ==> {
                    let b = #[trigger] final(self).buffers@[k];
                    &&& b.start_position == start_position
                    &&& b.current_position == start_position
                    &&& b.midi_events@.len() == 0
                    &&& b.held_notes@ == Map::<u8, u64>::empty()
                    &&& b.sample_rate == sample_rate
                },
    {
        self.buffers = Vec::new();
        let mut i: usize = 0;
        while i < armed_track_ids.len()
            invariant
                i <= armed_track_ids@.len(),
                buffer_ids(self.buffers@) == distinct_ids(armed_track_ids@.subrange(0, i as int)),
                forall|k: int|
                    0 <= k < self.buffers@.len() ==> {
                        let b = #[trigger] self.buffers@[k];
                        &&& b.start_position == start_position
                        &&& b.current_position == start_position
                        &&& b.midi_events@.len() == 0
                        &&& b.held_notes@ == Map::<u8, u64>::empty()
                        &&& b.sample_rate == sample_rate
                    },
            decreases armed_track_ids@.len() - i,
        {
            let id = armed_track_ids[i];
            proof {
                assert(armed_track_ids@.subrange(0, i + 1).drop_last() =~= armed_track_ids@.subrange(0, i as int));
            }
            let ghost before = self.buffers@;
            match self.find(id) {
                Some(_) => {
                    proof {
                        assert(buffer_ids(before).contains(id)) by {
                            let k = choose|k: int| 0 <= k < before.len() && before[k].track_id == id;
                            assert(buffer_ids(before)[k] == id);
                        }
                    }
                },
                None => {
                    self.buffers.push(TrackRecordingBuffer::new(id, start_position, sample_rate));
                    proof {
                        assert(buffer_ids(self.buffers@) =~= buffer_ids(before).push(id));
                    }
                },
            }
            i = i + 1;
        }
        proof {
            assert(armed_track_ids@.subrange(0, armed_track_ids@.len() as int) =~= armed_track_ids@);
        }
        self.is_recording = true;
    }

    /// Stop recording and hand over the buffers.
    pub fn stop(&mut self) -> (buffers: Vec<TrackRecordingBuffer>)
        ensures
            !final(self).is_recording,
            final(self).buffers@.len() == 0,
            buffers@ == old(self).buffers@,
    {
        self.is_recording = false;
        let mut taken: Vec<TrackRecordingBuffer> = Vec::new();
        std::mem::swap(&mut taken, &mut self.buffers);
        taken
    }

    /// Record a note on to a track (ignored for a track not recorded).
    pub fn record_note_on(&mut self, track_id: u128, note: u8, velocity: u8, sample_position: u64)
        ensures
            final(self).is_recording == old(self).is_recording,
            buffer_ids(final(self).buffers@) == buffer_ids(old(self).buffers@),
            match self_index(old(self).buffers@, track_id) {
                Some(i) => {
                    &&& final(self).buffers@[i].midi_events@ == old(self).buffers@[i].midi_events@.push(
                        RecordedMidiEvent { note, velocity, sample_position, is_note_on: true },
                    )
                    &&& final(self).buffers@[i].held_notes@ == old(self).buffers@[i].held_notes@.insert(note, sample_position)
                    &&& final(self).buffers@[i].current_position == sample_position
                    &&& forall|j: int| 0 <= j < old(self).buffers@.len() && j != i ==> final(self).buffers@[j] == old(self).buffers@[j]
                },
                None => final(self).buffers@ == old(self).buffers@,
            },
    {
        match self.find(track_id) {
            Some(i) => {
                proof {
                    lemma_self_index(self.buffers@, track_id, i as int);
                }
                let ghost before = self.buffers@;
                let mut buffers: Vec<TrackRecordingBuffer> = Vec::new();
                std::mem::swap(&mut buffers, &mut self.buffers);
                let mut b = buffers.remove(i);
                b.note_on(note, velocity, sample_position);
                buffers.insert(i, b);
                std::mem::swap(&mut buffers, &mut self.buffers);
                proof {
                    assert(buffer_ids(self.buffers@) =~= buffer_ids(before));
                }
            },
            None => {
                proof {
                    lemma_self_index_none(self.buffers@, track_id);
                }
            },
        }
    }

    /// Record a note off to a track (ignored for a track not recorded).
    pub fn record_note_off(&mut self, track_id: u128, note: u8, sample_position: u64)
        ensures
            final(self).is_recording == old(self).is_recording,
            buffer_ids(final(self).buffers@) == buffer_ids(old(self).buffers@),
            match self_index(old(self).buffers@, track_id) {
                Some(i) => {
                    &&& final(self).buffers@[i].midi_events@ == old(self).buffers@[i].midi_events@.push(
                        RecordedMidiEvent { note, velocity: 0, sample_position, is_note_on: false },
                    )
                    &&& final(self).buffers@[i].held_notes@ == old(self).buffers@[i].held_notes@.remove(note)
                    &&& final(self).buffers@[i].current_position == sample_position
                    &&& forall|j: int| 0 <= j < old(self).buffers@.len() && j != i ==> final(self).buffers@[j] == old(self).buffers@[j]
                },
                None => final(self).buffers@ == old(self).buffers@,
            },
    {
        match self.find(track_id) {
            Some(i) => {
                proof {
                    lemma_self_index(self.buffers@, track_id, i as int);
                }
                let ghost before = self.buffers@;
                let mut buffers: Vec<TrackRecordingBuffer> = Vec::new();
                std::mem::swap(&mut buffers, &mut self.buffers);
                let mut b = buffers.remove(i);
                b.note_off(note, sample_position);
                buffers.insert(i, b);
                std::mem::swap(&mut buffers, &mut self.buffers);
                proof {
                    assert(buffer_ids(self.buffers@) =~= buffer_ids(before));
                }
            },
            None => {
                proof {
                    lemma_self_index_none(self.buffers@, track_id);
                }
            },
        }
    }

    /// Move every buffer to the position.
    pub fn update_position(&mut self, sample_position: u64)
        ensures
            final(self).is_recording == old(self).is_recording,
            final(self).buffers@.len() == old(self).buffers@.len(),
            forall|k: int|
                0 <= k < final(self).buffers@.len() ==> {
                    &&& (#[trigger] final(self).buffers@[k]).current_position == sample_position
                    &&& final(self).buffers@[k].track_id == old(self).buffers@[k].track_id
                    &&& final(self).buffers@[k].midi_events@ == old(self).buffers@[k].midi_events@
                    &&& final(self).buffers@[k].held_notes@ == old(self).buffers@[k].held_notes@
                    &&& final(self).buffers@[k].start_position == old(self).buffers@[k].start_position
                },
    {
        let mut taken: Vec<TrackRecordingBuffer> = Vec::new();
        std::mem::swap(&mut taken, &mut self.buffers);
        let ghost all = taken@;
        let mut out: Vec<TrackRecordingBuffer> = Vec::new();
        let mut rev: Vec<TrackRecordingBuffer> = Vec::new();
        while taken.len() > 0
            invariant
                taken@ == all.subrange(0, taken@.len() as int),
                rev@.len() == all.len() - taken@.len(),
                forall|k: int| 0 <= k < rev@.len() ==> #[trigger] rev@[k] == all[all.len() - 1 - k],
            decreases taken@.len(),
        {
            let b = taken.pop().unwrap();
            rev.push(b);
        }
        while rev.len() > 0
            invariant
                rev@.len() <= all.len(),
                forall|k: int| 0 <= k < rev@.len() ==> #[trigger] rev@[k] == all[all.len() - 1 - k],
                out@.len() == all.len() - rev@.len(),
                forall|k: int|
                    0 <= k < out@.len() ==> {
                        &&& (#[trigger] out@[k]).current_position == sample_position
                        &&& out@[k].track_id == all[k].track_id
                        &&& out@[k].midi_events@ == all[k].midi_events@
                        &&& out@[k].held_notes@ == all[k].held_notes@
                        &&& out@[k].start_position == all[k].start_position
                    },
            decreases rev@.len(),
        {
            let ghost idx = out@.len();
            let mut b = rev.pop().unwrap();
            proof {
                assert(b == all[idx as int]);
            }
            b.update_position(sample_position);
            out.push(b);
        }
        self.buffers = out;
    }

    /// Whether a track is being recorded.
    pub fn is_track_recording(&self, track_id: u128) -> (b: bool)
        ensures
            b == (self.is_recording && buffer_ids(self.buffers@).contains(track_id)),
    {
        match self.find(track_id) {
            Some(i) => {
                proof {
                    assert(buffer_ids(self.buffers@)[i as int] == track_id);
                }
                self.is_recording
            },
            None => false,
        }
    }

    /// The number of events recorded on a track (zero for a track not
    /// recorded).
    pub fn event_count(&self, track_id: u128) -> (n: usize)
        ensures
            match self_index(self.buffers@, track_id) {
                Some(i) => n == self.buffers@[i].midi_events@.len(),
                None => n == 0,
            },
    {
        match self.find(track_id) {
            Some(i) => {
                proof {
                    lemma_self_index(self.buffers@, track_id, i as int);
                }
                self.buffers[i].midi_events.len()
            },
            None => {
                proof {
                    lemma_self_index_none(self.buffers@, track_id);
                }
                0
            },
        }
    }
}

/// The index of the first buffer of a track.
pub open spec fn self_index(buffers: Seq<TrackRecordingBuffer>, track_id: u128) -> Option<int> {
    if exists|i: int| 0 <= i < buffers.len() && buffers[i].track_id == track_id {
        Some(choose|i: int| 0 <= i < buffers.len() && buffers[i].track_id == track_id && forall|j: int| 0 <= j < i ==> buffers[j].track_id != track_id)
    } else {
        None
    }
}

/// The first buffer of the track is the one `self_index` names.
pub proof fn lemma_self_index(buffers: Seq<TrackRecordingBuffer>, track_id: u128, i: int)
    requires
        0 <= i < buffers.len(),
        buffers[i].track_id == track_id,
        forall|j: int| 0 <= j < i ==> buffers[j].track_id != track_id,
    ensures
        self_index(buffers, track_id) == Some(i),
{
    let k = choose|k: int| 0 <= k < buffers.len() && buffers[k].track_id == track_id && forall|j: int| 0 <= j < k ==> buffers[j].track_id != track_id;
    assert(k == i) by {
        if k < i {
        } else if k > i {
            assert(buffers[i].track_id == track_id);
        }
    }
}

/// Without a buffer for the track, `self_index` finds none.
pub proof fn lemma_self_index_none(buffers: Seq<TrackRecordingBuffer>, track_id: u128)
    requires
        !buffer_ids(buffers).contains(track_id),
    ensures
        self_index(buffers, track_id) is None,
{
    if exists|i: int| 0 <= i < buffers.len() && buffers[i].track_id == track_id {
        let i = choose|i: int| 0 <= i < buffers.len() && buffers[i].track_id == track_id;
        assert(buffer_ids(buffers)[i] == track_id);
    }
}

} // verus!
