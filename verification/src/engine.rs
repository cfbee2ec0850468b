//! The transport and recording decisions of the audio engine: given its
//! state and a command, the next state and what the engine must do.
//!
//! Sound generation, devices and timing stay with the caller, which
//! performs each returned action.

use vstd::prelude::*;
use crate::tab::instrument::{midi_note_name, note_text};

verus! {

/// Engine playback state.
#[derive(Debug, Clone, Copy, PartialEq, Eq, Structural)]
pub enum EngineState {
    Stopped,
    Playing,
    Paused,
}

/// Guitar configuration presets.
#[derive(Debug, Clone, Copy, PartialEq, Eq, Structural)]
pub enum GuitarConfigType {
    Standard6,
    SevenStringMetal,
    EightStringMetal,
    TechDeath,
    DropD,
    DropC,
    DropA,
    Bass,
}

/// Drum pattern presets.
#[derive(Debug, Clone, Copy, PartialEq, Eq, Structural)]
pub enum DrumPatternType {
    Rock,
    Disco,
    Metal,
    BlastBeat,
    HammerBlast,
    GravityBlast,
    TechDeath,
    DoubleBass16ths,
    DBeat,
}

/// Bass preset types.
#[derive(Debug, Clone, Copy, PartialEq, Eq, Structural)]
pub enum BassPresetType {
    SynthBass,
    SubBass,
    FunkBass,
    Bass808,
    WobbleBass,
    MoogBass,
    ReeseBass,
}

/// MIDI device information.
#[derive(Debug, Clone)]
pub struct MidiDeviceInfo {
    pub index: usize,
    pub name: String,
}

/// The name of a MIDI note, such as "C4" for middle C.
pub fn note_to_name(note: u8) -> (s: String)
    ensures
        s@ == note_text(note),
{
    midi_note_name(note)
}

/// A transport or recording command.
#[derive(Debug, Clone, Copy, PartialEq, Eq, Structural)]
pub enum TransportEvent {
    Play,
    Pause,
    Stop,
    Seek(u64),
    ArmTrack(u128),
    DisarmTrack(u128),
    StartRecording,
    StopRecording,
    /// A note from the virtual keyboard, to be recorded
    RecordNote,
}

/// What the engine must do after a command.
#[derive(Debug, Clone)]
pub enum TransportAction {
    /// Start playback (clips, tab, metronome from its start)
    StartPlayback,
    /// Pause playback
    PausePlayback,
    /// Silence every instrument and stop playback
    StopPlayback,
    /// Move playback to the position
    SeekPlayback(u64),
    /// Report that a track was armed (true) or disarmed (false)
    ReportArmed(u128, bool),
    /// Begin recording these tracks at this position, and start playback
    BeginRecording(Vec<u128>, u64),
    /// Refuse to record: no track is armed
    RefuseRecording,
    /// Silence every instrument, stop playback and finish the recording
    EndRecording,
    /// Record the note on this track
    RouteNote(u128),
    /// Nothing to do
    Nothing,
}

/// The engine's transport: playback state, position, drum pattern step,
/// armed tracks and whether it records.
#[derive(Debug, Clone)]
pub struct EngineTransport {
    pub state: EngineState,
    pub position: u64,
    pub pattern_step: usize,
    pub step_sample_counter: u64,
    pub armed_tracks: Vec<u128>,
    pub recording: bool,
}

/// `b` is `a` with the playback state, position and pattern counters
/// given, and the same armed tracks and recording flag.
pub open spec fn moved_to(a: EngineTransport, b: EngineTransport, state: EngineState, position: u64, reset_pattern: bool) -> bool {
    &&& b.state == state
    &&& b.position == position
    &&& if reset_pattern {
        b.pattern_step == 0 && b.step_sample_counter == 0
    } else {
        b.pattern_step == a.pattern_step && b.step_sample_counter == a.step_sample_counter
    }
    &&& b.armed_tracks@ == a.armed_tracks@
    &&& b.recording == a.recording
}

/// `b` keeps everything of `a` but the armed tracks, which are `armed`,
/// and the recording flag, which is `recording`.
pub open spec fn armed_to(a: EngineTransport, b: EngineTransport, armed: Seq<u128>, recording: bool) -> bool {
    &&& b.state == a.state
    &&& b.position == a.position
    &&& b.pattern_step == a.pattern_step
    &&& b.step_sample_counter == a.step_sample_counter
    &&& b.armed_tracks@ == armed
    &&& b.recording == recording
}

impl EngineTransport {
    /// A stopped transport at the start, with no armed track.
    pub fn new() -> (t: EngineTransport)
        ensures
            t.state == EngineState::Stopped,
            t.position == 0,
            t.pattern_step == 0,
            t.step_sample_counter == 0,
            t.armed_tracks@.len() == 0,
            !t.recording,
    {
        EngineTransport {
            state: EngineState::Stopped,
            position: 0,
            pattern_step: 0,
            step_sample_counter: 0,
            armed_tracks: Vec::new(),
            recording: false,
        }
    }

    /// Whether the track is armed.
    pub fn is_armed(&self, id: u128) -> (b: bool)
        ensures
            b == self.armed_tracks@.contains(id),
    {
        let mut i: usize = 0;
        while i < self.armed_tracks.len()
            invariant
                i <= self.armed_tracks@.len(),
                forall|j: int| 0 <= j < i ==> self.armed_tracks@[j] != id,
            decreases self.armed_tracks@.len() - i,
        {
            if self.armed_tracks[i] == id {
                proof {
                    assert(self.armed_tracks@[i as int] == id);
                }
                return true;
            }
            i = i + 1;
        }
        false
    }

    /// Apply a command: the new state, and the action the engine performs.
    pub fn handle(&mut self, event: TransportEvent) -> (a: TransportAction)
        ensures
            match event {
                TransportEvent::Play => moved_to(*old(self), *final(self), EngineState::Playing, old(self).position, false)
                    && a is StartPlayback,
                TransportEvent::Pause => moved_to(*old(self), *final(self), EngineState::Paused, old(self).position, false)
                    && a is PausePlayback,
                TransportEvent::Stop => moved_to(*old(self), *final(self), EngineState::Stopped, 0, true)
                    && a is StopPlayback,
                TransportEvent::Seek(p) => moved_to(*old(self), *final(self), old(self).state, p, false)
                    && a == TransportAction::SeekPlayback(p),
                TransportEvent::ArmTrack(id) => if old(self).armed_tracks@.contains(id) {
                    armed_to(*old(self), *final(self), old(self).armed_tracks@, old(self).recording)
                        && a is Nothing
                } else {
                    armed_to(*old(self), *final(self), old(self).armed_tracks@.push(id), old(self).recording)
                        && a == TransportAction::ReportArmed(id, true)
                },
                TransportEvent::DisarmTrack(id) => armed_to(
                    *old(self),
                    *final(self),
                    old(self).armed_tracks@.filter(|x: u128| x != id),
                    old(self).recording,
                ) && a == TransportAction::ReportArmed(id, false),
                TransportEvent::StartRecording => if old(self).armed_tracks@.len() > 0 {
                    &&& final(self).state == EngineState::Playing
                    &&& armed_to(*old(self), EngineTransport { state: old(self).state, ..*final(self) }, old(self).armed_tracks@, true)
                    &&& a is BeginRecording
                    &&& a->BeginRecording_0@ == old(self).armed_tracks@
                    &&& a->BeginRecording_1 == old(self).position
                } else {
                    armed_to(*old(self), *final(self), old(self).armed_tracks@, old(self).recording)
                        && a is RefuseRecording
                },
                TransportEvent::StopRecording => {
                    &&& moved_to(*old(self), EngineTransport { recording: old(self).recording, ..*final(self) }, EngineState::Stopped, old(self).position, true)
                    &&& !final(self).recording
                    &&& a is EndRecording
                },
                TransportEvent::RecordNote => armed_to(*old(self), *final(self), old(self).armed_tracks@, old(self).recording)
                    && if old(self).recording && old(self).armed_tracks@.len() > 0 {
                    a == TransportAction::RouteNote(old(self).armed_tracks@[0])
                } else {
                    a is Nothing
                },
            },
    {
        match event {
            TransportEvent::Play => {
                self.state = EngineState::Playing;
                TransportAction::StartPlayback
            },
            TransportEvent::Pause => {
                self.state = EngineState::Paused;
                TransportAction::PausePlayback
            },
            TransportEvent::Stop => {
                self.state = EngineState::Stopped;
                self.position = 0;
                self.pattern_step = 0;
                self.step_sample_counter = 0;
                TransportAction::StopPlayback
            },
            TransportEvent::Seek(p) => {
                self.position = p;
                TransportAction::SeekPlayback(p)
            },
            TransportEvent::ArmTrack(id) => {
                if self.is_armed(id) {
                    TransportAction::Nothing
                } else {
                    self.armed_tracks.push(id);
                    TransportAction::ReportArmed(id, true)
                }
            },
            TransportEvent::DisarmTrack(id) => {
                let ghost pred = |x: u128| x != id;
                let mut kept: Vec<u128> = Vec::new();
                let mut i: usize = 0;
                while i < self.armed_tracks.len()
                    invariant
                        i <= self.armed_tracks@.len(),
                        pred == (|x: u128| x != id),
                        kept@ == self.armed_tracks@.subrange(0, i as int).filter(pred),
                    decreases self.armed_tracks@.len() - i,
                {
                    proof {
                        assert(self.armed_tracks@.subrange(0, i + 1).drop_last() =~= self.armed_tracks@.subrange(0, i as int));
                        reveal_with_fuel(Seq::<_>::filter, 2);
                    }
                    if self.armed_tracks[i] != id {
                        kept.push(self.armed_tracks[i]);
                    }
                    i = i + 1;
                }
                proof {
                    assert(self.armed_tracks@.subrange(0, self.armed_tracks@.len() as int) =~= self.armed_tracks@);
                }
                self.armed_tracks = kept;
                TransportAction::ReportArmed(id, false)
            },
            TransportEvent::StartRecording => {
                if self.armed_tracks.len() > 0 {
                    let mut tracks: Vec<u128> = Vec::new();
                    let mut i: usize = 0;
                    while i < self.armed_tracks.len()
                        invariant
                            i <= self.armed_tracks@.len(),
                            tracks@ == self.armed_tracks@.subrange(0, i as int),
                        decreases self.armed_tracks@.len() - i,
                    {
                        tracks.push(self.armed_tracks[i]);
                        i = i + 1;
                    }
                    proof {
                        assert(tracks@ =~= self.armed_tracks@);
                    }
                    self.recording = true;
                    self.state = EngineState::Playing;
                    TransportAction::BeginRecording(tracks, self.position)
                } else {
                    TransportAction::RefuseRecording
                }
            },
            TransportEvent::StopRecording => {
                self.state = EngineState::Stopped;
                self.pattern_step = 0;
                self.step_sample_counter = 0;
                self.recording = false;
                TransportAction::EndRecording
            },
            TransportEvent::RecordNote => {
                if self.recording && self.armed_tracks.len() > 0 {
                    TransportAction::RouteNote(self.armed_tracks[0])
                } else {
                    TransportAction::Nothing
                }
            },
        }
    }
}

impl EngineTransport {
    /// Count one sample of a running drum pattern of `steps` steps, each
    /// `samples_per_step` samples long: where the current step has run its
    /// length, the pattern moves to its next step (wrapping round) and that
    /// step is returned, to be sounded.
    pub fn pattern_sample(&mut self, samples_per_step: u64, steps: usize) -> (sounded: Option<usize>)
        requires
            steps > 0,
        ensures
            old(self).step_sample_counter >= samples_per_step ==> {
                &&& final(self).pattern_step == (old(self).pattern_step + 1) % (steps as int)
                &&& final(self).step_sample_counter == 1
                &&& sounded == Some(final(self).pattern_step)
            },
            old(self).step_sample_counter < samples_per_step ==> {
                &&& final(self).pattern_step == old(self).pattern_step
                &&& final(self).step_sample_counter == old(self).step_sample_counter + 1
                &&& sounded is None
            },
            final(self).state == old(self).state,
            final(self).position == old(self).position,
            final(self).armed_tracks@ == old(self).armed_tracks@,
            final(self).recording == old(self).recording,
    {
        let mut sounded: Option<usize> = None;
        if self.step_sample_counter >= samples_per_step {
            self.step_sample_counter = 0;
            self.pattern_step = ((self.pattern_step as u128 + 1) % (steps as u128)) as usize;
            sounded = Some(self.pattern_step);
        }
        self.step_sample_counter = self.step_sample_counter + 1;
        sounded
    }
}

/// The armed tracks without `id` are distinct, lack `id`, and are all
/// armed tracks.
pub proof fn lemma_disarm_distinct(armed: Seq<u128>, id: u128)
    requires
        armed.no_duplicates(),
    ensures
        armed.filter(|x: u128| x != id).no_duplicates(),
        !armed.filter(|x: u128| x != id).contains(id),
        forall|x: u128| armed.filter(|y: u128| y != id).contains(x) ==> armed.contains(x),
    decreases armed.len(),
{
    reveal_with_fuel(Seq::<_>::filter, 1);
    let pred = |x: u128| x != id;
    if armed.len() > 0 {
        let rest = armed.drop_last();
        assert(rest.no_duplicates()) by {
            assert forall|i: int, j: int| 0 <= i < rest.len() && 0 <= j < rest.len() && i != j implies rest[i] != rest[j] by {
                assert(rest[i] == armed[i]);
                assert(rest[j] == armed[j]);
            }
        }
        lemma_disarm_distinct(rest, id);
        let fr = rest.filter(pred);
        assert(!rest.contains(armed.last())) by {
            if rest.contains(armed.last()) {
                let k = choose|k: int| 0 <= k < rest.len() && rest[k] == armed.last();
                assert(armed[k] == armed[armed.len() - 1]);
            }
        }
        if armed.last() != id {
            assert(armed.filter(pred) == fr.push(armed.last()));
            assert(!fr.contains(armed.last()));
            assert forall|i: int, j: int| 0 <= i < fr.push(armed.last()).len() && 0 <= j < fr.push(armed.last()).len() && i != j implies fr.push(armed.last())[i] != fr.push(armed.last())[j] by {
                if i < fr.len() && j < fr.len() {
                } else if i == fr.len() {
                    assert(fr.contains(fr[j]));
                } else {
                    assert(fr.contains(fr[i]));
                }
            }
            assert forall|x: u128| armed.filter(|y: u128| y != id).contains(x) implies armed.contains(x) by {
                let k = choose|k: int| 0 <= k < fr.push(armed.last()).len() && fr.push(armed.last())[k] == x;
                if k < fr.len() {
                    assert(fr.contains(x));
                    assert(rest.contains(x));
                    let m = choose|m: int| 0 <= m < rest.len() && rest[m] == x;
                    assert(armed[m] == x);
                } else {
                    assert(armed[armed.len() - 1] == x);
                }
            }
            assert(!fr.push(armed.last()).contains(id)) by {
                if fr.push(armed.last()).contains(id) {
                    let k = choose|k: int| 0 <= k < fr.push(armed.last()).len() && fr.push(armed.last())[k] == id;
                    if k < fr.len() {
                        assert(fr.contains(id));
                    }
                }
            }
        } else {
            assert(armed.filter(pred) == fr);
            assert forall|x: u128| armed.filter(|y: u128| y != id).contains(x) implies armed.contains(x) by {
                assert(rest.contains(x));
                let m = choose|m: int| 0 <= m < rest.len() && rest[m] == x;
                assert(armed[m] == x);
            }
        }
    }
}

/// Arming a track that is not armed keeps the armed tracks distinct.
pub proof fn lemma_arm_distinct(armed: Seq<u128>, id: u128)
    requires
        armed.no_duplicates(),
        !armed.contains(id),
    ensures
        armed.push(id).no_duplicates(),
{
    assert forall|i: int, j: int| 0 <= i < armed.push(id).len() && 0 <= j < armed.push(id).len() && i != j implies armed.push(id)[i] != armed.push(id)[j] by {
        if i < armed.len() && j < armed.len() {
        } else if i == armed.len() {
            assert(armed[j] == armed.push(id)[j]);
        } else {
            assert(armed[i] == armed.push(id)[i]);
        }
    }
}

} // verus!
