//! Tablature: rhythm, notation, techniques, instruments and document
//! metadata.

pub mod rhythm;
pub mod notation;
pub mod technique;
pub mod instrument;

use vstd::prelude::*;
use crate::tab::instrument::pitch_class_names;
use crate::tab::instrument::pitch_class_name;
use crate::tab::rhythm::{TimeSignature, beat_ticks, RhythmValue, plain, BaseDuration};
use crate::tab::instrument::{Fingering, Instrument};
use crate::project::fresh_id;

verus! {

/// Document metadata.
#[derive(Debug, Clone)]
pub struct TabMetadata {
    /// Song title
    pub title: String,
    /// Artist name
    pub artist: String,
    /// Album name
    pub album: String,
    /// Year
    pub year: Option<u16>,
    /// Transcriber
    pub transcriber: String,
    /// Copyright notice
    pub copyright: String,
    /// Instructions/notes
    pub instructions: String,
    /// Comments
    pub comments: Vec<String>,
    /// Tags
    pub tags: Vec<String>,
    /// Difficulty rating (1-10)
    pub difficulty: u8,
}

impl Default for TabMetadata {
    fn default() -> (m: TabMetadata)
        ensures
            m.title@.len() == 0,
            m.artist@.len() == 0,
            m.album@.len() == 0,
            m.year is None,
            m.transcriber@.len() == 0,
            m.copyright@.len() == 0,
            m.instructions@.len() == 0,
            m.comments@.len() == 0,
            m.tags@.len() == 0,
            m.difficulty == 0,
    {
        TabMetadata {
            title: String::new(),
            artist: String::new(),
            album: String::new(),
            year: None,
            transcriber: String::new(),
            copyright: String::new(),
            instructions: String::new(),
            comments: Vec::new(),
            tags: Vec::new(),
            difficulty: 0,
        }
    }
}

/// Repeat markers.
#[derive(Debug, Clone, Copy, PartialEq, Eq, Structural)]
pub enum RepeatMarker {
    /// No repeat
    NoRepeat,
    /// Start of a repeat
    Start,
    /// End of a repeat, with the number of times to repeat
    End(u8),
    /// Start and end of a repeat, with the number of times to repeat
    StartEnd(u8),
}

/// Section marker (Intro, Verse, Chorus, etc.).
#[derive(Debug, Clone)]
pub struct SectionMarker {
    /// Measure number where section starts
    pub measure: usize,
    /// Section name
    pub name: String,
    /// Optional color
    pub color: Option<(u8, u8, u8)>,
}

impl SectionMarker {
    /// A section marker without color.
    pub fn new(measure: usize, name: &str) -> (s: SectionMarker)
        ensures
            s.measure == measure,
            s.name@ == name@,
            s.color is None,
    {
        SectionMarker { measure, name: String::from_str(name), color: None }
    }

    /// An "Intro" marker.
    pub fn intro(measure: usize) -> (s: SectionMarker)
        ensures
            s.measure == measure,
            s.name@ == "Intro"@,
            s.color is None,
    {
        SectionMarker::new(measure, "Intro")
    }

    /// A "Verse" marker.
    pub fn verse(measure: usize) -> (s: SectionMarker)
        ensures
            s.measure == measure,
            s.name@ == "Verse"@,
            s.color is None,
    {
        SectionMarker::new(measure, "Verse")
    }

    /// A "Chorus" marker.
    pub fn chorus(measure: usize) -> (s: SectionMarker)
        ensures
            s.measure == measure,
            s.name@ == "Chorus"@,
            s.color is None,
    {
        SectionMarker::new(measure, "Chorus")
    }

    /// A "Breakdown" marker.
    pub fn breakdown(measure: usize) -> (s: SectionMarker)
        ensures
            s.measure == measure,
            s.name@ == "Breakdown"@,
            s.color is None,
    {
        SectionMarker::new(measure, "Breakdown")
    }

    /// A "Solo" marker.
    pub fn solo(measure: usize) -> (s: SectionMarker)
        ensures
            s.measure == measure,
            s.name@ == "Solo"@,
            s.color is None,
    {
        SectionMarker::new(measure, "Solo")
    }
}

/// Key signature.
#[derive(Debug, Clone, Copy, PartialEq, Eq, Structural)]
pub struct KeySignature {
    /// Root note (0 = C, 1 = C#, etc.)
    pub root: u8,
    /// Is minor?
    pub minor: bool,
}

/// The name of a key's root: its pitch class, or "C" for a root past B.
pub open spec fn key_root_name(root: u8) -> Seq<char> {
    if root < 12 {
        pitch_class_names()[root as int]
    } else {
        "C"@
    }
}

impl Default for KeySignature {
    fn default() -> (k: KeySignature)
        ensures
            k == (KeySignature { root: 0, minor: false }),
    {
        KeySignature { root: 0, minor: false }
    }
}

impl KeySignature {
    /// A key signature.
    pub fn new(root: u8, minor: bool) -> (k: KeySignature)
        ensures
            k == (KeySignature { root, minor }),
    {
        KeySignature { root, minor }
    }

    /// C major.
    pub fn c_major() -> (k: KeySignature)
        ensures
            k == (KeySignature { root: 0, minor: false }),
    {
        KeySignature::new(0, false)
    }

    /// A minor.
    pub fn a_minor() -> (k: KeySignature)
        ensures
            k == (KeySignature { root: 9, minor: true }),
    {
        KeySignature::new(9, true)
    }

    /// Name of the root note.
    pub fn name(&self) -> (s: &'static str)
        ensures
            s@ == key_root_name(self.root),
    {
        if self.root < 12 {
            pitch_class_name(self.root)
        } else {
            "C"
        }
    }
}


/// A note on a string.
#[derive(Debug, Clone, Copy, PartialEq, Eq, Structural)]
pub struct TabNote {
    /// String number (1 = highest pitch)
    pub string: u8,
    /// Fret number (0 = open)
    pub fret: u8,
    /// Velocity (0-127)
    pub velocity: u8,
    /// Is tied from previous note
    pub tied: bool,
    /// Is ghost note
    pub is_ghost: bool,
    /// Is dead/muted note
    pub dead: bool,
    /// Left hand fingering
    pub left_finger: Option<Fingering>,
    /// Right hand fingering
    pub right_finger: Option<Fingering>,
}

impl TabNote {
    /// A plain note at velocity 100.
    pub fn new(string: u8, fret: u8) -> (n: TabNote)
        ensures
            n == (TabNote {
                string,
                fret,
                velocity: 100,
                tied: false,
                is_ghost: false,
                dead: false,
                left_finger: None,
                right_finger: None,
            }),
    {
        TabNote {
            string,
            fret,
            velocity: 100,
            tied: false,
            is_ghost: false,
            dead: false,
            left_finger: None,
            right_finger: None,
        }
    }

    /// The same note at another velocity.
    pub fn with_velocity(self, velocity: u8) -> (n: TabNote)
        ensures
            n == (TabNote { velocity, ..self }),
    {
        TabNote { velocity, ..self }
    }

    /// The same note as a ghost note, at velocity 60.
    pub fn as_ghost(self) -> (n: TabNote)
        ensures
            n == (TabNote { is_ghost: true, velocity: 60, ..self }),
    {
        TabNote { is_ghost: true, velocity: 60, ..self }
    }

    /// The same note, dead (muted).
    pub fn dead(self) -> (n: TabNote)
        ensures
            n == (TabNote { dead: true, ..self }),
    {
        TabNote { dead: true, ..self }
    }
}

/// A beat: notes sounding together, or a rest. Beat effects are kept
/// beside it by the caller.
#[derive(Debug, Clone)]
pub struct TabBeat {
    /// Unique identifier (the bits of a UUID)
    pub id: u128,
    /// Notes in this beat (can be chord)
    pub notes: Vec<TabNote>,
    /// Rhythmic value
    pub rhythm: RhythmValue,
    /// Is this a rest?
    pub is_rest: bool,
    /// Text annotation
    pub text: Option<String>,
    /// Voice (for multi-voice notation)
    pub voice: u8,
}

impl Default for TabBeat {
    fn default() -> (b: TabBeat)
        ensures
            b.notes@.len() == 0,
            b.rhythm == plain(BaseDuration::Quarter),
            !b.is_rest,
            b.text is None,
            b.voice == 0,
    {
        TabBeat {
            id: fresh_id(),
            notes: Vec::new(),
            rhythm: RhythmValue::quarter(),
            is_rest: false,
            text: None,
            voice: 0,
        }
    }
}

impl TabBeat {
    /// A rest of the given value.
    pub fn rest(rhythm: RhythmValue) -> (b: TabBeat)
        ensures
            b.notes@.len() == 0,
            b.rhythm == rhythm,
            b.is_rest,
            b.text is None,
            b.voice == 0,
    {
        let mut b = TabBeat::default();
        b.is_rest = true;
        b.rhythm = rhythm;
        b
    }

    /// A single note of the given value.
    pub fn note(string: u8, fret: u8, rhythm: RhythmValue) -> (b: TabBeat)
        ensures
            b.notes@.len() == 1,
            b.notes@[0] == (TabNote {
                string,
                fret,
                velocity: 100,
                tied: false,
                is_ghost: false,
                dead: false,
                left_finger: None,
                right_finger: None,
            }),
            b.rhythm == rhythm,
            !b.is_rest,
            b.text is None,
            b.voice == 0,
    {
        let mut b = TabBeat::default();
        b.notes.push(TabNote::new(string, fret));
        b.rhythm = rhythm;
        b
    }

    /// A chord of (string, fret) notes of the given value.
    pub fn chord(notes: Vec<(u8, u8)>, rhythm: RhythmValue) -> (b: TabBeat)
        ensures
            b.notes@.len() == notes@.len(),
            forall|k: int| 0 <= k < notes@.len() ==> #[trigger] b.notes@[k] == (TabNote {
                string: notes@[k].0,
                fret: notes@[k].1,
                velocity: 100,
                tied: false,
                is_ghost: false,
                dead: false,
                left_finger: None,
                right_finger: None,
            }),
            b.rhythm == rhythm,
            !b.is_rest,
            b.text is None,
            b.voice == 0,
    {
        let mut b = TabBeat::default();
        let mut i: usize = 0;
        while i < notes.len()
            invariant
                i <= notes@.len(),
                b.notes@.len() == i,
                forall|k: int| 0 <= k < i ==> #[trigger] b.notes@[k] == (TabNote {
                    string: notes@[k].0,
                    fret: notes@[k].1,
                    velocity: 100,
                    tied: false,
                    is_ghost: false,
                    dead: false,
                    left_finger: None,
                    right_finger: None,
                }),
                !b.is_rest,
                b.text is None,
                b.voice == 0,
            decreases notes@.len() - i,
        {
            let (string, fret) = notes[i];
            b.notes.push(TabNote::new(string, fret));
            i = i + 1;
        }
        b.rhythm = rhythm;
        b
    }
}

/// A colour as red, green and blue.
#[derive(Debug, Clone, Copy, PartialEq, Eq, Structural)]
pub struct Rgb {
    pub r: u8,
    pub g: u8,
    pub b: u8,
}

/// A track in the document. Its volume and pan are kept beside it by the
/// caller.
#[derive(Debug, Clone)]
pub struct TabTrack {
    /// Unique identifier (the bits of a UUID)
    pub id: u128,
    pub name: String,
    pub instrument: Instrument,
    /// Track color for UI
    pub color: Rgb,
    /// Is muted
    pub muted: bool,
    /// Is soloed
    pub solo: bool,
}

/// A new track of that name and instrument, blue, neither muted nor
/// soloed.
pub open spec fn new_track_is(t: TabTrack, name: Seq<char>, instrument: Instrument) -> bool {
    &&& t.name@ == name
    &&& t.instrument == instrument
    &&& t.color == (Rgb { r: 52, g: 152, b: 219 })
    &&& !t.muted
    &&& !t.solo
}

impl TabTrack {
    /// A new track with a fresh identifier.
    pub fn new(name: &str, instrument: Instrument) -> (t: TabTrack)
        ensures
            new_track_is(t, name@, instrument),
    {
        TabTrack {
            id: fresh_id(),
            name: String::from_str(name),
            instrument,
            color: Rgb { r: 52, g: 152, b: 219 },
            muted: false,
            solo: false,
        }
    }

    /// A track with a six-string guitar in E standard.
    pub fn guitar(name: &str) -> (t: TabTrack)
        ensures
            t.name@ == name@,
            t.instrument matches Instrument::StringedInstrument(c) && c.string_count == 6 && c.tuning@ == seq![
                40u8,
                45u8,
                50u8,
                55u8,
                59u8,
                64u8,
            ],
            t.color == (Rgb { r: 52, g: 152, b: 219 }),
            !t.muted && !t.solo,
    {
        TabTrack::new(name, Instrument::guitar_standard())
    }

    /// A track with a four-string bass in E standard.
    pub fn bass(name: &str) -> (t: TabTrack)
        ensures
            t.name@ == name@,
            t.instrument matches Instrument::StringedInstrument(c) && c.string_count == 4 && c.tuning@ == seq![
                28u8,
                33u8,
                38u8,
                43u8,
            ],
            t.color == (Rgb { r: 52, g: 152, b: 219 }),
            !t.muted && !t.solo,
    {
        TabTrack::new(name, Instrument::bass_standard())
    }

    /// A drum track.
    pub fn drums(name: &str) -> (t: TabTrack)
        ensures
            new_track_is(t, name@, Instrument::Drums),
    {
        TabTrack::new(name, Instrument::Drums)
    }
}

/// The beats of one track in one measure.
#[derive(Debug, Clone)]
pub struct TrackMeasure {
    /// Track identifier (the bits of a UUID)
    pub track_id: u128,
    /// Beats in this measure for this track
    pub beats: Vec<TabBeat>,
}

/// A measure of a tab document: its number, signature changes, the beats
/// of each track, repeat marks and endings. Tempo changes are kept beside
/// it by the caller.
#[derive(Debug, Clone)]
pub struct TabMeasure {
    /// Measure number (1-indexed)
    pub number: usize,
    /// Time signature change (None = same as previous)
    pub time_signature: Option<TimeSignature>,
    /// Key signature change
    pub key_signature: Option<KeySignature>,
    /// Beats for each track in this measure
    pub track_beats: Vec<TrackMeasure>,
    /// Repeat markers
    pub repeat: RepeatMarker,
    /// Alternate endings (1st, 2nd, etc.)
    pub endings: Vec<u8>,
}

/// The ticks of a measure: those of its time signature, common time where
/// it gives none.
pub open spec fn measure_duration(m: TabMeasure) -> nat {
    match m.time_signature {
        Some(ts) => (beat_ticks(ts.denominator) * ts.numerator) as nat,
        None => 1920,
    }
}

/// The ticks of the measures together.
pub open spec fn measures_duration(ms: Seq<TabMeasure>) -> nat
    decreases ms.len(),
{
    if ms.len() == 0 {
        0
    } else {
        measures_duration(ms.drop_last()) + measure_duration(ms.last())
    }
}

impl TabMeasure {
    /// An empty measure with the given number.
    pub fn new(number: usize) -> (m: TabMeasure)
        ensures
            m.number == number,
            m.time_signature is None,
            m.key_signature is None,
            m.track_beats@.len() == 0,
            m.repeat == RepeatMarker::NoRepeat,
            m.endings@.len() == 0,
    {
        TabMeasure {
            number,
            time_signature: None,
            key_signature: None,
            track_beats: Vec::new(),
            repeat: RepeatMarker::NoRepeat,
            endings: Vec::new(),
        }
    }

    /// Duration of the measure in ticks.
    pub fn duration_ticks(&self) -> (t: u64)
        ensures
            t as nat == measure_duration(*self),
    {
        let ts = match self.time_signature {
            Some(ts) => ts,
            None => TimeSignature::default(),
        };
        ts.measure_ticks()
    }
}

/// A tab document: its identifier, metadata, tracks, measures and section
/// markers. The tempo map is kept beside it by the caller.
#[derive(Debug, Clone)]
pub struct TabDocument {
    /// Unique identifier (the bits of a UUID)
    pub id: u128,
    /// Document metadata
    pub metadata: TabMetadata,
    /// Instrument tracks
    pub tracks: Vec<TabTrack>,
    /// Measures
    pub measures: Vec<TabMeasure>,
    /// Section markers
    pub markers: Vec<SectionMarker>,
}

impl TabDocument {
    /// An empty document with a fresh identifier.
    pub fn new() -> (d: TabDocument)
        ensures
            d.tracks@.len() == 0,
            d.measures@.len() == 0,
            d.markers@.len() == 0,
            d.metadata.title@.len() == 0,
    {
        TabDocument {
            id: fresh_id(),
            metadata: TabMetadata::default(),
            tracks: Vec::new(),
            measures: Vec::new(),
            markers: Vec::new(),
        }
    }

    /// Add a track; returns its identifier.
    pub fn add_track(&mut self, track: TabTrack) -> (id: u128)
        ensures
            id == track.id,
            final(self).tracks@ == old(self).tracks@.push(track),
            final(self).id == old(self).id,
            final(self).measures@ == old(self).measures@,
            final(self).markers@ == old(self).markers@,
    {
        let id = track.id;
        self.tracks.push(track);
        id
    }

    /// Append an empty measure numbered one past the count; returns its
    /// index.
    pub fn add_measure(&mut self) -> (index: usize)
        requires
            old(self).measures@.len() < usize::MAX,
        ensures
            index == old(self).measures@.len(),
            final(self).measures@.len() == old(self).measures@.len() + 1,
            final(self).measures@.drop_last() == old(self).measures@,
            ({
                let m = final(self).measures@.last();
                &&& m.number == index + 1
                &&& m.time_signature is None
                &&& m.key_signature is None
                &&& m.track_beats@.len() == 0
                &&& m.repeat == RepeatMarker::NoRepeat
                &&& m.endings@.len() == 0
            }),
            final(self).id == old(self).id,
            final(self).tracks@ == old(self).tracks@,
            final(self).markers@ == old(self).markers@,
    {
        let num = self.measures.len() + 1;
        let ghost before = self.measures@;
        self.measures.push(TabMeasure::new(num));
        assert(self.measures@.drop_last() =~= before);
        num - 1
    }

    /// Total duration of the document in ticks.
    pub fn total_ticks(&self) -> (t: u64)
        requires
            measures_duration(self.measures@) <= u64::MAX,
        ensures
            t as nat == measures_duration(self.measures@),
    {
        let mut total: u64 = 0;
        let mut i: usize = 0;
        while i < self.measures.len()
            invariant
                i <= self.measures@.len(),
                measures_duration(self.measures@) <= u64::MAX,
                total as nat == measures_duration(self.measures@.subrange(0, i as int)),
            decreases self.measures@.len() - i,
        {
            proof {
                assert(self.measures@.subrange(0, i + 1).drop_last() =~= self.measures@.subrange(0, i as int));
                lemma_measures_duration_prefix(self.measures@, i + 1);
            }
            total = total + self.measures[i].duration_ticks();
            i = i + 1;
        }
        proof {
            assert(self.measures@.subrange(0, self.measures@.len() as int) =~= self.measures@);
        }
        total
    }
}

/// A prefix of the measures lasts no longer than all of them.
pub proof fn lemma_measures_duration_prefix(ms: Seq<TabMeasure>, n: int)
    requires
        0 <= n <= ms.len(),
    ensures
        measures_duration(ms.subrange(0, n)) <= measures_duration(ms),
    decreases ms.len() - n,
{
    if n < ms.len() {
        lemma_measures_duration_prefix(ms, n + 1);
        assert(ms.subrange(0, n + 1).drop_last() =~= ms.subrange(0, n));
    } else {
        assert(ms.subrange(0, n) =~= ms);
    }
}

} // verus!
