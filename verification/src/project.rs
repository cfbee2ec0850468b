//! Project model: tracks, clips and their order on the timeline.
//!
//! Identifiers are 128-bit values (the bits of a UUID). The tracks of a
//! project are kept in a hash map keyed by identifier, beside a list that
//! gives their display order.

use std::collections::HashMap;
use vstd::prelude::*;
use crate::compression::{CompressionDictionary, dict_compressed, dict_decompressed};

verus! {

broadcast use vstd::std_specs::hash::group_hash_axioms;

/// A fresh random identifier (the 128 bits of a version-4 UUID).
///
/// Calls `uuid::Uuid::new_v4` and returns the UUID's bits
/// (`Uuid::as_u128`). The identifier is random, so nothing is stated of it.
#[verifier::external_body]
pub(crate) fn fresh_id() -> (id: u128) {
    uuid::Uuid::new_v4().as_u128()
}

/// The current time in milliseconds since the Unix epoch (negative for a
/// clock set before it).
///
/// Reads `std::time::SystemTime::now`, converts it with chrono's
/// `DateTime::<Utc>::from` (which, unlike `Utc::now`, accepts a clock set
/// before 1970) and reads `timestamp_millis`. The value depends on the
/// clock, so nothing is stated of it.
#[verifier::external_body]
pub(crate) fn now_millis() -> (t: i64) {
    chrono::DateTime::<chrono::Utc>::from(std::time::SystemTime::now()).timestamp_millis()
}

/// Mutable access to the track stored under `id`.
///
/// Calls `HashMap::get_mut`, for which vstd gives no specification. Claims
/// what std documents: the reference is to the value under the key, there is
/// none exactly when the key is absent, and writes through it are what the
/// map holds afterwards, with every other entry unchanged.
#[verifier::external_body]
fn track_entry(m: &mut HashMap<u128, Track>, id: u128) -> (r: Option<&mut Track>)
    ensures
        match r {
            Some(t) => {
                &&& old(m)@.contains_key(id)
                &&& *t == old(m)@[id]
                &&& final(m)@ == old(m)@.insert(id, *final(t))
            },
            None => {
                &&& !old(m)@.contains_key(id)
                &&& final(m)@ == old(m)@
            },
        },
{
    m.get_mut(&id)
}

/// Track type.
#[derive(Debug, Clone, Copy, PartialEq, Eq, Structural)]
pub enum TrackType {
    /// Audio track
    Audio,
    /// MIDI/Instrument track
    Midi,
    /// Auxiliary/Bus track
    Aux,
    /// Master track
    Master,
}

/// Input source for recording.
#[derive(Debug, Clone, Copy, PartialEq, Eq, Structural)]
pub enum InputSource {
    /// No input
    NoInput,
    /// Virtual keyboard input
    VirtualKeyboard,
    /// MIDI input
    MidiInput,
    /// Audio input (microphone)
    AudioInput,
}

impl InputSource {
    /// The default input source: none.
    pub fn default_source() -> (s: InputSource)
        ensures
            s == InputSource::NoInput,
    {
        InputSource::NoInput
    }
}

/// A MIDI note.
#[derive(Debug, Clone, Copy, PartialEq, Eq, Structural)]
pub struct MidiNote {
    /// Note number (0-127)
    pub note: u8,
    /// Velocity (0-127)
    pub velocity: u8,
    /// Start time in ticks
    pub start: u64,
    /// Duration in ticks
    pub duration: u64,
}

/// Clip content type.
#[derive(Debug, Clone)]
pub enum ClipContent {
    /// Audio clip with file reference
    Audio {
        /// Path to audio file
        file_path: String,
        /// Start offset within file (for trimming)
        file_offset: u64,
    },
    /// MIDI clip with note data
    Midi {
        /// MIDI notes
        notes: Vec<MidiNote>,
    },
}

/// The mathematical value of a clip's content.
pub enum ClipContentView {
    Audio { file_path: Seq<char>, file_offset: u64 },
    Midi { notes: Seq<MidiNote> },
}

impl View for ClipContent {
    type V = ClipContentView;

    open spec fn view(&self) -> ClipContentView {
        match self {
            ClipContent::Audio { file_path, file_offset } => ClipContentView::Audio {
                file_path: file_path@,
                file_offset: *file_offset,
            },
            ClipContent::Midi { notes } => ClipContentView::Midi { notes: notes@ },
        }
    }
}

impl ClipContent {
    /// An exact copy of this content.
    pub fn duplicate(&self) -> (r: ClipContent)
        ensures
            r@ == self@,
    {
        match self {
            ClipContent::Audio { file_path, file_offset } => ClipContent::Audio {
                file_path: file_path.clone(),
                file_offset: *file_offset,
            },
            ClipContent::Midi { notes } => {
                let mut out: Vec<MidiNote> = Vec::new();
                let mut i: usize = 0;
                while i < notes.len()
                    invariant
                        i <= notes.len(),
                        out@ == notes@.subrange(0, i as int),
                    decreases notes.len() - i,
                {
                    out.push(notes[i]);
                    i = i + 1;
                }
                assert(out@ == notes@);
                ClipContent::Midi { notes: out }
            },
        }
    }
}

/// A clip on a track.
#[derive(Debug, Clone)]
pub struct Clip {
    /// Unique clip ID
    pub id: u128,
    /// Clip name
    pub name: String,
    /// Start position in samples
    pub start: u64,
    /// Length in samples
    pub length: u64,
    /// Clip content
    pub content: ClipContent,
}

/// The mathematical value of a clip.
pub struct ClipView {
    pub id: u128,
    pub name: Seq<char>,
    pub start: u64,
    pub length: u64,
    pub content: ClipContentView,
}

impl View for Clip {
    type V = ClipView;

    open spec fn view(&self) -> ClipView {
        ClipView {
            id: self.id,
            name: self.name@,
            start: self.start,
            length: self.length,
            content: self.content@,
        }
    }
}

impl Clip {
    /// An exact copy of this clip.
    pub fn duplicate(&self) -> (r: Clip)
        ensures
            r@ == self@,
    {
        Clip {
            id: self.id,
            name: self.name.clone(),
            start: self.start,
            length: self.length,
            content: self.content.duplicate(),
        }
    }
}

/// The views of a list of clips.
pub open spec fn clip_views(clips: Seq<Clip>) -> Seq<ClipView> {
    clips.map_values(|c: Clip| c@)
}

/// An exact copy of a list of clips.
pub fn duplicate_clips(clips: &Vec<Clip>) -> (r: Vec<Clip>)
    ensures
        clip_views(r@) == clip_views(clips@),
{
    let mut out: Vec<Clip> = Vec::new();
    let mut i: usize = 0;
    while i < clips.len()
        invariant
            i <= clips.len(),
            out@.len() == i,
            forall|j: int| 0 <= j < i ==> (#[trigger] out@[j])@ == clips@[j]@,
        decreases clips.len() - i,
    {
        let c = clips[i].duplicate();
        out.push(c);
        i = i + 1;
    }
    assert(clip_views(out@) =~= clip_views(clips@));
    out
}

/// A track in the project.
#[derive(Debug, Clone)]
pub struct Track {
    /// Unique track ID
    pub id: u128,
    /// Track name
    pub name: String,
    /// Track type
    pub track_type: TrackType,
    /// Track order/index
    pub order: usize,
    /// Clips on this track
    pub clips: Vec<Clip>,
    /// Record armed (ready to record)
    pub record_armed: bool,
    /// Input source for recording
    pub input_source: InputSource,
}

/// The mathematical value of a track.
pub struct TrackView {
    pub id: u128,
    pub name: Seq<char>,
    pub track_type: TrackType,
    pub order: usize,
    pub clips: Seq<ClipView>,
    pub record_armed: bool,
    pub input_source: InputSource,
}

impl View for Track {
    type V = TrackView;

    open spec fn view(&self) -> TrackView {
        TrackView {
            id: self.id,
            name: self.name@,
            track_type: self.track_type,
            order: self.order,
            clips: clip_views(self.clips@),
            record_armed: self.record_armed,
            input_source: self.input_source,
        }
    }
}

/// A track view with a different order value.
pub open spec fn with_order(t: TrackView, order: usize) -> TrackView {
    TrackView { order, ..t }
}

impl Track {
    /// A new empty track with a fresh identifier.
    pub fn new(name: &str, track_type: TrackType) -> (t: Track)
        ensures
            t.name@ == name@,
            t.track_type == track_type,
            t.order == 0,
            t.clips@.len() == 0,
            !t.record_armed,
            t.input_source == InputSource::NoInput,
    {
        Track {
            id: fresh_id(),
            name: String::from_str(name),
            track_type,
            order: 0,
            clips: Vec::new(),
            record_armed: false,
            input_source: InputSource::NoInput,
        }
    }

    /// A new audio track.
    pub fn audio(name: &str) -> (t: Track)
        ensures
            t.name@ == name@,
            t.track_type == TrackType::Audio,
            t.order == 0,
            t.clips@.len() == 0,
            !t.record_armed,
            t.input_source == InputSource::NoInput,
    {
        Track::new(name, TrackType::Audio)
    }

    /// A new MIDI track.
    pub fn midi(name: &str) -> (t: Track)
        ensures
            t.name@ == name@,
            t.track_type == TrackType::Midi,
            t.order == 0,
            t.clips@.len() == 0,
            !t.record_armed,
            t.input_source == InputSource::NoInput,
    {
        Track::new(name, TrackType::Midi)
    }

    /// Toggle record arm.
    pub fn toggle_record_arm(&mut self)
        ensures
            final(self)@ == (TrackView { record_armed: !old(self).record_armed, ..old(self)@ }),
    {
        self.record_armed = !self.record_armed;
    }

    /// Set input source.
    pub fn set_input_source(&mut self, source: InputSource)
        ensures
            final(self)@ == (TrackView { input_source: source, ..old(self)@ }),
    {
        self.input_source = source;
    }

    /// An exact copy of this track.
    pub fn duplicate(&self) -> (r: Track)
        ensures
            r@ == self@,
    {
        Track {
            id: self.id,
            name: self.name.clone(),
            track_type: self.track_type,
            order: self.order,
            clips: duplicate_clips(&self.clips),
            record_armed: self.record_armed,
            input_source: self.input_source,
        }
    }
}

/// Project metadata.
#[derive(Debug, Clone)]
pub struct ProjectMetadata {
    /// Project name
    pub name: String,
    /// Artist name
    pub artist: String,
    /// Album name
    pub album: String,
    /// Genre
    pub genre: String,
    /// Created timestamp (milliseconds since the Unix epoch)
    pub created_at_ms: i64,
    /// Last modified timestamp (milliseconds since the Unix epoch)
    pub modified_at_ms: i64,
    /// Project notes
    pub notes: String,
}

impl ProjectMetadata {
    /// Metadata for a new project, stamped with the current time.
    pub fn new(name: &str) -> (m: ProjectMetadata)
        ensures
            m.name@ == name@,
            m.artist@.len() == 0,
            m.album@.len() == 0,
            m.genre@.len() == 0,
            m.notes@.len() == 0,
            m.created_at_ms == m.modified_at_ms,
    {
        let now = now_millis();
        ProjectMetadata {
            name: String::from_str(name),
            artist: String::new(),
            album: String::new(),
            genre: String::new(),
            created_at_ms: now,
            modified_at_ms: now,
            notes: String::new(),
        }
    }
}

/// Applies the renumbering of `remove_track` to the first `n` entries of
/// `order`: each track that the entry names gets the entry's index.
pub open spec fn renumber(m: Map<u128, TrackView>, order: Seq<u128>, n: nat) -> Map<u128, TrackView>
    decreases n,
{
    if n == 0 || n > order.len() {
        m
    } else {
        let prev = renumber(m, order, (n - 1) as nat);
        let id = order[n - 1];
        if prev.contains_key(id) {
            prev.insert(id, with_order(prev[id], (n - 1) as usize))
        } else {
            prev
        }
    }
}

/// The index of the first occurrence of `x` in `s`, if any.
pub open spec fn first_index_of(s: Seq<u128>, x: u128) -> Option<int> {
    if s.contains(x) {
        Some(choose|i: int| 0 <= i < s.len() && s[i] == x && forall|j: int| 0 <= j < i ==> s[j] != x)
    } else {
        None
    }
}

/// Finds the first index of `id` in `ids`.
pub fn position_of(ids: &Vec<u128>, id: u128) -> (r: Option<usize>)
    ensures
        match r {
            Some(i) => i < ids@.len() && ids@[i as int] == id && forall|j: int|
                0 <= j < i ==> ids@[j] != id,
            None => !ids@.contains(id),
        },
        r matches Some(i) ==> first_index_of(ids@, id) == Some(i as int),
        r is None ==> first_index_of(ids@, id) is None,
{
    let mut i: usize = 0;
    while i < ids.len()
        invariant
            i <= ids.len(),
            forall|j: int| 0 <= j < i ==> ids@[j] != id,
        decreases ids.len() - i,
    {
        if ids[i] == id {
            proof {
                assert(ids@.contains(id));
                let k = choose|k: int|
                    0 <= k < ids@.len() && ids@[k] == id && forall|j: int| 0 <= j < k ==> ids@[j] != id;
                assert(k == i as int) by {
                    if k < i {
                    } else if k > i {
                        assert(ids@[i as int] == id);
                    }
                }
            }
            return Some(i);
        }
        i = i + 1;
    }
    None
}

/// The track order after removing the first occurrence of `id`.
pub open spec fn order_without(order: Seq<u128>, id: u128) -> Seq<u128> {
    match first_index_of(order, id) {
        Some(i) => order.remove(i),
        None => order,
    }
}

/// The tracks after `remove_track(id)`, before the track itself leaves
/// the map: the remaining listed tracks are renumbered.
pub open spec fn renumbered_without(m: Map<u128, TrackView>, order: Seq<u128>, id: u128) -> Map<
    u128,
    TrackView,
> {
    match first_index_of(order, id) {
        Some(i) => renumber(m, order.remove(i), (order.len() - 1) as nat),
        None => m,
    }
}

/// A project is well numbered when its order lists each track exactly
/// once and every track's order field is its index in the order.
pub open spec fn well_numbered(m: Map<u128, TrackView>, order: Seq<u128>) -> bool {
    &&& order.no_duplicates()
    &&& forall|id: u128| m.contains_key(id) <==> order.contains(id)
    &&& forall|i: int| 0 <= i < order.len() ==> (#[trigger] m[order[i]]).order == i
}

/// Renumbering changes nothing when each listed track already carries
/// its index.
pub proof fn lemma_renumber_identity(m: Map<u128, TrackView>, order: Seq<u128>, n: nat)
    requires
        n <= order.len(),
        forall|i: int|
            0 <= i < n ==> m.contains_key(#[trigger] order[i]) && m[order[i]].order == i,
    ensures
        renumber(m, order, n) == m,
    decreases n,
{
    if n > 0 {
        lemma_renumber_identity(m, order, (n - 1) as nat);
        let id = order[n - 1];
        assert(m.contains_key(id));
        assert(with_order(m[id], (n - 1) as usize) == m[id]);
        assert(m.insert(id, m[id]) =~= m);
    }
}

/// What renumbering does: the keys stay, each listed track that the map
/// holds takes its index, and every other track is left as it was.
pub proof fn lemma_renumber_facts(m: Map<u128, TrackView>, order: Seq<u128>, n: nat)
    requires
        order.no_duplicates(),
        n <= order.len(),
    ensures
        renumber(m, order, n).dom() == m.dom(),
        forall|j: int|
            0 <= j < n && m.contains_key(order[j]) ==> #[trigger] renumber(m, order, n)[order[j]]
                == with_order(m[order[j]], j as usize),
        forall|k: u128|
            m.contains_key(k) && !order.subrange(0, n as int).contains(k) ==> #[trigger] renumber(
                m,
                order,
                n,
            )[k] == m[k],
    decreases n,
{
    if n > 0 {
        lemma_renumber_facts(m, order, (n - 1) as nat);
        let prev = renumber(m, order, (n - 1) as nat);
        let id = order[n - 1];
        let r = renumber(m, order, n);
        assert(!order.subrange(0, n - 1).contains(id)) by {
            if order.subrange(0, n - 1).contains(id) {
                let j = choose|j: int| 0 <= j < n - 1 && #[trigger] order.subrange(0, n - 1)[j] == id;
                assert(order[j] == order[n - 1]);
            }
        }
        if m.contains_key(id) {
            assert(prev[id] == m[id]);
            assert(r.dom() =~= m.dom());
        } else {
            assert(r.dom() =~= m.dom());
        }
        assert forall|j: int| 0 <= j < n && m.contains_key(order[j]) implies #[trigger] r[order[j]]
            == with_order(m[order[j]], j as usize) by {
            if j < n - 1 {
                assert(order[j] != id);
                assert(prev[order[j]] == with_order(m[order[j]], j as usize));
            }
        }
        assert forall|k: u128|
            m.contains_key(k) && !order.subrange(0, n as int).contains(k) implies #[trigger] r[k]
            == m[k] by {
            if order.subrange(0, n - 1).contains(k) {
                let j = choose|j: int| 0 <= j < n - 1 && #[trigger] order.subrange(0, n - 1)[j] == k;
                assert(order.subrange(0, n as int)[j] == k);
            }
            assert(order.subrange(0, n as int)[n - 1] == id);
            assert(k != id);
            assert(prev[k] == m[k]);
        }
    } else {
        assert forall|k: u128|
            m.contains_key(k) && !order.subrange(0, n as int).contains(k) implies #[trigger] renumber(
            m,
            order,
            n,
        )[k] == m[k] by {}
    }
}

/// The first index of an element that a sequence holds once is its index.
pub proof fn lemma_first_index_unique(s: Seq<u128>, i: int)
    requires
        s.no_duplicates(),
        0 <= i < s.len(),
    ensures
        first_index_of(s, s[i]) == Some(i),
{
    assert(s.contains(s[i]));
    let k = choose|k: int| 0 <= k < s.len() && s[k] == s[i] && forall|j: int| 0 <= j < k ==> s[j] != s[i];
    assert(k == i) by {
        if k < i {
        } else if k > i {
        }
    }
}

/// Adding a track under an identifier that a well-numbered project does
/// not use, then removing that identifier, gives back the project; the
/// project with the added track is well numbered too.
pub proof fn lemma_add_then_remove(m: Map<u128, TrackView>, order: Seq<u128>, t: TrackView)
    requires
        well_numbered(m, order),
        !m.contains_key(t.id),
        order.len() < usize::MAX,
    ensures
        ({
            let m1 = m.insert(t.id, with_order(t, order.len() as usize));
            let o1 = order.push(t.id);
            &&& well_numbered(m1, o1)
            &&& order_without(o1, t.id) == order
            &&& renumbered_without(m1, o1, t.id).remove(t.id) == m
        }),
{
    let m1 = m.insert(t.id, with_order(t, order.len() as usize));
    let o1 = order.push(t.id);
    assert(!order.contains(t.id));
    assert(o1.no_duplicates()) by {
        assert forall|i: int, j: int| 0 <= i < o1.len() && 0 <= j < o1.len() && i != j implies o1[i]
            != o1[j] by {
            if i < order.len() && j < order.len() {
            } else if i == order.len() {
                assert(order[j] == o1[j]);
            } else {
                assert(order[i] == o1[i]);
            }
        }
    }
    assert forall|id: u128| m1.contains_key(id) <==> o1.contains(id) by {
        if o1.contains(id) && id != t.id {
            let k = choose|k: int| 0 <= k < o1.len() && o1[k] == id;
            assert(k < order.len());
            assert(order[k] == id);
            assert(order.contains(id));
            assert(m.contains_key(id));
        }
        if m.contains_key(id) {
            assert(order.contains(id));
            let k = choose|k: int| 0 <= k < order.len() && order[k] == id;
            assert(o1[k] == id);
        }
        if id == t.id {
            assert(o1[order.len() as int] == id);
        }
    }
    assert forall|i: int| 0 <= i < o1.len() implies (#[trigger] m1[o1[i]]).order == i by {
        if i < order.len() {
            assert(o1[i] == order[i]);
            assert(order.contains(order[i]));
            assert(order[i] != t.id);
        }
    }
    lemma_first_index_unique(o1, order.len() as int);
    assert(o1.remove(order.len() as int) =~= order);
    assert forall|i: int| 0 <= i < order.len() implies m1.contains_key(#[trigger] order[i])
        && m1[order[i]].order == i by {
        assert(order.contains(order[i]));
    }
    lemma_renumber_identity(m1, order, order.len());
    assert(m1.remove(t.id) =~= m);
}

/// A complete project.
#[derive(Debug, Clone)]
pub struct Project {
    /// File format version
    pub format_version: String,
    /// Project metadata
    pub metadata: ProjectMetadata,
    /// Tracks (keyed by ID)
    pub tracks: HashMap<u128, Track>,
    /// Track order (list of track IDs)
    pub track_order: Vec<u128>,
    /// Sample rate
    pub sample_rate: u32,
}

impl Project {
    /// The tracks of the project, each taken by its view.
    pub open spec fn track_map(&self) -> Map<u128, TrackView> {
        self.tracks@.map_values(|t: Track| t@)
    }

    /// A new empty project.
    pub fn new(name: &str) -> (p: Project)
        ensures
            p.format_version@ == "1.0"@,
            p.metadata.name@ == name@,
            p.track_map() == Map::<u128, TrackView>::empty(),
            p.track_order@.len() == 0,
            p.sample_rate == 48000,
    {
        let p = Project {
            format_version: String::from_str("1.0"),
            metadata: ProjectMetadata::new(name),
            tracks: HashMap::new(),
            track_order: Vec::new(),
            sample_rate: 48000,
        };
        assert(p.track_map() =~= Map::<u128, TrackView>::empty());
        p
    }

    /// Add a track to the project; it takes the next order index.
    pub fn add_track(&mut self, track: Track) -> (id: u128)
        ensures
            id == track.id,
            final(self).track_map() == old(self).track_map().insert(
                track.id,
                with_order(track@, old(self).track_order@.len() as usize),
            ),
            final(self).track_order@ == old(self).track_order@.push(track.id),
            final(self).metadata == old(self).metadata,
            final(self).format_version == old(self).format_version,
            final(self).sample_rate == old(self).sample_rate,
    {
        let mut track = track;
        let id = track.id;
        track.order = self.track_order.len();
        let ghost tv = track@;
        let _ = self.tracks.insert(id, track);
        self.track_order.push(id);
        proof {
            assert(self.track_map() =~= old(self).track_map().insert(id, tv));
        }
        id
    }

    /// Set the order field of each listed track to its index in the order.
    pub(crate) fn renumber_tracks(&mut self)
        ensures
            final(self).track_map() == renumber(
                old(self).track_map(),
                old(self).track_order@,
                old(self).track_order@.len(),
            ),
            final(self).track_order@ == old(self).track_order@,
            final(self).metadata == old(self).metadata,
            final(self).format_version == old(self).format_version,
            final(self).sample_rate == old(self).sample_rate,
    {
        let mut i: usize = 0;
        while i < self.track_order.len()
            invariant
                i <= self.track_order@.len(),
                self.track_order@ == old(self).track_order@,
                self.track_map() == renumber(old(self).track_map(), self.track_order@, i as nat),
                self.metadata == old(self).metadata,
                self.format_version == old(self).format_version,
                self.sample_rate == old(self).sample_rate,
            decreases self.track_order@.len() - i,
        {
            let id = self.track_order[i];
            let ghost before = self.track_map();
            match self.tracks.remove(&id) {
                Some(t) => {
                    let mut t = t;
                    t.order = i;
                    let ghost tv = t@;
                    let _ = self.tracks.insert(id, t);
                    proof {
                        assert(before.contains_key(id));
                        assert(tv == with_order(before[id], i));
                        assert(self.track_map() =~= before.insert(id, with_order(before[id], i)));
                    }
                },
                None => {
                    proof {
                        assert(!before.contains_key(id));
                        assert(self.track_map() =~= before);
                    }
                },
            }
            i = i + 1;
        }
    }

    /// Remove a track from the project.
    ///
    /// The track leaves the order (its first occurrence), the remaining
    /// listed tracks are renumbered, and the track leaves the map.
    pub fn remove_track(&mut self, id: u128) -> (r: Option<Track>)
        ensures
            final(self).track_order@ == order_without(old(self).track_order@, id),
            ({
                let renumbered = renumbered_without(old(self).track_map(), old(self).track_order@, id);
                &&& final(self).track_map() == renumbered.remove(id)
                &&& match r {
                    Some(t) => renumbered.contains_key(id) && t@ == renumbered[id],
                    None => !renumbered.contains_key(id),
                }
            }),
            final(self).metadata == old(self).metadata,
            final(self).format_version == old(self).format_version,
            final(self).sample_rate == old(self).sample_rate,
    {
        match position_of(&self.track_order, id) {
            Some(pos) => {
                self.track_order.remove(pos);
                self.renumber_tracks();
            },
            None => {},
        }
        let ghost mid = self.track_map();
        let r = self.tracks.remove(&id);
        proof {
            assert(self.track_map() =~= mid.remove(id));
        }
        r
    }

    /// Get track by ID.
    pub fn get_track(&self, id: u128) -> (r: Option<&Track>)
        ensures
            match r {
                Some(t) => self.track_map().contains_key(id) && t@ == self.track_map()[id],
                None => !self.track_map().contains_key(id),
            },
    {
        self.tracks.get(&id)
    }

    /// Get mutable track by ID.
    pub fn get_track_mut(&mut self, id: u128) -> (r: Option<&mut Track>)
        ensures
            match r {
                Some(t) => {
                    &&& old(self).track_map().contains_key(id)
                    &&& t@ == old(self).track_map()[id]
                    &&& final(self).track_map() == old(self).track_map().insert(id, final(t)@)
                    &&& final(t)@ == t@ ==> final(self).track_map() == old(self).track_map()
                },
                None => {
                    &&& !old(self).track_map().contains_key(id)
                    &&& final(self).track_map() == old(self).track_map()
                },
            },
            final(self).track_order@ == old(self).track_order@,
            final(self).metadata == old(self).metadata,
            final(self).format_version == old(self).format_version,
            final(self).sample_rate == old(self).sample_rate,
    {
        proof {
            if old(self).track_map().contains_key(id) {
                assert(old(self).track_map().insert(id, old(self).track_map()[id])
                    =~= old(self).track_map());
            }
        }
        let r = track_entry(&mut self.tracks, id);
        r
    }

    /// Get tracks in order (ids of the order that name no track are skipped).
    pub fn tracks_ordered(&self) -> (r: Vec<&Track>)
        ensures
            r@.map_values(|t: &Track| t@) == self.track_order@.filter(
                |id: u128| self.track_map().contains_key(id),
            ).map_values(|id: u128| self.track_map()[id]),
    {
        let mut out: Vec<&Track> = Vec::new();
        let mut i: usize = 0;
        let ghost pred = |id: u128| self.track_map().contains_key(id);
        let ghost f = |id: u128| self.track_map()[id];
        while i < self.track_order.len()
            invariant
                i <= self.track_order@.len(),
                pred == (|id: u128| self.track_map().contains_key(id)),
                f == (|id: u128| self.track_map()[id]),
                out@.map_values(|t: &Track| t@) == self.track_order@.subrange(0, i as int).filter(
                    pred,
                ).map_values(f),
            decreases self.track_order@.len() - i,
        {
            let id = self.track_order[i];
            let ghost prefix = self.track_order@.subrange(0, i as int);
            proof {
                assert(self.track_order@.subrange(0, i + 1) =~= prefix.push(id));
                reveal_with_fuel(Seq::<_>::filter, 2);
                assert(prefix.push(id).drop_last() =~= prefix);
            }
            match self.tracks.get(&id) {
                Some(t) => {
                    let ghost old_out = out@;
                    out.push(t);
                    proof {
                        assert(prefix.push(id).filter(pred) == prefix.filter(pred).push(id));
                        assert(out@.map_values(|t: &Track| t@) =~= old_out.map_values(
                            |t: &Track| t@,
                        ).push(t@));
                        assert(prefix.filter(pred).push(id).map_values(f) =~= prefix.filter(
                            pred,
                        ).map_values(f).push(f(id)));
                        assert(out@.map_values(|t: &Track| t@) =~= prefix.push(id).filter(
                            pred,
                        ).map_values(f));
                    }
                },
                None => {
                    proof {
                        assert(prefix.push(id).filter(pred) == prefix.filter(pred));
                    }
                },
            }
            i = i + 1;
        }
        proof {
            assert(self.track_order@.subrange(0, self.track_order@.len() as int)
                =~= self.track_order@);
        }
        out
    }

    /// Get track count.
    pub fn track_count(&self) -> (n: usize)
        ensures
            n == self.track_map().len(),
    {
        proof {
            assert(self.track_map().dom() =~= self.tracks@.dom());
        }
        self.tracks.len()
    }

    /// Mark as modified (stamps the current time).
    pub fn touch(&mut self)
        ensures
            final(self).track_map() == old(self).track_map(),
            final(self).track_order@ == old(self).track_order@,
            final(self).format_version == old(self).format_version,
            final(self).sample_rate == old(self).sample_rate,
            final(self).metadata == (ProjectMetadata {
                modified_at_ms: final(self).metadata.modified_at_ms,
                ..old(self).metadata
            }),
    {
        self.metadata.modified_at_ms = now_millis();
    }
}

/// Project errors.
#[derive(Debug, Clone, PartialEq, Eq)]
pub enum ProjectError {
    /// IO error
    Io(String),
    /// Serialization error
    Serialize(String),
    /// Deserialization error
    Deserialize(String),
    /// Compression/decompression error
    Compression(String),
    /// Unsupported file format version
    UnsupportedVersion(u8),
    /// Dictionary required for loading
    DictionaryRequired,
}

/// Current compressed format version.
pub const COMPRESSED_FORMAT_VERSION: u8 = 1;

/// Format version with dictionary support.
pub const DICTIONARY_FORMAT_VERSION: u8 = 2;

/// Default zstd compression level.
pub const COMPRESSION_LEVEL: i32 = 3;

/// The magic bytes of a compressed project file, "ORPH".
pub open spec fn project_magic() -> Seq<u8> {
    seq![0x4Fu8, 0x52u8, 0x50u8, 0x48u8]
}

/// What `zstd::encode_all` produces for `data` at `level` (`None` where
/// it reports an error).
pub uninterp spec fn zstd_encoded(data: Seq<u8>, level: i32) -> Option<Seq<u8>>;

/// What `zstd::decode_all` produces for `data` (`None` where it reports
/// an error).
pub uninterp spec fn zstd_decoded(data: Seq<u8>) -> Option<Seq<u8>>;

/// Compresses into one zstd frame.
///
/// Calls `zstd::encode_all`; the output (or the failure) is named
/// `zstd_encoded`, the error text is that of the `io::Error`.
#[verifier::external_body]
pub(crate) fn zstd_encode_all(data: &[u8], level: i32) -> (r: Result<Vec<u8>, String>)
    ensures
        match r {
            Ok(v) => zstd_encoded(data@, level) == Some(v@),
            Err(_) => zstd_encoded(data@, level) is None,
        },
{
    zstd::encode_all(data, level).map_err(|e| e.to_string())
}

/// Decompresses zstd frames.
///
/// Calls `zstd::decode_all`; the output (or the failure) is named
/// `zstd_decoded`. zstd is lossless: what `zstd::encode_all` made from
/// some data decodes to that data.
#[verifier::external_body]
fn zstd_decode_all(data: &[u8]) -> (r: Result<Vec<u8>, String>)
    ensures
        match r {
            Ok(v) => zstd_decoded(data@) == Some(v@),
            Err(_) => zstd_decoded(data@) is None,
        },
        forall|x: Seq<u8>, level: i32|
            zstd_encoded(x, level) == Some(data@) ==> (r is Ok && r->Ok_0@ == x),
{
    zstd::decode_all(data).map_err(|e| e.to_string())
}

/// The file that `Project::frame_compressed` makes of a project's JSON.
pub open spec fn framed_compressed(json: Seq<u8>) -> Option<Seq<u8>> {
    match zstd_encoded(json, COMPRESSION_LEVEL) {
        Some(c) => Some(project_magic() + seq![COMPRESSED_FORMAT_VERSION] + c),
        None => None,
    }
}

/// The file that `Project::frame_with_dictionary` makes of a project's
/// JSON.
pub open spec fn framed_with_dictionary(json: Seq<u8>, dict: CompressionDictionary) -> Option<Seq<u8>> {
    match dict_compressed(json, dict@.level, dict@.bytes) {
        Some(c) => Some(project_magic() + seq![DICTIONARY_FORMAT_VERSION] + c),
        None => None,
    }
}

/// Whether a file starts with the project header.
pub open spec fn has_project_header(data: Seq<u8>) -> bool {
    data.len() >= 5 && data.subrange(0, 4) == project_magic()
}

/// What a project file holds once its container is opened.
#[derive(Debug, Clone)]
pub enum ProjectPayload {
    /// JSON taken out of a compressed container
    Decompressed(Vec<u8>),
    /// A file without the container header, to be read as UTF-8 JSON
    PlainJson(Vec<u8>),
}

/// Copies `data[from..]`.
fn tail_from(data: &Vec<u8>, from: usize) -> (r: Vec<u8>)
    requires
        from <= data@.len(),
    ensures
        r@ == data@.subrange(from as int, data@.len() as int),
{
    let mut r: Vec<u8> = Vec::new();
    let mut i: usize = from;
    while i < data.len()
        invariant
            from <= i <= data@.len(),
            r@ == data@.subrange(from as int, i as int),
        decreases data@.len() - i,
    {
        r.push(data[i]);
        proof {
            assert(data@.subrange(from as int, i + 1) =~= data@.subrange(from as int, i as int).push(data@[i as int]));
        }
        i = i + 1;
    }
    r
}

/// The header and the compressed bytes after it.
fn with_header(version: u8, body: &Vec<u8>) -> (r: Vec<u8>)
    ensures
        r@ == project_magic() + seq![version] + body@,
{
    let mut out: Vec<u8> = vec![0x4F, 0x52, 0x50, 0x48, version];
    let ghost head = out@;
    let mut i: usize = 0;
    while i < body.len()
        invariant
            i <= body@.len(),
            head == project_magic() + seq![version],
            out@ == head + body@.subrange(0, i as int),
        decreases body@.len() - i,
    {
        out.push(body[i]);
        proof {
            assert(head + body@.subrange(0, i + 1) =~= (head + body@.subrange(0, i as int)).push(body@[i as int]));
        }
        i = i + 1;
    }
    proof {
        assert(body@.subrange(0, body@.len() as int) =~= body@);
    }
    out
}

/// Whether the first bytes are the project header.
fn starts_with_project_magic(data: &[u8]) -> (b: bool)
    requires
        data@.len() >= 5,
    ensures
        b == (data@.subrange(0, 4) == project_magic()),
{
    let b = data[0] == 0x4F && data[1] == 0x52 && data[2] == 0x50 && data[3] == 0x48;
    proof {
        if b {
            assert(data@.subrange(0, 4) =~= project_magic());
        } else if data@.subrange(0, 4) == project_magic() {
            assert(data@.subrange(0, 4)[0] == data@[0]);
            assert(data@.subrange(0, 4)[1] == data@[1]);
            assert(data@.subrange(0, 4)[2] == data@[2]);
            assert(data@.subrange(0, 4)[3] == data@[3]);
        }
    }
    b
}

impl Project {
    /// The compressed file of a project's JSON: "ORPH", version 1, the
    /// JSON compressed with zstd at level 3.
    pub fn frame_compressed(json: &[u8]) -> (r: Result<Vec<u8>, ProjectError>)
        ensures
            match r {
                Ok(v) => framed_compressed(json@) == Some(v@),
                Err(e) => e is Compression && framed_compressed(json@) is None,
            },
    {
        match zstd_encode_all(json, COMPRESSION_LEVEL) {
            Ok(c) => Ok(with_header(COMPRESSED_FORMAT_VERSION, &c)),
            Err(msg) => Err(ProjectError::Compression(msg)),
        }
    }

    /// The dictionary-compressed file of a project's JSON: "ORPH",
    /// version 2, the JSON compressed with the dictionary.
    pub fn frame_with_dictionary(json: &[u8], dictionary: &CompressionDictionary) -> (r: Result<
        Vec<u8>,
        ProjectError,
    >)
        ensures
            match r {
                Ok(v) => framed_with_dictionary(json@, *dictionary) == Some(v@),
                Err(e) => e is Compression && framed_with_dictionary(json@, *dictionary) is None,
            },
    {
        match dictionary.compress(json) {
            Ok(c) => Ok(with_header(DICTIONARY_FORMAT_VERSION, &c)),
            Err(e) => Err(ProjectError::Compression(e.message())),
        }
    }

    /// Open a project file's container.
    ///
    /// A file with the header holds version 1 (zstd) or version 2
    /// (dictionary, which must be given) content; other versions are
    /// refused. A file without the header is plain JSON. What a frame
    /// function made of some JSON opens to that JSON.
    pub fn unframe(data: Vec<u8>, dictionary: Option<&CompressionDictionary>) -> (r: Result<
        ProjectPayload,
        ProjectError,
    >)
        ensures
            !has_project_header(data@) ==> r is Ok && r->Ok_0 is PlainJson && r->Ok_0->PlainJson_0@
                == data@,
            has_project_header(data@) && data@[4] == COMPRESSED_FORMAT_VERSION ==> {
                let body = data@.subrange(5, data@.len() as int);
                match zstd_decoded(body) {
                    Some(json) => r is Ok && r->Ok_0 is Decompressed && r->Ok_0->Decompressed_0@
                        == json,
                    None => r is Err && r->Err_0 is Compression,
                }
            },
            has_project_header(data@) && data@[4] == DICTIONARY_FORMAT_VERSION ==> {
                let body = data@.subrange(5, data@.len() as int);
                match dictionary {
                    None => r == Err::<ProjectPayload, ProjectError>(ProjectError::DictionaryRequired),
                    Some(d) => match dict_decompressed(body, d@.bytes) {
                        Some(json) => r is Ok && r->Ok_0 is Decompressed
                            && r->Ok_0->Decompressed_0@ == json,
                        None => r is Err && r->Err_0 is Compression,
                    },
                }
            },
            has_project_header(data@) && data@[4] != COMPRESSED_FORMAT_VERSION && data@[4]
                != DICTIONARY_FORMAT_VERSION ==> r == Err::<ProjectPayload, ProjectError>(
                ProjectError::UnsupportedVersion(data@[4]),
            ),
            forall|json: Seq<u8>|
                framed_compressed(json) == Some(data@) ==> (r is Ok && r->Ok_0 is Decompressed
                    && r->Ok_0->Decompressed_0@ == json),
            forall|json: Seq<u8>, d: CompressionDictionary|
                dictionary == Some(&d) && framed_with_dictionary(json, d) == Some(data@) ==> (r is Ok
                    && r->Ok_0 is Decompressed && r->Ok_0->Decompressed_0@ == json),
    {
        if data.len() >= 5 && starts_with_project_magic(data.as_slice()) {
            let version = data[4];
            let body = tail_from(&data, 5);
            proof {
                assert forall|json: Seq<u8>| framed_compressed(json) == Some(data@) implies data@[4]
                    == COMPRESSED_FORMAT_VERSION && body@ == zstd_encoded(json, COMPRESSION_LEVEL)->0 by {
                    let c = zstd_encoded(json, COMPRESSION_LEVEL)->0;
                    assert(data@ == project_magic() + seq![COMPRESSED_FORMAT_VERSION] + c);
                    assert((project_magic() + seq![COMPRESSED_FORMAT_VERSION] + c)[4] == COMPRESSED_FORMAT_VERSION);
                    assert(body@ =~= c);
                }
                assert forall|json: Seq<u8>, d: CompressionDictionary|
                    framed_with_dictionary(json, d) == Some(data@) implies data@[4]
                    == DICTIONARY_FORMAT_VERSION && body@ == dict_compressed(json, d@.level, d@.bytes)->0 by {
                    let c = dict_compressed(json, d@.level, d@.bytes)->0;
                    assert(data@ == project_magic() + seq![DICTIONARY_FORMAT_VERSION] + c);
                    assert((project_magic() + seq![DICTIONARY_FORMAT_VERSION] + c)[4] == DICTIONARY_FORMAT_VERSION);
                    assert(body@ =~= c);
                }
            }
            if version == COMPRESSED_FORMAT_VERSION {
                match zstd_decode_all(body.as_slice()) {
                    Ok(json) => Ok(ProjectPayload::Decompressed(json)),
                    Err(msg) => Err(ProjectError::Compression(msg)),
                }
            } else if version == DICTIONARY_FORMAT_VERSION {
                match dictionary {
                    None => Err(ProjectError::DictionaryRequired),
                    Some(d) => match d.decompress(body.as_slice()) {
                        Ok(json) => Ok(ProjectPayload::Decompressed(json)),
                        Err(e) => Err(ProjectError::Compression(e.message())),
                    },
                }
            } else {
                Err(ProjectError::UnsupportedVersion(version))
            }
        } else {
            proof {
                assert forall|json: Seq<u8>| framed_compressed(json) != Some(data@) by {
                    if framed_compressed(json) == Some(data@) {
                        let c = zstd_encoded(json, COMPRESSION_LEVEL)->0;
                        assert(data@ == project_magic() + seq![COMPRESSED_FORMAT_VERSION] + c);
                        assert(data@.subrange(0, 4) =~= project_magic());
                    }
                }
                assert forall|json: Seq<u8>, d: CompressionDictionary| framed_with_dictionary(json, d) != Some(data@) by {
                    if framed_with_dictionary(json, d) == Some(data@) {
                        let c = dict_compressed(json, d@.level, d@.bytes)->0;
                        assert(data@ == project_magic() + seq![DICTIONARY_FORMAT_VERSION] + c);
                        assert(data@.subrange(0, 4) =~= project_magic());
                    }
                }
            }
            Ok(ProjectPayload::PlainJson(data))
        }
    }

    /// Whether a file's first bytes (up to five) announce dictionary
    /// compression.
    pub fn header_requires_dictionary(header: &[u8]) -> (b: bool)
        ensures
            b == (has_project_header(header@) && header@[4] == DICTIONARY_FORMAT_VERSION),
    {
        if header.len() < 5 {
            return false;
        }
        starts_with_project_magic(header) && header[4] == DICTIONARY_FORMAT_VERSION
    }
}

/// A clip that recording produced for a track.
#[derive(Debug, Clone)]
pub struct RecordedClip {
    /// The track it was recorded on
    pub track_id: u128,
    /// The clip's identifier
    pub clip_id: u128,
    /// The clip's name
    pub clip_name: String,
    /// Start position in samples
    pub start: u64,
    /// Length in samples
    pub length: u64,
    /// The notes recorded
    pub notes: Vec<MidiNote>,
}

/// The view of the MIDI clip that a recorded clip becomes.
pub open spec fn recorded_clip_view(r: RecordedClip) -> ClipView {
    ClipView {
        id: r.clip_id,
        name: r.clip_name@,
        start: r.start,
        length: r.length,
        content: ClipContentView::Midi { notes: r.notes@ },
    }
}

/// The tracks after the first `n` recorded clips join the ends of their
/// tracks; a clip for a track the project lacks is dropped.
pub open spec fn with_recorded(m: Map<u128, TrackView>, clips: Seq<RecordedClip>, n: nat) -> Map<u128, TrackView>
    decreases n,
{
    if n == 0 || n > clips.len() {
        m
    } else {
        let prev = with_recorded(m, clips, (n - 1) as nat);
        let c = clips[n - 1];
        if prev.contains_key(c.track_id) {
            prev.insert(
                c.track_id,
                TrackView { clips: prev[c.track_id].clips.push(recorded_clip_view(c)), ..prev[c.track_id] },
            )
        } else {
            prev
        }
    }
}

impl RecordedClip {
    /// The MIDI clip it becomes.
    pub fn to_clip(&self) -> (c: Clip)
        ensures
            c@ == recorded_clip_view(*self),
    {
        let mut notes: Vec<MidiNote> = Vec::new();
        let mut i: usize = 0;
        while i < self.notes.len()
            invariant
                i <= self.notes@.len(),
                notes@ == self.notes@.subrange(0, i as int),
            decreases self.notes@.len() - i,
        {
            notes.push(self.notes[i]);
            i = i + 1;
        }
        assert(notes@ =~= self.notes@);
        Clip {
            id: self.clip_id,
            name: self.clip_name.clone(),
            start: self.start,
            length: self.length,
            content: ClipContent::Midi { notes },
        }
    }
}

impl Project {
    /// Add recorded clips to the ends of their tracks, in order; a clip for
    /// a track the project lacks is dropped.
    pub fn add_recorded_clips(&mut self, clips: &Vec<RecordedClip>)
        ensures
            final(self).track_map() == with_recorded(old(self).track_map(), clips@, clips@.len()),
            final(self).track_order@ == old(self).track_order@,
            final(self).metadata == old(self).metadata,
            final(self).format_version == old(self).format_version,
            final(self).sample_rate == old(self).sample_rate,
    {
        let mut i: usize = 0;
        while i < clips.len()
            invariant
                i <= clips@.len(),
                self.track_map() == with_recorded(old(self).track_map(), clips@, i as nat),
                self.track_order@ == old(self).track_order@,
                self.metadata == old(self).metadata,
                self.format_version == old(self).format_version,
                self.sample_rate == old(self).sample_rate,
            decreases clips@.len() - i,
        {
            let clip = clips[i].to_clip();
            let ghost cv = clip@;
            let ghost before = self.track_map();
            match self.get_track_mut(clips[i].track_id) {
                Some(track) => {
                    let ghost old_clips = track.clips@;
                    track.clips.push(clip);
                    proof {
                        assert(clip_views(track.clips@) =~= clip_views(old_clips).push(cv));
                    }
                },
                None => {},
            }
            i = i + 1;
        }
    }
}

} // verus!
