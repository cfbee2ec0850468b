//! Application state: production modes, mixer channels, selection and
//! the transport.

use vstd::prelude::*;
use crate::project::fresh_id;

verus! {

/// Production modes available in Orpheus.
#[derive(Debug, Clone, Copy, PartialEq, Eq, Structural)]
pub enum ProductionMode {
    /// Timeline and arrangement editing
    Arrange,
    /// Tablature and notation editing
    Compose,
    /// Audio and MIDI recording
    Record,
    /// Mixing console
    Mix,
    /// Mastering chain
    Master,
    /// Release preparation - artwork, visualizers, promo materials
    Release,
    /// Practice and learning
    Practice,
    /// Distribution and export
    Distribute,
}

/// The modes in display order.
pub open spec fn all_modes() -> Seq<ProductionMode> {
    seq![
        ProductionMode::Arrange,
        ProductionMode::Compose,
        ProductionMode::Record,
        ProductionMode::Mix,
        ProductionMode::Master,
        ProductionMode::Release,
        ProductionMode::Practice,
        ProductionMode::Distribute,
    ]
}

impl ProductionMode {
    /// The default mode: composing.
    pub fn default_mode() -> (m: ProductionMode)
        ensures
            m == ProductionMode::Compose,
    {
        ProductionMode::Compose
    }

    /// Get display name for the mode.
    pub fn display_name(&self) -> (s: &'static str)
        ensures
            s@ == (match *self {
                ProductionMode::Arrange => "Arrange"@,
                ProductionMode::Compose => "Compose"@,
                ProductionMode::Record => "Record"@,
                ProductionMode::Mix => "Mix"@,
                ProductionMode::Master => "Master"@,
                ProductionMode::Release => "Release"@,
                ProductionMode::Practice => "Practice"@,
                ProductionMode::Distribute => "Distribute"@,
            }),
    {
        match self {
            ProductionMode::Arrange => "Arrange",
            ProductionMode::Compose => "Compose",
            ProductionMode::Record => "Record",
            ProductionMode::Mix => "Mix",
            ProductionMode::Master => "Master",
            ProductionMode::Release => "Release",
            ProductionMode::Practice => "Practice",
            ProductionMode::Distribute => "Distribute",
        }
    }

    /// Get icon for the mode.
    pub fn icon(&self) -> (s: &'static str)
        ensures
            s@ == (match *self {
                ProductionMode::Arrange => "\u{1F4CB}"@,
                ProductionMode::Compose => "\u{1F3B5}"@,
                ProductionMode::Record => "\u{23FA}"@,
                ProductionMode::Mix => "\u{1F39A}"@,
                ProductionMode::Master => "\u{1F4BF}"@,
                ProductionMode::Release => "\u{1F3A8}"@,
                ProductionMode::Practice => "\u{1F3B8}"@,
                ProductionMode::Distribute => "\u{1F4E4}"@,
            }),
    {
        match self {
            ProductionMode::Arrange => "\u{1F4CB}",
            ProductionMode::Compose => "\u{1F3B5}",
            ProductionMode::Record => "\u{23FA}",
            ProductionMode::Mix => "\u{1F39A}",
            ProductionMode::Master => "\u{1F4BF}",
            ProductionMode::Release => "\u{1F3A8}",
            ProductionMode::Practice => "\u{1F3B8}",
            ProductionMode::Distribute => "\u{1F4E4}",
        }
    }

    /// Get description for the mode (for tooltips).
    pub fn description(&self) -> (s: &'static str)
        ensures
            s@ == (match *self {
                ProductionMode::Arrange => "Arrange tracks and clips on the timeline"@,
                ProductionMode::Compose => "Edit tablature and musical notation"@,
                ProductionMode::Record => "Record audio and MIDI from inputs"@,
                ProductionMode::Mix => "Adjust volume, panning, and effects"@,
                ProductionMode::Master => "Finalize with mastering and export"@,
                ProductionMode::Release => "Create artwork, visualizers, and promo materials"@,
                ProductionMode::Practice => "Practice with tempo control and looping"@,
                ProductionMode::Distribute => "Publish and share your music"@,
            }),
    {
        match self {
            ProductionMode::Arrange => "Arrange tracks and clips on the timeline",
            ProductionMode::Compose => "Edit tablature and musical notation",
            ProductionMode::Record => "Record audio and MIDI from inputs",
            ProductionMode::Mix => "Adjust volume, panning, and effects",
            ProductionMode::Master => "Finalize with mastering and export",
            ProductionMode::Release => "Create artwork, visualizers, and promo materials",
            ProductionMode::Practice => "Practice with tempo control and looping",
            ProductionMode::Distribute => "Publish and share your music",
        }
    }

    /// Get all modes in order.
    pub fn all() -> (v: Vec<ProductionMode>)
        ensures
            v@ == all_modes(),
    {
        let v = vec![
            ProductionMode::Arrange,
            ProductionMode::Compose,
            ProductionMode::Record,
            ProductionMode::Mix,
            ProductionMode::Master,
            ProductionMode::Release,
            ProductionMode::Practice,
            ProductionMode::Distribute,
        ];
        assert(v@ =~= all_modes());
        v
    }
}

/// Global application state.
///
/// Panel sizes of the layout are kept by the user interface.
#[derive(Debug, Clone)]
pub struct AppState {
    /// Current production mode
    pub mode: ProductionMode,
    /// Whether the project has unsaved changes
    pub is_dirty: bool,
    /// Current project file path
    pub project_path: Option<String>,
}

impl AppState {
    /// A clean state in compose mode with no project file.
    pub fn new() -> (s: AppState)
        ensures
            s.mode == ProductionMode::Compose,
            !s.is_dirty,
            s.project_path is None,
    {
        AppState { mode: ProductionMode::Compose, is_dirty: false, project_path: None }
    }

    /// Mark project as modified.
    pub fn mark_dirty(&mut self)
        ensures
            final(self).is_dirty,
            final(self).mode == old(self).mode,
            final(self).project_path == old(self).project_path,
    {
        self.is_dirty = true;
    }

    /// Clear dirty flag (after save).
    pub fn mark_clean(&mut self)
        ensures
            !final(self).is_dirty,
            final(self).mode == old(self).mode,
            final(self).project_path == old(self).project_path,
    {
        self.is_dirty = false;
    }
}

/// Solo mode behavior.
#[derive(Debug, Clone, Copy, PartialEq, Eq, Structural)]
pub enum SoloMode {
    /// Standard solo - mutes other tracks
    Standard,
    /// Solo-in-place - preserves routing
    InPlace,
    /// Exclusive solo - only one track can be soloed
    Exclusive,
}

/// Channel colors for visual identification.
#[derive(Debug, Clone, Copy, PartialEq, Eq, Structural)]
pub enum ChannelColor {
    Blue,
    Green,
    Yellow,
    Orange,
    Red,
    Purple,
    Cyan,
    Pink,
}

/// The channel colors in palette order.
pub open spec fn palette() -> Seq<ChannelColor> {
    seq![
        ChannelColor::Blue,
        ChannelColor::Green,
        ChannelColor::Yellow,
        ChannelColor::Orange,
        ChannelColor::Red,
        ChannelColor::Purple,
        ChannelColor::Cyan,
        ChannelColor::Pink,
    ]
}

/// The RGB value of a channel color.
pub open spec fn color_rgb(c: ChannelColor) -> (u8, u8, u8) {
    match c {
        ChannelColor::Blue => (66, 133, 244),
        ChannelColor::Green => (52, 168, 83),
        ChannelColor::Yellow => (251, 188, 4),
        ChannelColor::Orange => (234, 134, 47),
        ChannelColor::Red => (234, 67, 53),
        ChannelColor::Purple => (142, 68, 173),
        ChannelColor::Cyan => (52, 211, 153),
        ChannelColor::Pink => (236, 72, 153),
    }
}

impl ChannelColor {
    /// Get RGB values.
    pub fn rgb(&self) -> (r: (u8, u8, u8))
        ensures
            r == color_rgb(*self),
    {
        match self {
            ChannelColor::Blue => (66, 133, 244),
            ChannelColor::Green => (52, 168, 83),
            ChannelColor::Yellow => (251, 188, 4),
            ChannelColor::Orange => (234, 134, 47),
            ChannelColor::Red => (234, 67, 53),
            ChannelColor::Purple => (142, 68, 173),
            ChannelColor::Cyan => (52, 211, 153),
            ChannelColor::Pink => (236, 72, 153),
        }
    }

    /// Get all colors.
    pub fn all() -> (v: Vec<ChannelColor>)
        ensures
            v@ == palette(),
    {
        let v = vec![
            ChannelColor::Blue,
            ChannelColor::Green,
            ChannelColor::Yellow,
            ChannelColor::Orange,
            ChannelColor::Red,
            ChannelColor::Purple,
            ChannelColor::Cyan,
            ChannelColor::Pink,
        ];
        assert(v@ =~= palette());
        v
    }

    /// The color at a palette index, wrapping around.
    pub fn at(index: usize) -> (c: ChannelColor)
        ensures
            c == palette()[(index % 8) as int],
    {
        let v = ChannelColor::all();
        v[index % 8]
    }
}

/// The routing and switch state of one mixer channel.
///
/// Gains and meter levels are kept beside the mixer by the caller.
#[derive(Debug, Clone)]
pub struct ChannelState {
    /// Unique channel ID
    pub id: u128,
    /// Channel name
    pub name: String,
    /// Muted
    pub mute: bool,
    /// Soloed
    pub solo: bool,
    /// Record armed
    pub armed: bool,
    /// Channel color for UI
    pub color: ChannelColor,
}

/// The mathematical value of a channel.
pub struct ChannelView {
    pub id: u128,
    pub name: Seq<char>,
    pub mute: bool,
    pub solo: bool,
    pub armed: bool,
    pub color: ChannelColor,
}

impl View for ChannelState {
    type V = ChannelView;

    open spec fn view(&self) -> ChannelView {
        ChannelView {
            id: self.id,
            name: self.name@,
            mute: self.mute,
            solo: self.solo,
            armed: self.armed,
            color: self.color,
        }
    }
}

impl ChannelState {
    /// A new channel with a fresh identifier.
    pub fn new(name: &str) -> (c: ChannelState)
        ensures
            c.name@ == name@,
            !c.mute,
            !c.solo,
            !c.armed,
            c.color == ChannelColor::Blue,
    {
        ChannelState {
            id: fresh_id(),
            name: String::from_str(name),
            mute: false,
            solo: false,
            armed: false,
            color: ChannelColor::Blue,
        }
    }

    /// The same channel with another color.
    pub fn with_color(self, color: ChannelColor) -> (c: ChannelState)
        ensures
            c@ == (ChannelView { color, ..self@ }),
    {
        let mut c = self;
        c.color = color;
        c
    }
}

/// The channels of a mixer, taken by their views.
pub open spec fn channel_views(chs: Seq<ChannelState>) -> Seq<ChannelView> {
    chs.map_values(|c: ChannelState| c@)
}

/// The index of the first channel with the given id, if any.
pub open spec fn channel_index(chs: Seq<ChannelState>, id: u128) -> Option<int> {
    if exists|i: int| 0 <= i < chs.len() && chs[i].id == id {
        Some(choose|i: int|
            0 <= i < chs.len() && chs[i].id == id && forall|j: int| 0 <= j < i ==> chs[j].id != id)
    } else {
        None
    }
}

/// Whether any channel is soloed.
pub open spec fn some_soloed(chs: Seq<ChannelState>) -> bool {
    exists|i: int| 0 <= i < chs.len() && chs[i].solo
}

/// Whether the channel with the given id is heard: it exists, is not
/// muted, and either nothing is soloed or it is soloed itself.
pub open spec fn channel_heard(chs: Seq<ChannelState>, id: u128) -> bool {
    match channel_index(chs, id) {
        Some(i) => !chs[i].mute && (!some_soloed(chs) || chs[i].solo),
        None => false,
    }
}

/// A solo on a channel at any position is noticed and silences every
/// channel that is not soloed itself, while a soloed channel is heard
/// unless muted; with no channel soloed, nothing is noticed and every
/// unmuted channel is heard.
pub proof fn lemma_solo_silences_others(chs: Seq<ChannelState>, id: u128)
    ensures
        forall|k: int| 0 <= k < chs.len() && #[trigger] chs[k].solo ==> some_soloed(chs),
        (exists|k: int| 0 <= k < chs.len() && #[trigger] chs[k].solo) ==> match channel_index(chs, id) {
            Some(i) => !chs[i].solo ==> !channel_heard(chs, id),
            None => !channel_heard(chs, id),
        },
        match channel_index(chs, id) {
            Some(i) => chs[i].solo ==> channel_heard(chs, id) == !chs[i].mute,
            None => true,
        },
        (forall|k: int| 0 <= k < chs.len() ==> !#[trigger] chs[k].solo) ==> !some_soloed(chs)
            && match channel_index(chs, id) {
            Some(i) => channel_heard(chs, id) == !chs[i].mute,
            None => !channel_heard(chs, id),
        },
{
}

/// `m1` is `m0` with one more channel at the end, named `name`, with its
/// switches off and the next color of the palette.
pub open spec fn channel_appended(m0: MixerState, m1: MixerState, name: Seq<char>) -> bool {
    &&& m1.channels@.len() == m0.channels@.len() + 1
    &&& forall|i: int| 0 <= i < m0.channels@.len() ==> m1.channels@[i]@ == m0.channels@[i]@
    &&& ({
        let c = m1.channels@.last()@;
        &&& c.name == name
        &&& !c.mute && !c.solo && !c.armed
        &&& c.color == palette()[(m0.channels@.len() % 8) as int]
    })
    &&& m1.master_mute == m0.master_mute
    &&& m1.solo_mode == m0.solo_mode
}

/// The mixer: its channels and master switches.
#[derive(Debug, Clone)]
pub struct MixerState {
    /// All channels
    pub channels: Vec<ChannelState>,
    /// Master mute
    pub master_mute: bool,
    /// Solo mode behavior
    pub solo_mode: SoloMode,
}

impl MixerState {
    /// An empty mixer.
    pub fn new() -> (m: MixerState)
        ensures
            m.channels@.len() == 0,
            !m.master_mute,
            m.solo_mode == SoloMode::Standard,
    {
        MixerState { channels: Vec::new(), master_mute: false, solo_mode: SoloMode::Standard }
    }

    /// Add a new channel; its color cycles through the palette.
    pub fn add_channel(&mut self, name: &str) -> (id: u128)
        ensures
            channel_appended(*old(self), *final(self), name@),
            final(self).channels@.last().id == id,
    {
        let color = ChannelColor::at(self.channels.len());
        let channel = ChannelState::new(name).with_color(color);
        let id = channel.id;
        self.channels.push(channel);
        id
    }

    /// Find the index of the channel with the given id.
    fn find(&self, id: u128) -> (r: Option<usize>)
        ensures
            r matches Some(i) ==> i < self.channels@.len() && self.channels@[i as int].id == id,
            match r {
                Some(i) => channel_index(self.channels@, id) == Some(i as int),
                None => channel_index(self.channels@, id) is None,
            },
    {
        let mut i: usize = 0;
        while i < self.channels.len()
            invariant
                i <= self.channels@.len(),
                forall|j: int| 0 <= j < i ==> self.channels@[j].id != id,
            decreases self.channels@.len() - i,
        {
            if self.channels[i].id == id {
                proof {
                    let k = choose|k: int|
                        0 <= k < self.channels@.len() && self.channels@[k].id == id && forall|
                            j: int,
                        | 0 <= j < k ==> self.channels@[j].id != id;
                    assert(k == i as int) by {
                        if k > i {
                            assert(self.channels@[i as int].id == id);
                        }
                    }
                }
                return Some(i);
            }
            i = i + 1;
        }
        None
    }

    /// Remove a channel by ID.
    pub fn remove_channel(&mut self, id: u128) -> (r: Option<ChannelState>)
        ensures
            match channel_index(old(self).channels@, id) {
                Some(i) => {
                    &&& r matches Some(c) && c@ == old(self).channels@[i]@
                    &&& channel_views(final(self).channels@) == channel_views(
                        old(self).channels@,
                    ).remove(i)
                },
                None => r is None && channel_views(final(self).channels@) == channel_views(
                    old(self).channels@,
                ),
            },
            final(self).master_mute == old(self).master_mute,
            final(self).solo_mode == old(self).solo_mode,
    {
        match self.find(id) {
            Some(pos) => {
                let ghost before = self.channels@;
                let c = self.channels.remove(pos);
                proof {
                    assert(channel_views(self.channels@) =~= channel_views(before).remove(
                        pos as int,
                    ));
                }
                Some(c)
            },
            None => None,
        }
    }

    /// Get channel by ID.
    pub fn get_channel(&self, id: u128) -> (r: Option<&ChannelState>)
        ensures
            match channel_index(self.channels@, id) {
                Some(i) => r matches Some(c) && c@ == self.channels@[i]@,
                None => r is None,
            },
    {
        match self.find(id) {
            Some(i) => Some(&self.channels[i]),
            None => None,
        }
    }

    /// Get a channel by ID, to change it.
    pub fn get_channel_mut(&mut self, id: u128) -> (r: Option<&mut ChannelState>)
        ensures
            match channel_index(old(self).channels@, id) {
                Some(i) => r matches Some(c) && *c == old(self).channels@[i]
                    && final(self).channels@ == old(self).channels@.update(i, *final(c)),
                None => r is None && final(self).channels@ == old(self).channels@,
            },
            final(self).master_mute == old(self).master_mute,
            final(self).solo_mode == old(self).solo_mode,
    {
        match self.find(id) {
            Some(i) => Some(&mut self.channels[i]),
            None => None,
        }
    }

    /// Check if any channel is soloed.
    pub fn any_soloed(&self) -> (b: bool)
        ensures
            b == some_soloed(self.channels@),
    {
        let mut i: usize = 0;
        while i < self.channels.len()
            invariant
                i <= self.channels@.len(),
                forall|j: int| 0 <= j < i ==> !self.channels@[j].solo,
            decreases self.channels@.len() - i,
        {
            if self.channels[i].solo {
                return true;
            }
            i = i + 1;
        }
        false
    }

    /// Whether the channel with the given id is heard: it exists, is not
    /// muted, and either nothing is soloed or it is soloed itself. A
    /// channel that is not heard has an effective volume of zero.
    pub fn is_audible(&self, id: u128) -> (b: bool)
        ensures
            b == channel_heard(self.channels@, id),
    {
        match self.find(id) {
            None => false,
            Some(i) => {
                if self.channels[i].mute {
                    return false;
                }
                if self.any_soloed() && !self.channels[i].solo {
                    return false;
                }
                true
            },
        }
    }
}

/// Selection state: tracks, clips and a time range.
#[derive(Debug, Clone)]
pub struct SelectionState {
    /// Selected track IDs
    pub tracks: Vec<u128>,
    /// Selected clip IDs
    pub clips: Vec<u128>,
    /// Time range selection (start, end in samples)
    pub time_range: Option<(u64, u64)>,
}

impl SelectionState {
    /// Nothing selected.
    pub fn new() -> (s: SelectionState)
        ensures
            s.tracks@.len() == 0,
            s.clips@.len() == 0,
            s.time_range is None,
    {
        SelectionState { tracks: Vec::new(), clips: Vec::new(), time_range: None }
    }

    /// Clear all selection.
    pub fn clear(&mut self)
        ensures
            final(self).tracks@.len() == 0,
            final(self).clips@.len() == 0,
            final(self).time_range is None,
    {
        self.tracks.clear();
        self.clips.clear();
        self.time_range = None;
    }

    /// Select a single track (clears other track selection).
    pub fn select_track(&mut self, id: u128)
        ensures
            final(self).tracks@ == seq![id],
            final(self).clips@ == old(self).clips@,
            final(self).time_range == old(self).time_range,
    {
        self.tracks.clear();
        self.tracks.push(id);
        assert(self.tracks@ =~= seq![id]);
    }

    /// Add track to selection.
    pub fn add_track(&mut self, id: u128)
        ensures
            final(self).tracks@ == (if old(self).tracks@.contains(id) {
                old(self).tracks@
            } else {
                old(self).tracks@.push(id)
            }),
            final(self).clips@ == old(self).clips@,
            final(self).time_range == old(self).time_range,
    {
        if position_in(&self.tracks, id).is_none() {
            self.tracks.push(id);
        }
    }

    /// Toggle track selection.
    pub fn toggle_track(&mut self, id: u128)
        ensures
            final(self).tracks@ == (match crate::project::first_index_of(old(self).tracks@, id) {
                Some(i) => old(self).tracks@.remove(i),
                None => old(self).tracks@.push(id),
            }),
            final(self).clips@ == old(self).clips@,
            final(self).time_range == old(self).time_range,
    {
        match crate::project::position_of(&self.tracks, id) {
            Some(pos) => {
                self.tracks.remove(pos);
            },
            None => {
                self.tracks.push(id);
            },
        }
    }

    /// Check if track is selected.
    pub fn is_track_selected(&self, id: u128) -> (b: bool)
        ensures
            b == self.tracks@.contains(id),
    {
        position_in(&self.tracks, id).is_some()
    }

    /// Select a single clip.
    pub fn select_clip(&mut self, id: u128)
        ensures
            final(self).clips@ == seq![id],
            final(self).tracks@ == old(self).tracks@,
            final(self).time_range == old(self).time_range,
    {
        self.clips.clear();
        self.clips.push(id);
        assert(self.clips@ =~= seq![id]);
    }

    /// Add clip to selection.
    pub fn add_clip(&mut self, id: u128)
        ensures
            final(self).clips@ == (if old(self).clips@.contains(id) {
                old(self).clips@
            } else {
                old(self).clips@.push(id)
            }),
            final(self).tracks@ == old(self).tracks@,
            final(self).time_range == old(self).time_range,
    {
        if position_in(&self.clips, id).is_none() {
            self.clips.push(id);
        }
    }

    /// Set time range selection (the smaller bound first).
    pub fn set_time_range(&mut self, start: u64, end: u64)
        ensures
            final(self).time_range == Some(
                if start <= end {
                    (start, end)
                } else {
                    (end, start)
                },
            ),
            final(self).tracks@ == old(self).tracks@,
            final(self).clips@ == old(self).clips@,
    {
        if start <= end {
            self.time_range = Some((start, end));
        } else {
            self.time_range = Some((end, start));
        }
    }

    /// Clear time range selection.
    pub fn clear_time_range(&mut self)
        ensures
            final(self).time_range is None,
            final(self).tracks@ == old(self).tracks@,
            final(self).clips@ == old(self).clips@,
    {
        self.time_range = None;
    }

    /// Get the first selected track (if any).
    pub fn primary_track(&self) -> (r: Option<u128>)
        ensures
            r == (if self.tracks@.len() > 0 {
                Some(self.tracks@[0])
            } else {
                None::<u128>
            }),
    {
        if self.tracks.len() > 0 {
            Some(self.tracks[0])
        } else {
            None
        }
    }
}

/// Whether an id occurs in a list, with its first position.
fn position_in(ids: &Vec<u128>, id: u128) -> (r: Option<usize>)
    ensures
        r is Some <==> ids@.contains(id),
{
    match crate::project::position_of(ids, id) {
        Some(i) => Some(i),
        None => None,
    }
}

/// Toggling a track twice selects exactly the tracks that were selected
/// before; when the track was not selected, the list is restored exactly.
pub proof fn lemma_toggle_twice(tracks: Seq<u128>, id: u128)
    requires
        tracks.no_duplicates(),
    ensures
        ({
            let once = match crate::project::first_index_of(tracks, id) {
                Some(i) => tracks.remove(i),
                None => tracks.push(id),
            };
            let twice = match crate::project::first_index_of(once, id) {
                Some(i) => once.remove(i),
                None => once.push(id),
            };
            &&& forall|x: u128| twice.contains(x) <==> tracks.contains(x)
            &&& !tracks.contains(id) ==> twice == tracks
        }),
{
    let once = match crate::project::first_index_of(tracks, id) {
        Some(i) => tracks.remove(i),
        None => tracks.push(id),
    };
    if tracks.contains(id) {
        let i = crate::project::first_index_of(tracks, id)->0;
        assert(0 <= i < tracks.len() && tracks[i] == id);
        assert(once == tracks.remove(i));
        assert(!once.contains(id)) by {
            if once.contains(id) {
                let k = choose|k: int| 0 <= k < once.len() && once[k] == id;
                if k < i {
                    assert(tracks[k] == id);
                } else {
                    assert(tracks[k + 1] == id);
                }
            }
        }
        let twice = once.push(id);
        assert forall|x: u128| twice.contains(x) <==> tracks.contains(x) by {
            if tracks.contains(x) && x != id {
                let k = choose|k: int| 0 <= k < tracks.len() && tracks[k] == x;
                if k < i {
                    assert(once[k] == x);
                } else {
                    assert(k != i);
                    assert(once[k - 1] == x);
                }
                assert(twice[k - (if k < i { 0int } else { 1int })] == x);
            }
            if twice.contains(x) && x != id {
                let k = choose|k: int| 0 <= k < twice.len() && twice[k] == x;
                assert(k < once.len());
                if k < i {
                    assert(tracks[k] == x);
                } else {
                    assert(tracks[k + 1] == x);
                }
            }
            if x == id {
                assert(twice[twice.len() - 1] == id);
            }
        }
    } else {
        assert(once == tracks.push(id));
        let n = tracks.len() as int;
        assert(once[n] == id);
        assert(once.contains(id));
        let j = crate::project::first_index_of(once, id)->0;
        assert(j == n) by {
            if j < n {
                assert(tracks[j] == id);
            }
        }
        assert(once.remove(n) =~= tracks);
    }
}

/// Time position in the project.
#[derive(Debug, Clone, Copy, PartialEq, Eq, Structural)]
pub struct TimePosition {
    /// Position in samples
    pub samples: u64,
    /// Sample rate for conversion
    pub sample_rate: u32,
}

impl TimePosition {
    /// A position at the given sample.
    pub fn new(samples: u64, sample_rate: u32) -> (p: TimePosition)
        ensures
            p.samples == samples,
            p.sample_rate == sample_rate,
    {
        TimePosition { samples, sample_rate }
    }
}

/// Time signature of the transport.
#[derive(Debug, Clone, Copy, PartialEq, Eq, Structural)]
pub struct TimeSignature {
    pub numerator: u8,
    pub denominator: u8,
}

impl TimeSignature {
    /// A time signature.
    pub fn new(numerator: u8, denominator: u8) -> (t: TimeSignature)
        ensures
            t.numerator == numerator,
            t.denominator == denominator,
    {
        TimeSignature { numerator, denominator }
    }

    /// Common time, 4/4.
    pub fn default_signature() -> (t: TimeSignature)
        ensures
            t.numerator == 4,
            t.denominator == 4,
    {
        TimeSignature { numerator: 4, denominator: 4 }
    }
}

/// Transport state: playback and recording control.
///
/// The tempo is kept by the caller beside the transport.
#[derive(Debug, Clone, Copy)]
pub struct TransportState {
    /// Currently playing
    pub is_playing: bool,
    /// Currently recording
    pub is_recording: bool,
    /// Current playhead position
    pub position: TimePosition,
    /// Time signature
    pub time_signature: TimeSignature,
    /// Loop enabled
    pub loop_enabled: bool,
    /// Loop start position
    pub loop_start: TimePosition,
    /// Loop end position
    pub loop_end: TimePosition,
    /// Metronome enabled
    pub metronome_enabled: bool,
    /// Count-in bars before recording
    pub count_in_bars: u8,
    /// Sample rate
    pub sample_rate: u32,
}

impl TransportState {
    /// A stopped transport at 48 kHz with an eight-second loop region.
    pub fn new() -> (t: TransportState)
        ensures
            !t.is_playing && !t.is_recording,
            t.position == (TimePosition { samples: 0, sample_rate: 48000 }),
            t.time_signature == (TimeSignature { numerator: 4, denominator: 4 }),
            !t.loop_enabled,
            t.loop_start == (TimePosition { samples: 0, sample_rate: 48000 }),
            t.loop_end == (TimePosition { samples: 384000, sample_rate: 48000 }),
            !t.metronome_enabled,
            t.count_in_bars == 1,
            t.sample_rate == 48000,
    {
        TransportState {
            is_playing: false,
            is_recording: false,
            position: TimePosition::new(0, 48000),
            time_signature: TimeSignature::default_signature(),
            loop_enabled: false,
            loop_start: TimePosition::new(0, 48000),
            loop_end: TimePosition::new(384000, 48000),
            metronome_enabled: false,
            count_in_bars: 1,
            sample_rate: 48000,
        }
    }

    /// Start playback.
    pub fn play(&mut self)
        ensures
            *final(self) == (TransportState { is_playing: true, ..*old(self) }),
    {
        self.is_playing = true;
    }

    /// Stop playback (and recording).
    pub fn stop(&mut self)
        ensures
            *final(self) == (TransportState { is_playing: false, is_recording: false, ..*old(self) }),
    {
        self.is_playing = false;
        self.is_recording = false;
    }

    /// Pause playback (keeps position).
    pub fn pause(&mut self)
        ensures
            *final(self) == (TransportState { is_playing: false, ..*old(self) }),
    {
        self.is_playing = false;
    }

    /// Start recording (and playback).
    pub fn record(&mut self)
        ensures
            *final(self) == (TransportState { is_playing: true, is_recording: true, ..*old(self) }),
    {
        self.is_recording = true;
        self.is_playing = true;
    }

    /// Go to start.
    pub fn rewind(&mut self)
        ensures
            *final(self) == (TransportState {
                position: TimePosition { samples: 0, sample_rate: old(self).sample_rate },
                ..*old(self)
            }),
    {
        self.position = TimePosition::new(0, self.sample_rate);
    }

    /// Advance position by the given number of samples, jumping back to
    /// the loop start when looping and the loop end is reached.
    pub fn advance(&mut self, samples: u64)
        requires
            old(self).position.samples + samples <= u64::MAX,
        ensures
            ({
                let moved = old(self).position.samples + samples;
                &&& final(self).position.samples == (if old(self).loop_enabled && moved
                    >= old(self).loop_end.samples {
                    old(self).loop_start.samples as int
                } else {
                    moved
                })
                &&& final(self).position.sample_rate == old(self).position.sample_rate
            }),
            final(self).is_playing == old(self).is_playing,
            final(self).is_recording == old(self).is_recording,
            final(self).loop_enabled == old(self).loop_enabled,
            final(self).loop_start == old(self).loop_start,
            final(self).loop_end == old(self).loop_end,
            final(self).sample_rate == old(self).sample_rate,
            final(self).time_signature == old(self).time_signature,
            final(self).metronome_enabled == old(self).metronome_enabled,
            final(self).count_in_bars == old(self).count_in_bars,
    {
        self.position.samples = self.position.samples + samples;
        if self.loop_enabled && self.position.samples >= self.loop_end.samples {
            self.position.samples = self.loop_start.samples;
        }
    }
}

} // verus!
