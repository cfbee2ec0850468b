//! Playing techniques: slides, taps, bends, vibrato, muting, picking,
//! trills, grace notes, beat effects and dynamics.

use vstd::prelude::*;
use crate::tab::instrument::Fingering;

verus! {

/// Slide direction.
#[derive(Debug, Clone, Copy, PartialEq, Eq, Structural)]
pub enum SlideDirection {
    /// To higher fret
    Up,
    /// To lower fret
    Down,
}

/// Tapping type.
#[derive(Debug, Clone, Copy, PartialEq, Eq, Structural)]
pub enum TapType {
    RightHand,
    LeftHand,
    TwoHand,
    EightFinger,
}

/// Bend amount.
#[derive(Debug, Clone, Copy, PartialEq, Eq, Structural)]
pub enum BendAmount {
    /// Quarter bend (25 cents)
    Quarter,
    /// Half step (1 semitone)
    Half,
    /// Full step (2 semitones)
    Full,
    /// One and a half steps
    OneAndHalf,
    /// Two steps
    Two,
    /// Two and a half steps
    TwoAndHalf,
    /// Three steps
    Three,
    /// Custom amount in cents
    Custom(i16),
}

/// The size of a bend in cents.
pub open spec fn bend_cents(b: BendAmount) -> i16 {
    match b {
        BendAmount::Quarter => 25i16,
        BendAmount::Half => 100i16,
        BendAmount::Full => 200i16,
        BendAmount::OneAndHalf => 300i16,
        BendAmount::Two => 400i16,
        BendAmount::TwoAndHalf => 500i16,
        BendAmount::Three => 600i16,
        BendAmount::Custom(c) => c,
    }
}

impl BendAmount {
    /// The size of the bend in cents.
    pub fn cents(&self) -> (c: i16)
        ensures
            c == bend_cents(*self),
    {
        match self {
            BendAmount::Quarter => 25,
            BendAmount::Half => 100,
            BendAmount::Full => 200,
            BendAmount::OneAndHalf => 300,
            BendAmount::Two => 400,
            BendAmount::TwoAndHalf => 500,
            BendAmount::Three => 600,
            BendAmount::Custom(c) => *c,
        }
    }
}

/// Vibrato style.
#[derive(Debug, Clone, Copy, PartialEq, Eq, Structural)]
pub enum VibratoStyle {
    Standard,
    Classical,
    Wide,
    Fast,
    Slow,
    Extreme,
}

/// Dive depth for the whammy bar.
#[derive(Debug, Clone, Copy, PartialEq, Eq, Structural)]
pub enum DiveDepth {
    /// Until strings go slack
    Slack,
    /// One octave down
    Octave,
    /// Two octaves down
    TwoOctaves,
    /// Partial dive, in cents
    Partial(i16),
}

/// Palm mute intensity.
#[derive(Debug, Clone, Copy, PartialEq, Eq, Structural)]
pub enum PalmMuteIntensity {
    Light,
    Medium,
    Heavy,
    Chug,
}

/// Sweep picking direction.
#[derive(Debug, Clone, Copy, PartialEq, Eq, Structural)]
pub enum SweepDirection {
    Down,
    Up,
    Economy,
}

/// Trill data.
#[derive(Debug, Clone, Copy, PartialEq, Eq, Structural)]
pub struct TrillData {
    /// Fret to trill with
    pub upper_fret: u8,
    /// Trill speed
    pub speed: TrillSpeed,
}

/// Trill speed.
#[derive(Debug, Clone, Copy, PartialEq, Eq, Structural)]
pub enum TrillSpeed {
    Sixteenth,
    ThirtySecond,
    SixtyFourth,
    /// As fast as possible
    Free,
}

/// Grace note data.
#[derive(Debug, Clone, Copy, PartialEq, Eq, Structural)]
pub struct GraceNoteData {
    /// Grace note fret
    pub fret: u8,
    /// On beat or before beat
    pub on_beat: bool,
    /// Duration
    pub duration: GraceNoteDuration,
    /// Transition to main note
    pub transition: GraceNoteTransition,
    /// Velocity
    pub velocity: u8,
}

/// Grace note duration.
#[derive(Debug, Clone, Copy, PartialEq, Eq, Structural)]
pub enum GraceNoteDuration {
    ThirtySecond,
    Sixteenth,
    Eighth,
}

/// How a grace note leads into the main note.
#[derive(Debug, Clone, Copy, PartialEq, Eq, Structural)]
pub enum GraceNoteTransition {
    /// No transition
    NoTransition,
    HammerOn,
    PullOff,
    Slide,
    Bend,
}

/// Chord diagram.
#[derive(Debug, Clone)]
pub struct ChordDiagram {
    /// Chord name
    pub name: String,
    /// Base fret (for position)
    pub base_fret: u8,
    /// Fret for each string (0 = open, 255 = muted)
    pub frets: Vec<u8>,
    /// Finger for each string
    pub fingering: Vec<Option<Fingering>>,
    /// Barre (fret, from string, to string)
    pub barre: Option<(u8, u8, u8)>,
}

/// Arpeggio direction.
#[derive(Debug, Clone, Copy, PartialEq, Eq, Structural)]
pub enum ArpeggioDirection {
    Up,
    Down,
}

/// Strum direction.
#[derive(Debug, Clone, Copy, PartialEq, Eq, Structural)]
pub enum StrumDirection {
    Down,
    Up,
}

/// Kind of a tempo change.
#[derive(Debug, Clone, Copy, PartialEq, Eq, Structural)]
pub enum TempoChangeType {
    Immediate,
    Accelerando,
    Ritardando,
    Rallentando,
    ATempo,
}

/// Dynamics.
#[derive(Debug, Clone, Copy, PartialEq, Eq, Structural)]
pub enum Dynamics {
    PPP,
    PP,
    P,
    MP,
    MF,
    F,
    FF,
    FFF,
    Sfz,
    Crescendo,
    Decrescendo,
}

} // verus!
