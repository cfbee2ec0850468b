//! Instrument definitions for extended range and virtuoso playing:
//! 4 to 12 string instruments, multi-scale necks, custom tunings.
//!
//! Scale lengths are kept in thousandths of an inch.

use vstd::prelude::*;
use crate::text::{decimal, push_decimal};

verus! {

/// Type of stringed instrument.
#[derive(Debug, Clone, Copy, PartialEq, Eq, Structural)]
pub enum StringedType {
    ElectricGuitar,
    AcousticGuitar,
    ClassicalGuitar,
    Bass,
    Banjo,
    Mandolin,
    Ukulele,
    /// Chapman Stick
    Chapman,
    Other,
}

/// Multi-scale (fanned fret) configuration.
#[derive(Debug, Clone, Copy, PartialEq, Eq, Structural)]
pub struct MultiscaleConfig {
    /// Scale length for the bass side, in thousandths of an inch
    pub bass_scale: u32,
    /// Scale length for the treble side, in thousandths of an inch
    pub treble_scale: u32,
    /// Fret where lines are perpendicular (typically 7-12)
    pub perpendicular_fret: u8,
}

impl MultiscaleConfig {
    /// Common fanned-fret configuration: 28 and 25.5 inches, straight at
    /// the 12th fret.
    pub fn standard() -> (m: MultiscaleConfig)
        ensures
            m == (MultiscaleConfig { bass_scale: 28000, treble_scale: 25500, perpendicular_fret: 12 }),
    {
        MultiscaleConfig { bass_scale: 28000, treble_scale: 25500, perpendicular_fret: 12 }
    }
}

/// Tremolo/whammy bar type.
#[derive(Debug, Clone, Copy, PartialEq, Eq, Structural)]
pub enum TremoloType {
    /// Vintage/synchronized tremolo
    Vintage,
    /// Floyd Rose (locking, double-locking)
    FloydRose,
    /// Ibanez Edge
    Edge,
    /// Kahler
    Kahler,
    /// Bigsby (vibrato only, no dive)
    Bigsby,
    /// Hipshot
    Hipshot,
    /// Evertune (no tremolo, fixed)
    Evertune,
    /// Trans-Trem (transposing)
    TransTrem,
    /// Other
    Other,
}

/// Can this tremolo dive (lower pitch)?
pub open spec fn tremolo_can_dive(x: TremoloType) -> bool {
    match x {
        TremoloType::Vintage => false,
        TremoloType::FloydRose => true,
        TremoloType::Edge => true,
        TremoloType::Kahler => true,
        TremoloType::Bigsby => false,
        TremoloType::Hipshot => true,
        TremoloType::Evertune => false,
        TremoloType::TransTrem => false,
        TremoloType::Other => false,
    }
}

/// Can this tremolo pull up (raise pitch)?
pub open spec fn tremolo_can_pullup(x: TremoloType) -> bool {
    match x {
        TremoloType::Vintage => false,
        TremoloType::FloydRose => true,
        TremoloType::Edge => true,
        TremoloType::Kahler => true,
        TremoloType::Bigsby => false,
        TremoloType::Hipshot => true,
        TremoloType::Evertune => false,
        TremoloType::TransTrem => false,
        TremoloType::Other => false,
    }
}

/// Is this a locking tremolo?
pub open spec fn tremolo_is_locking(x: TremoloType) -> bool {
    match x {
        TremoloType::Vintage => false,
        TremoloType::FloydRose => true,
        TremoloType::Edge => true,
        TremoloType::Kahler => true,
        TremoloType::Bigsby => false,
        TremoloType::Hipshot => false,
        TremoloType::Evertune => false,
        TremoloType::TransTrem => false,
        TremoloType::Other => false,
    }
}

impl TremoloType {
    /// Can this tremolo dive (lower pitch)?
    pub fn can_dive(&self) -> (r: bool)
        ensures
            r == tremolo_can_dive(*self),
    {
        match self {
            TremoloType::Vintage => false,
            TremoloType::FloydRose => true,
            TremoloType::Edge => true,
            TremoloType::Kahler => true,
            TremoloType::Bigsby => false,
            TremoloType::Hipshot => true,
            TremoloType::Evertune => false,
            TremoloType::TransTrem => false,
            TremoloType::Other => false,
        }
    }

    /// Can this tremolo pull up (raise pitch)?
    pub fn can_pullup(&self) -> (r: bool)
        ensures
            r == tremolo_can_pullup(*self),
    {
        match self {
            TremoloType::Vintage => false,
            TremoloType::FloydRose => true,
            TremoloType::Edge => true,
            TremoloType::Kahler => true,
            TremoloType::Bigsby => false,
            TremoloType::Hipshot => true,
            TremoloType::Evertune => false,
            TremoloType::TransTrem => false,
            TremoloType::Other => false,
        }
    }

    /// Is this a locking tremolo?
    pub fn is_locking(&self) -> (r: bool)
        ensures
            r == tremolo_is_locking(*self),
    {
        match self {
            TremoloType::Vintage => false,
            TremoloType::FloydRose => true,
            TremoloType::Edge => true,
            TremoloType::Kahler => true,
            TremoloType::Bigsby => false,
            TremoloType::Hipshot => false,
            TremoloType::Evertune => false,
            TremoloType::TransTrem => false,
            TremoloType::Other => false,
        }
    }
}

/// Keyboard/piano configuration.
#[derive(Debug, Clone, Copy, PartialEq, Eq, Structural)]
pub struct KeysConfig {
    /// Number of keys
    pub key_count: u8,
    /// Lowest MIDI note
    pub lowest_note: u8,
    /// Is weighted/hammer action
    pub weighted: bool,
}

impl Default for KeysConfig {
    fn default() -> (k: KeysConfig)
        ensures
            k == (KeysConfig { key_count: 88, lowest_note: 21, weighted: true }),
    {
        KeysConfig { key_count: 88, lowest_note: 21, weighted: true }
    }
}

/// Fingering notation.
#[derive(Debug, Clone, Copy, PartialEq, Eq, Structural)]
pub enum Fingering {
    /// Open (no finger)
    Open,
    /// Thumb (T or p)
    Thumb,
    /// Index finger (1 or i)
    Index,
    /// Middle finger (2 or m)
    Middle,
    /// Ring finger (3 or a)
    Ring,
    /// Pinky (4 or c)
    Pinky,
}

/// Left-hand symbol.
pub open spec fn left_hand(x: Fingering) -> Seq<char> {
    match x {
        Fingering::Open => "0"@,
        Fingering::Thumb => "T"@,
        Fingering::Index => "1"@,
        Fingering::Middle => "2"@,
        Fingering::Ring => "3"@,
        Fingering::Pinky => "4"@,
    }
}

/// Right-hand symbol.
pub open spec fn right_hand(x: Fingering) -> Seq<char> {
    match x {
        Fingering::Open => "-"@,
        Fingering::Thumb => "p"@,
        Fingering::Index => "i"@,
        Fingering::Middle => "m"@,
        Fingering::Ring => "a"@,
        Fingering::Pinky => "c"@,
    }
}

impl Fingering {
    /// Left-hand symbol.
    pub fn left_hand_symbol(&self) -> (s: &'static str)
        ensures
            s@ == left_hand(*self),
    {
        match self {
            Fingering::Open => "0",
            Fingering::Thumb => "T",
            Fingering::Index => "1",
            Fingering::Middle => "2",
            Fingering::Ring => "3",
            Fingering::Pinky => "4",
        }
    }

    /// Right-hand symbol.
    pub fn right_hand_symbol(&self) -> (s: &'static str)
        ensures
            s@ == right_hand(*self),
    {
        match self {
            Fingering::Open => "-",
            Fingering::Thumb => "p",
            Fingering::Index => "i",
            Fingering::Middle => "m",
            Fingering::Ring => "a",
            Fingering::Pinky => "c",
        }
    }
}

/// Stringed instrument configuration.
#[derive(Debug, Clone)]
pub struct StringedConfig {
    /// Instrument type
    pub instrument_type: StringedType,
    /// Number of strings (4-12)
    pub string_count: u8,
    /// Tuning (MIDI note numbers, low to high)
    pub tuning: Vec<u8>,
    /// Number of frets
    pub fret_count: u8,
    /// Multi-scale configuration (if applicable)
    pub multiscale: Option<MultiscaleConfig>,
    /// Capo position (0 = no capo)
    pub capo: u8,
    /// Scale length in thousandths of an inch (for single-scale)
    pub scale_length: u32,
    /// Has tremolo/whammy bar
    pub has_tremolo: bool,
    /// Tremolo type
    pub tremolo_type: Option<TremoloType>,
}

/// The fields of a configuration other than its tuning.
pub open spec fn config_is(
    c: StringedConfig,
    instrument_type: StringedType,
    string_count: u8,
    multiscale: Option<MultiscaleConfig>,
    scale_length: u32,
    has_tremolo: bool,
    tremolo_type: Option<TremoloType>,
) -> bool {
    &&& c.instrument_type == instrument_type
    &&& c.string_count == string_count
    &&& c.fret_count == 24
    &&& c.multiscale == multiscale
    &&& c.capo == 0
    &&& c.scale_length == scale_length
    &&& c.has_tremolo == has_tremolo
    &&& c.tremolo_type == tremolo_type
}

/// `a + b`, or 255 where the sum does not fit a byte.
pub open spec fn sat_add(a: u8, b: u8) -> u8 {
    if a + b > 255 {
        255
    } else {
        (a + b) as u8
    }
}

/// `a + b`, or 255 where the sum does not fit a byte.
pub fn saturating_add_u8(a: u8, b: u8) -> (r: u8)
    ensures
        r == sat_add(a, b),
{
    if a as u16 + b as u16 > 255 {
        255
    } else {
        a + b
    }
}

/// The MIDI note of a string (numbered from 1, the highest) at a fret:
/// the string's tuning plus the fret plus the capo, each sum saturating;
/// middle C where the tuning has no such string.
pub open spec fn midi_note_of(c: StringedConfig, string: u8, fret: u8) -> u8 {
    let idx = c.string_count - string;
    if idx >= c.tuning@.len() {
        60
    } else {
        sat_add(sat_add(c.tuning@[idx], fret), c.capo)
    }
}

/// The names of the twelve pitch classes, from C.
pub open spec fn pitch_class_names() -> Seq<Seq<char>> {
    seq!["C"@, "C#"@, "D"@, "D#"@, "E"@, "F"@, "F#"@, "G"@, "G#"@, "A"@, "A#"@, "B"@]
}

/// The name of a MIDI note: its pitch class and its octave (middle C is
/// C4, so the octave of note 0 is -1).
pub open spec fn note_text(midi: u8) -> Seq<char> {
    let octave = if midi < 12 {
        "-1"@
    } else {
        decimal((midi / 12 - 1) as nat)
    };
    pitch_class_names()[(midi % 12) as int] + octave
}

/// The name of a pitch class (0 to 11).
pub fn pitch_class_name(pc: u8) -> (s: &'static str)
    requires
        pc < 12,
    ensures
        s@ == pitch_class_names()[pc as int],
{
    if pc == 0 {
        "C"
    } else if pc == 1 {
        "C#"
    } else if pc == 2 {
        "D"
    } else if pc == 3 {
        "D#"
    } else if pc == 4 {
        "E"
    } else if pc == 5 {
        "F"
    } else if pc == 6 {
        "F#"
    } else if pc == 7 {
        "G"
    } else if pc == 8 {
        "G#"
    } else if pc == 9 {
        "A"
    } else if pc == 10 {
        "A#"
    } else {
        "B"
    }
}

/// The name of a MIDI note: pitch class and octave (C4 is middle C).
pub fn midi_note_name(midi: u8) -> (s: String)
    ensures
        s@ == note_text(midi),
{
    let mut s = String::from_str(pitch_class_name(midi % 12));
    if midi < 12 {
        s.append("-1");
    } else {
        push_decimal(&mut s, (midi / 12 - 1) as u64);
    }
    s
}

impl StringedConfig {
    /// Standard 6-string guitar in E standard.
    pub fn guitar_6_standard() -> (c: StringedConfig)
        ensures
            config_is(c, StringedType::ElectricGuitar, 6, None, 25500, true, Some(TremoloType::FloydRose)),
            c.tuning@ == seq![40u8, 45u8, 50u8, 55u8, 59u8, 64u8],
    {
        let c = StringedConfig {
            instrument_type: StringedType::ElectricGuitar,
            string_count: 6,
            tuning: vec![40, 45, 50, 55, 59, 64],
            fret_count: 24,
            multiscale: None,
            capo: 0,
            scale_length: 25500,
            has_tremolo: true,
            tremolo_type: Some(TremoloType::FloydRose),
        };
        assert(c.tuning@ =~= seq![40u8, 45u8, 50u8, 55u8, 59u8, 64u8]);
        c
    }

    /// 6-string in D standard.
    pub fn guitar_6_d_standard() -> (c: StringedConfig)
        ensures
            config_is(c, StringedType::ElectricGuitar, 6, None, 25500, true, Some(TremoloType::FloydRose)),
            c.tuning@ == seq![38u8, 43u8, 48u8, 53u8, 57u8, 62u8],
    {
        let c = StringedConfig {
            instrument_type: StringedType::ElectricGuitar,
            string_count: 6,
            tuning: vec![38, 43, 48, 53, 57, 62],
            fret_count: 24,
            multiscale: None,
            capo: 0,
            scale_length: 25500,
            has_tremolo: true,
            tremolo_type: Some(TremoloType::FloydRose),
        };
        assert(c.tuning@ =~= seq![38u8, 43u8, 48u8, 53u8, 57u8, 62u8]);
        c
    }

    /// 7-string in B standard.
    pub fn guitar_7_standard() -> (c: StringedConfig)
        ensures
            config_is(c, StringedType::ElectricGuitar, 7, None, 26500, true, Some(TremoloType::FloydRose)),
            c.tuning@ == seq![35u8, 40u8, 45u8, 50u8, 55u8, 59u8, 64u8],
    {
        let c = StringedConfig {
            instrument_type: StringedType::ElectricGuitar,
            string_count: 7,
            tuning: vec![35, 40, 45, 50, 55, 59, 64],
            fret_count: 24,
            multiscale: None,
            capo: 0,
            scale_length: 26500,
            has_tremolo: true,
            tremolo_type: Some(TremoloType::FloydRose),
        };
        assert(c.tuning@ =~= seq![35u8, 40u8, 45u8, 50u8, 55u8, 59u8, 64u8]);
        c
    }

    /// 8-string in F# standard, multi-scale.
    pub fn guitar_8_standard() -> (c: StringedConfig)
        ensures
            config_is(c, StringedType::ElectricGuitar, 8, Some(MultiscaleConfig { bass_scale: 28000, treble_scale: 25500, perpendicular_fret: 12 }), 27000, true, Some(TremoloType::Hipshot)),
            c.tuning@ == seq![30u8, 35u8, 40u8, 45u8, 50u8, 55u8, 59u8, 64u8],
    {
        let c = StringedConfig {
            instrument_type: StringedType::ElectricGuitar,
            string_count: 8,
            tuning: vec![30, 35, 40, 45, 50, 55, 59, 64],
            fret_count: 24,
            multiscale: Some(MultiscaleConfig { bass_scale: 28000, treble_scale: 25500, perpendicular_fret: 12 }),
            capo: 0,
            scale_length: 27000,
            has_tremolo: true,
            tremolo_type: Some(TremoloType::Hipshot),
        };
        assert(c.tuning@ =~= seq![30u8, 35u8, 40u8, 45u8, 50u8, 55u8, 59u8, 64u8]);
        c
    }

    /// 9-string guitar, multi-scale.
    pub fn guitar_9_standard() -> (c: StringedConfig)
        ensures
            config_is(c, StringedType::ElectricGuitar, 9, Some(MultiscaleConfig { bass_scale: 30000, treble_scale: 25500, perpendicular_fret: 12 }), 28000, false, None),
            c.tuning@ == seq![25u8, 30u8, 35u8, 40u8, 45u8, 50u8, 55u8, 59u8, 64u8],
    {
        let c = StringedConfig {
            instrument_type: StringedType::ElectricGuitar,
            string_count: 9,
            tuning: vec![25, 30, 35, 40, 45, 50, 55, 59, 64],
            fret_count: 24,
            multiscale: Some(MultiscaleConfig { bass_scale: 30000, treble_scale: 25500, perpendicular_fret: 12 }),
            capo: 0,
            scale_length: 28000,
            has_tremolo: false,
            tremolo_type: None,
        };
        assert(c.tuning@ =~= seq![25u8, 30u8, 35u8, 40u8, 45u8, 50u8, 55u8, 59u8, 64u8]);
        c
    }

    /// Standard 4-string bass.
    pub fn bass_4_standard() -> (c: StringedConfig)
        ensures
            config_is(c, StringedType::Bass, 4, None, 34000, false, None),
            c.tuning@ == seq![28u8, 33u8, 38u8, 43u8],
    {
        let c = StringedConfig {
            instrument_type: StringedType::Bass,
            string_count: 4,
            tuning: vec![28, 33, 38, 43],
            fret_count: 24,
            multiscale: None,
            capo: 0,
            scale_length: 34000,
            has_tremolo: false,
            tremolo_type: None,
        };
        assert(c.tuning@ =~= seq![28u8, 33u8, 38u8, 43u8]);
        c
    }

    /// 5-string bass with low B.
    pub fn bass_5_standard() -> (c: StringedConfig)
        ensures
            config_is(c, StringedType::Bass, 5, None, 35000, false, None),
            c.tuning@ == seq![23u8, 28u8, 33u8, 38u8, 43u8],
    {
        let c = StringedConfig {
            instrument_type: StringedType::Bass,
            string_count: 5,
            tuning: vec![23, 28, 33, 38, 43],
            fret_count: 24,
            multiscale: None,
            capo: 0,
            scale_length: 35000,
            has_tremolo: false,
            tremolo_type: None,
        };
        assert(c.tuning@ =~= seq![23u8, 28u8, 33u8, 38u8, 43u8]);
        c
    }

    /// 6-string bass.
    pub fn bass_6_standard() -> (c: StringedConfig)
        ensures
            config_is(c, StringedType::Bass, 6, None, 35000, false, None),
            c.tuning@ == seq![23u8, 28u8, 33u8, 38u8, 43u8, 48u8],
    {
        let c = StringedConfig {
            instrument_type: StringedType::Bass,
            string_count: 6,
            tuning: vec![23, 28, 33, 38, 43, 48],
            fret_count: 24,
            multiscale: None,
            capo: 0,
            scale_length: 35000,
            has_tremolo: false,
            tremolo_type: None,
        };
        assert(c.tuning@ =~= seq![23u8, 28u8, 33u8, 38u8, 43u8, 48u8]);
        c
    }

    /// 6-string in drop D.
    pub fn guitar_6_drop_d() -> (c: StringedConfig)
        ensures
            config_is(c, StringedType::ElectricGuitar, 6, None, 25500, true, Some(TremoloType::FloydRose)),
            c.tuning@ == seq![38u8, 45u8, 50u8, 55u8, 59u8, 64u8],
    {
        let mut c = StringedConfig::guitar_6_standard();
        c.tuning.set(0, 38);
        assert(c.tuning@ =~= seq![38u8, 45u8, 50u8, 55u8, 59u8, 64u8]);
        c
    }

    /// 7-string in drop A.
    pub fn guitar_7_drop_a() -> (c: StringedConfig)
        ensures
            config_is(c, StringedType::ElectricGuitar, 7, None, 26500, true, Some(TremoloType::FloydRose)),
            c.tuning@ == seq![33u8, 40u8, 45u8, 50u8, 55u8, 59u8, 64u8],
    {
        let mut c = StringedConfig::guitar_7_standard();
        c.tuning.set(0, 33);
        assert(c.tuning@ =~= seq![33u8, 40u8, 45u8, 50u8, 55u8, 59u8, 64u8]);
        c
    }

    /// 8-string in drop E.
    pub fn guitar_8_drop_e() -> (c: StringedConfig)
        ensures
            config_is(c, StringedType::ElectricGuitar, 8, Some(MultiscaleConfig { bass_scale: 28000, treble_scale: 25500, perpendicular_fret: 12 }), 27000, true, Some(TremoloType::Hipshot)),
            c.tuning@ == seq![28u8, 35u8, 40u8, 45u8, 50u8, 55u8, 59u8, 64u8],
    {
        let mut c = StringedConfig::guitar_8_standard();
        c.tuning.set(0, 28);
        assert(c.tuning@ =~= seq![28u8, 35u8, 40u8, 45u8, 50u8, 55u8, 59u8, 64u8]);
        c
    }

    /// 4-string bass in drop D.
    pub fn bass_4_drop_d() -> (c: StringedConfig)
        ensures
            config_is(c, StringedType::Bass, 4, None, 34000, false, None),
            c.tuning@ == seq![26u8, 33u8, 38u8, 43u8],
    {
        let mut c = StringedConfig::bass_4_standard();
        c.tuning.set(0, 26);
        assert(c.tuning@ =~= seq![26u8, 33u8, 38u8, 43u8]);
        c
    }

    /// The same configuration with another tuning; the string count
    /// becomes the tuning's length (modulo 256).
    pub fn with_tuning(self, tuning: Vec<u8>) -> (c: StringedConfig)
        ensures
            c.string_count as int == tuning@.len() % 256,
            c.tuning@ == tuning@,
            c.instrument_type == self.instrument_type,
            c.fret_count == self.fret_count,
            c.multiscale == self.multiscale,
            c.capo == self.capo,
            c.scale_length == self.scale_length,
            c.has_tremolo == self.has_tremolo,
            c.tremolo_type == self.tremolo_type,
    {
        let mut c = self;
        c.string_count = (tuning.len() % 256) as u8;
        c.tuning = tuning;
        c
    }

    /// The same configuration with a capo at `fret`.
    pub fn with_capo(self, fret: u8) -> (c: StringedConfig)
        ensures
            c.capo == fret,
            c.tuning@ == self.tuning@,
            c.string_count == self.string_count,
            c.instrument_type == self.instrument_type,
            c.fret_count == self.fret_count,
            c.multiscale == self.multiscale,
            c.scale_length == self.scale_length,
            c.has_tremolo == self.has_tremolo,
            c.tremolo_type == self.tremolo_type,
    {
        let mut c = self;
        c.capo = fret;
        c
    }

    /// The same configuration with a multi-scale neck (lengths in
    /// thousandths of an inch).
    pub fn with_multiscale(self, bass: u32, treble: u32, perp_fret: u8) -> (c: StringedConfig)
        ensures
            c.multiscale == Some(
                MultiscaleConfig { bass_scale: bass, treble_scale: treble, perpendicular_fret: perp_fret },
            ),
            c.capo == self.capo,
            c.tuning@ == self.tuning@,
            c.string_count == self.string_count,
            c.instrument_type == self.instrument_type,
            c.fret_count == self.fret_count,
            c.scale_length == self.scale_length,
            c.has_tremolo == self.has_tremolo,
            c.tremolo_type == self.tremolo_type,
    {
        let mut c = self;
        c.multiscale = Some(
            MultiscaleConfig { bass_scale: bass, treble_scale: treble, perpendicular_fret: perp_fret },
        );
        c
    }

    /// MIDI note of a string (numbered from 1, the highest) at a fret.
    pub fn midi_note(&self, string: u8, fret: u8) -> (n: u8)
        requires
            string <= self.string_count,
        ensures
            n == midi_note_of(*self, string, fret),
    {
        let string_idx = (self.string_count - string) as usize;
        if string_idx >= self.tuning.len() {
            return 60;
        }
        saturating_add_u8(saturating_add_u8(self.tuning[string_idx], fret), self.capo)
    }

    /// Note name (pitch class and octave) of a string at a fret.
    pub fn note_name(&self, string: u8, fret: u8) -> (s: String)
        requires
            string <= self.string_count,
        ensures
            s@ == note_text(midi_note_of(*self, string, fret)),
    {
        let midi = self.midi_note(string, fret);
        midi_note_name(midi)
    }

    /// Whether the fret exists on the neck.
    pub fn is_valid_fret(&self, fret: u8) -> (b: bool)
        ensures
            b == (fret <= self.fret_count),
    {
        fret <= self.fret_count
    }

    /// Whether the string exists (numbered from 1).
    pub fn is_valid_string(&self, string: u8) -> (b: bool)
        ensures
            b == (string >= 1 && string <= self.string_count),
    {
        string >= 1 && string <= self.string_count
    }
}

/// Instrument of a track. A drum kit's pieces and their MIDI map are kept
/// beside it by the caller.
#[derive(Debug, Clone)]
pub enum Instrument {
    /// Stringed instrument (guitar, bass, etc.)
    StringedInstrument(StringedConfig),
    /// Drum kit
    Drums,
    /// Keyboard/piano
    Keys(KeysConfig),
}

impl Instrument {
    /// Standard 6-string guitar in E standard.
    pub fn guitar_standard() -> (i: Instrument)
        ensures
            i matches Instrument::StringedInstrument(c) && config_is(
                c,
                StringedType::ElectricGuitar, 6, None, 25500, true, Some(TremoloType::FloydRose),
            ) && c.tuning@ == seq![40u8, 45u8, 50u8, 55u8, 59u8, 64u8],
    {
        Instrument::StringedInstrument(StringedConfig::guitar_6_standard())
    }

    /// 7-string guitar in B standard.
    pub fn guitar_7_string() -> (i: Instrument)
        ensures
            i matches Instrument::StringedInstrument(c) && config_is(
                c,
                StringedType::ElectricGuitar, 7, None, 26500, true, Some(TremoloType::FloydRose),
            ) && c.tuning@ == seq![35u8, 40u8, 45u8, 50u8, 55u8, 59u8, 64u8],
    {
        Instrument::StringedInstrument(StringedConfig::guitar_7_standard())
    }

    /// 8-string guitar in F# standard.
    pub fn guitar_8_string() -> (i: Instrument)
        ensures
            i matches Instrument::StringedInstrument(c) && config_is(
                c,
                StringedType::ElectricGuitar, 8, Some(MultiscaleConfig { bass_scale: 28000, treble_scale: 25500, perpendicular_fret: 12 }), 27000, true, Some(TremoloType::Hipshot),
            ) && c.tuning@ == seq![30u8, 35u8, 40u8, 45u8, 50u8, 55u8, 59u8, 64u8],
    {
        Instrument::StringedInstrument(StringedConfig::guitar_8_standard())
    }

    /// 9-string guitar.
    pub fn guitar_9_string() -> (i: Instrument)
        ensures
            i matches Instrument::StringedInstrument(c) && config_is(
                c,
                StringedType::ElectricGuitar, 9, Some(MultiscaleConfig { bass_scale: 30000, treble_scale: 25500, perpendicular_fret: 12 }), 28000, false, None,
            ) && c.tuning@ == seq![25u8, 30u8, 35u8, 40u8, 45u8, 50u8, 55u8, 59u8, 64u8],
    {
        Instrument::StringedInstrument(StringedConfig::guitar_9_standard())
    }

    /// Standard 4-string bass.
    pub fn bass_standard() -> (i: Instrument)
        ensures
            i matches Instrument::StringedInstrument(c) && config_is(
                c,
                StringedType::Bass, 4, None, 34000, false, None,
            ) && c.tuning@ == seq![28u8, 33u8, 38u8, 43u8],
    {
        Instrument::StringedInstrument(StringedConfig::bass_4_standard())
    }

    /// 5-string bass.
    pub fn bass_5_string() -> (i: Instrument)
        ensures
            i matches Instrument::StringedInstrument(c) && config_is(
                c,
                StringedType::Bass, 5, None, 35000, false, None,
            ) && c.tuning@ == seq![23u8, 28u8, 33u8, 38u8, 43u8],
    {
        Instrument::StringedInstrument(StringedConfig::bass_5_standard())
    }

    /// 6-string bass.
    pub fn bass_6_string() -> (i: Instrument)
        ensures
            i matches Instrument::StringedInstrument(c) && config_is(
                c,
                StringedType::Bass, 6, None, 35000, false, None,
            ) && c.tuning@ == seq![23u8, 28u8, 33u8, 38u8, 43u8, 48u8],
    {
        Instrument::StringedInstrument(StringedConfig::bass_6_standard())
    }
}

} // verus!
