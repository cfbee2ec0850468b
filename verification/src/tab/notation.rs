//! Notation symbols and markings for complete score representation.

use vstd::prelude::*;
use crate::text::{decimal, push_char, push_decimal};

verus! {

/// Text expression types.
#[derive(Debug, Clone)]
pub enum TextExpression {
    /// Tempo marking (Allegro, etc.)
    Tempo(String),
    /// Dynamic text (cresc., dim., etc.)
    Dynamic(String),
    /// Technique text (let ring, palm mute, etc.)
    Technique(String),
    /// Performance direction
    Performance(String),
    /// Lyric
    Lyric(String),
    /// Chord symbol
    ChordSymbol(String),
    /// Generic text
    Generic(String),
}

/// Rehearsal mark.
#[derive(Debug, Clone)]
pub enum RehearsalMark {
    /// Letter (A, B, C...)
    Letter(char),
    /// Number (1, 2, 3...)
    Number(u16),
    /// Custom text
    Custom(String),
}

/// The ASCII upper-case form of a character: 'a'..='z' map to 'A'..='Z',
/// every other character to itself.
pub open spec fn ascii_upper(c: char) -> char {
    if 'a' <= c && c <= 'z' {
        ((c as u32) - 32) as char
    } else {
        c
    }
}

/// The ASCII upper-case form of a character.
pub fn to_ascii_upper(c: char) -> (r: char)
    ensures
        r == ascii_upper(c),
{
    if 'a' <= c && c <= 'z' {
        (((c as u32) - 32) as u8) as char
    } else {
        c
    }
}

/// The display text of a rehearsal mark, in square brackets.
pub open spec fn rehearsal_text(m: RehearsalMark) -> Seq<char> {
    match m {
        RehearsalMark::Letter(c) => seq!['[', c, ']'],
        RehearsalMark::Number(n) => seq!['['] + decimal(n as nat) + seq![']'],
        RehearsalMark::Custom(s) => seq!['['] + s@ + seq![']'],
    }
}

impl RehearsalMark {
    /// A letter mark, upper-cased.
    pub fn letter(c: char) -> (m: RehearsalMark)
        ensures
            m == RehearsalMark::Letter(ascii_upper(c)),
    {
        RehearsalMark::Letter(to_ascii_upper(c))
    }

    /// A number mark.
    pub fn number(n: u16) -> (m: RehearsalMark)
        ensures
            m == RehearsalMark::Number(n),
    {
        RehearsalMark::Number(n)
    }

    /// Display text, in square brackets.
    pub fn display(&self) -> (s: String)
        ensures
            s@ == rehearsal_text(*self),
    {
        let mut s = String::new();
        push_char(&mut s, '[');
        match self {
            RehearsalMark::Letter(c) => {
                push_char(&mut s, *c);
            },
            RehearsalMark::Number(n) => {
                push_decimal(&mut s, *n as u64);
            },
            RehearsalMark::Custom(t) => {
                s.append(t.as_str());
            },
        }
        push_char(&mut s, ']');
        assert(s@ =~= rehearsal_text(*self));
        s
    }
}

/// Barline type.
#[derive(Debug, Clone, Copy, PartialEq, Eq, Structural)]
pub enum BarlineType {
    /// Normal single barline
    Normal,
    /// Double barline
    Double,
    /// Final barline (thick)
    Final,
    /// Start repeat
    RepeatStart,
    /// End repeat
    RepeatEnd,
    /// Start and end repeat
    RepeatBoth,
    /// Dashed barline
    Dashed,
    /// Dotted barline
    Dotted,
    /// No barline
    Invisible,
}

/// Ottava (octave shift).
#[derive(Debug, Clone, Copy, PartialEq, Eq, Structural)]
pub enum Ottava {
    /// 8va (octave up)
    OttavaUp,
    /// 8vb (octave down)
    OttavaDown,
    /// 15ma (two octaves up)
    QuindicessimaUp,
    /// 15mb (two octaves down)
    QuindicessimaDown,
}

/// Transposition in semitones.
pub open spec fn ottava_semitones(x: Ottava) -> i8 {
    match x {
        Ottava::OttavaUp => 12i8,
        Ottava::OttavaDown => -12i8,
        Ottava::QuindicessimaUp => 24i8,
        Ottava::QuindicessimaDown => -24i8,
    }
}

/// Notation symbol.
pub open spec fn ottava_symbol(x: Ottava) -> Seq<char> {
    match x {
        Ottava::OttavaUp => "8va"@,
        Ottava::OttavaDown => "8vb"@,
        Ottava::QuindicessimaUp => "15ma"@,
        Ottava::QuindicessimaDown => "15mb"@,
    }
}

impl Ottava {
    /// Transposition in semitones.
    pub fn transposition_semitones(&self) -> (r: i8)
        ensures
            r == ottava_semitones(*self),
    {
        match self {
            Ottava::OttavaUp => 12,
            Ottava::OttavaDown => -12,
            Ottava::QuindicessimaUp => 24,
            Ottava::QuindicessimaDown => -24,
        }
    }

    /// Notation symbol.
    pub fn symbol(&self) -> (s: &'static str)
        ensures
            s@ == ottava_symbol(*self),
    {
        match self {
            Ottava::OttavaUp => "8va",
            Ottava::OttavaDown => "8vb",
            Ottava::QuindicessimaUp => "15ma",
            Ottava::QuindicessimaDown => "15mb",
        }
    }
}

/// Clef types.
#[derive(Debug, Clone, Copy, PartialEq, Eq, Structural)]
pub enum Clef {
    Treble,
    Bass,
    Tenor,
    Alto,
    Percussion,
    Tab,
    Treble8va,
    Treble8vb,
}

/// Accidentals.
#[derive(Debug, Clone, Copy, PartialEq, Eq, Structural)]
pub enum Accidental {
    DoubleFlat,
    Flat,
    Natural,
    Sharp,
    DoubleSharp,
    QuarterFlat,
    QuarterSharp,
}

/// Notation symbol.
pub open spec fn accidental_symbol(x: Accidental) -> Seq<char> {
    match x {
        Accidental::DoubleFlat => "𝄫"@,
        Accidental::Flat => "♭"@,
        Accidental::Natural => "♮"@,
        Accidental::Sharp => "♯"@,
        Accidental::DoubleSharp => "𝄪"@,
        Accidental::QuarterFlat => "𝄳"@,
        Accidental::QuarterSharp => "𝄲"@,
    }
}

/// Offset in semitones (quarter tones count as none).
pub open spec fn accidental_offset(x: Accidental) -> i8 {
    match x {
        Accidental::DoubleFlat => -2i8,
        Accidental::Flat => -1i8,
        Accidental::Natural => 0i8,
        Accidental::Sharp => 1i8,
        Accidental::DoubleSharp => 2i8,
        Accidental::QuarterFlat => 0i8,
        Accidental::QuarterSharp => 0i8,
    }
}

impl Accidental {
    /// Notation symbol.
    pub fn symbol(&self) -> (s: &'static str)
        ensures
            s@ == accidental_symbol(*self),
    {
        match self {
            Accidental::DoubleFlat => "𝄫",
            Accidental::Flat => "♭",
            Accidental::Natural => "♮",
            Accidental::Sharp => "♯",
            Accidental::DoubleSharp => "𝄪",
            Accidental::QuarterFlat => "𝄳",
            Accidental::QuarterSharp => "𝄲",
        }
    }

    /// Offset in semitones (quarter tones count as none).
    pub fn semitone_offset(&self) -> (r: i8)
        ensures
            r == accidental_offset(*self),
    {
        match self {
            Accidental::DoubleFlat => -2,
            Accidental::Flat => -1,
            Accidental::Natural => 0,
            Accidental::Sharp => 1,
            Accidental::DoubleSharp => 2,
            Accidental::QuarterFlat => 0,
            Accidental::QuarterSharp => 0,
        }
    }
}

/// Articulation symbols.
#[derive(Debug, Clone, Copy, PartialEq, Eq, Structural)]
pub enum ArticulationSymbol {
    Staccato,
    Staccatissimo,
    Tenuto,
    Accent,
    Marcato,
    Sforzando,
    Fermata,
    FermataShort,
    FermataLong,
    BreathMark,
    Caesura,
}

/// Notation symbol.
pub open spec fn articulation_symbol(x: ArticulationSymbol) -> Seq<char> {
    match x {
        ArticulationSymbol::Staccato => "."@,
        ArticulationSymbol::Staccatissimo => "▾"@,
        ArticulationSymbol::Tenuto => "–"@,
        ArticulationSymbol::Accent => ">"@,
        ArticulationSymbol::Marcato => "^"@,
        ArticulationSymbol::Sforzando => "sfz"@,
        ArticulationSymbol::Fermata => "𝄐"@,
        ArticulationSymbol::FermataShort => "𝄑"@,
        ArticulationSymbol::FermataLong => "𝄒"@,
        ArticulationSymbol::BreathMark => ","@,
        ArticulationSymbol::Caesura => "//"@,
    }
}

impl ArticulationSymbol {
    /// Notation symbol.
    pub fn symbol(&self) -> (s: &'static str)
        ensures
            s@ == articulation_symbol(*self),
    {
        match self {
            ArticulationSymbol::Staccato => ".",
            ArticulationSymbol::Staccatissimo => "▾",
            ArticulationSymbol::Tenuto => "–",
            ArticulationSymbol::Accent => ">",
            ArticulationSymbol::Marcato => "^",
            ArticulationSymbol::Sforzando => "sfz",
            ArticulationSymbol::Fermata => "𝄐",
            ArticulationSymbol::FermataShort => "𝄑",
            ArticulationSymbol::FermataLong => "𝄒",
            ArticulationSymbol::BreathMark => ",",
            ArticulationSymbol::Caesura => "//",
        }
    }
}

/// Ornaments.
#[derive(Debug, Clone, Copy, PartialEq, Eq, Structural)]
pub enum Ornament {
    Trill,
    Mordent,
    InvertedMordent,
    Turn,
    InvertedTurn,
    DelayedTurn,
    Appoggiatura,
    Acciaccatura,
}

/// Notation symbol.
pub open spec fn ornament_symbol(x: Ornament) -> Seq<char> {
    match x {
        Ornament::Trill => "tr"@,
        Ornament::Mordent => "𝆖"@,
        Ornament::InvertedMordent => "𝆗"@,
        Ornament::Turn => "𝄾"@,
        Ornament::InvertedTurn => "𝄿"@,
        Ornament::DelayedTurn => "~"@,
        Ornament::Appoggiatura => "⌐"@,
        Ornament::Acciaccatura => "𝅘𝅥"@,
    }
}

impl Ornament {
    /// Notation symbol.
    pub fn symbol(&self) -> (s: &'static str)
        ensures
            s@ == ornament_symbol(*self),
    {
        match self {
            Ornament::Trill => "tr",
            Ornament::Mordent => "𝆖",
            Ornament::InvertedMordent => "𝆗",
            Ornament::Turn => "𝄾",
            Ornament::InvertedTurn => "𝄿",
            Ornament::DelayedTurn => "~",
            Ornament::Appoggiatura => "⌐",
            Ornament::Acciaccatura => "𝅘𝅥",
        }
    }
}

/// Tremolo notation.
#[derive(Debug, Clone, Copy, PartialEq, Eq, Structural)]
pub enum TremoloNotation {
    /// Single note tremolo (slashes on stem)
    Single(TremoloStrokes),
    /// Two-note tremolo (between two notes)
    TwoNote(TremoloStrokes),
}

/// Tremolo strokes.
#[derive(Debug, Clone, Copy, PartialEq, Eq, Structural)]
pub enum TremoloStrokes {
    One,
    Two,
    Three,
    Buzz,
}

/// Navigation symbols.
#[derive(Debug, Clone, Copy, PartialEq, Eq, Structural)]
pub enum NavigationSymbol {
    Segno,
    Coda,
    DaCapo,
    DalSegno,
    DaCapoAlFine,
    DaCapoAlCoda,
    DalSegnoAlFine,
    DalSegnoAlCoda,
    ToCoda,
    Fine,
}

/// Notation symbol.
pub open spec fn navigation_symbol(x: NavigationSymbol) -> Seq<char> {
    match x {
        NavigationSymbol::Segno => "𝄋"@,
        NavigationSymbol::Coda => "𝄌"@,
        NavigationSymbol::DaCapo => "D.C."@,
        NavigationSymbol::DalSegno => "D.S."@,
        NavigationSymbol::DaCapoAlFine => "D.C. al Fine"@,
        NavigationSymbol::DaCapoAlCoda => "D.C. al Coda"@,
        NavigationSymbol::DalSegnoAlFine => "D.S. al Fine"@,
        NavigationSymbol::DalSegnoAlCoda => "D.S. al Coda"@,
        NavigationSymbol::ToCoda => "To Coda 𝄌"@,
        NavigationSymbol::Fine => "Fine"@,
    }
}

impl NavigationSymbol {
    /// Notation symbol.
    pub fn symbol(&self) -> (s: &'static str)
        ensures
            s@ == navigation_symbol(*self),
    {
        match self {
            NavigationSymbol::Segno => "𝄋",
            NavigationSymbol::Coda => "𝄌",
            NavigationSymbol::DaCapo => "D.C.",
            NavigationSymbol::DalSegno => "D.S.",
            NavigationSymbol::DaCapoAlFine => "D.C. al Fine",
            NavigationSymbol::DaCapoAlCoda => "D.C. al Coda",
            NavigationSymbol::DalSegnoAlFine => "D.S. al Fine",
            NavigationSymbol::DalSegnoAlCoda => "D.S. al Coda",
            NavigationSymbol::ToCoda => "To Coda 𝄌",
            NavigationSymbol::Fine => "Fine",
        }
    }
}

} // verus!
