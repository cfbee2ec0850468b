//! Musical context for assisted composition: keys, chords, time
//! signatures, genres and the running chord progression.

use vstd::prelude::*;
use crate::text::decimal;
use crate::tab::rhythm::pair_text;

verus! {

/// Musical key.
#[derive(Debug, Clone, Copy, PartialEq, Eq, Structural)]
pub enum Key {
    CMajor,
    GMajor,
    DMajor,
    AMajor,
    EMajor,
    BMajor,
    FSharpMajor,
    CSharpMajor,
    FMajor,
    BFlatMajor,
    EFlatMajor,
    AFlatMajor,
    DFlatMajor,
    GFlatMajor,
    AMinor,
    EMinor,
    BMinor,
    FSharpMinor,
    CSharpMinor,
    GSharpMinor,
    DSharpMinor,
    DMinor,
    GMinor,
    CMinor,
    FMinor,
    BFlatMinor,
    EFlatMinor,
}

impl Default for Key {
    fn default() -> (k: Key)
        ensures
            k == Key::CMajor,
    {
        Key::CMajor
    }
}

/// The root of a key's name, such as "F#" or "Bb".
pub open spec fn key_root(k: Key) -> Seq<char> {
    match k {
        Key::CMajor => seq!['C'],
        Key::GMajor => seq!['G'],
        Key::DMajor => seq!['D'],
        Key::AMajor => seq!['A'],
        Key::EMajor => seq!['E'],
        Key::BMajor => seq!['B'],
        Key::FSharpMajor => seq!['F', '#'],
        Key::CSharpMajor => seq!['C', '#'],
        Key::FMajor => seq!['F'],
        Key::BFlatMajor => seq!['B', 'b'],
        Key::EFlatMajor => seq!['E', 'b'],
        Key::AFlatMajor => seq!['A', 'b'],
        Key::DFlatMajor => seq!['D', 'b'],
        Key::GFlatMajor => seq!['G', 'b'],
        Key::AMinor => seq!['A'],
        Key::EMinor => seq!['E'],
        Key::BMinor => seq!['B'],
        Key::FSharpMinor => seq!['F', '#'],
        Key::CSharpMinor => seq!['C', '#'],
        Key::GSharpMinor => seq!['G', '#'],
        Key::DSharpMinor => seq!['D', '#'],
        Key::DMinor => seq!['D'],
        Key::GMinor => seq!['G'],
        Key::CMinor => seq!['C'],
        Key::FMinor => seq!['F'],
        Key::BFlatMinor => seq!['B', 'b'],
        Key::EFlatMinor => seq!['E', 'b'],
    }
}

/// The ending of a key's name by its mode.
pub open spec fn mode_word(major: bool) -> Seq<char> {
    if major {
        seq![' ', 'M', 'a', 'j', 'o', 'r']
    } else {
        seq![' ', 'M', 'i', 'n', 'o', 'r']
    }
}

/// Display name: the root and " Major" or " Minor".
pub open spec fn key_name(k: Key) -> Seq<char> {
    key_root(k) + mode_word(key_is_major(k))
}

/// Whether a key is major.
pub open spec fn key_is_major(k: Key) -> bool {
    match k {
        Key::CMajor => true,
        Key::GMajor => true,
        Key::DMajor => true,
        Key::AMajor => true,
        Key::EMajor => true,
        Key::BMajor => true,
        Key::FSharpMajor => true,
        Key::CSharpMajor => true,
        Key::FMajor => true,
        Key::BFlatMajor => true,
        Key::EFlatMajor => true,
        Key::AFlatMajor => true,
        Key::DFlatMajor => true,
        Key::GFlatMajor => true,
        Key::AMinor => false,
        Key::EMinor => false,
        Key::BMinor => false,
        Key::FSharpMinor => false,
        Key::CSharpMinor => false,
        Key::GSharpMinor => false,
        Key::DSharpMinor => false,
        Key::DMinor => false,
        Key::GMinor => false,
        Key::CMinor => false,
        Key::FMinor => false,
        Key::BFlatMinor => false,
        Key::EFlatMinor => false,
    }
}

/// The relative key: a major key's relative minor lies a minor third
/// below, a minor key's relative major a minor third above (C# major's
/// relative, A# minor, is spelled Bb minor).
pub open spec fn relative_key(k: Key) -> Key {
    match k {
        Key::CMajor => Key::AMinor,
        Key::GMajor => Key::EMinor,
        Key::DMajor => Key::BMinor,
        Key::AMajor => Key::FSharpMinor,
        Key::EMajor => Key::CSharpMinor,
        Key::BMajor => Key::GSharpMinor,
        Key::FSharpMajor => Key::DSharpMinor,
        Key::CSharpMajor => Key::BFlatMinor,
        Key::FMajor => Key::DMinor,
        Key::BFlatMajor => Key::GMinor,
        Key::EFlatMajor => Key::CMinor,
        Key::AFlatMajor => Key::FMinor,
        Key::DFlatMajor => Key::BFlatMinor,
        Key::GFlatMajor => Key::EFlatMinor,
        Key::AMinor => Key::CMajor,
        Key::EMinor => Key::GMajor,
        Key::BMinor => Key::DMajor,
        Key::FSharpMinor => Key::AMajor,
        Key::CSharpMinor => Key::EMajor,
        Key::GSharpMinor => Key::BMajor,
        Key::DSharpMinor => Key::FSharpMajor,
        Key::DMinor => Key::FMajor,
        Key::GMinor => Key::BFlatMajor,
        Key::CMinor => Key::EFlatMajor,
        Key::FMinor => Key::AFlatMajor,
        Key::BFlatMinor => Key::DFlatMajor,
        Key::EFlatMinor => Key::GFlatMajor,
    }
}

impl Key {
    /// Display name.
    pub fn display_name(&self) -> (s: &'static str)
        ensures
            s@ == key_name(*self),
    {
        proof {
            reveal_strlit("C Major");
            reveal_strlit("G Major");
            reveal_strlit("D Major");
            reveal_strlit("A Major");
            reveal_strlit("E Major");
            reveal_strlit("B Major");
            reveal_strlit("F# Major");
            reveal_strlit("C# Major");
            reveal_strlit("F Major");
            reveal_strlit("Bb Major");
            reveal_strlit("Eb Major");
            reveal_strlit("Ab Major");
            reveal_strlit("Db Major");
            reveal_strlit("Gb Major");
            reveal_strlit("A Minor");
            reveal_strlit("E Minor");
            reveal_strlit("B Minor");
            reveal_strlit("F# Minor");
            reveal_strlit("C# Minor");
            reveal_strlit("G# Minor");
            reveal_strlit("D# Minor");
            reveal_strlit("D Minor");
            reveal_strlit("G Minor");
            reveal_strlit("C Minor");
            reveal_strlit("F Minor");
            reveal_strlit("Bb Minor");
            reveal_strlit("Eb Minor");
        }
        let r = match self {
            Key::CMajor => "C Major",
            Key::GMajor => "G Major",
            Key::DMajor => "D Major",
            Key::AMajor => "A Major",
            Key::EMajor => "E Major",
            Key::BMajor => "B Major",
            Key::FSharpMajor => "F# Major",
            Key::CSharpMajor => "C# Major",
            Key::FMajor => "F Major",
            Key::BFlatMajor => "Bb Major",
            Key::EFlatMajor => "Eb Major",
            Key::AFlatMajor => "Ab Major",
            Key::DFlatMajor => "Db Major",
            Key::GFlatMajor => "Gb Major",
            Key::AMinor => "A Minor",
            Key::EMinor => "E Minor",
            Key::BMinor => "B Minor",
            Key::FSharpMinor => "F# Minor",
            Key::CSharpMinor => "C# Minor",
            Key::GSharpMinor => "G# Minor",
            Key::DSharpMinor => "D# Minor",
            Key::DMinor => "D Minor",
            Key::GMinor => "G Minor",
            Key::CMinor => "C Minor",
            Key::FMinor => "F Minor",
            Key::BFlatMinor => "Bb Minor",
            Key::EFlatMinor => "Eb Minor",
        };
        assert(r@ =~= key_name(*self));
        r
    }

    /// Whether this is a major key.
    pub fn is_major(&self) -> (b: bool)
        ensures
            b == key_is_major(*self),
    {
        match self {
            Key::CMajor => true,
            Key::GMajor => true,
            Key::DMajor => true,
            Key::AMajor => true,
            Key::EMajor => true,
            Key::BMajor => true,
            Key::FSharpMajor => true,
            Key::CSharpMajor => true,
            Key::FMajor => true,
            Key::BFlatMajor => true,
            Key::EFlatMajor => true,
            Key::AFlatMajor => true,
            Key::DFlatMajor => true,
            Key::GFlatMajor => true,
            Key::AMinor => false,
            Key::EMinor => false,
            Key::BMinor => false,
            Key::FSharpMinor => false,
            Key::CSharpMinor => false,
            Key::GSharpMinor => false,
            Key::DSharpMinor => false,
            Key::DMinor => false,
            Key::GMinor => false,
            Key::CMinor => false,
            Key::FMinor => false,
            Key::BFlatMinor => false,
            Key::EFlatMinor => false,
        }
    }

    /// Whether this is a minor key.
    pub fn is_minor(&self) -> (b: bool)
        ensures
            b == !key_is_major(*self),
    {
        !self.is_major()
    }

    /// The relative major or minor key.
    pub fn relative(&self) -> (r: Key)
        ensures
            r == relative_key(*self),
    {
        match self {
            Key::CMajor => Key::AMinor,
            Key::GMajor => Key::EMinor,
            Key::DMajor => Key::BMinor,
            Key::AMajor => Key::FSharpMinor,
            Key::EMajor => Key::CSharpMinor,
            Key::BMajor => Key::GSharpMinor,
            Key::FSharpMajor => Key::DSharpMinor,
            Key::CSharpMajor => Key::BFlatMinor,
            Key::FMajor => Key::DMinor,
            Key::BFlatMajor => Key::GMinor,
            Key::EFlatMajor => Key::CMinor,
            Key::AFlatMajor => Key::FMinor,
            Key::DFlatMajor => Key::BFlatMinor,
            Key::GFlatMajor => Key::EFlatMinor,
            Key::AMinor => Key::CMajor,
            Key::EMinor => Key::GMajor,
            Key::BMinor => Key::DMajor,
            Key::FSharpMinor => Key::AMajor,
            Key::CSharpMinor => Key::EMajor,
            Key::GSharpMinor => Key::BMajor,
            Key::DSharpMinor => Key::FSharpMajor,
            Key::DMinor => Key::FMajor,
            Key::GMinor => Key::BFlatMajor,
            Key::CMinor => Key::EFlatMajor,
            Key::FMinor => Key::AFlatMajor,
            Key::BFlatMinor => Key::DFlatMajor,
            Key::EFlatMinor => Key::GFlatMajor,
        }
    }
}

/// The relative key of a major key is minor, and of a minor key major.
pub proof fn lemma_relative_flips_mode(k: Key)
    ensures
        key_is_major(relative_key(k)) == !key_is_major(k),
{
}

/// Taking the relative key twice gives the key back, for every key but
/// C# major, whose relative Bb minor leads back to Db major, the same key
/// spelled otherwise.
pub proof fn lemma_relative_involution(k: Key)
    requires
        k != Key::CSharpMajor,
    ensures
        relative_key(relative_key(k)) == k,
{
}

/// Chord type.
#[derive(Debug, Clone, Copy, PartialEq, Eq, Structural)]
pub enum ChordType {
    Major,
    Minor,
    Diminished,
    Augmented,
    Dominant7,
    Major7,
    Minor7,
    HalfDiminished7,
    Diminished7,
    Sus2,
    Sus4,
    Add9,
    Power,
}

/// Suffix of the chord symbol.
pub open spec fn chord_suffix(x: ChordType) -> Seq<char> {
    match x {
        ChordType::Major => ""@,
        ChordType::Minor => "m"@,
        ChordType::Diminished => "dim"@,
        ChordType::Augmented => "aug"@,
        ChordType::Dominant7 => "7"@,
        ChordType::Major7 => "maj7"@,
        ChordType::Minor7 => "m7"@,
        ChordType::HalfDiminished7 => "ø7"@,
        ChordType::Diminished7 => "dim7"@,
        ChordType::Sus2 => "sus2"@,
        ChordType::Sus4 => "sus4"@,
        ChordType::Add9 => "add9"@,
        ChordType::Power => "5"@,
    }
}

impl ChordType {
    /// Suffix of the chord symbol.
    pub fn suffix(&self) -> (s: &'static str)
        ensures
            s@ == chord_suffix(*self),
    {
        match self {
            ChordType::Major => "",
            ChordType::Minor => "m",
            ChordType::Diminished => "dim",
            ChordType::Augmented => "aug",
            ChordType::Dominant7 => "7",
            ChordType::Major7 => "maj7",
            ChordType::Minor7 => "m7",
            ChordType::HalfDiminished7 => "ø7",
            ChordType::Diminished7 => "dim7",
            ChordType::Sus2 => "sus2",
            ChordType::Sus4 => "sus4",
            ChordType::Add9 => "add9",
            ChordType::Power => "5",
        }
    }
}

/// A chord.
#[derive(Debug, Clone)]
pub struct Chord {
    /// Root note name (e.g., "C", "F#", "Bb")
    pub root: String,
    /// Chord type
    pub chord_type: ChordType,
    /// Bass note (for slash chords)
    pub bass: Option<String>,
}

/// The symbol of a chord: root, suffix, and "/bass" for a slash chord.
pub open spec fn chord_symbol(c: Chord) -> Seq<char> {
    let base = c.root@ + chord_suffix(c.chord_type);
    match c.bass {
        Some(b) => base + "/"@ + b@,
        None => base,
    }
}

impl Chord {
    /// A chord without bass note.
    pub fn new(root: &str, chord_type: ChordType) -> (c: Chord)
        ensures
            c.root@ == root@,
            c.chord_type == chord_type,
            c.bass is None,
    {
        Chord { root: String::from_str(root), chord_type, bass: None }
    }

    /// The same chord over a bass note.
    pub fn with_bass(self, bass: &str) -> (c: Chord)
        ensures
            c.root == self.root,
            c.chord_type == self.chord_type,
            c.bass is Some && c.bass->0@ == bass@,
    {
        let mut c = self;
        c.bass = Some(String::from_str(bass));
        c
    }

    /// The chord symbol.
    pub fn display_name(&self) -> (s: String)
        ensures
            s@ == chord_symbol(*self),
    {
        let base = self.root.clone().concat(self.chord_type.suffix());
        match &self.bass {
            Some(b) => base.concat("/").concat(b.as_str()),
            None => base,
        }
    }

    /// C major.
    pub fn c_major() -> (c: Chord)
        ensures
            c.root@ == "C"@,
            c.chord_type == ChordType::Major,
            c.bass is None,
    {
        Chord::new("C", ChordType::Major)
    }

    /// G major.
    pub fn g_major() -> (c: Chord)
        ensures
            c.root@ == "G"@,
            c.chord_type == ChordType::Major,
            c.bass is None,
    {
        Chord::new("G", ChordType::Major)
    }

    /// D major.
    pub fn d_major() -> (c: Chord)
        ensures
            c.root@ == "D"@,
            c.chord_type == ChordType::Major,
            c.bass is None,
    {
        Chord::new("D", ChordType::Major)
    }

    /// A minor.
    pub fn a_minor() -> (c: Chord)
        ensures
            c.root@ == "A"@,
            c.chord_type == ChordType::Minor,
            c.bass is None,
    {
        Chord::new("A", ChordType::Minor)
    }

    /// E minor.
    pub fn e_minor() -> (c: Chord)
        ensures
            c.root@ == "E"@,
            c.chord_type == ChordType::Minor,
            c.bass is None,
    {
        Chord::new("E", ChordType::Minor)
    }

}

/// Time signature.
#[derive(Debug, Clone, Copy, PartialEq, Eq, Structural)]
pub struct TimeSignature {
    /// Beats per measure
    pub numerator: u8,
    /// Beat unit (4 = quarter note)
    pub denominator: u8,
}

impl TimeSignature {
    /// A time signature.
    pub fn new(numerator: u8, denominator: u8) -> (t: TimeSignature)
        ensures
            t == (TimeSignature { numerator, denominator }),
    {
        TimeSignature { numerator, denominator }
    }

    /// Common time, 4/4.
    pub fn common() -> (t: TimeSignature)
        ensures
            t == (TimeSignature { numerator: 4, denominator: 4 }),
    {
        TimeSignature::new(4, 4)
    }

    /// Waltz time, 3/4.
    pub fn waltz() -> (t: TimeSignature)
        ensures
            t == (TimeSignature { numerator: 3, denominator: 4 }),
    {
        TimeSignature::new(3, 4)
    }

    /// Cut time, 2/2.
    pub fn cut_time() -> (t: TimeSignature)
        ensures
            t == (TimeSignature { numerator: 2, denominator: 2 }),
    {
        TimeSignature::new(2, 2)
    }

    /// 6/8.
    pub fn six_eight() -> (t: TimeSignature)
        ensures
            t == (TimeSignature { numerator: 6, denominator: 8 }),
    {
        TimeSignature::new(6, 8)
    }

    /// Display string, "numerator/denominator".
    pub fn display(&self) -> (s: String)
        ensures
            s@ == decimal(self.numerator as nat) + "/"@ + decimal(self.denominator as nat),
    {
        pair_text(self.numerator, "/", self.denominator)
    }
}

impl Default for TimeSignature {
    fn default() -> (t: TimeSignature)
        ensures
            t == (TimeSignature { numerator: 4, denominator: 4 }),
    {
        TimeSignature::common()
    }
}

/// Musical genre.
#[derive(Debug, Clone, Copy, PartialEq, Eq, Structural)]
pub enum Genre {
    Rock,
    Pop,
    Jazz,
    Blues,
    Metal,
    Folk,
    Classical,
    Electronic,
    Country,
    RnB,
    HipHop,
    Funk,
    Reggae,
    Indie,
    Progressive,
}

/// Display name.
pub open spec fn genre_name(x: Genre) -> Seq<char> {
    match x {
        Genre::Rock => "Rock"@,
        Genre::Pop => "Pop"@,
        Genre::Jazz => "Jazz"@,
        Genre::Blues => "Blues"@,
        Genre::Metal => "Metal"@,
        Genre::Folk => "Folk"@,
        Genre::Classical => "Classical"@,
        Genre::Electronic => "Electronic"@,
        Genre::Country => "Country"@,
        Genre::RnB => "R&B"@,
        Genre::HipHop => "Hip Hop"@,
        Genre::Funk => "Funk"@,
        Genre::Reggae => "Reggae"@,
        Genre::Indie => "Indie"@,
        Genre::Progressive => "Progressive"@,
    }
}

impl Genre {
    /// Display name.
    pub fn display_name(&self) -> (s: &'static str)
        ensures
            s@ == genre_name(*self),
    {
        match self {
            Genre::Rock => "Rock",
            Genre::Pop => "Pop",
            Genre::Jazz => "Jazz",
            Genre::Blues => "Blues",
            Genre::Metal => "Metal",
            Genre::Folk => "Folk",
            Genre::Classical => "Classical",
            Genre::Electronic => "Electronic",
            Genre::Country => "Country",
            Genre::RnB => "R&B",
            Genre::HipHop => "Hip Hop",
            Genre::Funk => "Funk",
            Genre::Reggae => "Reggae",
            Genre::Indie => "Indie",
            Genre::Progressive => "Progressive",
        }
    }
}

/// The chords of a composition so far: the current chord and those
/// before it.
#[derive(Debug, Clone)]
pub struct ChordProgression {
    /// Current chord (if any)
    pub current_chord: Option<Chord>,
    /// Recent chord history (for context)
    pub chord_history: Vec<Chord>,
}

impl ChordProgression {
    /// An empty progression.
    pub fn new() -> (p: ChordProgression)
        ensures
            p.current_chord is None,
            p.chord_history@.len() == 0,
    {
        ChordProgression { current_chord: None, chord_history: Vec::new() }
    }

    /// Add a chord: the current one, if any, joins the history.
    pub fn add_chord(&mut self, chord: Chord)
        ensures
            final(self).current_chord == Some(chord),
            final(self).chord_history@ == match old(self).current_chord {
                Some(c) => old(self).chord_history@.push(c),
                None => old(self).chord_history@,
            },
    {
        match self.current_chord.take() {
            Some(current) => {
                self.chord_history.push(current);
            },
            None => {},
        }
        self.current_chord = Some(chord);
    }

    /// The last `n` chords of the history (all of them where it is
    /// shorter).
    pub fn recent_chords(&self, n: usize) -> (r: Vec<&Chord>)
        ensures
            r@.len() == if self.chord_history@.len() >= n {
                n as int
            } else {
                self.chord_history@.len() as int
            },
            forall|k: int|
                0 <= k < r@.len() ==> *r@[k] == self.chord_history@[self.chord_history@.len()
                    - r@.len() + k],
    {
        let len = self.chord_history.len();
        let start = if len >= n {
            len - n
        } else {
            0
        };
        let mut out: Vec<&Chord> = Vec::new();
        let mut i: usize = start;
        while i < len
            invariant
                start <= i <= len,
                len == self.chord_history@.len(),
                out@.len() == i - start,
                forall|k: int| 0 <= k < out@.len() ==> *out@[k] == self.chord_history@[start + k],
            decreases len - i,
        {
            out.push(&self.chord_history[i]);
            i = i + 1;
        }
        out
    }
}

/// The key a display name names: its mode from the ending, its root from
/// the rest.
pub open spec fn key_of_name(s: Seq<char>) -> Key {
    let r = s.subrange(0, s.len() - 6);
    if s.len() >= 6 && s.subrange(s.len() - 6, s.len() as int) == mode_word(true) {
        if r.len() == 1 && r[0] == 'C' {
            Key::CMajor
        } else if r.len() == 1 && r[0] == 'G' {
            Key::GMajor
        } else if r.len() == 1 && r[0] == 'D' {
            Key::DMajor
        } else if r.len() == 1 && r[0] == 'A' {
            Key::AMajor
        } else if r.len() == 1 && r[0] == 'E' {
            Key::EMajor
        } else if r.len() == 1 && r[0] == 'B' {
            Key::BMajor
        } else if r.len() == 2 && r[0] == 'F' && r[1] == '#' {
            Key::FSharpMajor
        } else if r.len() == 2 && r[0] == 'C' && r[1] == '#' {
            Key::CSharpMajor
        } else if r.len() == 1 && r[0] == 'F' {
            Key::FMajor
        } else if r.len() == 2 && r[0] == 'B' && r[1] == 'b' {
            Key::BFlatMajor
        } else if r.len() == 2 && r[0] == 'E' && r[1] == 'b' {
            Key::EFlatMajor
        } else if r.len() == 2 && r[0] == 'A' && r[1] == 'b' {
            Key::AFlatMajor
        } else if r.len() == 2 && r[0] == 'D' && r[1] == 'b' {
            Key::DFlatMajor
        } else if r.len() == 2 && r[0] == 'G' && r[1] == 'b' {
            Key::GFlatMajor
        } else {
            Key::CMajor
        }
    } else {
        if r.len() == 1 && r[0] == 'A' {
            Key::AMinor
        } else if r.len() == 1 && r[0] == 'E' {
            Key::EMinor
        } else if r.len() == 1 && r[0] == 'B' {
            Key::BMinor
        } else if r.len() == 2 && r[0] == 'F' && r[1] == '#' {
            Key::FSharpMinor
        } else if r.len() == 2 && r[0] == 'C' && r[1] == '#' {
            Key::CSharpMinor
        } else if r.len() == 2 && r[0] == 'G' && r[1] == '#' {
            Key::GSharpMinor
        } else if r.len() == 2 && r[0] == 'D' && r[1] == '#' {
            Key::DSharpMinor
        } else if r.len() == 1 && r[0] == 'D' {
            Key::DMinor
        } else if r.len() == 1 && r[0] == 'G' {
            Key::GMinor
        } else if r.len() == 1 && r[0] == 'C' {
            Key::CMinor
        } else if r.len() == 1 && r[0] == 'F' {
            Key::FMinor
        } else if r.len() == 2 && r[0] == 'B' && r[1] == 'b' {
            Key::BFlatMinor
        } else if r.len() == 2 && r[0] == 'E' && r[1] == 'b' {
            Key::EFlatMinor
        } else {
            Key::AMinor
        }
    }
}

/// Key display names end in " Major" for the major keys and " Minor" for
/// the minor ones, and no two keys share a name.
pub proof fn lemma_key_names(k: Key, other: Key)
    ensures
        key_name(k).len() >= 6,
        key_name(k).subrange(key_name(k).len() - 6, key_name(k).len() as int) == mode_word(key_is_major(k)),
        key_of_name(key_name(k)) == k,
        k != other ==> key_name(k) != key_name(other),
{
    lemma_key_name_decodes(k);
    lemma_key_name_decodes(other);
}

/// A display name ends in its mode word and decodes to its key.
pub proof fn lemma_key_name_decodes(k: Key)
    ensures
        key_name(k).len() >= 6,
        key_name(k).subrange(key_name(k).len() - 6, key_name(k).len() as int) == mode_word(key_is_major(k)),
        key_of_name(key_name(k)) == k,
{
    let n = key_name(k);
    let r = key_root(k);
    assert(n.subrange(n.len() - 6, n.len() as int) =~= mode_word(key_is_major(k)));
    assert(n.subrange(0, n.len() - 6) =~= r);
    assert(mode_word(true) != mode_word(false)) by {
        assert(mode_word(true)[2] != mode_word(false)[2]);
    }
}

} // verus!
