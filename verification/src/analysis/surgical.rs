//! Rewrite planning: severities and action types of prescriptions.

use vstd::prelude::*;
use crate::analysis::types::{join_parts, joined};

verus! {

/// Severity level of a prescription.
#[derive(Debug, Clone, Copy, PartialEq, Eq, Structural)]
pub enum Severity {
    /// Minor deviation - optional polish
    Minor,
    /// Moderate deviation - recommended rewrite
    Moderate,
    /// Major deviation - strongly recommended rewrite
    Major,
    /// Critical deviation - must rewrite
    Critical,
}

/// The display color of a severity.
pub open spec fn severity_color(s: Severity) -> (u8, u8, u8) {
    match s {
        Severity::Minor => (255u8, 206u8, 86u8),
        Severity::Moderate => (255u8, 159u8, 64u8),
        Severity::Major => (255u8, 99u8, 132u8),
        Severity::Critical => (153u8, 102u8, 255u8),
    }
}

/// Display label.
pub open spec fn severity_label(x: Severity) -> Seq<char> {
    match x {
        Severity::Minor => "Minor"@,
        Severity::Moderate => "Moderate"@,
        Severity::Major => "Major"@,
        Severity::Critical => "Critical"@,
    }
}

impl Severity {
    /// Display color (yellow, orange, red, purple).
    pub fn color(&self) -> (c: (u8, u8, u8))
        ensures
            c == severity_color(*self),
    {
        match self {
            Severity::Minor => (255, 206, 86),
            Severity::Moderate => (255, 159, 64),
            Severity::Major => (255, 99, 132),
            Severity::Critical => (153, 102, 255),
        }
    }

    /// Display label.
    pub fn label(&self) -> (s: &'static str)
        ensures
            s@ == severity_label(*self),
    {
        match self {
            Severity::Minor => "Minor",
            Severity::Moderate => "Moderate",
            Severity::Major => "Major",
            Severity::Critical => "Critical",
        }
    }
}

/// Type of action.
#[derive(Debug, Clone, Copy, PartialEq, Eq, Structural)]
pub enum ActionType {
    /// Increase textural variety
    IncreaseVariance,
    /// Add harmonic tension
    AddTension,
    /// Adjust density
    AdjustDensity,
    /// Change root motion
    AdjustRootMotion,
    /// Add interval variety
    AddIntervals,
    /// Expand register usage
    ExpandRegister,
    /// Break repetitive patterns
    BreakRepetition,
    /// Match stylistic conventions
    MatchStyle,
}

/// Icon for the user interface.
pub open spec fn action_icon(x: ActionType) -> Seq<char> {
    match x {
        ActionType::IncreaseVariance => "📊"@,
        ActionType::AddTension => "⚡"@,
        ActionType::AdjustDensity => "📈"@,
        ActionType::AdjustRootMotion => "🔄"@,
        ActionType::AddIntervals => "🎵"@,
        ActionType::ExpandRegister => "📏"@,
        ActionType::BreakRepetition => "🔀"@,
        ActionType::MatchStyle => "🎯"@,
    }
}

impl ActionType {
    /// Icon for the user interface.
    pub fn icon(&self) -> (s: &'static str)
        ensures
            s@ == action_icon(*self),
    {
        match self {
            ActionType::IncreaseVariance => "📊",
            ActionType::AddTension => "⚡",
            ActionType::AdjustDensity => "📈",
            ActionType::AdjustRootMotion => "🔄",
            ActionType::AddIntervals => "🎵",
            ActionType::ExpandRegister => "📏",
            ActionType::BreakRepetition => "🔀",
            ActionType::MatchStyle => "🎯",
        }
    }
}

/// A specific action item in a prescription.
#[derive(Debug, Clone)]
pub struct ActionItem {
    /// Action type
    pub action_type: ActionType,
    /// Description
    pub description: String,
    /// Rationale
    pub rationale: String,
    /// Specific examples or suggestions
    pub examples: Vec<String>,
}

/// What a region's deviation from the baseline shows; the caller decides
/// each from floating-point deltas.
#[derive(Debug, Clone, Copy)]
pub struct DeviationFlags {
    /// Fret variance fell by more than half
    pub variance_collapse: bool,
    /// Dissonance fell by more than half
    pub lacks_tension: bool,
    /// Density moved by more than half either way
    pub unusual_density: bool,
    /// Fret variance fell by more than four fifths
    pub severe_variance_drop: bool,
}

/// A prescription's priority: five, two more for a variance collapse, two
/// more for missing tension and one more for a severe variance drop, at
/// most ten.
pub open spec fn priority_of(f: DeviationFlags) -> int {
    let p = 5 + (if f.variance_collapse { 2int } else { 0int }) + (if f.lacks_tension { 2int } else { 0int })
        + (if f.severe_variance_drop { 1int } else { 0int });
    if p > 10 { 10 } else { p }
}

/// The issues that a deviation shows, in order.
pub open spec fn issues_of(f: DeviationFlags) -> Seq<Seq<char>> {
    (if f.variance_collapse { seq!["formulaic/repetitive writing"@] } else { Seq::empty() })
        + (if f.lacks_tension { seq!["missing harmonic tension"@] } else { Seq::empty() })
        + (if f.unusual_density { seq!["unusual note density"@] } else { Seq::empty() })
}

/// The diagnosis of a deviation: its issues, or a general finding where
/// it shows none.
pub open spec fn diagnosis_text(f: DeviationFlags) -> Seq<char> {
    if issues_of(f).len() == 0 {
        "Stylistic inconsistency detected"@
    } else {
        "Primary issues: "@ + joined(issues_of(f), ", "@)
    }
}

/// The kinds of action prescribed, in order: more variance and broken
/// repetition for a variance collapse, tension where it lacks, a density
/// adjustment, and style matching where a harmonic analysis is at hand.
pub open spec fn actions_of(f: DeviationFlags, with_harmony: bool) -> Seq<ActionType> {
    (if f.variance_collapse { seq![ActionType::IncreaseVariance, ActionType::BreakRepetition] } else { Seq::empty() })
        + (if f.lacks_tension { seq![ActionType::AddTension] } else { Seq::empty() })
        + (if f.unusual_density { seq![ActionType::AdjustDensity] } else { Seq::empty() })
        + (if with_harmony { seq![ActionType::MatchStyle] } else { Seq::empty() })
}

impl DeviationFlags {
    /// The priority of a prescription for this deviation (1-10).
    pub fn priority(&self) -> (p: u8)
        ensures
            p == priority_of(*self),
    {
        let mut p: u8 = 5;
        if self.variance_collapse {
            p = p + 2;
        }
        if self.lacks_tension {
            p = p + 2;
        }
        if self.severe_variance_drop {
            p = p + 1;
        }
        if p > 10 {
            10
        } else {
            p
        }
    }

    /// The diagnosis of this deviation.
    pub fn diagnosis(&self) -> (s: String)
        ensures
            s@ == diagnosis_text(*self),
    {
        let mut issues: Vec<&str> = Vec::new();
        if self.variance_collapse {
            issues.push("formulaic/repetitive writing");
        }
        if self.lacks_tension {
            issues.push("missing harmonic tension");
        }
        if self.unusual_density {
            issues.push("unusual note density");
        }
        proof {
            reveal_strlit("formulaic/repetitive writing");
            reveal_strlit("missing harmonic tension");
            reveal_strlit("unusual note density");
            assert(issues@.map_values(|p: &str| p@) =~= issues_of(*self));
        }
        if issues.len() == 0 {
            String::from_str("Stylistic inconsistency detected")
        } else {
            let mut s = String::from_str("Primary issues: ");
            let body = join_parts(&issues, ", ");
            s.append(body.as_str());
            s
        }
    }

    /// The kinds of action to prescribe for this deviation, in order.
    pub fn action_types(&self, with_harmony: bool) -> (r: Vec<ActionType>)
        ensures
            r@ == actions_of(*self, with_harmony),
    {
        let mut r: Vec<ActionType> = Vec::new();
        if self.variance_collapse {
            r.push(ActionType::IncreaseVariance);
            r.push(ActionType::BreakRepetition);
        }
        if self.lacks_tension {
            r.push(ActionType::AddTension);
        }
        if self.unusual_density {
            r.push(ActionType::AdjustDensity);
        }
        if with_harmony {
            r.push(ActionType::MatchStyle);
        }
        proof {
            assert(r@ =~= actions_of(*self, with_harmony));
        }
        r
    }
}

} // verus!
