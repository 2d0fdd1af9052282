//! Comping rhythm styles.

use vstd::prelude::*;

verus! {

/// The rhythmic feel chords are comped in.
#[derive(Debug, Clone, Copy, PartialEq, Eq, Structural)]
pub enum RhythmStyle {
    /// One chord per bar.
    Whole,
    /// Quarter-note hits.
    Quarter,
    /// A basic jazz comp.
    JazzBasic,
    /// Swing comping.
    SwingComp,
    /// Bossa nova.
    BossaNova,
    /// Funk.
    Funk,
}

impl Default for RhythmStyle {
    /// Whole-bar chords are the default feel.
    fn default() -> (r: Self)
        ensures
            r == RhythmStyle::Whole,
    {
        RhythmStyle::Whole
    }
}

impl RhythmStyle {
    /// The next style in the cycle.
    pub fn next(&self) -> (r: Self)
        ensures
            r == match self {
                RhythmStyle::Whole => RhythmStyle::Quarter,
                RhythmStyle::Quarter => RhythmStyle::JazzBasic,
                RhythmStyle::JazzBasic => RhythmStyle::SwingComp,
                RhythmStyle::SwingComp => RhythmStyle::BossaNova,
                RhythmStyle::BossaNova => RhythmStyle::Funk,
                RhythmStyle::Funk => RhythmStyle::Whole,
            },
    {
        match self {
            RhythmStyle::Whole => RhythmStyle::Quarter,
            RhythmStyle::Quarter => RhythmStyle::JazzBasic,
            RhythmStyle::JazzBasic => RhythmStyle::SwingComp,
            RhythmStyle::SwingComp => RhythmStyle::BossaNova,
            RhythmStyle::BossaNova => RhythmStyle::Funk,
            RhythmStyle::Funk => RhythmStyle::Whole,
        }
    }

    /// The display name of the style.
    pub fn name(&self) -> (r: &'static str)
        ensures
            self == RhythmStyle::Whole ==> r@ == "Whole"@,
            self == RhythmStyle::Quarter ==> r@ == "Quarter"@,
            self == RhythmStyle::JazzBasic ==> r@ == "Jazz"@,
            self == RhythmStyle::SwingComp ==> r@ == "Swing"@,
            self == RhythmStyle::BossaNova ==> r@ == "Bossa"@,
            self == RhythmStyle::Funk ==> r@ == "Funk"@,
    {
        match self {
            RhythmStyle::Whole => "Whole",
            RhythmStyle::Quarter => "Quarter",
            RhythmStyle::JazzBasic => "Jazz",
            RhythmStyle::SwingComp => "Swing",
            RhythmStyle::BossaNova => "Bossa",
            RhythmStyle::Funk => "Funk",
        }
    }
}

} // verus!
