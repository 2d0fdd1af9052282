//! Drum accompaniment styles.

use vstd::prelude::*;

verus! {

/// The style the drum pattern is generated in.
#[derive(Debug, Clone, Copy, PartialEq, Eq, Structural)]
pub enum DrumStyle {
    /// No drums.
    Off,
    /// A plain click.
    Metronome,
    /// Jazz ride pattern.
    JazzRide,
    /// Brushes.
    JazzBrushes,
    /// Bossa nova.
    BossaNova,
    /// Funk.
    Funk,
    /// Rock.
    Rock,
}

impl Default for DrumStyle {
    /// The drums start switched off.
    fn default() -> (r: Self)
        ensures
            r == DrumStyle::Off,
    {
        DrumStyle::Off
    }
}

impl DrumStyle {
    /// The next style in the cycle.
    pub fn next(&self) -> (r: Self)
        ensures
            r == match self {
                DrumStyle::Off => DrumStyle::Metronome,
                DrumStyle::Metronome => DrumStyle::JazzRide,
                DrumStyle::JazzRide => DrumStyle::JazzBrushes,
                DrumStyle::JazzBrushes => DrumStyle::BossaNova,
                DrumStyle::BossaNova => DrumStyle::Funk,
                DrumStyle::Funk => DrumStyle::Rock,
                DrumStyle::Rock => DrumStyle::Off,
            },
    {
        match self {
            DrumStyle::Off => DrumStyle::Metronome,
            DrumStyle::Metronome => DrumStyle::JazzRide,
            DrumStyle::JazzRide => DrumStyle::JazzBrushes,
            DrumStyle::JazzBrushes => DrumStyle::BossaNova,
            DrumStyle::BossaNova => DrumStyle::Funk,
            DrumStyle::Funk => DrumStyle::Rock,
            DrumStyle::Rock => DrumStyle::Off,
        }
    }

    /// The display name of the style.
    pub fn name(&self) -> (r: &'static str)
        ensures
            self == DrumStyle::Off ==> r@ == "Off"@,
            self == DrumStyle::Metronome ==> r@ == "Click"@,
            self == DrumStyle::JazzRide ==> r@ == "Jazz"@,
            self == DrumStyle::JazzBrushes ==> r@ == "Brushes"@,
            self == DrumStyle::BossaNova ==> r@ == "Bossa"@,
            self == DrumStyle::Funk ==> r@ == "Funk"@,
            self == DrumStyle::Rock ==> r@ == "Rock"@,
    {
        match self {
            DrumStyle::Off => "Off",
            DrumStyle::Metronome => "Click",
            DrumStyle::JazzRide => "Jazz",
            DrumStyle::JazzBrushes => "Brushes",
            DrumStyle::BossaNova => "Bossa",
            DrumStyle::Funk => "Funk",
            DrumStyle::Rock => "Rock",
        }
    }
}

} // verus!
