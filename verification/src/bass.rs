//! Walking-bass accompaniment styles.

use vstd::prelude::*;

verus! {

/// The style a bass line is generated in.
#[derive(Debug, Clone, Copy, PartialEq, Eq, Structural)]
pub enum BassStyle {
    /// No bass.
    Off,
    /// Root notes only on the downbeat.
    RootOnly,
    /// Root and fifth.
    RootFifth,
    /// Walking quarter notes.
    Walking,
    /// Bossa-style root-fifth pattern.
    Latin,
    /// Syncopated funk.
    Funk,
}

impl Default for BassStyle {
    /// The bass starts switched off.
    fn default() -> (r: Self)
        ensures
            r == BassStyle::Off,
    {
        BassStyle::Off
    }
}

impl BassStyle {
    /// The next style in the cycle.
    pub fn next(&self) -> (r: Self)
        ensures
            r == match self {
                BassStyle::Off => BassStyle::RootOnly,
                BassStyle::RootOnly => BassStyle::RootFifth,
                BassStyle::RootFifth => BassStyle::Walking,
                BassStyle::Walking => BassStyle::Latin,
                BassStyle::Latin => BassStyle::Funk,
                BassStyle::Funk => BassStyle::Off,
            },
    {
        match self {
            BassStyle::Off => BassStyle::RootOnly,
            BassStyle::RootOnly => BassStyle::RootFifth,
            BassStyle::RootFifth => BassStyle::Walking,
            BassStyle::Walking => BassStyle::Latin,
            BassStyle::Latin => BassStyle::Funk,
            BassStyle::Funk => BassStyle::Off,
        }
    }

    /// The display name of the style.
    pub fn name(&self) -> (r: &'static str)
        ensures
            self == BassStyle::Off ==> r@ == "Off"@,
            self == BassStyle::RootOnly ==> r@ == "Root"@,
            self == BassStyle::RootFifth ==> r@ == "Root-5th"@,
            self == BassStyle::Walking ==> r@ == "Walking"@,
            self == BassStyle::Latin ==> r@ == "Latin"@,
            self == BassStyle::Funk ==> r@ == "Funk"@,
    {
        match self {
            BassStyle::Off => "Off",
            BassStyle::RootOnly => "Root",
            BassStyle::RootFifth => "Root-5th",
            BassStyle::Walking => "Walking",
            BassStyle::Latin => "Latin",
            BassStyle::Funk => "Funk",
        }
    }
}

} // verus!
