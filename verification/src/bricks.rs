//! Scale degrees and the classification of harmonic bricks.

use vstd::prelude::*;

use crate::chord::Note;

verus! {

/// A scale degree relative to the key centre.
#[derive(Debug, Clone, Copy, PartialEq, Eq, Structural)]
#[allow(non_camel_case_types)]
pub enum ScaleDegree {
    I,
    bII,
    II,
    bIII,
    III,
    IV,
    bV,
    V,
    bVI,
    VI,
    bVII,
    VII,
}

impl ScaleDegree {
    /// The semitone offset of this degree above the key centre.
    pub open spec fn semitones_spec(self) -> int {
        match self {
            ScaleDegree::I => 0,
            ScaleDegree::bII => 1,
            ScaleDegree::II => 2,
            ScaleDegree::bIII => 3,
            ScaleDegree::III => 4,
            ScaleDegree::IV => 5,
            ScaleDegree::bV => 6,
            ScaleDegree::V => 7,
            ScaleDegree::bVI => 8,
            ScaleDegree::VI => 9,
            ScaleDegree::bVII => 10,
            ScaleDegree::VII => 11,
        }
    }

    /// The concrete pitch class of this degree in a given key.
    pub fn to_note(&self, key: Note) -> (r: Note)
        ensures
            r == Note::spec_from_pitch_class((key.pitch_class() + self.semitones_spec()) % 12),
    {
        let semitones: i8 = match self {
            ScaleDegree::I => 0,
            ScaleDegree::bII => 1,
            ScaleDegree::II => 2,
            ScaleDegree::bIII => 3,
            ScaleDegree::III => 4,
            ScaleDegree::IV => 5,
            ScaleDegree::bV => 6,
            ScaleDegree::V => 7,
            ScaleDegree::bVI => 8,
            ScaleDegree::VI => 9,
            ScaleDegree::bVII => 10,
            ScaleDegree::VII => 11,
        };
        key.transpose(semitones)
    }

    /// View of [`ScaleDegree::symbol`].
    pub open spec fn symbol_spec(self) -> Seq<char> {
        match self {
            ScaleDegree::I => "I"@,
            ScaleDegree::bII => "bII"@,
            ScaleDegree::II => "II"@,
            ScaleDegree::bIII => "bIII"@,
            ScaleDegree::III => "III"@,
            ScaleDegree::IV => "IV"@,
            ScaleDegree::bV => "bV"@,
            ScaleDegree::V => "V"@,
            ScaleDegree::bVI => "bVI"@,
            ScaleDegree::VI => "VI"@,
            ScaleDegree::bVII => "bVII"@,
            ScaleDegree::VII => "VII"@,
        }
    }

    /// The Roman-numeral spelling of the degree.
    pub fn symbol(&self) -> (r: &'static str)
        ensures
            r@ == self.symbol_spec(),
    {
        match self {
            ScaleDegree::I => "I",
            ScaleDegree::bII => "bII",
            ScaleDegree::II => "II",
            ScaleDegree::bIII => "bIII",
            ScaleDegree::III => "III",
            ScaleDegree::IV => "IV",
            ScaleDegree::bV => "bV",
            ScaleDegree::V => "V",
            ScaleDegree::bVI => "bVI",
            ScaleDegree::VI => "VI",
            ScaleDegree::bVII => "bVII",
            ScaleDegree::VII => "VII",
        }
    }
}

/// The harmonic role a brick plays.
#[derive(Debug, Clone, Copy, PartialEq, Eq, Structural)]
pub enum BrickCategory {
    /// Resolution patterns.
    Cadence,
    /// Cyclic patterns that come back home.
    Turnaround,
    /// Patterns that extend without resolving.
    Extension,
    /// Patterns that avoid the expected resolution.
    Deceptive,
    /// Blues-based patterns.
    Blues,
    /// Modal interchange patterns.
    Modal,
}

impl BrickCategory {
    /// View of [`BrickCategory::name`].
    pub open spec fn name_spec(self) -> Seq<char> {
        match self {
            BrickCategory::Cadence => "Cadence"@,
            BrickCategory::Turnaround => "Turnaround"@,
            BrickCategory::Extension => "Extension"@,
            BrickCategory::Deceptive => "Deceptive"@,
            BrickCategory::Blues => "Blues"@,
            BrickCategory::Modal => "Modal"@,
        }
    }

    /// The display name of the category.
    pub fn name(&self) -> (r: &'static str)
        ensures
            r@ == self.name_spec(),
    {
        match self {
            BrickCategory::Cadence => "Cadence",
            BrickCategory::Turnaround => "Turnaround",
            BrickCategory::Extension => "Extension",
            BrickCategory::Deceptive => "Deceptive",
            BrickCategory::Blues => "Blues",
            BrickCategory::Modal => "Modal",
        }
    }
}

/// Difficulty levels for brick-identification quizzes.
#[derive(Debug, Clone, Copy, PartialEq, Eq, Structural)]
pub enum QuizDifficulty {
    /// Basic cadences only.
    Beginner,
    /// Turnarounds and substitutions added.
    Intermediate,
    /// Every brick, modal and deceptive included.
    Advanced,
}

impl Default for QuizDifficulty {
    /// Quizzes start at the beginner level.
    fn default() -> (r: Self)
        ensures
            r == QuizDifficulty::Beginner,
    {
        QuizDifficulty::Beginner
    }
}

impl QuizDifficulty {
    /// The display name of the difficulty.
    pub fn name(&self) -> (r: &'static str)
        ensures
            self == QuizDifficulty::Beginner ==> r@ == "Beginner"@,
            self == QuizDifficulty::Intermediate ==> r@ == "Intermediate"@,
            self == QuizDifficulty::Advanced ==> r@ == "Advanced"@,
    {
        match self {
            QuizDifficulty::Beginner => "Beginner",
            QuizDifficulty::Intermediate => "Intermediate",
            QuizDifficulty::Advanced => "Advanced",
        }
    }

    /// The next difficulty in the cycle.
    pub fn next(self) -> (r: Self)
        ensures
            r == match self {
                QuizDifficulty::Beginner => QuizDifficulty::Intermediate,
                QuizDifficulty::Intermediate => QuizDifficulty::Advanced,
                QuizDifficulty::Advanced => QuizDifficulty::Beginner,
            },
    {
        match self {
            QuizDifficulty::Beginner => QuizDifficulty::Intermediate,
            QuizDifficulty::Intermediate => QuizDifficulty::Advanced,
            QuizDifficulty::Advanced => QuizDifficulty::Beginner,
        }
    }
}

} // verus!
