//! Scales, modes, and their relation to chords.

use vstd::prelude::*;
use vstd::string::*;

use crate::chord::{contains_i8, Chord, Note};

verus! {

broadcast use
    vstd::seq::Seq::lemma_push_map_commute,
    vstd::seq::Seq::add_empty_left,
    vstd::seq::Seq::add_empty_right,
;

/// A scale shape: which semitone offsets above the root it contains.
#[derive(Debug, Clone, Copy, PartialEq, Eq, Structural)]
pub enum ScaleType {
    Major,
    NaturalMinor,
    HarmonicMinor,
    MelodicMinor,
    Dorian,
    Phrygian,
    Lydian,
    Mixolydian,
    Aeolian,
    Locrian,
    LydianDominant,
    Altered,
    WholeTone,
    DiminishedHalfWhole,
    DiminishedWholeHalf,
    MinorPentatonic,
    MajorPentatonic,
    BluesMajor,
    BluesMinor,
}

impl ScaleType {
    /// View of [`ScaleType::intervals`].
    pub open spec fn intervals_spec(self) -> Seq<i8> {
        match self {
            ScaleType::Major => seq![0i8, 2i8, 4i8, 5i8, 7i8, 9i8, 11i8],
            ScaleType::NaturalMinor => seq![0i8, 2i8, 3i8, 5i8, 7i8, 8i8, 10i8],
            ScaleType::HarmonicMinor => seq![0i8, 2i8, 3i8, 5i8, 7i8, 8i8, 11i8],
            ScaleType::MelodicMinor => seq![0i8, 2i8, 3i8, 5i8, 7i8, 9i8, 11i8],
            ScaleType::Dorian => seq![0i8, 2i8, 3i8, 5i8, 7i8, 9i8, 10i8],
            ScaleType::Phrygian => seq![0i8, 1i8, 3i8, 5i8, 7i8, 8i8, 10i8],
            ScaleType::Lydian => seq![0i8, 2i8, 4i8, 6i8, 7i8, 9i8, 11i8],
            ScaleType::Mixolydian => seq![0i8, 2i8, 4i8, 5i8, 7i8, 9i8, 10i8],
            ScaleType::Aeolian => seq![0i8, 2i8, 3i8, 5i8, 7i8, 8i8, 10i8],
            ScaleType::Locrian => seq![0i8, 1i8, 3i8, 5i8, 6i8, 8i8, 10i8],
            ScaleType::LydianDominant => seq![0i8, 2i8, 4i8, 6i8, 7i8, 9i8, 10i8],
            ScaleType::Altered => seq![0i8, 1i8, 3i8, 4i8, 6i8, 8i8, 10i8],
            ScaleType::WholeTone => seq![0i8, 2i8, 4i8, 6i8, 8i8, 10i8],
            ScaleType::DiminishedHalfWhole => seq![0i8, 1i8, 3i8, 4i8, 6i8, 7i8, 9i8, 10i8],
            ScaleType::DiminishedWholeHalf => seq![0i8, 2i8, 3i8, 5i8, 6i8, 8i8, 9i8, 11i8],
            ScaleType::MinorPentatonic => seq![0i8, 3i8, 5i8, 7i8, 10i8],
            ScaleType::MajorPentatonic => seq![0i8, 2i8, 4i8, 7i8, 9i8],
            ScaleType::BluesMajor => seq![0i8, 2i8, 3i8, 4i8, 7i8, 9i8],
            ScaleType::BluesMinor => seq![0i8, 3i8, 5i8, 6i8, 7i8, 10i8],
        }
    }

    /// The semitone offsets of the scale above its root.
    pub fn intervals(&self) -> (r: Vec<i8>)
        ensures
            r@ == self.intervals_spec(),
    {
        let v: Vec<i8> = match self {
            ScaleType::Major => vec![0i8, 2, 4, 5, 7, 9, 11],
            ScaleType::NaturalMinor => vec![0i8, 2, 3, 5, 7, 8, 10],
            ScaleType::HarmonicMinor => vec![0i8, 2, 3, 5, 7, 8, 11],
            ScaleType::MelodicMinor => vec![0i8, 2, 3, 5, 7, 9, 11],
            ScaleType::Dorian => vec![0i8, 2, 3, 5, 7, 9, 10],
            ScaleType::Phrygian => vec![0i8, 1, 3, 5, 7, 8, 10],
            ScaleType::Lydian => vec![0i8, 2, 4, 6, 7, 9, 11],
            ScaleType::Mixolydian => vec![0i8, 2, 4, 5, 7, 9, 10],
            ScaleType::Aeolian => vec![0i8, 2, 3, 5, 7, 8, 10],
            ScaleType::Locrian => vec![0i8, 1, 3, 5, 6, 8, 10],
            ScaleType::LydianDominant => vec![0i8, 2, 4, 6, 7, 9, 10],
            ScaleType::Altered => vec![0i8, 1, 3, 4, 6, 8, 10],
            ScaleType::WholeTone => vec![0i8, 2, 4, 6, 8, 10],
            ScaleType::DiminishedHalfWhole => vec![0i8, 1, 3, 4, 6, 7, 9, 10],
            ScaleType::DiminishedWholeHalf => vec![0i8, 2, 3, 5, 6, 8, 9, 11],
            ScaleType::MinorPentatonic => vec![0i8, 3, 5, 7, 10],
            ScaleType::MajorPentatonic => vec![0i8, 2, 4, 7, 9],
            ScaleType::BluesMajor => vec![0i8, 2, 3, 4, 7, 9],
            ScaleType::BluesMinor => vec![0i8, 3, 5, 6, 7, 10],
        };
        proof {
            assert(v@ =~= self.intervals_spec());
        }
        v
    }

    /// View of [`ScaleType::name`].
    pub open spec fn name_spec(self) -> Seq<char> {
        match self {
            ScaleType::Major => "Major (Ionian)"@,
            ScaleType::NaturalMinor => "Natural Minor"@,
            ScaleType::HarmonicMinor => "Harmonic Minor"@,
            ScaleType::MelodicMinor => "Melodic Minor"@,
            ScaleType::Dorian => "Dorian"@,
            ScaleType::Phrygian => "Phrygian"@,
            ScaleType::Lydian => "Lydian"@,
            ScaleType::Mixolydian => "Mixolydian"@,
            ScaleType::Aeolian => "Aeolian"@,
            ScaleType::Locrian => "Locrian"@,
            ScaleType::LydianDominant => "Lydian Dominant"@,
            ScaleType::Altered => "Altered"@,
            ScaleType::WholeTone => "Whole Tone"@,
            ScaleType::DiminishedHalfWhole => "Diminished (H-W)"@,
            ScaleType::DiminishedWholeHalf => "Diminished (W-H)"@,
            ScaleType::MinorPentatonic => "Minor Pentatonic"@,
            ScaleType::MajorPentatonic => "Major Pentatonic"@,
            ScaleType::BluesMajor => "Blues Major"@,
            ScaleType::BluesMinor => "Blues Minor"@,
        }
    }

    /// The display name of the scale shape.
    pub fn name(&self) -> (r: &'static str)
        ensures
            r@ == self.name_spec(),
    {
        match self {
            ScaleType::Major => "Major (Ionian)",
            ScaleType::NaturalMinor => "Natural Minor",
            ScaleType::HarmonicMinor => "Harmonic Minor",
            ScaleType::MelodicMinor => "Melodic Minor",
            ScaleType::Dorian => "Dorian",
            ScaleType::Phrygian => "Phrygian",
            ScaleType::Lydian => "Lydian",
            ScaleType::Mixolydian => "Mixolydian",
            ScaleType::Aeolian => "Aeolian",
            ScaleType::Locrian => "Locrian",
            ScaleType::LydianDominant => "Lydian Dominant",
            ScaleType::Altered => "Altered",
            ScaleType::WholeTone => "Whole Tone",
            ScaleType::DiminishedHalfWhole => "Diminished (H-W)",
            ScaleType::DiminishedWholeHalf => "Diminished (W-H)",
            ScaleType::MinorPentatonic => "Minor Pentatonic",
            ScaleType::MajorPentatonic => "Major Pentatonic",
            ScaleType::BluesMajor => "Blues Major",
            ScaleType::BluesMinor => "Blues Minor",
        }
    }
}

/// A diatonic mode of the major scale.
#[derive(Debug, Clone, Copy, PartialEq, Eq, Structural)]
pub enum Mode {
    Ionian,
    Dorian,
    Phrygian,
    Lydian,
    Mixolydian,
    Aeolian,
    Locrian,
}

impl Mode {
    /// The scale shape this mode names.
    pub fn to_scale_type(self) -> (r: ScaleType)
        ensures
            r == match self {
                Mode::Ionian => ScaleType::Major,
                Mode::Dorian => ScaleType::Dorian,
                Mode::Phrygian => ScaleType::Phrygian,
                Mode::Lydian => ScaleType::Lydian,
                Mode::Mixolydian => ScaleType::Mixolydian,
                Mode::Aeolian => ScaleType::Aeolian,
                Mode::Locrian => ScaleType::Locrian,
            },
    {
        match self {
            Mode::Ionian => ScaleType::Major,
            Mode::Dorian => ScaleType::Dorian,
            Mode::Phrygian => ScaleType::Phrygian,
            Mode::Lydian => ScaleType::Lydian,
            Mode::Mixolydian => ScaleType::Mixolydian,
            Mode::Aeolian => ScaleType::Aeolian,
            Mode::Locrian => ScaleType::Locrian,
        }
    }
}

/// A scale: a root pitch class and a shape.
#[derive(Debug, Clone)]
pub struct Scale {
    pub root: Note,
    pub scale_type: ScaleType,
}

impl Scale {
    /// A scale from its root and shape.
    pub fn new(root: Note, scale_type: ScaleType) -> (s: Scale)
        ensures
            s.root == root,
            s.scale_type == scale_type,
    {
        Scale { root, scale_type }
    }

    /// Whether the given pitch class lies in the scale.
    pub open spec fn spec_contains(self, note: Note) -> bool {
        self.scale_type.intervals_spec().contains(
            (((note.pitch_class() - self.root.pitch_class()) % 12) as i8),
        )
    }

    /// The pitch classes of the scale, one per interval of its shape.
    pub fn notes(&self) -> (r: Vec<Note>)
        ensures
            r@.len() == self.scale_type.intervals_spec().len(),
            forall|i: int|
                0 <= i < r@.len() ==> r@[i] == Note::spec_from_pitch_class(
                    (self.root.pitch_class() + self.scale_type.intervals_spec()[i] as int) % 12,
                ),
    {
        let intervals = self.scale_type.intervals();
        let mut r: Vec<Note> = Vec::new();
        let mut i: usize = 0;
        while i < intervals.len()
            invariant
                intervals@ == self.scale_type.intervals_spec(),
                i <= intervals@.len(),
                r@.len() == i,
                forall|j: int|
                    0 <= j < i ==> r@[j] == Note::spec_from_pitch_class(
                        (self.root.pitch_class() + intervals@[j] as int) % 12,
                    ),
            decreases intervals@.len() - i,
        {
            r.push(self.root.transpose(intervals[i]));
            i += 1;
        }
        r
    }

    /// Whether the pitch class lies in the scale.
    pub fn contains(&self, note: Note) -> (r: bool)
        ensures
            r == self.spec_contains(note),
    {
        let interval: i8 = ((note.semitone() + 12 - self.root.semitone()) % 12) as i8;
        proof {
            assert(interval as int == (note.pitch_class() - self.root.pitch_class()) % 12)
                by (nonlinear_arith)
                requires
                    interval as int == (note.pitch_class() + 12 - self.root.pitch_class()) % 12,
                    0 <= note.pitch_class() < 12,
                    0 <= self.root.pitch_class() < 12,
            {
            }
        }
        let intervals = self.scale_type.intervals();
        contains_i8(&intervals, interval)
    }

    /// The one-based scale degree of a pitch class: the position of its
    /// interval in the shape, or `None` when the note lies outside.
    pub fn degree(&self, note: Note) -> (r: Option<usize>)
        ensures
            match r {
                Some(d) => {
                    &&& 1 <= d <= self.scale_type.intervals_spec().len()
                    &&& self.scale_type.intervals_spec()[d - 1] as int == (note.pitch_class()
                        - self.root.pitch_class()) % 12
                    &&& forall|j: int|
                        0 <= j < d - 1 ==> self.scale_type.intervals_spec()[j] as int != (
                        note.pitch_class() - self.root.pitch_class()) % 12
                },
                None => !self.spec_contains(note),
            },
    {
        let interval: i8 = ((note.semitone() + 12 - self.root.semitone()) % 12) as i8;
        proof {
            assert(interval as int == (note.pitch_class() - self.root.pitch_class()) % 12)
                by (nonlinear_arith)
                requires
                    interval as int == (note.pitch_class() + 12 - self.root.pitch_class()) % 12,
                    0 <= note.pitch_class() < 12,
                    0 <= self.root.pitch_class() < 12,
            {
            }
        }
        let intervals = self.scale_type.intervals();
        let mut i: usize = 0;
        while i < intervals.len()
            invariant
                intervals@ == self.scale_type.intervals_spec(),
                interval as int == (note.pitch_class() - self.root.pitch_class()) % 12,
                i <= intervals@.len(),
                forall|j: int| 0 <= j < i ==> intervals@[j] != interval,
            decreases intervals@.len() - i,
        {
            if intervals[i] == interval {
                return Some(i + 1);
            }
            i += 1;
        }
        None
    }

    /// View of [`Scale::name`].
    pub open spec fn name_spec(self) -> Seq<char> {
        self.root.name_spec() + " "@ + self.scale_type.name_spec()
    }

    /// The display name, such as `C Major (Ionian)`.
    pub fn name(&self) -> (r: String)
        ensures
            r@ == self.name_spec(),
    {
        let mut s = String::from_str(self.root.name());
        s.append(" ");
        s.append(self.scale_type.name());
        proof {
            assert(s@ =~= self.name_spec());
        }
        s
    }

    /// Whether the pitch class belongs to the chord itself.
    pub fn is_chord_tone(&self, chord: &Chord, note: Note) -> (r: bool)
        ensures
            r == chord.spec_has_pitch_class(note.pitch_class()),
    {
        let notes = chord.notes();
        let mut i: usize = 0;
        while i < notes.len()
            invariant
                notes@.len() == chord.quality.intervals_spec().len(),
                forall|k: int|
                    0 <= k < notes@.len() ==> notes@[k].pitch_class() == (chord.root.pitch_class()
                        + chord.quality.intervals_spec()[k] as int) % 12,
                i <= notes@.len(),
                forall|j: int| 0 <= j < i ==> notes@[j] != note,
            decreases notes@.len() - i,
        {
            if notes[i] == note {
                proof {
                    assert(notes@[i as int].pitch_class() == note.pitch_class());
                }
                return true;
            }
            i += 1;
        }
        proof {
            if chord.spec_has_pitch_class(note.pitch_class()) {
                let k = choose|k: int|
                    0 <= k < chord.quality.intervals_spec().len() && (chord.root.pitch_class()
                        + chord.quality.intervals_spec()[k] as int) % 12 == note.pitch_class();
                assert(notes@[k].pitch_class() == note.pitch_class());
                assert(notes@[k] == note) by {
                    lemma_note_identity(notes@[k], note);
                };
            }
        }
        false
    }

    /// Whether the pitch class is an available extension: in the scale
    /// but not in the chord.
    pub fn is_extension(&self, chord: &Chord, note: Note) -> (r: bool)
        ensures
            r == (self.spec_contains(note) && !chord.spec_has_pitch_class(note.pitch_class())),
    {
        self.contains(note) && !self.is_chord_tone(chord, note)
    }
}

/// The label given to an available tension at the given interval above
/// the chord root.
pub open spec fn extension_label_spec(interval: int) -> Seq<char> {
    if interval == 2 {
        "9th"@
    } else if interval == 3 {
        "b9th"@
    } else if interval == 4 {
        "#9th"@
    } else if interval == 5 {
        "11th"@
    } else if interval == 6 {
        "#11th/b5"@
    } else if interval == 8 {
        "b13th"@
    } else if interval == 9 {
        "13th"@
    } else {
        "tension"@
    }
}

/// The labelled extensions contributed by the scale intervals from `i`
/// on: each scale note outside the chord, with its tension label.
pub open spec fn extensions_spec(scale: Scale, chord: Chord, i: int) -> Seq<(Note, Seq<char>)>
    decreases scale.scale_type.intervals_spec().len() - i,
{
    if i < 0 || i >= scale.scale_type.intervals_spec().len() {
        Seq::empty()
    } else {
        let note = Note::spec_from_pitch_class(
            (scale.root.pitch_class() + scale.scale_type.intervals_spec()[i] as int) % 12,
        );
        let rest = extensions_spec(scale, chord, i + 1);
        if !chord.spec_has_pitch_class(note.pitch_class()) {
            seq![
                (note, extension_label_spec((note.pitch_class() - chord.root.pitch_class()) % 12)),
            ] + rest
        } else {
            rest
        }
    }
}

/// The view of a labelled extension list.
pub open spec fn extensions_view(v: Seq<(Note, &'static str)>) -> Seq<(Note, Seq<char>)> {
    v.map_values(|p: (Note, &'static str)| (p.0, p.1@))
}

impl Scale {
    /// Every scale note outside the chord, labelled by its tension.
    pub fn available_extensions(&self, chord: &Chord) -> (r: Vec<(Note, &'static str)>)
        ensures
            extensions_view(r@) == extensions_spec(*self, *chord, 0),
    {
        let scale_notes = self.notes();
        let mut r: Vec<(Note, &'static str)> = Vec::new();
        let mut i: usize = 0;
        proof {
            assert(extensions_view(r@) =~= Seq::<(Note, Seq<char>)>::empty());
        }
        while i < scale_notes.len()
            invariant
                scale_notes@.len() == self.scale_type.intervals_spec().len(),
                forall|k: int|
                    0 <= k < scale_notes@.len() ==> scale_notes@[k] == Note::spec_from_pitch_class(
                        (self.root.pitch_class() + self.scale_type.intervals_spec()[k] as int)
                            % 12,
                    ),
                i <= scale_notes@.len(),
                extensions_spec(*self, *chord, 0) =~= extensions_view(r@) + extensions_spec(
                    *self,
                    *chord,
                    i as int,
                ),
            decreases scale_notes@.len() - i,
        {
            let note = scale_notes[i];
            if !self.is_chord_tone(chord, note) {
                let interval: i8 = ((note.semitone() + 12 - chord.root.semitone()) % 12) as i8;
                proof {
                    assert(interval as int == (note.pitch_class() - chord.root.pitch_class()) % 12)
                        by (nonlinear_arith)
                        requires
                            interval as int == (note.pitch_class() + 12
                                - chord.root.pitch_class()) % 12,
                            0 <= note.pitch_class() < 12,
                            0 <= chord.root.pitch_class() < 12,
                    {
                    }
                }
                let label: &'static str = match interval {
                    2 => "9th",
                    3 => "b9th",
                    4 => "#9th",
                    5 => "11th",
                    6 => "#11th/b5",
                    8 => "b13th",
                    9 => "13th",
                    _ => "tension",
                };
                let ghost prev = extensions_view(r@);
                r.push((note, label));
                proof {
                    assert(extensions_view(r@) =~= prev.push((note, label@)));
                    assert(extensions_spec(*self, *chord, i as int) == seq![(note, label@)]
                        + extensions_spec(*self, *chord, i + 1));
                    assert(extensions_spec(*self, *chord, 0) =~= extensions_view(r@)
                        + extensions_spec(*self, *chord, i + 1));
                }
            } else {
                proof {
                    assert(extensions_spec(*self, *chord, i as int) == extensions_spec(
                        *self,
                        *chord,
                        i + 1,
                    ));
                }
            }
            i += 1;
        }
        proof {
            assert(extensions_spec(*self, *chord, scale_notes@.len() as int)
                =~= Seq::<(Note, Seq<char>)>::empty());
            assert(extensions_view(r@) =~= extensions_spec(*self, *chord, 0));
        }
        r
    }
}

/// Two pitch classes with the same semitone offset are the same note.
proof fn lemma_note_identity(a: Note, b: Note)
    requires
        a.pitch_class() == b.pitch_class(),
    ensures
        a == b,
{
}

} // verus!
