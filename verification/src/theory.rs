//! Voice leading analysis and chord–scale matching.

use vstd::prelude::*;

use crate::chord::{Chord, ChordQuality, Note};
use crate::scale::{Scale, ScaleType};

verus! {

/// A guide tone of one chord and how it moves into the next chord.
#[derive(Debug, Clone)]
pub struct GuideTone {
    pub note: Note,
    pub from_chord: String,
    pub to_chord: String,
    pub movement: i8,
}

/// The signed semitone movement from `a` to `b`, normalised into
/// `-5..=6`.
pub open spec fn movement_spec(a: Note, b: Note) -> int {
    let m = (b.pitch_class() - a.pitch_class() + 12) % 12;
    if m > 6 {
        m - 12
    } else {
        m
    }
}

/// The undirected semitone distance between two pitch classes, `0..=6`.
pub open spec fn distance_spec(a: Note, b: Note) -> int {
    let d = (if b.pitch_class() >= a.pitch_class() {
        b.pitch_class() - a.pitch_class()
    } else {
        a.pitch_class() - b.pitch_class()
    }) % 12;
    if d <= 12 - d {
        d
    } else {
        12 - d
    }
}

/// Voice leading analysis between successive chords.
pub struct VoiceLeading;

impl VoiceLeading {
    /// Pair the guide tones of two chords by position and report each
    /// tone's normalised movement into the next chord.
    pub fn analyze(from: &Chord, to: &Chord) -> (r: Vec<GuideTone>)
        ensures
            r@.len() == vstd::math::min(
                from.guide_tones_spec().len() as int,
                to.guide_tones_spec().len() as int,
            ),
            forall|i: int|
                0 <= i < r@.len() ==> {
                    &&& (#[trigger] r@[i]).note == from.guide_tones_spec()[i]
                    &&& r@[i].movement as int == movement_spec(
                        from.guide_tones_spec()[i],
                        to.guide_tones_spec()[i],
                    )
                    &&& r@[i].from_chord@ == from.name_spec()
                    &&& r@[i].to_chord@ == to.name_spec()
                },
    {
        let from_guide_tones = from.guide_tones();
        let to_guide_tones = to.guide_tones();
        let mut movements: Vec<GuideTone> = Vec::new();
        let mut i: usize = 0;
        while i < from_guide_tones.len() && i < to_guide_tones.len()
            invariant
                from_guide_tones@ == from.guide_tones_spec(),
                to_guide_tones@ == to.guide_tones_spec(),
                i <= from_guide_tones@.len(),
                i <= to_guide_tones@.len(),
                movements@.len() == i,
                forall|j: int|
                    0 <= j < movements@.len() ==> {
                        &&& (#[trigger] movements@[j]).note == from.guide_tones_spec()[j]
                        &&& movements@[j].movement as int == movement_spec(
                            from.guide_tones_spec()[j],
                            to.guide_tones_spec()[j],
                        )
                        &&& movements@[j].from_chord@ == from.name_spec()
                        &&& movements@[j].to_chord@ == to.name_spec()
                    },
            decreases from_guide_tones@.len() - i,
        {
            let from_note = from_guide_tones[i];
            let to_note = to_guide_tones[i];
            let m: i32 = (to_note.semitone() as i32 - from_note.semitone() as i32 + 12) % 12;
            let movement: i8 = if m > 6 {
                (m - 12) as i8
            } else {
                m as i8
            };
            movements.push(
                GuideTone { note: from_note, from_chord: from.name(), to_chord: to.name(), movement },
            );
            i += 1;
        }
        movements
    }

    /// For each chord tone of `from`, the nearest chord tone of `to`
    /// (the earliest one at minimal distance) and the normalised
    /// movement onto it.
    pub fn smooth_voice_leading(from: &Chord, to: &Chord) -> (r: Vec<(Note, Note, i8)>)
        ensures
            r@.len() == from.quality.intervals_spec().len(),
            forall|i: int|
                0 <= i < r@.len() ==> {
                    let fnotes = spec_chord_notes(*from);
                    let tnotes = spec_chord_notes(*to);
                    &&& (#[trigger] r@[i]).0 == fnotes[i]
                    &&& exists|j: int|
                        {
                            &&& 0 <= j < tnotes.len()
                            &&& r@[i].1 == tnotes[j]
                            &&& (forall|k: int|
                                0 <= k < tnotes.len() ==> distance_spec(fnotes[i], #[trigger] tnotes[k])
                                    >= distance_spec(fnotes[i], tnotes[j]))
                            &&& (forall|k: int|
                                0 <= k < j ==> distance_spec(fnotes[i], #[trigger] tnotes[k])
                                    > distance_spec(fnotes[i], tnotes[j]))
                        }
                    &&& r@[i].2 as int == movement_spec(fnotes[i], r@[i].1)
                },
    {
        let from_notes = from.notes();
        let to_notes = to.notes();
        proof {
            assert(from_notes@ =~= spec_chord_notes(*from));
            assert(to_notes@ =~= spec_chord_notes(*to));
        }
        let mut voice_pairs: Vec<(Note, Note, i8)> = Vec::new();
        let mut i: usize = 0;
        while i < from_notes.len()
            invariant
                from_notes@ == spec_chord_notes(*from),
                to_notes@ == spec_chord_notes(*to),
                to_notes@.len() >= 4,
                i <= from_notes@.len(),
                voice_pairs@.len() == i,
                forall|a: int|
                    0 <= a < i ==> {
                        let fnotes = spec_chord_notes(*from);
                        let tnotes = spec_chord_notes(*to);
                        &&& (#[trigger] voice_pairs@[a]).0 == fnotes[a]
                        &&& exists|j: int|
                            {
                                &&& 0 <= j < tnotes.len()
                                &&& voice_pairs@[a].1 == tnotes[j]
                                &&& (forall|k: int|
                                    0 <= k < tnotes.len() ==> distance_spec(
                                        fnotes[a],
                                        #[trigger] tnotes[k],
                                    ) >= distance_spec(fnotes[a], tnotes[j]))
                                &&& (forall|k: int|
                                    0 <= k < j ==> distance_spec(fnotes[a], #[trigger] tnotes[k])
                                        > distance_spec(fnotes[a], tnotes[j]))
                            }
                        &&& voice_pairs@[a].2 as int == movement_spec(fnotes[a], voice_pairs@[a].1)
                    },
            decreases from_notes@.len() - i,
        {
            let from_note = from_notes[i];
            let mut best_to = to_notes[0];
            let mut min_distance: i32 = distance_exec(from_note, best_to);
            let ghost mut jbest: int = 0;
            let mut k: usize = 1;
            while k < to_notes.len()
                invariant
                    to_notes@ == spec_chord_notes(*to),
                    to_notes@.len() >= 1,
                    1 <= k <= to_notes@.len(),
                    0 <= jbest < k,
                    best_to == to_notes@[jbest],
                    min_distance as int == distance_spec(from_note, best_to),
                    forall|m: int|
                        0 <= m < k ==> distance_spec(from_note, #[trigger] to_notes@[m])
                            >= min_distance as int,
                    forall|m: int|
                        0 <= m < jbest ==> distance_spec(from_note, #[trigger] to_notes@[m])
                            > min_distance as int,
                decreases to_notes@.len() - k,
            {
                let to_note = to_notes[k];
                let distance = distance_exec(from_note, to_note);
                if distance < min_distance {
                    min_distance = distance;
                    best_to = to_note;
                    proof {
                        jbest = k as int;
                    }
                }
                k += 1;
            }
            let m: i32 = (best_to.semitone() as i32 - from_note.semitone() as i32 + 12) % 12;
            let movement: i8 = if m > 6 {
                (m - 12) as i8
            } else {
                m as i8
            };
            voice_pairs.push((from_note, best_to, movement));
            i += 1;
        }
        voice_pairs
    }
}

/// The pitch classes of a chord, as [`Chord::notes`] computes them.
pub open spec fn spec_chord_notes(c: Chord) -> Seq<Note> {
    Seq::new(
        c.quality.intervals_spec().len(),
        |i: int|
            Note::spec_from_pitch_class(
                (c.root.pitch_class() + c.quality.intervals_spec()[i] as int) % 12,
            ),
    )
}

/// The undirected semitone distance between two pitch classes.
fn distance_exec(a: Note, b: Note) -> (r: i32)
    ensures
        r as int == distance_spec(a, b),
        0 <= r <= 6,
{
    let sa = a.semitone() as i32;
    let sb = b.semitone() as i32;
    let d: i32 = (if sb >= sa {
        sb - sa
    } else {
        sa - sb
    }) % 12;
    if d <= 12 - d {
        d
    } else {
        12 - d
    }
}

/// Matching chords to the scales played over them.
pub struct ChordScaleMatcher;

/// The scale shape first recommended over a chord quality.
pub open spec fn primary_scale_type_spec(q: ChordQuality) -> ScaleType {
    match q {
        ChordQuality::Major7 => ScaleType::Major,
        ChordQuality::Major7sharp11 => ScaleType::Lydian,
        ChordQuality::Minor7 => ScaleType::Dorian,
        ChordQuality::Dominant7 => ScaleType::Mixolydian,
        ChordQuality::Dominant9 => ScaleType::Mixolydian,
        ChordQuality::Dominant7b9 => ScaleType::DiminishedHalfWhole,
        ChordQuality::Dominant7sharp9 => ScaleType::Altered,
        ChordQuality::Dominant7b13 => ScaleType::Altered,
        ChordQuality::Altered => ScaleType::Altered,
        ChordQuality::HalfDiminished => ScaleType::Locrian,
        ChordQuality::Diminished7 => ScaleType::DiminishedWholeHalf,
        ChordQuality::MinorMajor7 => ScaleType::MelodicMinor,
        ChordQuality::MinorMajor9 => ScaleType::MelodicMinor,
        ChordQuality::Major6 => ScaleType::Major,
        ChordQuality::Minor6 => ScaleType::Dorian,
        ChordQuality::Dominant7sus4 => ScaleType::Mixolydian,
        ChordQuality::Major9 => ScaleType::Major,
        ChordQuality::Minor9 => ScaleType::Dorian,
    }
}

/// Every scale shape recommended over a chord quality, primary first.
pub open spec fn alternate_scale_types_spec(q: ChordQuality) -> Seq<ScaleType> {
    seq![primary_scale_type_spec(q)] + (match q {
        ChordQuality::Major7 => seq![ScaleType::Lydian],
        ChordQuality::Minor7 => seq![ScaleType::Aeolian, ScaleType::Phrygian],
        ChordQuality::Dominant7 | ChordQuality::Dominant9 => seq![
            ScaleType::LydianDominant,
            ScaleType::Altered,
            ScaleType::WholeTone,
            ScaleType::DiminishedHalfWhole,
        ],
        _ => Seq::empty(),
    })
}

/// The avoid notes of a chord against a scale: the unaltered fourth over
/// a major seventh chord, and the minor sixth over a minor seventh chord
/// when the scale contains it.
pub open spec fn avoid_notes_spec(c: Chord, s: Scale) -> Seq<Note> {
    match c.quality {
        ChordQuality::Major7 => {
            let fourth = Note::spec_from_pitch_class((c.root.pitch_class() + 5) % 12);
            if !c.spec_has_pitch_class(fourth.pitch_class()) {
                seq![fourth]
            } else {
                Seq::empty()
            }
        },
        ChordQuality::Minor7 => {
            let sixth = Note::spec_from_pitch_class((c.root.pitch_class() + 8) % 12);
            if s.spec_contains(sixth) && !c.spec_has_pitch_class(sixth.pitch_class()) {
                seq![sixth]
            } else {
                Seq::empty()
            }
        },
        _ => Seq::empty(),
    }
}

/// The harmonic function label of a chord root relative to a key.
pub open spec fn chord_function_spec(interval: int) -> Seq<char> {
    if interval == 0 {
        "Tonic (I)"@
    } else if interval == 2 {
        "Supertonic (ii)"@
    } else if interval == 4 {
        "Mediant (iii)"@
    } else if interval == 5 {
        "Subdominant (IV)"@
    } else if interval == 7 {
        "Dominant (V)"@
    } else if interval == 9 {
        "Submediant (vi)"@
    } else if interval == 11 {
        "Leading Tone (vii)"@
    } else {
        "Unknown"@
    }
}

impl ChordScaleMatcher {
    /// The scale first recommended over the chord, on the chord's root.
    pub fn get_primary_scale(chord: &Chord) -> (r: Scale)
        ensures
            r.root == chord.root,
            r.scale_type == primary_scale_type_spec(chord.quality),
    {
        let scale_type = match chord.quality {
            ChordQuality::Major7 => ScaleType::Major,
            ChordQuality::Major7sharp11 => ScaleType::Lydian,
            ChordQuality::Minor7 => ScaleType::Dorian,
            ChordQuality::Dominant7 => ScaleType::Mixolydian,
            ChordQuality::Dominant9 => ScaleType::Mixolydian,
            ChordQuality::Dominant7b9 => ScaleType::DiminishedHalfWhole,
            ChordQuality::Dominant7sharp9 => ScaleType::Altered,
            ChordQuality::Dominant7b13 => ScaleType::Altered,
            ChordQuality::Altered => ScaleType::Altered,
            ChordQuality::HalfDiminished => ScaleType::Locrian,
            ChordQuality::Diminished7 => ScaleType::DiminishedWholeHalf,
            ChordQuality::MinorMajor7 => ScaleType::MelodicMinor,
            ChordQuality::MinorMajor9 => ScaleType::MelodicMinor,
            ChordQuality::Major6 => ScaleType::Major,
            ChordQuality::Minor6 => ScaleType::Dorian,
            ChordQuality::Dominant7sus4 => ScaleType::Mixolydian,
            ChordQuality::Major9 => ScaleType::Major,
            ChordQuality::Minor9 => ScaleType::Dorian,
        };
        Scale::new(chord.root, scale_type)
    }

    /// Every recommended scale over the chord, the primary one first.
    pub fn get_alternate_scales(chord: &Chord) -> (r: Vec<Scale>)
        ensures
            r@.len() == alternate_scale_types_spec(chord.quality).len(),
            forall|i: int|
                0 <= i < r@.len() ==> (#[trigger] r@[i]).root == chord.root && r@[i].scale_type
                    == alternate_scale_types_spec(chord.quality)[i],
    {
        let mut scales: Vec<Scale> = Vec::new();
        scales.push(Self::get_primary_scale(chord));

        match chord.quality {
            ChordQuality::Major7 => {
                scales.push(Scale::new(chord.root, ScaleType::Lydian));
            },
            ChordQuality::Minor7 => {
                scales.push(Scale::new(chord.root, ScaleType::Aeolian));
                scales.push(Scale::new(chord.root, ScaleType::Phrygian));
            },
            ChordQuality::Dominant7 | ChordQuality::Dominant9 => {
                scales.push(Scale::new(chord.root, ScaleType::LydianDominant));
                scales.push(Scale::new(chord.root, ScaleType::Altered));
                scales.push(Scale::new(chord.root, ScaleType::WholeTone));
                scales.push(Scale::new(chord.root, ScaleType::DiminishedHalfWhole));
            },
            _ => {},
        }
        scales
    }

    /// The avoid notes of the chord against the scale.
    pub fn get_avoid_notes(chord: &Chord, scale: &Scale) -> (r: Vec<Note>)
        ensures
            r@ == avoid_notes_spec(*chord, *scale),
    {
        let mut avoid_notes: Vec<Note> = Vec::new();

        match chord.quality {
            ChordQuality::Major7 => {
                let fourth = chord.root.transpose(5);
                if !scale.is_chord_tone(chord, fourth) {
                    avoid_notes.push(fourth);
                }
            },
            ChordQuality::Minor7 => {
                let sixth = chord.root.transpose(8);
                if scale.contains(sixth) && !scale.is_chord_tone(chord, sixth) {
                    avoid_notes.push(sixth);
                }
            },
            _ => {},
        }
        proof {
            assert(avoid_notes@ =~= avoid_notes_spec(*chord, *scale));
        }
        avoid_notes
    }

    /// The harmonic function of the chord within the given key.
    pub fn chord_function(chord: &Chord, key: Note) -> (r: &'static str)
        ensures
            r@ == chord_function_spec((chord.root.pitch_class() - key.pitch_class()) % 12),
    {
        let interval: i8 = ((chord.root.semitone() + 12 - key.semitone()) % 12) as i8;
        proof {
            assert(interval as int == (chord.root.pitch_class() - key.pitch_class()) % 12)
                by (nonlinear_arith)
                requires
                    interval as int == (chord.root.pitch_class() + 12 - key.pitch_class()) % 12,
                    0 <= chord.root.pitch_class() < 12,
                    0 <= key.pitch_class() < 12,
            {
            }
        }
        match interval {
            0 => "Tonic (I)",
            2 => "Supertonic (ii)",
            4 => "Mediant (iii)",
            5 => "Subdominant (IV)",
            7 => "Dominant (V)",
            9 => "Submediant (vi)",
            11 => "Leading Tone (vii)",
            _ => "Unknown",
        }
    }
}

} // verus!
