//! Pitch classes, chord qualities, and chords.

use vstd::prelude::*;
use vstd::string::*;

verus! {

broadcast use vstd::seq_lib::lemma_seq_contains_after_push;

/// A pitch class, named by its flat spelling.
#[derive(Debug, Clone, Copy, PartialEq, Eq, Hash, Structural)]
pub enum Note {
    C,
    Db,
    D,
    Eb,
    E,
    F,
    Gb,
    G,
    Ab,
    A,
    Bb,
    B,
}

impl Note {
    /// The semitone offset of this pitch class above C, in `0..12`.
    pub open spec fn pitch_class(self) -> int {
        match self {
            Note::C => 0,
            Note::Db => 1,
            Note::D => 2,
            Note::Eb => 3,
            Note::E => 4,
            Note::F => 5,
            Note::Gb => 6,
            Note::G => 7,
            Note::Ab => 8,
            Note::A => 9,
            Note::Bb => 10,
            Note::B => 11,
        }
    }

    /// Executable counterpart of [`Note::pitch_class`].
    pub fn semitone(self) -> (s: u8)
        ensures
            s as int == self.pitch_class(),
    {
        match self {
            Note::C => 0,
            Note::Db => 1,
            Note::D => 2,
            Note::Eb => 3,
            Note::E => 4,
            Note::F => 5,
            Note::Gb => 6,
            Note::G => 7,
            Note::Ab => 8,
            Note::A => 9,
            Note::Bb => 10,
            Note::B => 11,
        }
    }

    /// The pitch class of a MIDI note number.
    pub fn from_midi(midi: u8) -> (n: Note)
        ensures
            n.pitch_class() == midi as int % 12,
            n == Note::spec_from_pitch_class(midi as int % 12),
    {
        match midi % 12 {
            0 => Note::C,
            1 => Note::Db,
            2 => Note::D,
            3 => Note::Eb,
            4 => Note::E,
            5 => Note::F,
            6 => Note::Gb,
            7 => Note::G,
            8 => Note::Ab,
            9 => Note::A,
            10 => Note::Bb,
            _ => Note::B,
        }
    }

    /// The MIDI note number of this pitch class in the given octave
    /// (octave -1 starts at MIDI 0).
    pub fn to_midi(self, octave: i8) -> (m: u8)
        requires
            -1 <= octave <= 19,
        ensures
            m as int == (octave as int + 1) * 12 + self.pitch_class(),
    {
        let base: i16 = (octave as i16 + 1) * 12;
        (base + self.semitone() as i16) as u8
    }

    /// Move this pitch class by a number of semitones, wrapping around
    /// the octave.
    pub fn transpose(self, semitones: i8) -> (n: Note)
        ensures
            n.pitch_class() == (self.pitch_class() + semitones as int) % 12,
            n == Note::spec_from_pitch_class((self.pitch_class() + semitones as int) % 12),
    {
        let t: i32 = self.semitone() as i32 + semitones as i32 + 132;
        let pc: i32 = t % 12;
        proof {
            assert(t % 12 == (self.pitch_class() + semitones as int) % 12) by (nonlinear_arith)
                requires
                    t == self.pitch_class() + semitones as int + 132,
                    0 <= t,
            {
            }
        }
        Self::from_pitch_class((pc) as u8)
    }

    /// The pitch class with the given semitone offset above C, as a
    /// specification-level function.
    pub open spec fn spec_from_pitch_class(pc: int) -> Note {
        if pc == 0 {
            Note::C
        } else if pc == 1 {
            Note::Db
        } else if pc == 2 {
            Note::D
        } else if pc == 3 {
            Note::Eb
        } else if pc == 4 {
            Note::E
        } else if pc == 5 {
            Note::F
        } else if pc == 6 {
            Note::Gb
        } else if pc == 7 {
            Note::G
        } else if pc == 8 {
            Note::Ab
        } else if pc == 9 {
            Note::A
        } else if pc == 10 {
            Note::Bb
        } else {
            Note::B
        }
    }

    /// The pitch class with the given semitone offset above C.
    pub fn from_pitch_class(pc: u8) -> (n: Note)
        requires
            pc < 12,
        ensures
            n.pitch_class() == pc as int,
            n == Note::spec_from_pitch_class(pc as int),
    {
        match pc {
            0 => Note::C,
            1 => Note::Db,
            2 => Note::D,
            3 => Note::Eb,
            4 => Note::E,
            5 => Note::F,
            6 => Note::Gb,
            7 => Note::G,
            8 => Note::Ab,
            9 => Note::A,
            10 => Note::Bb,
            _ => Note::B,
        }
    }

    /// Flat spelling of the pitch class.
    pub fn name(self) -> (r: &'static str)
        ensures
            r@ == self.name_spec(),
    {
        match self {
            Note::C => "C",
            Note::Db => "Db",
            Note::D => "D",
            Note::Eb => "Eb",
            Note::E => "E",
            Note::F => "F",
            Note::Gb => "Gb",
            Note::G => "G",
            Note::Ab => "Ab",
            Note::A => "A",
            Note::Bb => "Bb",
            Note::B => "B",
        }
    }

    /// View of [`Note::name`].
    pub open spec fn name_spec(self) -> Seq<char> {
        match self {
            Note::C => "C"@,
            Note::Db => "Db"@,
            Note::D => "D"@,
            Note::Eb => "Eb"@,
            Note::E => "E"@,
            Note::F => "F"@,
            Note::Gb => "Gb"@,
            Note::G => "G"@,
            Note::Ab => "Ab"@,
            Note::A => "A"@,
            Note::Bb => "Bb"@,
            Note::B => "B"@,
        }
    }

    /// Sharp spelling of the pitch class.
    pub fn sharp_name(self) -> (r: &'static str)
        ensures
            r@ == self.sharp_name_spec(),
    {
        match self {
            Note::C => "C",
            Note::Db => "C#",
            Note::D => "D",
            Note::Eb => "D#",
            Note::E => "E",
            Note::F => "F",
            Note::Gb => "F#",
            Note::G => "G",
            Note::Ab => "G#",
            Note::A => "A",
            Note::Bb => "A#",
            Note::B => "B",
        }
    }

    /// View of [`Note::sharp_name`].
    pub open spec fn sharp_name_spec(self) -> Seq<char> {
        match self {
            Note::C => "C"@,
            Note::Db => "C#"@,
            Note::D => "D"@,
            Note::Eb => "D#"@,
            Note::E => "E"@,
            Note::F => "F"@,
            Note::Gb => "F#"@,
            Note::G => "G"@,
            Note::Ab => "G#"@,
            Note::A => "A"@,
            Note::Bb => "A#"@,
            Note::B => "B"@,
        }
    }
}

/// Whether a vector of semitone intervals holds the given value.
pub(crate) fn contains_i8(v: &Vec<i8>, x: i8) -> (b: bool)
    ensures
        b == v@.contains(x),
{
    let mut i: usize = 0;
    while i < v.len()
        invariant
            i <= v@.len(),
            forall|j: int| 0 <= j < i ==> v@[j] != x,
        decreases v@.len() - i,
    {
        if v[i] == x {
            return true;
        }
        i += 1;
    }
    false
}

/// The quality of a chord: which intervals it stacks above its root.
#[derive(Debug, Clone, Copy, PartialEq, Eq, Structural)]
pub enum ChordQuality {
    Major7,
    Minor7,
    Dominant7,
    HalfDiminished,
    Diminished7,
    MinorMajor7,
    Major6,
    Minor6,
    Dominant7sus4,
    Major9,
    Minor9,
    Dominant9,
    Dominant7b9,
    Dominant7sharp9,
    Dominant7b13,
    Altered,
    MinorMajor9,
    Major7sharp11,
}

impl ChordQuality {
    /// View of [`ChordQuality::intervals`]: semitone offsets above the root.
    pub open spec fn intervals_spec(self) -> Seq<i8> {
        match self {
            ChordQuality::Major7 => seq![0i8, 4i8, 7i8, 11i8],
            ChordQuality::Minor7 => seq![0i8, 3i8, 7i8, 10i8],
            ChordQuality::Dominant7 => seq![0i8, 4i8, 7i8, 10i8],
            ChordQuality::HalfDiminished => seq![0i8, 3i8, 6i8, 10i8],
            ChordQuality::Diminished7 => seq![0i8, 3i8, 6i8, 9i8],
            ChordQuality::MinorMajor7 => seq![0i8, 3i8, 7i8, 11i8],
            ChordQuality::Major6 => seq![0i8, 4i8, 7i8, 9i8],
            ChordQuality::Minor6 => seq![0i8, 3i8, 7i8, 9i8],
            ChordQuality::Dominant7sus4 => seq![0i8, 5i8, 7i8, 10i8],
            ChordQuality::Major9 => seq![0i8, 4i8, 7i8, 11i8, 14i8],
            ChordQuality::Minor9 => seq![0i8, 3i8, 7i8, 10i8, 14i8],
            ChordQuality::Dominant9 => seq![0i8, 4i8, 7i8, 10i8, 14i8],
            ChordQuality::Dominant7b9 => seq![0i8, 4i8, 7i8, 10i8, 13i8],
            ChordQuality::Dominant7sharp9 => seq![0i8, 4i8, 7i8, 10i8, 15i8],
            ChordQuality::Dominant7b13 => seq![0i8, 4i8, 7i8, 10i8, 20i8],
            ChordQuality::Altered => seq![0i8, 4i8, 7i8, 10i8, 13i8, 15i8, 20i8],
            ChordQuality::MinorMajor9 => seq![0i8, 3i8, 7i8, 11i8, 14i8],
            ChordQuality::Major7sharp11 => seq![0i8, 4i8, 7i8, 11i8, 18i8],
        }
    }

    /// The semitone offsets this quality stacks above the root.
    pub fn intervals(&self) -> (r: Vec<i8>)
        ensures
            r@ == self.intervals_spec(),
    {
        let v: Vec<i8> = match self {
            ChordQuality::Major7 => vec![0i8, 4, 7, 11],
            ChordQuality::Minor7 => vec![0i8, 3, 7, 10],
            ChordQuality::Dominant7 => vec![0i8, 4, 7, 10],
            ChordQuality::HalfDiminished => vec![0i8, 3, 6, 10],
            ChordQuality::Diminished7 => vec![0i8, 3, 6, 9],
            ChordQuality::MinorMajor7 => vec![0i8, 3, 7, 11],
            ChordQuality::Major6 => vec![0i8, 4, 7, 9],
            ChordQuality::Minor6 => vec![0i8, 3, 7, 9],
            ChordQuality::Dominant7sus4 => vec![0i8, 5, 7, 10],
            ChordQuality::Major9 => vec![0i8, 4, 7, 11, 14],
            ChordQuality::Minor9 => vec![0i8, 3, 7, 10, 14],
            ChordQuality::Dominant9 => vec![0i8, 4, 7, 10, 14],
            ChordQuality::Dominant7b9 => vec![0i8, 4, 7, 10, 13],
            ChordQuality::Dominant7sharp9 => vec![0i8, 4, 7, 10, 15],
            ChordQuality::Dominant7b13 => vec![0i8, 4, 7, 10, 20],
            ChordQuality::Altered => vec![0i8, 4, 7, 10, 13, 15, 20],
            ChordQuality::MinorMajor9 => vec![0i8, 3, 7, 11, 14],
            ChordQuality::Major7sharp11 => vec![0i8, 4, 7, 11, 18],
        };
        proof {
            assert(v@ =~= self.intervals_spec());
        }
        v
    }

    /// View of [`ChordQuality::symbol`].
    pub open spec fn symbol_spec(self) -> Seq<char> {
        match self {
            ChordQuality::Major7 => "maj7"@,
            ChordQuality::Minor7 => "m7"@,
            ChordQuality::Dominant7 => "7"@,
            ChordQuality::HalfDiminished => "m7b5"@,
            ChordQuality::Diminished7 => "dim7"@,
            ChordQuality::MinorMajor7 => "m(maj7)"@,
            ChordQuality::Major6 => "6"@,
            ChordQuality::Minor6 => "m6"@,
            ChordQuality::Dominant7sus4 => "7sus4"@,
            ChordQuality::Major9 => "maj9"@,
            ChordQuality::Minor9 => "m9"@,
            ChordQuality::Dominant9 => "9"@,
            ChordQuality::Dominant7b9 => "7b9"@,
            ChordQuality::Dominant7sharp9 => "7#9"@,
            ChordQuality::Dominant7b13 => "7b13"@,
            ChordQuality::Altered => "7alt"@,
            ChordQuality::MinorMajor9 => "m(maj9)"@,
            ChordQuality::Major7sharp11 => "maj7#11"@,
        }
    }

    /// The chord symbol suffix written after the root name.
    pub fn symbol(&self) -> (r: &'static str)
        ensures
            r@ == self.symbol_spec(),
    {
        match self {
            ChordQuality::Major7 => "maj7",
            ChordQuality::Minor7 => "m7",
            ChordQuality::Dominant7 => "7",
            ChordQuality::HalfDiminished => "m7b5",
            ChordQuality::Diminished7 => "dim7",
            ChordQuality::MinorMajor7 => "m(maj7)",
            ChordQuality::Major6 => "6",
            ChordQuality::Minor6 => "m6",
            ChordQuality::Dominant7sus4 => "7sus4",
            ChordQuality::Major9 => "maj9",
            ChordQuality::Minor9 => "m9",
            ChordQuality::Dominant9 => "9",
            ChordQuality::Dominant7b9 => "7b9",
            ChordQuality::Dominant7sharp9 => "7#9",
            ChordQuality::Dominant7b13 => "7b13",
            ChordQuality::Altered => "7alt",
            ChordQuality::MinorMajor9 => "m(maj9)",
            ChordQuality::Major7sharp11 => "maj7#11",
        }
    }
}

/// The role a pitch class plays inside a chord.
#[derive(Debug, Clone, Copy, PartialEq, Eq, Structural)]
pub enum ChordTone {
    Root,
    Third,
    Fifth,
    Seventh,
    Ninth,
    Eleventh,
    Thirteenth,
}

/// A chord: a root pitch class, a quality, and an optional bass note.
#[derive(Debug, Clone)]
pub struct Chord {
    pub root: Note,
    pub quality: ChordQuality,
    pub bass: Option<Note>,
}

impl Chord {
    /// A chord without a separate bass note.
    pub fn new(root: Note, quality: ChordQuality) -> (c: Chord)
        ensures
            c.root == root,
            c.quality == quality,
            c.bass is None,
    {
        Chord { root, quality, bass: None }
    }

    /// A slash chord with an explicit bass note.
    pub fn with_bass(root: Note, quality: ChordQuality, bass: Note) -> (c: Chord)
        ensures
            c.root == root,
            c.quality == quality,
            c.bass == Some(bass),
    {
        Chord { root, quality, bass: Some(bass) }
    }

    /// Whether some interval of the quality lands on the given pitch class.
    pub open spec fn spec_has_pitch_class(self, pc: int) -> bool {
        exists|i: int|
            0 <= i < self.quality.intervals_spec().len() && (self.root.pitch_class()
                + self.quality.intervals_spec()[i] as int) % 12 == pc
    }

    /// The pitch classes of the chord, one per interval of its quality.
    pub fn notes(&self) -> (r: Vec<Note>)
        ensures
            r@.len() == self.quality.intervals_spec().len(),
            forall|i: int|
                0 <= i < r@.len() ==> r@[i].pitch_class() == (self.root.pitch_class()
                    + self.quality.intervals_spec()[i] as int) % 12,
            forall|i: int|
                0 <= i < r@.len() ==> r@[i] == Note::spec_from_pitch_class(
                    (self.root.pitch_class() + self.quality.intervals_spec()[i] as int) % 12,
                ),
    {
        let intervals = self.quality.intervals();
        let mut r: Vec<Note> = Vec::new();
        let mut i: usize = 0;
        while i < intervals.len()
            invariant
                intervals@ == self.quality.intervals_spec(),
                i <= intervals@.len(),
                r@.len() == i,
                forall|j: int|
                    0 <= j < i ==> r@[j].pitch_class() == (self.root.pitch_class()
                        + intervals@[j] as int) % 12,
                forall|j: int|
                    0 <= j < i ==> r@[j] == Note::spec_from_pitch_class(
                        (self.root.pitch_class() + intervals@[j] as int) % 12,
                    ),
            decreases intervals@.len() - i,
        {
            r.push(self.root.transpose(intervals[i]));
            i += 1;
        }
        r
    }

    /// Every MIDI note number in `min_midi..=max_midi` whose pitch class
    /// belongs to the chord, in ascending order.
    pub fn notes_in_range(&self, min_midi: u8, max_midi: u8) -> (r: Vec<u8>)
        ensures
            forall|i: int, j: int| 0 <= i < j < r@.len() ==> r@[i] < r@[j],
            forall|v: u8|
                #[trigger] r@.contains(v) <==> (min_midi <= v <= max_midi && v <= 119
                    && self.spec_has_pitch_class(v as int % 12)),
    {
        let mut r: Vec<u8> = Vec::new();
        if min_midi > max_midi {
            return r;
        }
        let mut v: u16 = min_midi as u16;
        while v <= max_midi as u16
            invariant
                min_midi <= v,
                v <= max_midi as int + 1,
                forall|i: int, j: int| 0 <= i < j < r@.len() ==> r@[i] < r@[j],
                forall|i: int| 0 <= i < r@.len() ==> min_midi <= #[trigger] r@[i] < v,
                forall|x: u8|
                    #[trigger] r@.contains(x) <==> (min_midi <= x < v && x <= 119
                        && self.spec_has_pitch_class(x as int % 12)),
            decreases max_midi as int + 1 - v,
        {
            let m: u8 = v as u8;
            if m <= 119 && self.has_pitch_class_of(m) {
                r.push(m);
            }
            v += 1;
        }
        r
    }

    /// View of [`Chord::chord_tone`].
    pub open spec fn chord_tone_spec(self, note: Note) -> Option<ChordTone> {
        let interval = (note.pitch_class() - self.root.pitch_class()) % 12;
        if self.quality.intervals_spec().contains(interval as i8) {
            if interval == 0 {
                Some(ChordTone::Root)
            } else if interval == 3 || interval == 4 {
                Some(ChordTone::Third)
            } else if interval == 6 || interval == 7 {
                Some(ChordTone::Fifth)
            } else if interval == 9 || interval == 10 || interval == 11 {
                Some(ChordTone::Seventh)
            } else {
                None
            }
        } else {
            None
        }
    }

    /// The role the given pitch class plays in this chord, if any.  Only
    /// the base interval (taken modulo the octave) is recognised, so
    /// extensions such as ninths answer `None`.
    pub fn chord_tone(&self, note: Note) -> (r: Option<ChordTone>)
        ensures
            r == self.chord_tone_spec(note),
    {
        let interval: i8 = ((note.semitone() + 12 - self.root.semitone()) % 12) as i8;
        proof {
            assert(interval as int == (note.pitch_class() - self.root.pitch_class()) % 12)
                by (nonlinear_arith)
                requires
                    interval as int == (note.pitch_class() + 12 - self.root.pitch_class()) % 12,
                    0 <= note.pitch_class() < 12,
                    0 <= self.root.pitch_class() < 12,
            {
            }
        }
        let intervals = self.quality.intervals();
        if contains_i8(&intervals, interval) {
            match interval {
                0 => Some(ChordTone::Root),
                3 | 4 => Some(ChordTone::Third),
                6 | 7 => Some(ChordTone::Fifth),
                9 | 10 | 11 => Some(ChordTone::Seventh),
                13 | 14 | 15 => Some(ChordTone::Ninth),
                17 | 18 => Some(ChordTone::Eleventh),
                20 | 21 => Some(ChordTone::Thirteenth),
                _ => None,
            }
        } else {
            None
        }
    }

    /// View of [`Chord::guide_tones`]: the third if the quality has one,
    /// then the seventh (or the sixth of a sixth chord).
    pub open spec fn guide_tones_spec(self) -> Seq<Note> {
        let ints = self.quality.intervals_spec();
        let third: Seq<Note> = if ints.contains(3i8) {
            seq![Note::spec_from_pitch_class((self.root.pitch_class() + 3) % 12)]
        } else if ints.contains(4i8) {
            seq![Note::spec_from_pitch_class((self.root.pitch_class() + 4) % 12)]
        } else {
            Seq::empty()
        };
        let seventh: Seq<Note> = if ints.contains(10i8) {
            seq![Note::spec_from_pitch_class((self.root.pitch_class() + 10) % 12)]
        } else if ints.contains(11i8) {
            seq![Note::spec_from_pitch_class((self.root.pitch_class() + 11) % 12)]
        } else if ints.contains(9i8) {
            seq![Note::spec_from_pitch_class((self.root.pitch_class() + 9) % 12)]
        } else {
            Seq::empty()
        };
        third + seventh
    }

    /// The guide tones of the chord: its third and its seventh, where
    /// present.
    pub fn guide_tones(&self) -> (r: Vec<Note>)
        ensures
            r@ == self.guide_tones_spec(),
    {
        let intervals = self.quality.intervals();
        let mut tones: Vec<Note> = Vec::new();

        if contains_i8(&intervals, 3) {
            tones.push(self.root.transpose(3));
        } else if contains_i8(&intervals, 4) {
            tones.push(self.root.transpose(4));
        }

        if contains_i8(&intervals, 10) {
            tones.push(self.root.transpose(10));
        } else if contains_i8(&intervals, 11) {
            tones.push(self.root.transpose(11));
        } else if contains_i8(&intervals, 9) {
            tones.push(self.root.transpose(9));
        }

        proof {
            assert(tones@ =~= self.guide_tones_spec());
        }
        tones
    }

    /// View of [`Chord::name`].
    pub open spec fn name_spec(self) -> Seq<char> {
        self.root.name_spec() + self.quality.symbol_spec() + (match self.bass {
            Some(b) => "/"@ + b.name_spec(),
            None => Seq::<char>::empty(),
        })
    }

    /// The chord symbol, such as `Cmaj7` or `Dm7/G`.
    pub fn name(&self) -> (r: String)
        ensures
            r@ == self.name_spec(),
    {
        let mut s = String::from_str(self.root.name());
        s.append(self.quality.symbol());
        if let Some(b) = self.bass {
            s.append("/");
            s.append(b.name());
        }
        proof {
            assert(s@ =~= self.name_spec());
        }
        s
    }

    /// Whether the pitch class of the given MIDI note belongs to the chord.
    fn has_pitch_class_of(&self, midi: u8) -> (b: bool)
        ensures
            b == self.spec_has_pitch_class(midi as int % 12),
    {
        let pc: u8 = midi % 12;
        let intervals = self.quality.intervals();
        let mut i: usize = 0;
        while i < intervals.len()
            invariant
                pc as int == midi as int % 12,
                intervals@ == self.quality.intervals_spec(),
                i <= intervals@.len(),
                forall|j: int|
                    0 <= j < i ==> (self.root.pitch_class() + intervals@[j] as int) % 12
                        != pc as int,
            decreases intervals@.len() - i,
        {
            let t = self.root.transpose(intervals[i]);
            let s = t.semitone();
            if s == pc {
                proof {
                    assert(t.pitch_class() == (self.root.pitch_class()
                        + self.quality.intervals_spec()[i as int] as int) % 12);
                    assert(pc as int == midi as int % 12);
                    assert(t.pitch_class() == midi as int % 12);
                }
                return true;
            }
            i += 1;
        }
        false
    }
}

} // verus!

