//! Jazz piano voicings: ways of laying a chord out over the keyboard.

use vstd::prelude::*;
use vstd::seq_lib::lemma_sorted_unique;
use vstd::relations::{sorted_by, total_ordering};

use crate::chord::{contains_i8, Chord, Note};

verus! {

broadcast use
    vstd::seq_lib::group_to_multiset_ensures,
    vstd::seq::Seq::add_empty_left,
    vstd::seq::Seq::add_empty_right,
;

/// The ordering by which MIDI notes are arranged, low to high.
pub open spec fn u8_leq_fn() -> spec_fn(u8, u8) -> bool {
    |a: u8, b: u8| a <= b
}

/// A sequence of MIDI notes arranged low to high.
pub open spec fn sort_u8_spec(s: Seq<u8>) -> Seq<u8> {
    s.sort_by(u8_leq_fn())
}

/// The MIDI note of a pitch class in an octave (octave -1 starts at 0).
pub open spec fn midi_of(pc: int, octave: int) -> int {
    (octave + 1) * 12 + pc
}

/// Arrange MIDI notes low to high.
fn sort_u8(v: Vec<u8>) -> (r: Vec<u8>)
    ensures
        r@ == sort_u8_spec(v@),
{
    let ghost input = v@;
    let mut r = v;
    let mut i: usize = 1;
    while i < r.len()
        invariant
            r@.len() == input.len(),
            r@.to_multiset() == input.to_multiset(),
            1 <= i || r@.len() == 0,
            i <= r@.len() || r@.len() == 0,
            forall|a: int, b: int| 0 <= a < b < i ==> r@[a] <= r@[b],
        decreases r@.len() - i,
    {
        let mut j: usize = i;
        while j > 0 && r[j - 1] > r[j]
            invariant
                0 <= j <= i < r@.len(),
                r@.len() == input.len(),
                r@.to_multiset() == input.to_multiset(),
                forall|a: int, b: int| 0 <= a < b <= i && b != j ==> r@[a] <= r@[b],
                forall|a: int| j < a <= i ==> r@[j as int] <= r@[a],
            decreases j,
        {
            let ghost before = r@;
            let lo = r[j - 1];
            let hi = r[j];
            r.set(j - 1, hi);
            r.set(j, lo);
            proof {
                assert(r@ =~= before.update(j - 1, before[j as int]).update(j as int, before[j - 1]));
                assert(r@.to_multiset() == before.to_multiset()) by {
                    assert(before.update(j - 1, before[j as int]).update(j as int, before[j - 1])
                        .to_multiset() =~= before.to_multiset());
                }
            }
            j -= 1;
        }
        i += 1;
    }
    proof {
        assert(sorted_by(r@, u8_leq_fn()));
        assert(total_ordering(u8_leq_fn()));
        input.lemma_sort_by_ensures(u8_leq_fn());
        assert(r@.to_multiset() =~= sort_u8_spec(input).to_multiset());
        lemma_sorted_unique(r@, sort_u8_spec(input), u8_leq_fn());
        assert(r@ =~= sort_u8_spec(input));
    }
    r
}

/// The elements kept by removing consecutive duplicates from `s`, from
/// position `i` on.
pub open spec fn dedup_from(s: Seq<u8>, i: int) -> Seq<u8>
    decreases s.len() - i,
{
    if i < 0 || i >= s.len() {
        Seq::empty()
    } else if i == 0 || s[i] != s[i - 1] {
        seq![s[i]] + dedup_from(s, i + 1)
    } else {
        dedup_from(s, i + 1)
    }
}

/// Remove consecutive duplicates.
fn dedup_u8(v: &Vec<u8>) -> (r: Vec<u8>)
    ensures
        r@ == dedup_from(v@, 0),
{
    let mut r: Vec<u8> = Vec::new();
    let mut i: usize = 0;
    while i < v.len()
        invariant
            i <= v@.len(),
            dedup_from(v@, 0) =~= r@ + dedup_from(v@, i as int),
        decreases v@.len() - i,
    {
        let keep = i == 0 || v[i - 1] != v[i];
        let ghost prev = r@;
        if keep {
            r.push(v[i]);
        }
        proof {
            if keep {
                assert(dedup_from(v@, i as int) == seq![v@[i as int]] + dedup_from(v@, i + 1));
                assert(r@ =~= prev.push(v@[i as int]));
                assert(dedup_from(v@, 0) =~= r@ + dedup_from(v@, i + 1));
            } else {
                assert(dedup_from(v@, i as int) == dedup_from(v@, i + 1));
            }
        }
        i += 1;
    }
    proof {
        assert(dedup_from(v@, v@.len() as int) =~= Seq::<u8>::empty());
        assert(r@ =~= dedup_from(v@, 0));
    }
    r
}

/// The first interval that could be a third: equal to 3 or 4.
pub open spec fn spec_find_third(s: Seq<i8>, i: int) -> Option<i8>
    decreases s.len() - i,
{
    if i < 0 || i >= s.len() {
        None
    } else if s[i] == 3 || s[i] == 4 {
        Some(s[i])
    } else {
        spec_find_third(s, i + 1)
    }
}

/// The first interval that could be a seventh in a shell voicing: 10, 11,
/// or the sixth-chord 9.
pub open spec fn spec_find_seventh_shell(s: Seq<i8>, i: int) -> Option<i8>
    decreases s.len() - i,
{
    if i < 0 || i >= s.len() {
        None
    } else if s[i] == 10 || s[i] == 11 || s[i] == 9 {
        Some(s[i])
    } else {
        spec_find_seventh_shell(s, i + 1)
    }
}

/// The first true seventh: 10 or 11.
pub open spec fn spec_find_seventh(s: Seq<i8>, i: int) -> Option<i8>
    decreases s.len() - i,
{
    if i < 0 || i >= s.len() {
        None
    } else if s[i] == 10 || s[i] == 11 {
        Some(s[i])
    } else {
        spec_find_seventh(s, i + 1)
    }
}

/// The first ninth-family interval: 13 through 15.
pub open spec fn spec_find_ninth(s: Seq<i8>, i: int) -> Option<i8>
    decreases s.len() - i,
{
    if i < 0 || i >= s.len() {
        None
    } else if 13 <= s[i] && s[i] <= 15 {
        Some(s[i])
    } else {
        spec_find_ninth(s, i + 1)
    }
}

/// How a chord is laid out over the keyboard.
#[derive(Debug, Clone, Copy, PartialEq, Eq, Structural)]
pub enum VoicingType {
    /// All chord tones in close position.
    Full,
    /// Third and seventh only: the guide tones.
    Shell,
    /// 3-5-7-9 without the root.
    RootlessA,
    /// 7-9-3-5 without the root, inverted.
    RootlessB,
    /// Close position with the second voice from the top dropped an
    /// octave.
    Drop2,
}

impl Default for VoicingType {
    /// The close-position voicing is the default.
    fn default() -> (r: Self)
        ensures
            r == VoicingType::Full,
    {
        VoicingType::Full
    }
}

impl VoicingType {
    /// View of [`VoicingType::name`].
    pub open spec fn name_spec(self) -> Seq<char> {
        match self {
            VoicingType::Full => "Full"@,
            VoicingType::Shell => "Shell"@,
            VoicingType::RootlessA => "Rootless A"@,
            VoicingType::RootlessB => "Rootless B"@,
            VoicingType::Drop2 => "Drop 2"@,
        }
    }

    /// The display name of the voicing.
    pub fn name(&self) -> (r: &'static str)
        ensures
            r@ == self.name_spec(),
    {
        match self {
            VoicingType::Full => "Full",
            VoicingType::Shell => "Shell",
            VoicingType::RootlessA => "Rootless A",
            VoicingType::RootlessB => "Rootless B",
            VoicingType::Drop2 => "Drop 2",
        }
    }

    /// A one-line description of the voicing.
    pub fn description(&self) -> (r: &'static str)
        ensures
            self == VoicingType::Full ==> r@ == "All chord tones in close position"@,
            self == VoicingType::Shell ==> r@ == "3rd and 7th only (guide tones)"@,
            self == VoicingType::RootlessA ==> r@ == "3-5-7-9 (Bill Evans style, no root)"@,
            self == VoicingType::RootlessB ==> r@ == "7-9-3-5 (inverted rootless)"@,
            self == VoicingType::Drop2 ==> r@ == "Second voice from top dropped an octave"@,
    {
        match self {
            VoicingType::Full => "All chord tones in close position",
            VoicingType::Shell => "3rd and 7th only (guide tones)",
            VoicingType::RootlessA => "3-5-7-9 (Bill Evans style, no root)",
            VoicingType::RootlessB => "7-9-3-5 (inverted rootless)",
            VoicingType::Drop2 => "Second voice from top dropped an octave",
        }
    }

    /// The next voicing in the cycle.
    pub fn next(self) -> (r: Self)
        ensures
            r == match self {
                VoicingType::Full => VoicingType::Shell,
                VoicingType::Shell => VoicingType::RootlessA,
                VoicingType::RootlessA => VoicingType::RootlessB,
                VoicingType::RootlessB => VoicingType::Drop2,
                VoicingType::Drop2 => VoicingType::Full,
            },
    {
        match self {
            VoicingType::Full => VoicingType::Shell,
            VoicingType::Shell => VoicingType::RootlessA,
            VoicingType::RootlessA => VoicingType::RootlessB,
            VoicingType::RootlessB => VoicingType::Drop2,
            VoicingType::Drop2 => VoicingType::Full,
        }
    }

    /// Lay the chord out: the bass note in its own octave and the voicing
    /// notes clamped into the playable range.
    pub fn voice_chord(&self, chord: &Chord, bass_octave: i8, voicing_octave: i8, range: (u8, u8)) -> (r:
        VoicedChord)
        requires
            -1 <= bass_octave <= 19,
            -1 <= voicing_octave <= 18,
        ensures
            r.bass as int == midi_of(
                (match chord.bass {
                    Some(b) => b,
                    None => chord.root,
                }).pitch_class(),
                bass_octave as int,
            ),
            r.voicing@ == spec_voicing(*self, *chord, voicing_octave as int).filter(
                in_range_fn(range.0, range.1),
            ),
    {
        let bass_note = match chord.bass {
            Some(b) => b,
            None => chord.root,
        };
        let bass = bass_note.to_midi(bass_octave);

        let voicing_notes = match self {
            VoicingType::Full => self.full_voicing(chord, voicing_octave),
            VoicingType::Shell => self.shell_voicing(chord, voicing_octave),
            VoicingType::RootlessA => self.rootless_a(chord, voicing_octave),
            VoicingType::RootlessB => self.rootless_b(chord, voicing_octave),
            VoicingType::Drop2 => self.drop2_voicing(chord, voicing_octave),
        };

        let mut filtered: Vec<u8> = Vec::new();
        let mut i: usize = 0;
        proof {
            assert(voicing_notes@.subrange(0, 0) =~= Seq::<u8>::empty());
            assert(Seq::<u8>::empty().filter(in_range_fn(range.0, range.1)) =~= Seq::<u8>::empty());
        }
        while i < voicing_notes.len()
            invariant
                i <= voicing_notes@.len(),
                voicing_notes@ == spec_voicing(*self, *chord, voicing_octave as int),
                filtered@ =~= voicing_notes@.subrange(0, i as int).filter(
                    in_range_fn(range.0, range.1),
                ),
            decreases voicing_notes@.len() - i,
        {
            let n = voicing_notes[i];
            proof {
                let pre = voicing_notes@.subrange(0, i as int);
                assert(voicing_notes@.subrange(0, i + 1) =~= pre.push(n));
                pre.lemma_filter_push(n, in_range_fn(range.0, range.1));
            }
            if n >= range.0 && n <= range.1 {
                filtered.push(n);
            }
            i += 1;
        }
        proof {
            assert(voicing_notes@.subrange(0, voicing_notes@.len() as int) =~= voicing_notes@);
        }
        VoicedChord { bass, voicing: filtered }
    }

    /// The first chord tones in close position, at most four of them.
    fn full_voicing(&self, chord: &Chord, octave: i8) -> (r: Vec<u8>)
        requires
            -1 <= octave <= 19,
        ensures
            r@ == spec_full_unsorted(*chord, octave as int),
    {
        let intervals = chord.quality.intervals();
        let count = if intervals.len() < 4 {
            intervals.len()
        } else {
            4
        };
        let mut r: Vec<u8> = Vec::new();
        let mut i: usize = 0;
        while i < count
            invariant
                intervals@ == chord.quality.intervals_spec(),
                count == vstd::math::min(4, intervals@.len() as int),
                -1 <= octave <= 19,
                i <= count,
                r@.len() == i,
                forall|j: int|
                    0 <= j < i ==> r@[j] as int == midi_of(
                        (chord.root.pitch_class() + intervals@[j] as int) % 12,
                        octave as int,
                    ),
            decreases count - i,
        {
            r.push(chord.root.transpose(intervals[i]).to_midi(octave));
            i += 1;
        }
        proof {
            assert(r@ =~= spec_full_unsorted(*chord, octave as int));
        }
        r
    }

    /// The guide tones: third and seventh, low to high.
    fn shell_voicing(&self, chord: &Chord, octave: i8) -> (r: Vec<u8>)
        requires
            -1 <= octave <= 19,
        ensures
            r@ == sort_u8_spec(spec_shell_unsorted(*chord, octave as int)),
    {
        let intervals = chord.quality.intervals();
        let mut notes: Vec<u8> = Vec::new();

        if let Some(third_int) = find_third(&intervals) {
            notes.push(chord.root.transpose(third_int).to_midi(octave));
        }
        if let Some(seventh_int) = find_seventh_shell(&intervals) {
            notes.push(chord.root.transpose(seventh_int).to_midi(octave));
        }
        proof {
            assert(notes@ =~= spec_shell_unsorted(*chord, octave as int));
        }
        sort_u8(notes)
    }

    /// Type A rootless voicing: 3-5-7-9 from bottom to top.
    #[verifier::rlimit(100)]
    fn rootless_a(&self, chord: &Chord, octave: i8) -> (r: Vec<u8>)
        requires
            -1 <= octave <= 18,
        ensures
            r@ == sort_u8_spec(spec_rootless_a_unsorted(*chord, octave as int)),
    {
        let intervals = chord.quality.intervals();
        let mut notes: Vec<u8> = Vec::new();

        if let Some(third) = find_third(&intervals) {
            notes.push(chord.root.transpose(third).to_midi(octave));
        }
        if contains_i8(&intervals, 7) {
            notes.push(chord.root.transpose(7).to_midi(octave));
        } else if contains_i8(&intervals, 6) {
            notes.push(chord.root.transpose(6).to_midi(octave));
        }
        if let Some(seventh) = find_seventh(&intervals) {
            notes.push(chord.root.transpose(seventh).to_midi(octave));
        } else if contains_i8(&intervals, 9) {
            notes.push(chord.root.transpose(9).to_midi(octave));
        }
        if let Some(ninth) = find_ninth(&intervals) {
            notes.push(chord.root.transpose(ninth - 12).to_midi(octave + 1));
        } else {
            notes.push(chord.root.transpose(2).to_midi(octave + 1));
        }
        proof {
            assert(notes@ =~= spec_rootless_a_unsorted(*chord, octave as int));
        }
        sort_u8(notes)
    }

    /// Type B rootless voicing: 7-9-3-5 from bottom to top.
    #[verifier::rlimit(100)]
    fn rootless_b(&self, chord: &Chord, octave: i8) -> (r: Vec<u8>)
        requires
            -1 <= octave <= 18,
        ensures
            r@ == sort_u8_spec(spec_rootless_b_unsorted(*chord, octave as int)),
    {
        let intervals = chord.quality.intervals();
        let mut notes: Vec<u8> = Vec::new();

        if let Some(seventh) = find_seventh(&intervals) {
            notes.push(chord.root.transpose(seventh).to_midi(octave));
        } else if contains_i8(&intervals, 9) {
            notes.push(chord.root.transpose(9).to_midi(octave));
        }
        if let Some(ninth) = find_ninth(&intervals) {
            notes.push(chord.root.transpose(ninth - 12).to_midi(octave));
        } else {
            notes.push(chord.root.transpose(2).to_midi(octave));
        }
        if let Some(third) = find_third(&intervals) {
            notes.push(chord.root.transpose(third).to_midi(octave + 1));
        }
        if contains_i8(&intervals, 7) {
            notes.push(chord.root.transpose(7).to_midi(octave + 1));
        } else if contains_i8(&intervals, 6) {
            notes.push(chord.root.transpose(6).to_midi(octave + 1));
        }
        proof {
            assert(notes@ =~= spec_rootless_b_unsorted(*chord, octave as int));
        }
        sort_u8(notes)
    }

    /// Drop 2: close position with the second voice from the top dropped
    /// an octave.
    fn drop2_voicing(&self, chord: &Chord, octave: i8) -> (r: Vec<u8>)
        requires
            -1 <= octave <= 19,
        ensures
            r@ == spec_drop2(*chord, octave as int),
    {
        let full = self.full_voicing(chord, octave);
        let mut close = sort_u8(full);

        if close.len() >= 3 {
            let drop_idx = close.len() - 2;
            if close[drop_idx] >= 12 {
                let dropped = close[drop_idx] - 12;
                close.set(drop_idx, dropped);
            }
        }
        sort_u8(close)
    }
}

/// The close-position chord tones before any rearrangement.
pub open spec fn spec_full_unsorted(c: Chord, octave: int) -> Seq<u8> {
    Seq::new(
        vstd::math::min(4, c.quality.intervals_spec().len() as int) as nat,
        |i: int|
            midi_of(
                (c.root.pitch_class() + c.quality.intervals_spec()[i] as int) % 12,
                octave,
            ) as u8,
    )
}

/// The shell voicing before sorting: third then seventh, where present.
pub open spec fn spec_shell_unsorted(c: Chord, octave: int) -> Seq<u8> {
    let ints = c.quality.intervals_spec();
    (match spec_find_third(ints, 0) {
        Some(t) => seq![midi_of((c.root.pitch_class() + t as int) % 12, octave) as u8],
        None => Seq::empty(),
    }) + (match spec_find_seventh_shell(ints, 0) {
        Some(s) => seq![midi_of((c.root.pitch_class() + s as int) % 12, octave) as u8],
        None => Seq::empty(),
    })
}

/// The type A rootless voicing before sorting: 3, 5, 7, then the ninth
/// an octave up.
pub open spec fn spec_rootless_a_unsorted(c: Chord, octave: int) -> Seq<u8> {
    let ints = c.quality.intervals_spec();
    let pc = c.root.pitch_class();
    (match spec_find_third(ints, 0) {
        Some(t) => seq![midi_of((pc + t as int) % 12, octave) as u8],
        None => Seq::empty(),
    }) + (if ints.contains(7i8) {
        seq![midi_of((pc + 7) % 12, octave) as u8]
    } else if ints.contains(6i8) {
        seq![midi_of((pc + 6) % 12, octave) as u8]
    } else {
        Seq::empty()
    }) + (match spec_find_seventh(ints, 0) {
        Some(s) => seq![midi_of((pc + s as int) % 12, octave) as u8],
        None => if ints.contains(9i8) {
            seq![midi_of((pc + 9) % 12, octave) as u8]
        } else {
            Seq::empty()
        },
    }) + (match spec_find_ninth(ints, 0) {
        Some(n) => seq![midi_of((pc + n - 12) % 12, octave + 1) as u8],
        None => seq![midi_of((pc + 2) % 12, octave + 1) as u8],
    })
}

/// The type B rootless voicing before sorting: 7, 9, then 3 and 5 an
/// octave up.
pub open spec fn spec_rootless_b_unsorted(c: Chord, octave: int) -> Seq<u8> {
    let ints = c.quality.intervals_spec();
    let pc = c.root.pitch_class();
    (match spec_find_seventh(ints, 0) {
        Some(s) => seq![midi_of((pc + s as int) % 12, octave) as u8],
        None => if ints.contains(9i8) {
            seq![midi_of((pc + 9) % 12, octave) as u8]
        } else {
            Seq::empty()
        },
    }) + (match spec_find_ninth(ints, 0) {
        Some(n) => seq![midi_of((pc + n - 12) % 12, octave) as u8],
        None => seq![midi_of((pc + 2) % 12, octave) as u8],
    }) + (match spec_find_third(ints, 0) {
        Some(t) => seq![midi_of((pc + t as int) % 12, octave + 1) as u8],
        None => Seq::empty(),
    }) + (if ints.contains(7i8) {
        seq![midi_of((pc + 7) % 12, octave + 1) as u8]
    } else if ints.contains(6i8) {
        seq![midi_of((pc + 6) % 12, octave + 1) as u8]
    } else {
        Seq::empty()
    })
}

/// The drop 2 voicing: sorted close position, with the second voice from
/// the top dropped an octave, sorted again.
pub open spec fn spec_drop2(c: Chord, octave: int) -> Seq<u8> {
    let close = sort_u8_spec(spec_full_unsorted(c, octave));
    let shifted = if close.len() >= 3 {
        let idx = close.len() - 2;
        if close[idx as int] >= 12 {
            close.update(idx as int, (close[idx as int] - 12) as u8)
        } else {
            close
        }
    } else {
        close
    };
    sort_u8_spec(shifted)
}

/// The notes laid out for a given voicing type, before range filtering.
pub open spec fn spec_voicing(t: VoicingType, c: Chord, octave: int) -> Seq<u8> {
    match t {
        VoicingType::Full => spec_full_unsorted(c, octave),
        VoicingType::Shell => sort_u8_spec(spec_shell_unsorted(c, octave)),
        VoicingType::RootlessA => sort_u8_spec(spec_rootless_a_unsorted(c, octave)),
        VoicingType::RootlessB => sort_u8_spec(spec_rootless_b_unsorted(c, octave)),
        VoicingType::Drop2 => spec_drop2(c, octave),
    }
}

/// The predicate keeping notes inside the playable range.
pub open spec fn in_range_fn(lo: u8, hi: u8) -> spec_fn(u8) -> bool {
    |x: u8| lo <= x && x <= hi
}

/// A chord laid out as concrete MIDI notes.
#[derive(Debug, Clone)]
pub struct VoicedChord {
    /// The bass note, played below the voicing.
    pub bass: u8,
    /// The voicing notes for the comping hand.
    pub voicing: Vec<u8>,
}

impl VoicedChord {
    /// All notes together: the bass and the voicing, low to high, without
    /// duplicates.
    pub fn all_notes(&self) -> (r: Vec<u8>)
        ensures
            r@ == dedup_from(sort_u8_spec(seq![self.bass] + self.voicing@), 0),
    {
        let mut notes: Vec<u8> = Vec::new();
        notes.push(self.bass);
        let mut i: usize = 0;
        while i < self.voicing.len()
            invariant
                i <= self.voicing@.len(),
                notes@ =~= seq![self.bass] + self.voicing@.subrange(0, i as int),
            decreases self.voicing@.len() - i,
        {
            notes.push(self.voicing[i]);
            proof {
                assert(notes@ =~= seq![self.bass] + self.voicing@.subrange(0, i + 1));
            }
            i += 1;
        }
        proof {
            assert(notes@ =~= seq![self.bass] + self.voicing@);
        }
        let sorted = sort_u8(notes);
        dedup_u8(&sorted)
    }

    /// Whether the voicing sounds reasonable: at least two distinct
    /// notes, no clash closer than two semitones above the bass, and a
    /// spread of at most two octaves.
    pub fn is_playable(&self) -> (r: bool)
        requires
            self.voicing@.len() > 0 ==> self.voicing@[self.voicing@.len() - 1]
                >= self.voicing@[0],
        ensures
            r == spec_is_playable(*self),
    {
        let all = self.all_notes();
        if all.len() < 2 {
            return false;
        }
        if !gaps_ok(&all, self.bass) {
            return false;
        }
        if self.voicing.len() > 0 {
            let lowest = self.voicing[0];
            let highest = self.voicing[self.voicing.len() - 1];
            if highest - lowest > 24 {
                return false;
            }
        }
        true
    }
}

/// Whether successive notes are ordered and never clash within two
/// semitones above the bass.
pub open spec fn gaps_ok_spec(s: Seq<u8>, bass: u8) -> bool {
    &&& forall|j: int| 1 <= j < s.len() ==> #[trigger] s[j] >= s[j - 1]
    &&& forall|j: int| 1 <= j < s.len() ==> !(#[trigger] s[j] - s[j - 1] < 2 && s[j - 1] > bass)
}

/// Check the gaps between successive notes.
fn gaps_ok(all: &Vec<u8>, bass: u8) -> (r: bool)
    ensures
        r == gaps_ok_spec(all@, bass),
{
    let mut i: usize = 1;
    if all.len() == 0 {
        return true;
    }
    while i < all.len()
        invariant
            1 <= i,
            i <= all@.len() || all@.len() == 0,
            forall|j: int| 1 <= j < i ==> #[trigger] all@[j] >= all@[j - 1],
            forall|j: int|
                1 <= j < i ==> !(#[trigger] all@[j] - all@[j - 1] < 2 && all@[j - 1] > bass),
        decreases all@.len() - i,
    {
        if all[i] < all[i - 1] {
            return false;
        }
        if all[i] - all[i - 1] < 2 && all[i - 1] > bass {
            return false;
        }
        i += 1;
    }
    true
}

/// The playability test over the combined note list.
pub open spec fn spec_is_playable(v: VoicedChord) -> bool {
    let all = dedup_from(sort_u8_spec(seq![v.bass] + v.voicing@), 0);
    &&& all.len() >= 2
    &&& gaps_ok_spec(all, v.bass)
    &&& (v.voicing@.len() > 0 ==> v.voicing@[v.voicing@.len() - 1] - v.voicing@[0] <= 24)
}

/// Find the first interval equal to 3 or 4.
fn find_third(v: &Vec<i8>) -> (r: Option<i8>)
    ensures
        r == spec_find_third(v@, 0),
{
    let mut i: usize = 0;
    while i < v.len()
        invariant
            i <= v@.len(),
            spec_find_third(v@, 0) == spec_find_third(v@, i as int),
        decreases v@.len() - i,
    {
        if v[i] == 3 || v[i] == 4 {
            return Some(v[i]);
        }
        i += 1;
    }
    None
}

/// Find the first interval equal to 10, 11 or 9.
fn find_seventh_shell(v: &Vec<i8>) -> (r: Option<i8>)
    ensures
        r == spec_find_seventh_shell(v@, 0),
{
    let mut i: usize = 0;
    while i < v.len()
        invariant
            i <= v@.len(),
            spec_find_seventh_shell(v@, 0) == spec_find_seventh_shell(v@, i as int),
        decreases v@.len() - i,
    {
        if v[i] == 10 || v[i] == 11 || v[i] == 9 {
            return Some(v[i]);
        }
        i += 1;
    }
    None
}

/// Find the first interval equal to 10 or 11.
fn find_seventh(v: &Vec<i8>) -> (r: Option<i8>)
    ensures
        r == spec_find_seventh(v@, 0),
{
    let mut i: usize = 0;
    while i < v.len()
        invariant
            i <= v@.len(),
            spec_find_seventh(v@, 0) == spec_find_seventh(v@, i as int),
        decreases v@.len() - i,
    {
        if v[i] == 10 || v[i] == 11 {
            return Some(v[i]);
        }
        i += 1;
    }
    None
}

/// Find the first interval between 13 and 15.
fn find_ninth(v: &Vec<i8>) -> (r: Option<i8>)
    ensures
        r == spec_find_ninth(v@, 0),
        r matches Some(n) ==> 13 <= n <= 15,
{
    let mut i: usize = 0;
    while i < v.len()
        invariant
            i <= v@.len(),
            spec_find_ninth(v@, 0) == spec_find_ninth(v@, i as int),
        decreases v@.len() - i,
    {
        if 13 <= v[i] && v[i] <= 15 {
            return Some(v[i]);
        }
        i += 1;
    }
    None
}

} // verus!
