//! Named key transitions and circle-of-fourths navigation.

use vstd::prelude::*;
use vstd::string::*;

use crate::chord::Note;
use crate::text::str_eq;

verus! {

broadcast use vstd::seq::Seq::add_empty_right;

/// A named key transition pattern.
#[derive(Debug, Clone)]
pub struct Join {
    /// The transition's conventional name.
    pub name: String,
    /// The key change in semitones; positive moves up.
    pub key_shift: i8,
    /// What the harmonic movement does.
    pub description: String,
    /// Songs that use this transition.
    pub examples: Vec<String>,
}

/// The label of an undirected interval size in semitones.
pub open spec fn interval_name_spec(size: int) -> Seq<char> {
    if size == 0 {
        "Unison"@
    } else if size == 1 {
        "Half step"@
    } else if size == 2 {
        "Whole step"@
    } else if size == 3 {
        "Minor 3rd"@
    } else if size == 4 {
        "Major 3rd"@
    } else if size == 5 {
        "Perfect 4th"@
    } else if size == 6 {
        "Tritone"@
    } else if size == 7 {
        "Perfect 5th"@
    } else if size == 8 {
        "Minor 6th"@
    } else if size == 9 {
        "Major 6th"@
    } else if size == 10 {
        "Minor 7th"@
    } else if size == 11 {
        "Major 7th"@
    } else {
        "Octave+"@
    }
}

impl Join {
    /// A join from its name, shift and description, with no examples.
    pub fn new(name: &str, key_shift: i8, description: &str) -> (j: Join)
        ensures
            j.name@ == name@,
            j.key_shift == key_shift,
            j.description@ == description@,
            j.examples@.len() == 0,
    {
        Join {
            name: String::from_str(name),
            key_shift,
            description: String::from_str(description),
            examples: Vec::new(),
        }
    }

    /// The same join with example songs attached.
    pub fn with_examples(self, examples: Vec<&str>) -> (j: Join)
        ensures
            j.name == self.name,
            j.key_shift == self.key_shift,
            j.description == self.description,
            j.examples@.len() == examples@.len(),
            forall|i: int| 0 <= i < examples@.len() ==> (#[trigger] j.examples@[i])@ == examples@[i]@,
    {
        let mut owned: Vec<String> = Vec::new();
        let mut i: usize = 0;
        while i < examples.len()
            invariant
                i <= examples@.len(),
                owned@.len() == i,
                forall|k: int| 0 <= k < i ==> (#[trigger] owned@[k])@ == examples@[k]@,
            decreases examples@.len() - i,
        {
            owned.push(String::from_str(examples[i]));
            i += 1;
        }
        Join { examples: owned, ..self }
    }

    /// The key this join modulates to from the given key.
    pub fn apply(&self, from_key: Note) -> (r: Note)
        ensures
            r == Note::spec_from_pitch_class(
                (from_key.pitch_class() + self.key_shift as int) % 12,
            ),
    {
        from_key.transpose(self.key_shift)
    }

    /// The name of the interval this join moves by.
    pub fn interval_name(&self) -> (r: &'static str)
        ensures
            r@ == interval_name_spec(
                if self.key_shift >= 0 {
                    self.key_shift as int
                } else {
                    -(self.key_shift as int)
                },
            ),
    {
        let size: i32 = if self.key_shift >= 0 {
            self.key_shift as i32
        } else {
            -(self.key_shift as i32)
        };
        match size {
            0 => "Unison",
            1 => "Half step",
            2 => "Whole step",
            3 => "Minor 3rd",
            4 => "Major 3rd",
            5 => "Perfect 4th",
            6 => "Tritone",
            7 => "Perfect 5th",
            8 => "Minor 6th",
            9 => "Major 6th",
            10 => "Minor 7th",
            11 => "Major 7th",
            _ => "Octave+",
        }
    }

    /// Whether this join moves up, down, or stays in place.
    pub fn direction(&self) -> (r: &'static str)
        ensures
            self.key_shift > 0 ==> r@ == "up"@,
            self.key_shift < 0 ==> r@ == "down"@,
            self.key_shift == 0 ==> r@ == "same"@,
    {
        if self.key_shift > 0 {
            "up"
        } else if self.key_shift < 0 {
            "down"
        } else {
            "same"
        }
    }
}

/// Circle of fourths navigation.
pub struct CircleOfFourths;

/// The keys in clockwise order around the circle of fourths.
pub open spec fn clockwise_spec() -> Seq<Note> {
    seq![
        Note::C,
        Note::F,
        Note::Bb,
        Note::Eb,
        Note::Ab,
        Note::Db,
        Note::Gb,
        Note::B,
        Note::E,
        Note::A,
        Note::D,
        Note::G,
    ]
}

/// The position of a key on the circle, clockwise from C.
pub open spec fn circle_position_spec(key: Note) -> int {
    match key {
        Note::C => 0,
        Note::F => 1,
        Note::Bb => 2,
        Note::Eb => 3,
        Note::Ab => 4,
        Note::Db => 5,
        Note::Gb => 6,
        Note::B => 7,
        Note::E => 8,
        Note::A => 9,
        Note::D => 10,
        Note::G => 11,
    }
}

impl CircleOfFourths {
    /// The keys in clockwise order around the circle of fourths.
    pub fn clockwise() -> (r: Vec<Note>)
        ensures
            r@ == clockwise_spec(),
    {
        let v = vec![
            Note::C,
            Note::F,
            Note::Bb,
            Note::Eb,
            Note::Ab,
            Note::Db,
            Note::Gb,
            Note::B,
            Note::E,
            Note::A,
            Note::D,
            Note::G,
        ];
        proof {
            assert(v@ =~= clockwise_spec());
        }
        v
    }

    /// The next key moving up in fourths.
    pub fn next_up(from: Note) -> (r: Note)
        ensures
            r == Note::spec_from_pitch_class((from.pitch_class() + 5) % 12),
    {
        from.transpose(5)
    }

    /// The next key moving down in fourths.
    pub fn next_down(from: Note) -> (r: Note)
        ensures
            r == Note::spec_from_pitch_class((from.pitch_class() - 5) % 12),
    {
        from.transpose(-5)
    }

    /// The position of a key on the circle, clockwise from C.
    pub fn position(key: Note) -> (r: usize)
        ensures
            r as int == circle_position_spec(key),
    {
        match key {
            Note::C => 0,
            Note::F => 1,
            Note::Bb => 2,
            Note::Eb => 3,
            Note::Ab => 4,
            Note::Db => 5,
            Note::Gb => 6,
            Note::B => 7,
            Note::E => 8,
            Note::A => 9,
            Note::D => 10,
            Note::G => 11,
        }
    }

    /// The key at a position on the circle, wrapping each full turn.
    pub fn at_position(pos: usize) -> (r: Note)
        ensures
            r == clockwise_spec()[pos as int % 12],
    {
        let keys = Self::clockwise();
        keys[pos % 12]
    }

    /// The clockwise step count from one key to another, normalised into
    /// `-5..=6`.
    pub fn steps_between(from: Note, to: Note) -> (r: i8)
        ensures
            r as int == ({
                let diff = (circle_position_spec(to) - circle_position_spec(from)) % 12;
                if diff <= 6 {
                    diff
                } else {
                    diff - 12
                }
            }),
    {
        let from_pos = Self::position(from) as i32;
        let to_pos = Self::position(to) as i32;
        let diff: i32 = ((to_pos - from_pos) % 12 + 12) % 12;
        proof {
            assert(diff as int == (circle_position_spec(to) - circle_position_spec(from)) % 12)
                by (nonlinear_arith)
                requires
                    diff as int == ((circle_position_spec(to) - circle_position_spec(from)) % 12
                        + 12) % 12,
                    0 <= circle_position_spec(to) < 12,
                    0 <= circle_position_spec(from) < 12,
            {
            }
        }
        if diff <= 6 {
            diff as i8
        } else {
            (diff - 12) as i8
        }
    }

    /// The keys within `range` steps of a centre key, counter-clockwise
    /// to clockwise.
    pub fn nearby_keys(center: Note, range: usize) -> (r: Vec<Note>)
        requires
            range <= usize::MAX / 2,
        ensures
            r@.len() == 2 * range + 1,
            forall|i: int|
                0 <= i < r@.len() ==> #[trigger] r@[i] == clockwise_spec()[(
                circle_position_spec(center) + i - range) % 12],
    {
        let pos = Self::position(center);
        let mut keys: Vec<Note> = Vec::new();
        let mut i: usize = 0;
        let last: usize = range * 2;
        while i <= last
            invariant
                last == 2 * range,
                last <= usize::MAX - 1,
                pos as int == circle_position_spec(center),
                i <= 2 * range + 1,
                keys@.len() == i,
                forall|k: int|
                    0 <= k < i ==> #[trigger] keys@[k] == clockwise_spec()[(
                    circle_position_spec(center) + k - range) % 12],
            decreases 2 * range + 1 - i,
        {
            let im: usize = i % 12;
            let rm: usize = range % 12;
            let new_pos: usize = (pos + im + 12 - rm) % 12;
            proof {
                let cp = circle_position_spec(center);
                vstd::arithmetic::div_mod::lemma_fundamental_div_mod(i as int, 12);
                vstd::arithmetic::div_mod::lemma_fundamental_div_mod(range as int, 12);
                assert(cp + i - range == 12 * ((i as int) / 12 - (range as int) / 12 - 1) + (cp
                    + im + 12 - rm));
                vstd::arithmetic::div_mod::lemma_mod_multiples_vanish(
                    (i as int) / 12 - (range as int) / 12 - 1,
                    cp + im as int + 12 - rm as int,
                    12,
                );
                assert(new_pos as int == (cp + i - range) % 12);
            }
            keys.push(Self::at_position(new_pos));
            proof {
                assert(new_pos < 12);
                assert(new_pos as int % 12 == new_pos as int);
            }
            i += 1;
        }
        keys
    }
}

/// The joins with a given shift, in library order.
pub open spec fn shift_filter(s: Seq<Join>, shift: i8) -> Seq<Join> {
    s.filter(|j: Join| j.key_shift == shift)
}

/// Whether a join carries the given name and shift.
pub open spec fn join_entry(j: Join, name: Seq<char>, shift: i8) -> bool {
    j.name@ == name && j.key_shift == shift
}

/// The library of named key transitions.
#[derive(Debug)]
pub struct JoinLibrary {
    joins: Vec<Join>,
}

impl JoinLibrary {
    /// The joins, in library order.
    pub closed spec fn view(self) -> Seq<Join> {
        self.joins@
    }

    /// Build the library of the eight named transitions.
    pub fn new() -> (r: JoinLibrary)
        ensures
            r@.len() == 8,
            join_entry(r@[0], "Sidewinder"@, 1i8),
            join_entry(r@[1], "High Jump"@, 5i8),
            join_entry(r@[2], "Cherokee"@, -3i8),
            join_entry(r@[3], "Giant Steps"@, 4i8),
            join_entry(r@[4], "Stairway"@, 2i8),
            join_entry(r@[5], "Ladybird"@, -5i8),
            join_entry(r@[6], "Moment's Notice"@, 3i8),
            join_entry(r@[7], "Back Door"@, -2i8),
    {
        let mut joins: Vec<Join> = Vec::new();
        joins.push(
            Join::new("Sidewinder", 1, "Half-step up modulation (C to Db)").with_examples(
                vec!["Lady Bird", "Joy Spring"],
            ),
        );
        joins.push(
            Join::new(
                "High Jump",
                5,
                "Fourth up modulation - one step clockwise on circle (C to F)",
            ).with_examples(vec!["Autumn Leaves", "All The Things You Are"]),
        );
        joins.push(
            Join::new("Cherokee", -3, "Minor third down modulation (C to A)").with_examples(
                vec!["Cherokee", "Body And Soul"],
            ),
        );
        joins.push(
            Join::new(
                "Giant Steps",
                4,
                "Major third up modulation - Coltrane cycle (C to E)",
            ).with_examples(vec!["Giant Steps", "Countdown"]),
        );
        joins.push(
            Join::new("Stairway", 2, "Whole step up modulation (C to D)").with_examples(
                vec!["How High The Moon", "Ornithology"],
            ),
        );
        joins.push(
            Join::new(
                "Ladybird",
                -5,
                "Fourth down modulation - one step counter-clockwise (C to G)",
            ).with_examples(vec!["Lady Bird", "Blue Bossa"]),
        );
        joins.push(
            Join::new("Moment's Notice", 3, "Minor third up modulation (C to Eb)").with_examples(
                vec!["Moment's Notice", "Night And Day"],
            ),
        );
        joins.push(
            Join::new("Back Door", -2, "Whole step down modulation (C to Bb)").with_examples(
                Vec::new(),
            ),
        );
        JoinLibrary { joins }
    }

    /// Look a join up by name; the first with that name, if any.
    pub fn get(&self, name: &str) -> (r: Option<&Join>)
        ensures
            match r {
                Some(j) => exists|i: int|
                    0 <= i < self@.len() && *j == self@[i] && (#[trigger] self@[i]).name@ == name@,
                None => forall|i: int| 0 <= i < self@.len() ==> (#[trigger] self@[i]).name@ != name@,
            },
    {
        let mut i: usize = 0;
        while i < self.joins.len()
            invariant
                self@ == self.joins@,
                i <= self@.len(),
                forall|k: int| 0 <= k < i ==> (#[trigger] self@[k]).name@ != name@,
            decreases self@.len() - i,
        {
            if str_eq(self.joins[i].name.as_str(), name) {
                return Some(&self.joins[i]);
            }
            i += 1;
        }
        None
    }

    /// All joins, in library order.
    pub fn all(&self) -> (r: Vec<&Join>)
        ensures
            r@.len() == self@.len(),
            forall|i: int| 0 <= i < r@.len() ==> *(#[trigger] r@[i]) == self@[i],
    {
        let mut r: Vec<&Join> = Vec::new();
        let mut i: usize = 0;
        while i < self.joins.len()
            invariant
                self@ == self.joins@,
                i <= self@.len(),
                r@.len() == i,
                forall|k: int| 0 <= k < i ==> *(#[trigger] r@[k]) == self@[k],
            decreases self@.len() - i,
        {
            r.push(&self.joins[i]);
            i += 1;
        }
        r
    }

    /// All join names, in library order.
    pub fn names(&self) -> (r: Vec<&str>)
        ensures
            r@.len() == self@.len(),
            forall|i: int| 0 <= i < r@.len() ==> (#[trigger] r@[i])@ == self@[i].name@,
    {
        let mut r: Vec<&str> = Vec::new();
        let mut i: usize = 0;
        while i < self.joins.len()
            invariant
                self@ == self.joins@,
                i <= self@.len(),
                r@.len() == i,
                forall|k: int| 0 <= k < i ==> (#[trigger] r@[k])@ == self@[k].name@,
            decreases self@.len() - i,
        {
            r.push(self.joins[i].name.as_str());
            i += 1;
        }
        r
    }

    /// The joins that shift by the given number of semitones.
    pub fn by_shift(&self, shift: i8) -> (r: Vec<&Join>)
        ensures
            r@.len() == shift_filter(self@, shift).len(),
            forall|i: int| 0 <= i < r@.len() ==> *(#[trigger] r@[i]) == shift_filter(self@, shift)[i],
    {
        let mut r: Vec<&Join> = Vec::new();
        let mut i: usize = 0;
        proof {
            assert(self@.subrange(0, 0) =~= Seq::<Join>::empty());
            assert(Seq::<Join>::empty().filter(|j: Join| j.key_shift == shift)
                =~= Seq::<Join>::empty());
        }
        while i < self.joins.len()
            invariant
                self@ == self.joins@,
                i <= self@.len(),
                r@.len() == self@.subrange(0, i as int).filter(
                    |j: Join| j.key_shift == shift,
                ).len(),
                forall|k: int|
                    0 <= k < r@.len() ==> *(#[trigger] r@[k]) == self@.subrange(0, i as int).filter(
                        |j: Join| j.key_shift == shift,
                    )[k],
            decreases self@.len() - i,
        {
            proof {
                let pre = self@.subrange(0, i as int);
                assert(self@.subrange(0, i + 1) =~= pre.push(self@[i as int]));
                pre.lemma_filter_push(self@[i as int], |j: Join| j.key_shift == shift);
            }
            if self.joins[i].key_shift == shift {
                r.push(&self.joins[i]);
            }
            i += 1;
        }
        proof {
            assert(self@.subrange(0, self@.len() as int) =~= self@);
        }
        r
    }

    /// The first join that modulates from one key to the other, judged by
    /// the normalised shift between them.
    pub fn find_join(&self, from: Note, to: Note) -> (r: Option<&Join>)
        ensures
            ({
                let shift = (to.pitch_class() - from.pitch_class()) % 12;
                let normalized = if shift > 6 {
                    shift - 12
                } else {
                    shift
                };
                match r {
                    Some(j) => exists|i: int|
                        0 <= i < self@.len() && *j == self@[i] && (#[trigger] self@[i]).key_shift
                            as int == normalized,
                    None => forall|i: int|
                        0 <= i < self@.len() ==> (#[trigger] self@[i]).key_shift as int
                            != normalized,
                }
            }),
    {
        let shift: i32 = (to.semitone() as i32 + 12 - from.semitone() as i32) % 12;
        proof {
            assert(shift as int == (to.pitch_class() - from.pitch_class()) % 12)
                by (nonlinear_arith)
                requires
                    shift as int == (to.pitch_class() + 12 - from.pitch_class()) % 12,
                    0 <= to.pitch_class() < 12,
                    0 <= from.pitch_class() < 12,
            {
            }
        }
        let normalized: i8 = if shift > 6 {
            (shift - 12) as i8
        } else {
            shift as i8
        };
        let mut i: usize = 0;
        while i < self.joins.len()
            invariant
                self@ == self.joins@,
                i <= self@.len(),
                normalized as int == ({
                    let sh = (to.pitch_class() - from.pitch_class()) % 12;
                    if sh > 6 {
                        sh - 12
                    } else {
                        sh
                    }
                }),
                forall|k: int| 0 <= k < i ==> (#[trigger] self@[k]).key_shift != normalized,
            decreases self@.len() - i,
        {
            if self.joins[i].key_shift == normalized {
                return Some(&self.joins[i]);
            }
            i += 1;
        }
        None
    }
}

} // verus!
