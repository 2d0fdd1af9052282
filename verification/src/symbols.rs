//! Note naming and glyph helpers for the piano roll display.

use vstd::prelude::*;
use vstd::string::*;

verus! {

/// Whether the MIDI note falls on a black key.
pub open spec fn is_black_key_spec(midi: int) -> bool {
    midi % 12 == 1 || midi % 12 == 3 || midi % 12 == 6 || midi % 12 == 8 || midi % 12 == 10
}

/// Whether the MIDI note falls on a black key.
pub fn is_black_key(midi: u8) -> (r: bool)
    ensures
        r == is_black_key_spec(midi as int),
{
    let pc = midi % 12;
    pc == 1 || pc == 3 || pc == 6 || pc == 8 || pc == 10
}

/// The sharp spelling of a pitch class.
pub open spec fn pitch_class_name_spec(pc: int) -> Seq<char> {
    if pc == 0 {
        "C"@
    } else if pc == 1 {
        "C#"@
    } else if pc == 2 {
        "D"@
    } else if pc == 3 {
        "D#"@
    } else if pc == 4 {
        "E"@
    } else if pc == 5 {
        "F"@
    } else if pc == 6 {
        "F#"@
    } else if pc == 7 {
        "G"@
    } else if pc == 8 {
        "G#"@
    } else if pc == 9 {
        "A"@
    } else if pc == 10 {
        "A#"@
    } else {
        "B"@
    }
}

/// The octave label of a MIDI note, where octave -1 starts at 0.
pub open spec fn octave_label_spec(octave: int) -> Seq<char> {
    if octave == -1 {
        "-1"@
    } else if octave == 0 {
        "0"@
    } else if octave == 1 {
        "1"@
    } else if octave == 2 {
        "2"@
    } else if octave == 3 {
        "3"@
    } else if octave == 4 {
        "4"@
    } else if octave == 5 {
        "5"@
    } else if octave == 6 {
        "6"@
    } else if octave == 7 {
        "7"@
    } else if octave == 8 {
        "8"@
    } else {
        "9"@
    }
}

/// The note name with its octave, such as `C4` or `F#-1`.
pub fn midi_to_name(midi: u8) -> (r: String)
    ensures
        r@ == pitch_class_name_spec(midi as int % 12) + octave_label_spec(midi as int / 12 - 1),
{
    let mut s = String::from_str(midi_to_pitch_class(midi));
    let octave: i32 = midi as i32 / 12 - 1;
    let label: &'static str = match octave {
        -1 => "-1",
        0 => "0",
        1 => "1",
        2 => "2",
        3 => "3",
        4 => "4",
        5 => "5",
        6 => "6",
        7 => "7",
        8 => "8",
        _ => "9",
    };
    s.append(label);
    proof {
        assert(s@ =~= pitch_class_name_spec(midi as int % 12) + octave_label_spec(
            midi as int / 12 - 1,
        ));
    }
    s
}

/// The bare pitch class name, without an octave.
pub fn midi_to_pitch_class(midi: u8) -> (r: &'static str)
    ensures
        r@ == pitch_class_name_spec(midi as int % 12),
{
    match midi % 12 {
        0 => "C",
        1 => "C#",
        2 => "D",
        3 => "D#",
        4 => "E",
        5 => "F",
        6 => "F#",
        7 => "G",
        8 => "G#",
        9 => "A",
        10 => "A#",
        _ => "B",
    }
}

/// The arrow glyph for a voice-leading movement: flat, leaning, or
/// vertical with the distance.
pub fn voice_leading_arrow(semitones: i8) -> (r: &'static str)
    ensures
        semitones == 0 ==> r@ == "\u{2192}"@,
        1 <= semitones <= 2 ==> r@ == "\u{2197}"@,
        -2 <= semitones <= -1 ==> r@ == "\u{2198}"@,
        semitones > 2 ==> r@ == "\u{2191}"@,
        semitones < -2 ==> r@ == "\u{2193}"@,
{
    match semitones {
        0 => "\u{2192}",
        1..=2 => "\u{2197}",
        -2..=-1 => "\u{2198}",
        s if s > 2 => "\u{2191}",
        _ => "\u{2193}",
    }
}

} // verus!
