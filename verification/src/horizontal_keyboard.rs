//! The compact keyboard strip's data: range and subject of display.

use vstd::prelude::*;

use crate::chord::Chord;
use crate::scale::Scale;

verus! {

/// What the horizontal keyboard strip displays.
pub struct HorizontalKeyboard<'a> {
    /// The chord under analysis.
    pub chord: &'a Chord,
    /// The scale played over it.
    pub scale: &'a Scale,
    /// The first displayed MIDI note.
    pub start_midi: u8,
    /// How many octaves are shown.
    pub octaves: u8,
}

impl<'a> HorizontalKeyboard<'a> {
    /// Two octaves starting at C3, over the given chord and scale.
    pub fn new(chord: &'a Chord, scale: &'a Scale) -> (r: Self)
        ensures
            r.chord == chord,
            r.scale == scale,
            r.start_midi == 48,
            r.octaves == 2,
    {
        HorizontalKeyboard { chord, scale, start_midi: 48, octaves: 2 }
    }

    /// The same strip over a chosen range.
    pub fn with_range(self, start_midi: u8, octaves: u8) -> (r: Self)
        ensures
            r.chord == self.chord,
            r.scale == self.scale,
            r.start_midi == start_midi,
            r.octaves == octaves,
    {
        HorizontalKeyboard { start_midi, octaves, ..self }
    }
}

/// A keyboard strip over the given chord and scale.
pub fn render_horizontal_keyboard<'a>(chord: &'a Chord, scale: &'a Scale) -> (r: HorizontalKeyboard<
    'a,
>)
    ensures
        r.chord == chord,
        r.scale == scale,
        r.start_midi == 48,
        r.octaves == 2,
{
    HorizontalKeyboard::new(chord, scale)
}

} // verus!
