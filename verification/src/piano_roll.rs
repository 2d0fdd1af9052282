//! The piano roll view's data: which chord and scale it displays.

use vstd::prelude::*;

use crate::chord::Chord;
use crate::scale::Scale;

verus! {

/// What the piano roll displays.
pub struct PianoRoll<'a> {
    /// The chord under analysis.
    pub chord: &'a Chord,
    /// The scale played over it.
    pub scale: &'a Scale,
    /// Whether available extensions are marked.
    pub show_extensions: bool,
}

impl<'a> PianoRoll<'a> {
    /// A view of the given chord and scale, with extensions shown.
    pub fn new(chord: &'a Chord, scale: &'a Scale) -> (r: Self)
        ensures
            r.chord == chord,
            r.scale == scale,
            r.show_extensions,
    {
        PianoRoll { chord, scale, show_extensions: true }
    }
}

/// A piano roll over the given chord and scale.
pub fn render_piano_roll<'a>(chord: &'a Chord, scale: &'a Scale) -> (r: PianoRoll<'a>)
    ensures
        r.chord == chord,
        r.scale == scale,
        r.show_extensions,
{
    PianoRoll::new(chord, scale)
}

} // verus!
