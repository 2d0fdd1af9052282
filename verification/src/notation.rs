//! The chord analysis panel's data.

use vstd::prelude::*;

use crate::chord::Chord;
use crate::scale::Scale;

verus! {

/// What the chord analysis panel displays.
pub struct NotationView<'a> {
    /// The current chord.
    pub chord: &'a Chord,
    /// The scale played over it.
    pub scale: &'a Scale,
    /// The chord that follows, when voice leading is shown.
    pub next_chord: Option<&'a Chord>,
    /// Whether voice-leading arrows are drawn.
    pub show_voice_leading: bool,
}

impl<'a> NotationView<'a> {
    /// A panel for the given chord and scale, without voice leading.
    pub fn new(chord: &'a Chord, scale: &'a Scale) -> (r: Self)
        ensures
            r.chord == chord,
            r.scale == scale,
            r.next_chord is None,
            !r.show_voice_leading,
    {
        NotationView { chord, scale, next_chord: None, show_voice_leading: false }
    }

    /// The same panel with the next chord attached, enabling the
    /// voice-leading display.
    pub fn with_next_chord(self, next: &'a Chord) -> (r: Self)
        ensures
            r.chord == self.chord,
            r.scale == self.scale,
            r.next_chord == Some(next),
            r.show_voice_leading,
    {
        NotationView { next_chord: Some(next), show_voice_leading: true, ..self }
    }
}

/// An analysis panel over the given chord and scale.
pub fn render_notation<'a>(chord: &'a Chord, scale: &'a Scale) -> (r: NotationView<'a>)
    ensures
        r.chord == chord,
        r.scale == scale,
        r.next_chord is None,
        !r.show_voice_leading,
{
    NotationView::new(chord, scale)
}

} // verus!
