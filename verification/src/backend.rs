//! The playback backend interface the application drives.

use vstd::prelude::*;

verus! {

/// A note to be played: pitch, strike velocity, and duration.
#[derive(Debug, Clone, Copy)]
pub struct AudioEvent {
    pub note: u8,
    pub velocity: u8,
    pub duration_ms: u64,
}

impl AudioEvent {
    /// An event from its parts.
    pub fn new(note: u8, velocity: u8, duration_ms: u64) -> (r: Self)
        ensures
            r.note == note,
            r.velocity == velocity,
            r.duration_ms == duration_ms,
    {
        AudioEvent { note, velocity, duration_ms }
    }
}

/// A playback failure reported by a backend.
#[derive(Debug, Clone)]
pub struct AudioError {
    pub message: String,
}

/// What every playback backend offers the application.  Implementations
/// live with their devices outside this library.
pub trait AudioBackend {
    /// Start sounding a note.
    fn play_note(&mut self, note: u8, velocity: u8) -> Result<(), AudioError>;

    /// Stop sounding a note.
    fn stop_note(&mut self, note: u8) -> Result<(), AudioError>;

    /// Start sounding several notes together.
    fn play_chord(&mut self, notes: &[u8], velocity: u8) -> Result<(), AudioError>;

    /// Silence everything.
    fn stop_all(&mut self) -> Result<(), AudioError>;

    /// The backend's display name.
    fn name(&self) -> &'static str;
}

} // verus!
