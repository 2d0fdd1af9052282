//! Ear-trainer core library.
//!
//! The heart of the crate is the wireless MIDI connectivity manager in
//! [`ble_midi`]: a verified model of device discovery, connection
//! establishment, bounded reconnection, and the event stream that carries
//! state changes to the foreground loop.  Around it stand the music-theory
//! modules (chords, scales, joins, standards) and the session bookkeeping
//! that the rest of the application reads.

use vstd::prelude::*;

pub mod backend;
pub mod bass;
pub mod ble_midi;
pub mod bricks;
pub mod chord;
pub mod drums;
pub mod horizontal_keyboard;
pub mod joins;
pub mod lego_mode;
pub mod manager;
pub mod notation;
pub mod piano_roll;
pub mod rhythm;
pub mod standards;
pub mod storage;
pub mod symbols;
pub mod scale;
pub mod theory;
pub mod voicings;
pub mod text;

verus! {

/// The major interaction modes of the trainer.
#[derive(Debug, Clone, Copy, PartialEq, Eq, Structural)]
pub enum AppMode {
    /// Play progressions and watch the analysis.
    Listen,
    /// Practise along with the playback.
    Practice,
    /// Identify what is playing.
    Quiz,
    /// Listen to annotated harmonic bricks.
    LegoListen,
    /// Identify which brick is playing.
    LegoQuiz,
}

} // verus!
