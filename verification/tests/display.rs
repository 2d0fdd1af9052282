use ear_trainer::backend::AudioEvent;
use ear_trainer::chord::{Chord, ChordQuality, Note};
use ear_trainer::horizontal_keyboard::render_horizontal_keyboard;
use ear_trainer::manager::ActiveBackend;
use ear_trainer::notation::render_notation;
use ear_trainer::piano_roll::render_piano_roll;
use ear_trainer::scale::{Mode, Scale, ScaleType};
use ear_trainer::symbols::{is_black_key, midi_to_name, midi_to_pitch_class, voice_leading_arrow};
use ear_trainer::AppMode;

#[test]
fn midi_note_names() {
    assert_eq!(midi_to_name(60), "C4");
    assert_eq!(midi_to_name(61), "C#4");
    assert_eq!(midi_to_name(0), "C-1");
    assert_eq!(midi_to_pitch_class(70), "A#");
    assert!(is_black_key(61));
    assert!(!is_black_key(60));
}

#[test]
fn voice_leading_arrows() {
    assert_eq!(voice_leading_arrow(0), "\u{2192}");
    assert_eq!(voice_leading_arrow(2), "\u{2197}");
    assert_eq!(voice_leading_arrow(-1), "\u{2198}");
    assert_eq!(voice_leading_arrow(5), "\u{2191}");
    assert_eq!(voice_leading_arrow(-4), "\u{2193}");
}

#[test]
fn widget_constructors_carry_their_subjects() {
    let chord = Chord::new(Note::C, ChordQuality::Major7);
    let scale = Scale::new(Note::C, ScaleType::Major);

    let roll = render_piano_roll(&chord, &scale);
    assert!(roll.show_extensions);

    let next = Chord::new(Note::F, ChordQuality::Major7);
    let panel = render_notation(&chord, &scale).with_next_chord(&next);
    assert!(panel.show_voice_leading);
    assert!(panel.next_chord.is_some());

    let keys = render_horizontal_keyboard(&chord, &scale).with_range(60, 1);
    assert_eq!(keys.start_midi, 60);
    assert_eq!(keys.octaves, 1);
}

#[test]
fn modes_map_to_scale_types() {
    assert_eq!(Mode::Ionian.to_scale_type(), ScaleType::Major);
    assert_eq!(Mode::Locrian.to_scale_type(), ScaleType::Locrian);
    assert_eq!(ScaleType::Major.name(), "Major (Ionian)");
}

#[test]
fn audio_event_and_backend_labels() {
    let event = AudioEvent::new(60, 100, 250);
    assert_eq!(event.note, 60);
    assert_eq!(event.velocity, 100);
    assert_eq!(event.duration_ms, 250);

    assert_eq!(ActiveBackend::BleMidi.display_name(), "BLE MIDI");
    assert_eq!(ActiveBackend::Midi.next(), ActiveBackend::Synth);
    assert_eq!(
        ActiveBackend::Midi.next().next().next(),
        ActiveBackend::Midi
    );
}

#[test]
fn app_modes_are_distinct() {
    let modes = [
        AppMode::Listen,
        AppMode::Practice,
        AppMode::Quiz,
        AppMode::LegoListen,
        AppMode::LegoQuiz,
    ];
    for (i, a) in modes.iter().enumerate() {
        for (j, b) in modes.iter().enumerate() {
            assert_eq!(i == j, a == b);
        }
    }
}
