use ear_trainer::bass::BassStyle;
use ear_trainer::bricks::ScaleDegree;
use ear_trainer::chord::{Chord, ChordQuality, Note};
use ear_trainer::drums::DrumStyle;
use ear_trainer::joins::{CircleOfFourths, JoinLibrary};
use ear_trainer::rhythm::RhythmStyle;
use ear_trainer::scale::{Scale, ScaleType};
use ear_trainer::theory::{ChordScaleMatcher, VoiceLeading};
use ear_trainer::voicings::VoicingType;

#[test]
fn test_chord_notes() {
    let cmaj7 = Chord::new(Note::C, ChordQuality::Major7);
    let notes = cmaj7.notes();
    assert_eq!(notes, vec![Note::C, Note::E, Note::G, Note::B]);
}

#[test]
fn test_guide_tones() {
    let cmaj7 = Chord::new(Note::C, ChordQuality::Major7);
    let guide_tones = cmaj7.guide_tones();
    assert_eq!(guide_tones, vec![Note::E, Note::B]);
}

#[test]
fn test_scale_notes() {
    let c_major = Scale::new(Note::C, ScaleType::Major);
    let notes = c_major.notes();
    assert_eq!(
        notes,
        vec![Note::C, Note::D, Note::E, Note::F, Note::G, Note::A, Note::B]
    );
}

#[test]
fn test_scale_contains() {
    let c_major = Scale::new(Note::C, ScaleType::Major);
    assert!(c_major.contains(Note::C));
    assert!(c_major.contains(Note::E));
    assert!(!c_major.contains(Note::Eb));
}

#[test]
fn test_join_apply() {
    let library = JoinLibrary::new();

    let sidewinder = library.get("Sidewinder").unwrap();
    assert_eq!(sidewinder.apply(Note::C), Note::Db);
    assert_eq!(sidewinder.apply(Note::G), Note::Ab);

    let high_jump = library.get("High Jump").unwrap();
    assert_eq!(high_jump.apply(Note::C), Note::F);
    assert_eq!(high_jump.apply(Note::Bb), Note::Eb);

    let cherokee = library.get("Cherokee").unwrap();
    assert_eq!(cherokee.apply(Note::C), Note::A);
}

#[test]
fn test_circle_of_fourths() {
    assert_eq!(CircleOfFourths::next_up(Note::C), Note::F);
    assert_eq!(CircleOfFourths::next_up(Note::F), Note::Bb);
    assert_eq!(CircleOfFourths::next_up(Note::G), Note::C);

    assert_eq!(CircleOfFourths::next_down(Note::C), Note::G);
    assert_eq!(CircleOfFourths::next_down(Note::F), Note::C);
}

#[test]
fn test_find_join() {
    let library = JoinLibrary::new();

    let join = library.find_join(Note::C, Note::Db);
    assert!(join.is_some());
    assert_eq!(join.unwrap().name, "Sidewinder");

    let join = library.find_join(Note::C, Note::F);
    assert!(join.is_some());
    assert_eq!(join.unwrap().name, "High Jump");
}

#[test]
fn test_steps_between() {
    assert_eq!(CircleOfFourths::steps_between(Note::C, Note::F), 1);
    assert_eq!(CircleOfFourths::steps_between(Note::C, Note::G), -1);
    assert_eq!(CircleOfFourths::steps_between(Note::C, Note::Bb), 2);
}

#[test]
fn test_scale_degree_transpose() {
    assert_eq!(ScaleDegree::I.to_note(Note::C), Note::C);
    assert_eq!(ScaleDegree::II.to_note(Note::C), Note::D);
    assert_eq!(ScaleDegree::V.to_note(Note::C), Note::G);
    assert_eq!(ScaleDegree::bII.to_note(Note::C), Note::Db);

    assert_eq!(ScaleDegree::II.to_note(Note::F), Note::G);
    assert_eq!(ScaleDegree::V.to_note(Note::Bb), Note::F);
}

#[test]
fn test_chord_scale_matcher() {
    let cmaj7 = Chord::new(Note::C, ChordQuality::Major7);
    let scale = ChordScaleMatcher::get_primary_scale(&cmaj7);
    assert_eq!(scale.scale_type, ScaleType::Major);
    assert_eq!(scale.root, Note::C);
}

#[test]
fn test_guide_tone_movement() {
    let dm7 = Chord::new(Note::D, ChordQuality::Minor7);
    let g7 = Chord::new(Note::G, ChordQuality::Dominant7);
    let movements = VoiceLeading::analyze(&dm7, &g7);
    assert!(!movements.is_empty());
}

#[test]
fn test_shell_voicing() {
    let cmaj7 = Chord::new(Note::C, ChordQuality::Major7);
    let voiced = VoicingType::Shell.voice_chord(&cmaj7, 2, 4, (36, 84));

    assert_eq!(voiced.voicing.len(), 2);
    assert!(voiced.voicing.contains(&64));
    assert!(voiced.voicing.contains(&71));
}

#[test]
fn test_rootless_a() {
    let dm7 = Chord::new(Note::D, ChordQuality::Minor7);
    let voiced = VoicingType::RootlessA.voice_chord(&dm7, 2, 4, (36, 84));

    let all = voiced.all_notes();
    assert!(!all.contains(&50));
}

#[test]
fn test_voicing_cycle() {
    let v = VoicingType::Full;
    assert_eq!(v.next(), VoicingType::Shell);
    assert_eq!(v.next().next(), VoicingType::RootlessA);
    assert_eq!(v.next().next().next().next().next(), VoicingType::Full);
}

#[test]
fn test_voiced_chord_playable() {
    let cmaj7 = Chord::new(Note::C, ChordQuality::Major7);
    let voiced = VoicingType::Full.voice_chord(&cmaj7, 2, 4, (36, 84));
    assert!(voiced.is_playable());
}

#[test]
fn bass_test_style_cycle() {
    let mut style = BassStyle::Off;
    let start = style;

    for _ in 0..6 {
        style = style.next();
    }

    assert_eq!(style, start);
}

#[test]
fn drums_test_style_cycle() {
    let mut style = DrumStyle::Off;
    let start = style;

    for _ in 0..7 {
        style = style.next();
    }

    assert_eq!(style, start);
}

#[test]
fn rhythm_test_style_cycle() {
    let mut style = RhythmStyle::Whole;
    let start = style;

    for _ in 0..6 {
        style = style.next();
    }

    assert_eq!(style, start);
}

#[test]
fn chord_names_and_symbols() {
    let c = Chord::new(Note::C, ChordQuality::Major7);
    assert_eq!(c.name(), "Cmaj7");
    let slash = Chord::with_bass(Note::D, ChordQuality::Minor7, Note::G);
    assert_eq!(slash.name(), "Dm7/G");
    assert_eq!(Note::Eb.sharp_name(), "D#");
    assert_eq!(ChordQuality::HalfDiminished.symbol(), "m7b5");
}

#[test]
fn chord_tone_classification() {
    let c7 = Chord::new(Note::C, ChordQuality::Dominant7);
    assert_eq!(c7.chord_tone(Note::C), Some(ear_trainer::chord::ChordTone::Root));
    assert_eq!(c7.chord_tone(Note::E), Some(ear_trainer::chord::ChordTone::Third));
    assert_eq!(c7.chord_tone(Note::G), Some(ear_trainer::chord::ChordTone::Fifth));
    assert_eq!(c7.chord_tone(Note::Bb), Some(ear_trainer::chord::ChordTone::Seventh));
    assert_eq!(c7.chord_tone(Note::Db), None);
}

#[test]
fn notes_in_range_is_sorted_and_bounded() {
    let c = Chord::new(Note::C, ChordQuality::Major7);
    let notes = c.notes_in_range(48, 84);
    assert!(!notes.is_empty());
    for w in notes.windows(2) {
        assert!(w[0] < w[1]);
    }
    for &n in &notes {
        assert!((48..=84).contains(&n));
        assert!(matches!(n % 12, 0 | 4 | 7 | 11));
    }
}

#[test]
fn scale_degree_lookup() {
    let c_major = Scale::new(Note::C, ScaleType::Major);
    assert_eq!(c_major.degree(Note::C), Some(1));
    assert_eq!(c_major.degree(Note::G), Some(5));
    assert_eq!(c_major.degree(Note::Eb), None);
}

#[test]
fn avoid_notes_of_major_seventh() {
    let cmaj7 = Chord::new(Note::C, ChordQuality::Major7);
    let scale = Scale::new(Note::C, ScaleType::Major);
    let avoid = ChordScaleMatcher::get_avoid_notes(&cmaj7, &scale);
    assert_eq!(avoid, vec![Note::F]);
}

#[test]
fn chord_function_labels() {
    let g7 = Chord::new(Note::G, ChordQuality::Dominant7);
    assert_eq!(ChordScaleMatcher::chord_function(&g7, Note::C), "Dominant (V)");
    let dm7 = Chord::new(Note::D, ChordQuality::Minor7);
    assert_eq!(ChordScaleMatcher::chord_function(&dm7, Note::C), "Supertonic (ii)");
}

#[test]
fn join_descriptions() {
    let library = JoinLibrary::new();
    let sidewinder = library.get("Sidewinder").unwrap();
    assert_eq!(sidewinder.interval_name(), "Half step");
    assert_eq!(sidewinder.direction(), "up");
    let back_door = library.get("Back Door").unwrap();
    assert_eq!(back_door.direction(), "down");
    assert_eq!(library.by_shift(1).len(), 1);
    assert_eq!(library.names().len(), 8);
    assert_eq!(library.all().len(), 8);
}
