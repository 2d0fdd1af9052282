use ear_trainer::bricks::QuizDifficulty;
use ear_trainer::lego_mode::QuizScore;
use ear_trainer::storage::{BrickStats, UserProgress};

#[test]
fn test_mastery() {
    let mut stats = BrickStats::default();

    for _ in 0..8 {
        stats.record(true);
    }
    assert!(!stats.is_mastered());

    stats.record(true);
    stats.record(true);
    assert!(stats.is_mastered());
}

#[test]
fn test_difficulty_suggestion() {
    let mut progress = UserProgress::default();
    progress.total_questions = 50;
    progress.total_correct = 45;

    assert_eq!(progress.suggested_difficulty(), QuizDifficulty::Beginner);

    progress.mastered_bricks = vec![
        "A".to_string(),
        "B".to_string(),
        "C".to_string(),
        "D".to_string(),
        "E".to_string(),
    ];
    assert_eq!(progress.suggested_difficulty(), QuizDifficulty::Advanced);
}

#[test]
fn test_quiz_scoring() {
    let mut score = QuizScore::default();

    score.record(true);
    assert_eq!(score.correct, 1);
    assert_eq!(score.streak, 1);

    score.record(true);
    assert_eq!(score.correct, 2);
    assert_eq!(score.streak, 2);
    assert_eq!(score.best_streak, 2);

    score.record(false);
    assert_eq!(score.correct, 2);
    assert_eq!(score.total, 3);
    assert_eq!(score.streak, 0);
    assert_eq!(score.best_streak, 2);
}

#[test]
fn brick_results_accumulate() {
    let mut progress = UserProgress::default();
    for _ in 0..10 {
        progress.record_brick_result("Launcher", true);
    }
    let entry = progress
        .brick_stats
        .iter()
        .find(|(n, _)| n.as_str() == "Launcher")
        .unwrap();
    assert_eq!(entry.1.times_seen, 10);
    assert_eq!(entry.1.times_correct, 10);
    assert!(entry.1.last_seen.is_some());
    assert!(progress.mastered_bricks.contains(&"Launcher".to_string()));
}

#[test]
fn weak_and_strong_bricks_are_partitioned() {
    let mut progress = UserProgress::default();
    for _ in 0..6 {
        progress.record_brick_result("Solid", true);
    }
    for i in 0..6 {
        progress.record_brick_result("Shaky", i == 0);
    }
    let strong = progress.strong_bricks();
    assert_eq!(strong.len(), 1);
    assert_eq!(strong[0].0, "Solid");
    let weak = progress.weak_bricks();
    assert_eq!(weak.len(), 1);
    assert_eq!(weak[0].0, "Shaky");
}

#[test]
fn session_totals_accumulate() {
    let mut progress = UserProgress::default();
    progress.record_session(8, 10, 5);
    assert_eq!(progress.total_sessions, 1);
    assert_eq!(progress.total_questions, 10);
    assert_eq!(progress.total_correct, 8);
    assert_eq!(progress.best_streak_ever, 5);
    assert_eq!(progress.daily_streak, 1);
    assert!(progress.last_practice_date.is_some());

    progress.record_session(5, 10, 3);
    assert_eq!(progress.total_sessions, 2);
    assert_eq!(progress.total_questions, 20);
    assert_eq!(progress.best_streak_ever, 5);
    assert_eq!(progress.daily_streak, 1);
}

#[test]
fn quiz_score_reset() {
    let mut score = QuizScore::default();
    score.record(true);
    score.record(true);
    score.reset();
    assert_eq!(score.correct, 0);
    assert_eq!(score.total, 0);
    assert_eq!(score.streak, 0);
    assert_eq!(score.best_streak, 0);
}
