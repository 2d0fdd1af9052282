use ear_trainer::standards::{StandardDifficulty, StandardsLibrary};

#[test]
fn test_standards_library() {
    let library = StandardsLibrary::new();
    assert!(!library.all().is_empty());
}

#[test]
fn test_get_standard() {
    let library = StandardsLibrary::new();
    let autumn = library.get("Autumn Leaves");
    assert!(autumn.is_some());
    assert_eq!(autumn.unwrap().total_bars, 32);
}

#[test]
fn test_using_brick() {
    let library = StandardsLibrary::new();
    let launcher_standards = library.using_brick("Launcher");
    assert!(!launcher_standards.is_empty());
}

#[test]
fn test_brick_frequency() {
    let library = StandardsLibrary::new();
    let all_things = library.get("All The Things You Are").unwrap();
    let freq = all_things.brick_frequency();
    assert_eq!(freq[0].0, "Launcher");
}

#[test]
fn launcher_count_in_all_the_things() {
    let library = StandardsLibrary::new();
    let all_things = library.get("All The Things You Are").unwrap();
    let freq = all_things.brick_frequency();
    let launcher = freq.iter().find(|(n, _)| *n == "Launcher").unwrap();
    assert_eq!(launcher.1, 7);
}

#[test]
fn unique_bricks_are_sorted_and_distinct() {
    let library = StandardsLibrary::new();
    let autumn = library.get("Autumn Leaves").unwrap();
    let bricks = autumn.unique_bricks();
    assert_eq!(bricks, vec!["Launcher", "Long Approach", "Sad Launcher"]);
}

#[test]
fn using_join_matches_substring() {
    let library = StandardsLibrary::new();
    let with_sidewinder = library.using_join("Sidewinder");
    assert_eq!(with_sidewinder.len(), 1);
    assert_eq!(with_sidewinder[0].name, "Blue Bossa");
}

#[test]
fn difficulty_buckets() {
    let library = StandardsLibrary::new();
    let beginner = library.by_difficulty(StandardDifficulty::Beginner);
    let intermediate = library.by_difficulty(StandardDifficulty::Intermediate);
    let advanced = library.by_difficulty(StandardDifficulty::Advanced);
    assert_eq!(
        beginner.len() + intermediate.len() + advanced.len(),
        library.all().len()
    );
    assert!(beginner.iter().any(|s| s.name == "Rhythm Changes (I Got Rhythm)"));
    assert!(intermediate.iter().any(|s| s.name == "All The Things You Are"));
}
