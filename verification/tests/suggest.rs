use snakedown::indexing::raw::suggest_known_alternative;

fn known_keys() -> Vec<String> {
    vec![
        "test_pkg.bar.greet",
        "test_pkg.bar.Greeter",
        "test_pkg.bar.Greeter.greet",
        "numpy.fft",
    ]
    .into_iter()
    .map(|s| s.to_string())
    .collect()
}

#[test]
fn suggest_alternatives_garbage() {
    let known_keys: Vec<String> = known_keys();
    let unknown_ref = "asdfasdfasdfasdfasdf";

    let suggested_ref = suggest_known_alternative(unknown_ref, known_keys, 5, 5);

    assert_eq!(suggested_ref, None);
}

#[test]
fn suggest_alternatives_external() {
    let known_keys: Vec<String> = known_keys();
    let unknown_ref = "nimpy.fft";

    let suggested_ref = suggest_known_alternative(unknown_ref, known_keys, 5, 5);

    assert_eq!(suggested_ref, Some(("numpy.fft".to_string(), 1)));
}

#[test]
fn suggest_alternatives_internal() {
    let known_keys: Vec<String> = known_keys();
    let unknown_ref = "test_pkg.bar.great";

    let suggested_ref = suggest_known_alternative(unknown_ref, known_keys, 5, 5);

    assert_eq!(suggested_ref, Some(("test_pkg.bar.greet".to_string(), 1)));
}

#[test]
fn suggestion_is_the_first_of_least_distance() {
    let keys = vec!["abd".to_string(), "abe".to_string(), "abc".to_string()];
    assert_eq!(
        suggest_known_alternative("abc", keys, 5, 5),
        Some(("abc".to_string(), 0))
    );
    let keys = vec!["abd".to_string(), "abe".to_string()];
    assert_eq!(
        suggest_known_alternative("abc", keys, 5, 5),
        Some(("abd".to_string(), 1))
    );
}

#[test]
fn suggestion_limits_are_strict() {
    // "kitten" to "sitting" takes three edits and differs in length by one.
    let keys = vec!["sitting".to_string()];
    assert_eq!(suggest_known_alternative("kitten", keys.clone(), 2, 4), Some(("sitting".to_string(), 3)));
    assert_eq!(suggest_known_alternative("kitten", keys.clone(), 1, 4), None);
    assert_eq!(suggest_known_alternative("kitten", keys, 2, 3), None);
}

#[test]
fn suggestion_counts_characters() {
    let keys = vec!["äbc".to_string()];
    assert_eq!(suggest_known_alternative("abc", keys, 1, 2), Some(("äbc".to_string(), 1)));
}
