use mmv::errors::MassMoveError;
use mmv::pattern::insert_match_in_filename;
use mmv::pattern::insert_matches_in_target;

#[test]
fn test_insert_matches_in_target_pattern() {
    let cases: Vec<(&str, Vec<String>, &str, bool)> = vec![
        (
            "file-#1-v1.txt",
            vec!["1".to_string()],
            "file-1-v1.txt",
            true,
        ),
        (
            "file#1.txt",
            vec!["_match1".to_string()],
            "file_match1.txt",
            true,
        ),
        (
            "file#1#2.txt",
            vec!["_match1".to_string(), "_match2".to_string()],
            "file_match1_match2.txt",
            true,
        ),
        (
            "#1",
            vec!["some_some.txt".to_string()],
            "some_some.txt",
            true,
        ),
        ("file_#1.#2.txt", vec!["value1".to_string()], "", false),
    ];
    for case in cases {
        let result = insert_matches_in_target(&case.1, &case.0);
        assert_eq!(
            result.is_ok(),
            case.3,
            "pattern: {}, expected is_ok() = {}, but result is {}",
            case.0,
            case.3,
            result.is_ok(),
        );
        if result.is_ok() {
            assert_eq!(result.unwrap(), case.2)
        }
    }
}

#[test]
fn test_placeholder_zero_fails() {
    let matches = vec![String::from("a")];
    let result = insert_matches_in_target(&matches, "file#0.txt");
    assert!(matches!(
        result,
        Err(MassMoveError::InvalidTargetPath(msg))
            if msg == "position #0 not exist in source path"
    ));
}

#[test]
fn test_placeholder_past_end_fails() {
    let matches = vec![String::from("a")];
    let result = insert_matches_in_target(&matches, "file-#2-v1.txt");
    assert!(matches!(
        result,
        Err(MassMoveError::InvalidTargetPath(msg))
            if msg == "position #2 not exist in source path"
    ));
}

#[test]
fn test_bare_marker_at_end_fails() {
    let matches = vec![String::from("a")];
    let result = insert_matches_in_target(&matches, "file#");
    assert!(matches!(
        result,
        Err(MassMoveError::InvalidTargetPath(msg))
            if msg == "position #0 not exist in source path"
    ));
}

#[test]
fn test_placeholder_leading_zeros() {
    let matches = vec![String::from("a")];
    let result = insert_matches_in_target(&matches, "file#001.txt").unwrap();
    assert_eq!(result, "filea.txt");

    let result = insert_matches_in_target(&matches, "file#02.txt");
    assert!(matches!(
        result,
        Err(MassMoveError::InvalidTargetPath(msg))
            if msg == "position #2 not exist in source path"
    ));

    let result = insert_matches_in_target(&matches, "file#00.txt");
    assert!(matches!(
        result,
        Err(MassMoveError::InvalidTargetPath(msg))
            if msg == "position #0 not exist in source path"
    ));
}

#[test]
fn test_placeholder_value_past_machine_range() {
    let matches = vec![String::from("a")];
    let result = insert_matches_in_target(&matches, "#98765432109876543210987654321");
    assert!(matches!(
        result,
        Err(MassMoveError::InvalidTargetPath(msg))
            if msg == "position #98765432109876543210987654321 not exist in source path"
    ));
}

#[test]
fn test_multi_digit_placeholder() {
    let matches: Vec<String> = (1..=12).map(|i| format!("v{}", i)).collect();
    let result = insert_matches_in_target(&matches, "a#12b#1c").unwrap();
    assert_eq!(result, "av12bv1c");
}

#[test]
fn test_all_in_range_placeholders_succeed_any_order() {
    let matches = vec![String::from("x"), String::from("y"), String::from("z")];
    let result = insert_matches_in_target(&matches, "#3-#1-#2").unwrap();
    assert_eq!(result, "z-x-y");
}

#[test]
fn test_insert_match_in_filename_appends() {
    let matches = vec![String::from("one"), String::from("two")];
    let result = insert_match_in_filename(&matches, String::from("file_"), 2).unwrap();
    assert_eq!(result, "file_two");
}

#[test]
fn test_insert_match_in_filename_invalid_position() {
    let matches = vec![String::from("one")];
    let result = insert_match_in_filename(&matches, String::from("file_"), 0);
    assert!(matches!(
        result,
        Err(MassMoveError::InvalidTargetPath(msg))
            if msg == "position #0 not exist in source path"
    ));
}
