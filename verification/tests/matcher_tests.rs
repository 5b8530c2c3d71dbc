use mmv::errors::MassMoveError;
use mmv::file_matcher::FileMatcher;

#[test]
fn test_match_initizalizer() {
    let cases: Vec<(&str, &str, &str, bool)> = vec![
        ("./path/to/file.png", "file.png", "./path/to", true),
        ("./path/to/file.txt", "file.txt", "./path/to", true),
        ("./path/to/file", "file", "./path/to", true),
        ("./path/to/file/*.png", "*.png", "./path/to/file", true),
        ("./file", "file", ".", true),
        ("file", "file", "", true),
        ("/file", "file", "/", true),
        ("/path/to/file", "file", "/path/to", true),
        ("/path/to/file.txt", "file.txt", "/path/to", true),
        ("file", "file", "", true),
        ("file.txt", "file.txt", "", true),
        ("file.png", "file.png", "", true),
        ("", "", "", false),
        ("path/to/", "to", "path", true),
    ];

    for case in cases {
        let matcher = FileMatcher::from_source_path(case.0);
        assert_eq!(
            matcher.is_ok(),
            case.3,
            "wrong initialize for source_path: \"{}\"",
            case.0
        );
        if !case.3 {
            continue;
        }

        let matcher = matcher.unwrap();
        assert_eq!(matcher.source_pattern().as_str(), case.1, "failed for: {}", case.0);
        assert_eq!(matcher.source_directory().as_str(), case.2, "failed for: {}", case.0);
    }
}

#[test]
fn test_file_match_pattern() {
    let cases: Vec<(&str, &str, bool)> = vec![
        ("file.png", "*.png", true),
        ("file.txt", "*.png", false),
        ("file", "file", true),
        ("file", "file.txt", false),
        ("file.txt", "file.txt", true),
        ("file.txt", "file", false),
        ("file.txt", "*.txt", true),
        ("file.txt", "*.png", false),
        ("file.txt", "file.*", true),
        ("backend.tar", "*.*", true),
    ];

    for case in cases {
        let file_matcher = FileMatcher::new(String::from("./"), String::from(case.1));

        assert_eq!(
            file_matcher.is_file_match_pattern(case.0).unwrap(),
            case.2,
            "file: {}, pattern: {}",
            case.0,
            case.1
        );
    }
}

#[test]
fn test_get_file_matches() {
    let cases: Vec<(&str, &str, Vec<String>)> = vec![
        (
            "*file*.png",
            "some_file_1.png",
            vec![String::from("some_"), String::from("_1")],
        ),
        ("*file*.png", "file_2.png", vec![String::from("_2")]),
        ("*file*.png", "file.png", vec![]),
        (
            "*.*",
            "backend.tar",
            vec![String::from("backend"), String::from("tar")],
        ),
    ];

    for case in cases {
        let matcher = FileMatcher::new("./".to_owned(), case.0.to_owned());
        assert_eq!(
            matcher.get_file_matches(case.1).unwrap(),
            case.2,
            "failed get matches for: \"{}\"",
            case.1
        );
    }
}

#[test]
fn test_source_path_dot_segments() {
    let invalid = vec![".", "..", "./", "a/..", "a/b/..", "/.."];
    for path in invalid {
        let matcher = FileMatcher::from_source_path(path);
        assert!(
            matches!(matcher, Err(MassMoveError::InvalidSourcePath(p)) if p == path),
            "expected invalid source path for: \"{}\"",
            path
        );
    }

    let matcher = FileMatcher::from_source_path("a/b/.").unwrap();
    assert_eq!(matcher.source_pattern().as_str(), "b");
    assert_eq!(matcher.source_directory().as_str(), "a");

    let matcher = FileMatcher::from_source_path("foo.txt/.").unwrap();
    assert_eq!(matcher.source_pattern().as_str(), "foo.txt");
    assert_eq!(matcher.source_directory().as_str(), "");

    let matcher = FileMatcher::from_source_path("a/../b").unwrap();
    assert_eq!(matcher.source_pattern().as_str(), "b");
    assert_eq!(matcher.source_directory().as_str(), "a/..");
}

#[test]
fn test_wildcard_excludes_dot() {
    let matcher = FileMatcher::new("./".to_owned(), "*".to_owned());
    assert!(matcher.is_file_match_pattern("file").unwrap());
    assert!(!matcher.is_file_match_pattern("file.txt").unwrap());
}

#[test]
fn test_greedy_capture_split() {
    let matcher = FileMatcher::new("./".to_owned(), "*a*".to_owned());
    let caps = matcher.get_file_matches("aa").unwrap();
    assert_eq!(caps, vec![String::from("a")]);
}

#[test]
fn test_collect_matched_files_selects_in_order() {
    let matcher = FileMatcher::new(".".to_owned(), "file-*.txt".to_owned());
    let entries = vec![
        String::from("file-1.txt"),
        String::from("other.png"),
        String::from("file-2.txt"),
    ];
    let files = matcher.collect_matched_files(&entries).unwrap();
    assert_eq!(
        files,
        vec![String::from("file-1.txt"), String::from("file-2.txt")]
    );
}

#[test]
fn test_collect_matched_files_none_matching() {
    let matcher = FileMatcher::new(".".to_owned(), "file-*.txt".to_owned());
    let entries = vec![String::from("other.png")];
    let result = matcher.collect_matched_files(&entries);
    assert!(
        matches!(result, Err(MassMoveError::NoFilesForPattern(p)) if p == "file-*.txt")
    );
}

#[test]
fn test_get_files_with_matches_joins_paths() {
    let matcher = FileMatcher::new("./path/to".to_owned(), "file-*.txt".to_owned());
    let entries = vec![String::from("file-1.txt")];
    let files = matcher.get_files_with_matches(&entries).unwrap();
    assert_eq!(files.len(), 1);
    assert_eq!(files[0].filename(), "./path/to/file-1.txt");
    assert_eq!(files[0].matches(), &vec![String::from("1")]);
}
