use mmv::args::Args;
use mmv::config::Config;
use mmv::errors::MassMoveError;
use mmv::file_move::plan_moves;
use mmv::file_move::FilesMover;
use mmv::file_move::MoveFiles;
use mmv::paths::join_path_str;
use mmv::paths::split_path_str;

#[test]
fn test_plan_single_rename() {
    let entries = vec![String::from("file-1.txt")];
    let plan = plan_moves("test_dir/file-*.txt", "test_dir/file-#1-v1.txt", &entries).unwrap();
    assert_eq!(plan.len(), 1);
    assert_eq!(plan[0].from, "test_dir/file-1.txt");
    assert_eq!(plan[0].to, "test_dir/file-1-v1.txt");
}

#[test]
fn test_plan_no_matching_files() {
    let entries: Vec<String> = vec![];
    let result = plan_moves("test_dir/file-*.txt", "test_dir/file-#1-v1.txt", &entries);
    assert!(
        matches!(result, Err(MassMoveError::NoFilesForPattern(p)) if p == "file-*.txt")
    );
}

#[test]
fn test_plan_second_run_after_rename() {
    let source = "test_dir/data-*.txt";
    let target = "test_dir/done-#1.txt";
    let entries = vec![String::from("data-1.txt")];
    let plan = plan_moves(source, target, &entries).unwrap();
    let renamed: Vec<String> = plan
        .iter()
        .map(|p| split_path_str(&p.to).unwrap().1)
        .collect();
    assert_eq!(renamed, vec![String::from("done-1.txt")]);
    let result = plan_moves(source, target, &renamed);
    assert!(
        matches!(result, Err(MassMoveError::NoFilesForPattern(p)) if p == "data-*.txt")
    );
}

#[test]
fn test_plan_target_position_past_captures() {
    let entries = vec![String::from("file-1.txt")];
    let result = plan_moves("test_dir/file-*.txt", "test_dir/file-#2-v1.txt", &entries);
    assert!(matches!(
        result,
        Err(MassMoveError::InvalidTargetPath(msg))
            if msg == "position #2 not exist in source path"
    ));
}

#[test]
fn test_plan_invalid_source_path() {
    let entries = vec![String::from("file-1.txt")];
    let result = plan_moves("", "file-#1.txt", &entries);
    assert!(matches!(result, Err(MassMoveError::InvalidSourcePath(p)) if p == ""));
}

#[test]
fn test_correct_target_path_decisions() {
    let mover = FilesMover::new(Config::new(), Vec::new());
    assert!(mover.correct_target_path("dir/file.txt", true, false).is_ok());
    assert!(matches!(
        mover.correct_target_path("dir/file.txt", false, false),
        Err(MassMoveError::DirectoryNotFound(d)) if d == "dir"
    ));
    assert!(matches!(
        mover.correct_target_path("dir/file.txt", true, true),
        Err(MassMoveError::FileAlreadyExists(p)) if p == "dir/file.txt"
    ));
    assert!(mover.correct_target_path("file.txt", false, false).is_ok());
    assert!(matches!(
        mover.correct_target_path("///", true, false),
        Err(MassMoveError::InvalidTargetPath(p)) if p == "///"
    ));
}

#[test]
fn test_correct_target_path_force_overwrites() {
    let args = Args::new(true, String::from("a/*"), String::from("a/#1"));
    let config = Config::from_args(&args);
    let mover = FilesMover::new(config, Vec::new());
    assert!(mover.force_move());
    assert!(mover.correct_target_path("dir/file.txt", true, true).is_ok());
}

#[test]
fn test_mover_keeps_plan_order() {
    let plan = vec![
        MoveFiles {
            from: String::from("a"),
            to: String::from("b"),
        },
        MoveFiles {
            from: String::from("c"),
            to: String::from("d"),
        },
    ];
    let mover = FilesMover::new(Config::new(), plan);
    let files = mover.files_to_move();
    assert_eq!(files.len(), 2);
    assert_eq!(files[0].from, "a");
    assert_eq!(files[0].to, "b");
    assert_eq!(files[1].from, "c");
    assert_eq!(files[1].to, "d");
}

#[test]
fn test_args_accessors() {
    let args = Args::new(false, String::from("src/*.txt"), String::from("dst/#1.txt"));
    assert_eq!(args.source_path(), "src/*.txt");
    assert_eq!(args.target_path(), "dst/#1.txt");
    assert!(!args.force());
    assert!(!Config::from_args(&args).force_move());
    assert!(!Config::new().force_move());
}

#[test]
fn test_join_path_forms() {
    assert_eq!(join_path_str("", "file.txt"), "file.txt");
    assert_eq!(join_path_str("dir", "file.txt"), "dir/file.txt");
    assert_eq!(join_path_str("dir/", "file.txt"), "dir/file.txt");
    assert_eq!(join_path_str("/", "file.txt"), "/file.txt");
}

#[test]
fn test_split_path_forms() {
    assert_eq!(
        split_path_str("a/b/c.txt"),
        Some((String::from("a/b"), String::from("c.txt")))
    );
    assert_eq!(split_path_str("c.txt"), Some((String::from(""), String::from("c.txt"))));
    assert_eq!(split_path_str("/c.txt"), Some((String::from("/"), String::from("c.txt"))));
    assert_eq!(split_path_str(""), None);
    assert_eq!(split_path_str("///"), None);
    assert_eq!(split_path_str("."), None);
    assert_eq!(split_path_str(".."), None);
    assert_eq!(split_path_str("a/.."), None);
    assert_eq!(
        split_path_str("a/b/."),
        Some((String::from("a"), String::from("b")))
    );
    assert_eq!(
        split_path_str("foo.txt/."),
        Some((String::from(""), String::from("foo.txt")))
    );
    assert_eq!(
        split_path_str("a//b"),
        Some((String::from("a"), String::from("b")))
    );
}
