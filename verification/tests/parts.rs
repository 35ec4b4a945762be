use cwc_tool::args::Args;
use cwc_tool::errors::ProcessFileError;
use cwc_tool::utils::{error_line, is_file_path_valid, path_validity};

#[test]
fn defaults_apply_where_no_flag_is_set() {
    let mut args = Args::new(false, false, false, false, vec!["a".to_string()]);
    args.apply_defaults();
    assert_eq!((args.bytes, args.lines, args.words, args.chars), (true, true, true, false));
    assert_eq!(args.file_paths, vec!["a".to_string()]);
}

#[test]
fn defaults_leave_a_selection_alone() {
    let selections = [
        (true, false, false, false),
        (false, true, false, false),
        (false, false, true, false),
        (false, false, false, true),
        (false, true, false, true),
        (true, true, true, false),
    ];
    for (bytes, lines, words, chars) in selections {
        let mut args = Args::new(bytes, lines, words, chars, Vec::new());
        args.apply_defaults();
        assert_eq!((args.bytes, args.lines, args.words, args.chars), (bytes, lines, words, chars));
        assert!(args.file_paths.is_empty());
    }
}

#[test]
fn an_error_describes_itself() {
    let io = ProcessFileError::IoError("Permission denied (os error 13)".to_string());
    assert_eq!(io.message(), "I/O error: Permission denied (os error 13)");
    let missing = ProcessFileError::FileNotFound("a/b.txt".to_string());
    assert_eq!(missing.message(), "File not found: a/b.txt");
}

#[test]
fn an_error_is_reported_to_the_user() {
    let io = ProcessFileError::IoError("Permission denied (os error 13)".to_string());
    assert_eq!(io.report(), "Error reading file: Permission denied (os error 13)");
    let missing = ProcessFileError::FileNotFound("a/b.txt".to_string());
    assert_eq!(missing.report(), "a/b.txt: open: No such file");
}

#[test]
fn an_error_line_starts_with_the_program_name() {
    assert_eq!(error_line("a/b.txt: open: No such file"), "cwc: a/b.txt: open: No such file");
    assert_eq!(error_line(""), "cwc: ");
}

#[test]
fn a_regular_file_is_valid() {
    assert!(is_file_path_valid("/proc/self/exe"));
}

#[test]
fn a_directory_is_not_valid() {
    assert!(!is_file_path_valid("/"));
    assert!(!is_file_path_valid("."));
}

#[test]
fn a_missing_path_is_not_valid() {
    assert!(!is_file_path_valid("non_existent_file.txt"));
    assert!(!is_file_path_valid(""));
    assert!(!is_file_path_valid("/proc/self/exe/nothing"));
}

#[test]
fn a_path_is_valid_if_it_exists_and_names_a_file() {
    assert!(path_validity(true, true));
    assert!(!path_validity(true, false));
    assert!(!path_validity(false, true));
    assert!(!path_validity(false, false));
}
