use cwc_tool::args::Args;
use cwc_tool::driver::{Driver, OutputLine, Request, Response};
use cwc_tool::utils::is_file_path_valid;

const HELLO: &str = "Hello, world!";

const DREAM: &str = "I have a dream!
    I have a dream that one day on the red hills of Georgia,
    the sons of former slaves and the sons of former slave owners
    will be able to sit down together at the table of brotherhood.";

/// What a run printed and returned.
struct Report {
    requests: Vec<String>,
    lines: Vec<String>,
    stdout: String,
    stderr: String,
    code: i32,
}

/// A file of the pretended file system: its path, and its content or why it cannot be read.
type File<'a> = (&'a str, Result<&'a str, &'a str>);

fn answer(request: &Request, stdin: Result<&str, &str>, files: &[File]) -> Response {
    match request {
        Request::ReadStdin => match stdin {
            Ok(content) => Response::StdinRead(content.to_string()),
            Err(description) => Response::StdinFailed(description.to_string()),
        },
        Request::CheckPath(path) => {
            Response::PathChecked(files.iter().any(|(name, _)| name == path))
        }
        Request::ReadFile(path) => match files.iter().find(|(name, _)| name == path) {
            Some((_, Ok(content))) => Response::FileRead(content.to_string()),
            Some((_, Err(description))) => Response::FileFailed(description.to_string()),
            None => Response::FileFailed("No such file or directory (os error 2)".to_string()),
        },
        Request::Exit(_) => unreachable!(),
    }
}

fn describe(request: &Request) -> String {
    match request {
        Request::ReadStdin => "stdin".to_string(),
        Request::CheckPath(path) => format!("check {}", path),
        Request::ReadFile(path) => format!("read {}", path),
        Request::Exit(code) => format!("exit {}", code),
    }
}

fn run(args: Args, stdin: Result<&str, &str>, files: &[File]) -> Report {
    let mut report = Report {
        requests: Vec::new(),
        lines: Vec::new(),
        stdout: String::new(),
        stderr: String::new(),
        code: -1,
    };
    let mut driver = Driver::start(args);
    loop {
        let request = driver.pending();
        report.requests.push(describe(&request));
        if let Request::Exit(code) = request {
            assert_eq!(code, driver.exit_code());
            report.code = code;
            return report;
        }
        let (next, lines) = driver.advance(answer(&request, stdin, files)).unwrap();
        driver = next;
        for line in lines {
            match line {
                OutputLine::Stdout(text) => {
                    report.stdout.push_str(&text);
                    report.stdout.push('\n');
                    report.lines.push(format!("out:{}", text));
                }
                OutputLine::Stderr(text) => {
                    report.stderr.push_str(&text);
                    report.stderr.push('\n');
                    report.lines.push(format!("err:{}", text));
                }
            }
        }
    }
}

fn args(flags: &str, paths: &[&str]) -> Args {
    Args::new(
        flags.contains('c'),
        flags.contains('l'),
        flags.contains('w'),
        flags.contains('m'),
        paths.iter().map(|p| p.to_string()).collect(),
    )
}

#[test]
fn test_file_non_existent() {
    let filename = "non_existent_file.txt";
    assert!(!is_file_path_valid(filename));

    let report = run(args("c", &[filename]), Ok(""), &[]);
    assert_eq!(report.code, 1);
    assert!(report.stderr.contains(&format!("cwc: {}: open: No such file", filename)));
    assert_eq!(report.stdout, "");
}

#[test]
fn test_count_bytes_one_file() {
    let file_path = "./.tmpQ3xZ9a";
    let report = run(args("c", &[file_path]), Ok(""), &[(file_path, Ok(HELLO))]);
    assert_eq!(report.code, 0);
    assert!(report.stdout.contains(&format!("{:>7} {}", 13, file_path)));
    assert_eq!(report.stdout, format!("{:>7} {}\n", 13, file_path));
    assert_eq!(report.stderr, "");
}

#[test]
fn test_count_bytes_two_files() {
    let file_path1 = "./.tmpQ3xZ9a";
    let file_path2 = "./.tmp7Lm0Pq";
    let files = [(file_path1, Ok(HELLO)), (file_path2, Ok(DREAM))];
    let report = run(args("c", &[file_path1, file_path2]), Ok(""), &files);
    assert_eq!(report.code, 0);
    assert!(report.stdout.contains(&format!("{:>7} {}", 13, file_path1)));
    assert!(report.stdout.contains(&format!("{:>7} {}", 209, file_path2)));
    assert!(report.stdout.contains(&format!("{:>7} {}", 222, "total")));
    assert_eq!(
        report.lines,
        vec![
            format!("out:     13 {}", file_path1),
            format!("out:    209 {}", file_path2),
            "out:    222 total".to_string(),
        ]
    );
}

#[test]
fn test_count_lines_one_file() {
    let file_content = "Hello,
    world!";
    let file_path = "./.tmpQ3xZ9a";
    let report = run(args("l", &[file_path]), Ok(""), &[(file_path, Ok(file_content))]);
    assert_eq!(report.code, 0);
    assert!(report.stdout.contains(&format!("{:>7} {}", 1, file_path)));
    assert_eq!(report.lines, vec![format!("out:      1 {}", file_path)]);
}

#[test]
fn test_count_lines_two_files() {
    let file_path1 = "./.tmpQ3xZ9a";
    let file_path2 = "./.tmp7Lm0Pq";
    let files = [(file_path1, Ok(HELLO)), (file_path2, Ok(DREAM))];
    let report = run(args("l", &[file_path1, file_path2]), Ok(""), &files);
    assert_eq!(report.code, 0);
    assert!(report.stdout.contains(&format!("{:>7} {}", 0, file_path1)));
    assert!(report.stdout.contains(&format!("{:>7} {}", 3, file_path2)));
    assert!(report.stdout.contains(&format!("{:>7} {}", 3, "total")));
    assert_eq!(report.stderr, "");
}

#[test]
fn one_file_with_default_flags() {
    let report = run(args("", &["hello.txt"]), Ok(""), &[("hello.txt", Ok(HELLO))]);
    assert_eq!(report.requests, vec!["check hello.txt", "read hello.txt", "exit 0"]);
    assert_eq!(report.lines, vec![format!("out:{:>7} {:>7} {:>7} hello.txt", 0, 2, 13)]);
    assert_eq!(report.stdout, "      0       2      13 hello.txt\n");
    assert_eq!(report.code, 0);
}

#[test]
fn two_files_with_default_flags_and_a_total() {
    let files = [("hello.txt", Ok(HELLO)), ("dream.txt", Ok(DREAM))];
    let report = run(args("", &["hello.txt", "dream.txt"]), Ok(""), &files);
    assert_eq!(
        report.requests,
        vec!["check hello.txt", "read hello.txt", "check dream.txt", "read dream.txt", "exit 0"]
    );
    assert_eq!(
        report.lines,
        vec![
            "out:      0       2      13 hello.txt",
            "out:      3      41     209 dream.txt",
            "out:      3      43     222 total",
        ]
    );
    assert_eq!(report.code, 0);
}

#[test]
fn no_file_argument_reads_the_standard_input() {
    let report = run(args("c", &[]), Ok(HELLO), &[]);
    assert_eq!(report.requests, vec!["stdin", "exit 0"]);
    assert_eq!(report.lines, vec!["out:     13 "]);
    assert_eq!(report.code, 0);
}

#[test]
fn empty_standard_input_counts_zero() {
    let report = run(args("", &[]), Ok(""), &[]);
    assert_eq!(report.lines, vec!["out:      0       0       0 "]);
    assert_eq!(report.stderr, "");
    assert_eq!(report.code, 0);
}

#[test]
fn a_failure_of_the_standard_input_is_reported() {
    let failure = "invalid utf-8 sequence of 1 bytes from index 0";
    let report = run(args("", &[]), Err(failure), &[]);
    assert_eq!(report.requests, vec!["stdin", "exit 1"]);
    assert_eq!(
        report.lines,
        vec![format!("err:cwc: Error reading from stdin: {}", failure)]
    );
    assert_eq!(report.stdout, "");
    assert_eq!(report.code, 1);
}

#[test]
fn no_flag_selects_bytes_lines_and_words() {
    let text = "h\u{e9}llo w\u{f6}rld\n";
    let report = run(args("", &["f"]), Ok(""), &[("f", Ok(text))]);
    assert_eq!(report.lines, vec!["out:      1       2      14 f"]);
    assert_eq!(report.code, 0);
}

#[test]
fn a_flag_switches_the_default_off() {
    let text = "h\u{e9}llo w\u{f6}rld\n";
    assert_eq!(run(args("w", &["f"]), Ok(""), &[("f", Ok(text))]).lines, vec!["out:      2 f"]);
    assert_eq!(run(args("m", &["f"]), Ok(""), &[("f", Ok(text))]).lines, vec!["out:     12 f"]);
    assert_eq!(run(args("c", &["f"]), Ok(""), &[("f", Ok(text))]).lines, vec!["out:     14 f"]);
    assert_eq!(run(args("l", &["f"]), Ok(""), &[("f", Ok(text))]).lines, vec!["out:      1 f"]);
}

#[test]
fn flags_combine_and_the_columns_keep_their_order() {
    let files = [(" f", Ok("a b\nc\n"))];
    let report = run(args("cl", &[" f"]), Ok(""), &files);
    assert_eq!(report.lines, vec!["out:      2       6  f"]);
    let report = run(args("mwl", &[" f"]), Ok(""), &files);
    assert_eq!(report.lines, vec!["out:      2       3       6  f"]);
    let report = run(args("wc", &[" f"]), Ok(""), &files);
    assert_eq!(report.lines, vec!["out:      3       6  f"]);
}

#[test]
fn a_missing_file_beside_a_valid_one() {
    let files = [("hello.txt", Ok(HELLO))];
    let report = run(args("", &["missing.txt", "hello.txt"]), Ok(""), &files);
    assert_eq!(
        report.requests,
        vec!["check missing.txt", "check hello.txt", "read hello.txt", "exit 1"]
    );
    assert_eq!(
        report.lines,
        vec![
            "err:cwc: missing.txt: open: No such file",
            "out:      0       2      13 hello.txt",
            "out:      0       2      13 total",
        ]
    );
    assert_eq!(report.code, 1);
}

#[test]
fn a_valid_file_before_a_missing_one() {
    let files = [("hello.txt", Ok(HELLO))];
    let report = run(args("c", &["hello.txt", "missing.txt"]), Ok(""), &files);
    assert_eq!(
        report.lines,
        vec![
            "out:     13 hello.txt",
            "err:cwc: missing.txt: open: No such file",
            "out:     13 total",
        ]
    );
    assert_eq!(report.code, 1);
}

#[test]
fn a_single_missing_file_has_no_total() {
    let report = run(args("", &["missing.txt"]), Ok(HELLO), &[]);
    assert_eq!(report.requests, vec!["check missing.txt", "exit 1"]);
    assert_eq!(report.lines, vec!["err:cwc: missing.txt: open: No such file"]);
    assert_eq!(report.code, 1);
}

#[test]
fn a_file_that_cannot_be_read_is_skipped() {
    let failure = "stream did not contain valid UTF-8";
    let files = [("a", Ok("x y\n")), ("b", Err(failure)), ("c", Ok("z\n"))];
    let report = run(args("", &["a", "b", "c"]), Ok(""), &files);
    assert_eq!(
        report.requests,
        vec!["check a", "read a", "check b", "read b", "check c", "read c", "exit 1"]
    );
    assert_eq!(
        report.lines,
        vec![
            "out:      1       2       4 a".to_string(),
            format!("err:cwc: Error reading file: {}", failure),
            "out:      1       1       2 c".to_string(),
            "out:      2       3       6 total".to_string(),
        ]
    );
    assert_eq!(report.code, 1);
}

#[test]
fn the_total_of_nothing_is_its_label() {
    let report = run(args("", &["x", "y"]), Ok(""), &[("y", Err("Permission denied (os error 13)"))]);
    assert_eq!(
        report.lines,
        vec![
            "err:cwc: x: open: No such file",
            "err:cwc: Error reading file: Permission denied (os error 13)",
            "out:total",
        ]
    );
    assert_eq!(report.code, 1);
}

#[test]
fn the_same_file_twice_counts_twice() {
    let files = [("hello.txt", Ok(HELLO))];
    let report = run(args("m", &["hello.txt", "hello.txt"]), Ok(""), &files);
    assert_eq!(
        report.lines,
        vec!["out:     13 hello.txt", "out:     13 hello.txt", "out:     26 total"]
    );
    assert_eq!(report.code, 0);
}

#[test]
fn a_response_that_does_not_answer_the_request_is_ignored() {
    let driver = Driver::start(args("c", &["a", "b"]));
    let (driver, lines) = driver.advance(Response::FileRead("early".to_string())).unwrap();
    assert!(lines.is_empty());
    let (driver, lines) = driver.advance(Response::StdinRead("none".to_string())).unwrap();
    assert!(lines.is_empty());
    assert!(matches!(driver.pending(), Request::CheckPath(path) if path == "a"));

    let (driver, lines) = driver.advance(Response::PathChecked(true)).unwrap();
    assert!(lines.is_empty());
    assert!(matches!(driver.pending(), Request::ReadFile(path) if path == "a"));
    let (driver, lines) = driver.advance(Response::PathChecked(false)).unwrap();
    assert!(lines.is_empty());
    let (driver, lines) = driver.advance(Response::StdinFailed("no".to_string())).unwrap();
    assert!(lines.is_empty());
    assert!(matches!(driver.pending(), Request::ReadFile(path) if path == "a"));
    assert_eq!(driver.exit_code(), 0);

    let (driver, lines) = driver.advance(Response::FileRead("xyz".to_string())).unwrap();
    assert_eq!(lines.len(), 1);
    assert!(matches!(&lines[0], OutputLine::Stdout(text) if text == "      3 a"));
    let (driver, lines) = driver.advance(Response::PathChecked(false)).unwrap();
    assert_eq!(lines.len(), 2);
    assert!(matches!(&lines[0], OutputLine::Stderr(text) if text == "cwc: b: open: No such file"));
    assert!(matches!(&lines[1], OutputLine::Stdout(text) if text == "      3 total"));
    assert!(matches!(driver.pending(), Request::Exit(1)));

    let (driver, lines) = driver.advance(Response::FileRead("late".to_string())).unwrap();
    assert!(lines.is_empty());
    assert!(matches!(driver.pending(), Request::Exit(1)));

    let stdin = Driver::start(args("", &[]));
    let (stdin, lines) = stdin.advance(Response::PathChecked(true)).unwrap();
    assert!(lines.is_empty());
    assert!(matches!(stdin.pending(), Request::ReadStdin));
}
