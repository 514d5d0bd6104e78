use marco::cli::Args;
use marco::report::{count_passed, format_diff, render_changes, Change, ChangeKind};
use marco::test_types::TestResult;
use std::path::PathBuf;

fn result(passed: bool) -> TestResult {
    TestResult {
        name: String::from("t"),
        file: PathBuf::from("a.md"),
        passed,
        actual: String::new(),
        expected: String::new(),
        error: if passed { None } else { Some(String::from("e")) },
    }
}

#[test]
fn count_passed_counts_the_passed_results() {
    assert_eq!(count_passed(&vec![]), 0);
    assert_eq!(count_passed(&vec![result(true)]), 1);
    assert_eq!(count_passed(&vec![result(false)]), 0);
    assert_eq!(
        count_passed(&vec![result(true), result(false), result(true), result(true), result(false)]),
        3
    );
}

#[test]
fn render_changes_shows_each_kind_in_its_colour() {
    let changes = vec![
        Change { kind: ChangeKind::Equal, text: String::from("same\n") },
        Change { kind: ChangeKind::Delete, text: String::from("old\n") },
        Change { kind: ChangeKind::Insert, text: String::from("new\n") },
    ];
    assert_eq!(
        render_changes(&changes),
        "    \x1b[90m  same\n\x1b[0m    \x1b[97m\x1b[91m-\x1b[0m old\n\x1b[0m    \x1b[97m\x1b[92m+\x1b[0m new\n\x1b[0m"
    );
    assert_eq!(render_changes(&vec![]), "");
}

#[test]
fn format_diff_compares_line_by_line() {
    assert_eq!(
        format_diff("a\nb\nc", "a\nx\nc"),
        "    \x1b[90m  a\n\x1b[0m    \x1b[97m\x1b[91m-\x1b[0m b\n\x1b[0m    \x1b[97m\x1b[92m+\x1b[0m x\n\x1b[0m    \x1b[90m  c\n\x1b[0m"
    );
}

#[test]
fn format_diff_ignores_surrounding_white_space() {
    assert_eq!(format_diff("  same\n\n", "same"), "    \x1b[90m  same\n\x1b[0m");
    assert_eq!(format_diff("", " \n"), "");
}

#[test]
fn format_diff_of_different_texts_marks_both() {
    assert_eq!(
        format_diff("actual", "expected"),
        "    \x1b[97m\x1b[91m-\x1b[0m actual\n\x1b[0m    \x1b[97m\x1b[92m+\x1b[0m expected\n\x1b[0m"
    );
}

#[test]
fn set_defaults_fills_in_an_empty_input() {
    let args = Args { input: String::new(), runner: None, threads: Some(4), verbose: true };
    assert_eq!(
        args.set_defaults(),
        Args { input: String::from("**/*.marco.md"), runner: None, threads: Some(4), verbose: true }
    );
}

#[test]
fn set_defaults_keeps_a_given_input() {
    let args = Args {
        input: String::from("docs/*.md"),
        runner: Some(String::from("cat")),
        threads: None,
        verbose: false,
    };
    assert_eq!(args.clone().set_defaults(), args);
}

#[test]
fn output_file_defaults_to_the_input_with_extension_o() {
    let args = marco::config::Args { input_file: PathBuf::from("src/prog.c"), output_file: None };
    assert_eq!(
        args.set_defaults(),
        marco::config::Args {
            input_file: PathBuf::from("src/prog.c"),
            output_file: Some(PathBuf::from("src/prog.o")),
        }
    );
    let args = marco::config::Args { input_file: PathBuf::from("prog"), output_file: None };
    assert_eq!(args.set_defaults().output_file, Some(PathBuf::from("prog.o")));
}

#[test]
fn given_output_file_is_kept() {
    let args = marco::config::Args {
        input_file: PathBuf::from("a.c"),
        output_file: Some(PathBuf::from("out/b.bin")),
    };
    assert_eq!(args.clone().set_defaults(), args);
}
