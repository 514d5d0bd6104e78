use marco::test_types::{Host, RunnerConfig};
use marco::util::{command_from_words, parse_shell_cmd};

fn per_platform(windows: Option<&str>, unix: Option<&str>, default: Option<&str>) -> RunnerConfig {
    RunnerConfig::Platform {
        windows: windows.map(String::from),
        unix: unix.map(String::from),
        default: default.map(String::from),
    }
}

#[test]
fn simple_command_is_returned_as_it_is() {
    let cfg = RunnerConfig::Simple(String::from("python3 run.py --flag"));
    assert_eq!(cfg.for_current_platform(Host::Unix), "python3 run.py --flag");
    assert_eq!(cfg.for_current_platform(Host::Windows), "python3 run.py --flag");
}

#[test]
fn empty_simple_command_stays_empty() {
    let cfg = RunnerConfig::Simple(String::new());
    assert_eq!(cfg.for_current_platform(Host::Unix), "");
}

#[test]
fn per_platform_picks_the_hosts_own_entry() {
    let cfg = per_platform(Some("type"), Some("cat"), Some("more"));
    assert_eq!(cfg.for_current_platform(Host::Unix), "cat");
    assert_eq!(cfg.for_current_platform(Host::Windows), "type");
}

#[test]
fn per_platform_falls_back_to_default() {
    let cfg = per_platform(None, Some("cat"), Some("more"));
    assert_eq!(cfg.for_current_platform(Host::Windows), "more");
    let cfg = per_platform(Some("type"), None, Some("more"));
    assert_eq!(cfg.for_current_platform(Host::Unix), "more");
}

#[test]
fn per_platform_ignores_the_other_hosts_entry() {
    let cfg = per_platform(Some("type"), None, None);
    assert_eq!(cfg.for_current_platform(Host::Unix), "echo");
    let cfg = per_platform(None, Some("cat"), None);
    assert_eq!(cfg.for_current_platform(Host::Windows), "echo");
}

#[test]
fn per_platform_without_any_entry_is_echo() {
    let cfg = per_platform(None, None, None);
    assert_eq!(cfg.for_current_platform(Host::Unix), "echo");
    assert_eq!(cfg.for_current_platform(Host::Windows), "echo");
}

#[test]
fn runner_config_clone_is_equal() {
    let cfg = per_platform(Some("type"), None, Some("more"));
    assert_eq!(cfg.clone(), cfg);
    let cfg = RunnerConfig::Simple(String::from("cat"));
    assert_eq!(cfg.clone(), cfg);
}

#[test]
fn shell_command_with_one_word() {
    assert_eq!(parse_shell_cmd("cat"), Some((String::from("cat"), vec![])));
}

#[test]
fn shell_command_with_arguments() {
    assert_eq!(
        parse_shell_cmd("python3 -m tool --x=1"),
        Some((
            String::from("python3"),
            vec![String::from("-m"), String::from("tool"), String::from("--x=1")]
        ))
    );
}

#[test]
fn shell_command_keeps_quoted_words_together() {
    assert_eq!(
        parse_shell_cmd("sh -c 'echo \"a b\"' \"two words\" back\\ slash"),
        Some((
            String::from("sh"),
            vec![
                String::from("-c"),
                String::from("echo \"a b\""),
                String::from("two words"),
                String::from("back slash")
            ]
        ))
    );
}

#[test]
fn shell_command_without_words_is_nothing() {
    assert_eq!(parse_shell_cmd(""), None);
    assert_eq!(parse_shell_cmd("   \t "), None);
    assert_eq!(parse_shell_cmd("# only a comment"), None);
}

#[test]
fn shell_command_with_open_quote_is_nothing() {
    assert_eq!(parse_shell_cmd("cat 'unclosed"), None);
    assert_eq!(parse_shell_cmd("cat \"unclosed"), None);
}

#[test]
fn command_from_words_splits_first_from_rest() {
    assert_eq!(command_from_words(None), None);
    assert_eq!(command_from_words(Some(vec![])), None);
    assert_eq!(
        command_from_words(Some(vec![String::from("a")])),
        Some((String::from("a"), vec![]))
    );
    assert_eq!(
        command_from_words(Some(vec![String::from("a"), String::from("b"), String::from("c")])),
        Some((String::from("a"), vec![String::from("b"), String::from("c")]))
    );
}
