use marco::parser::blocks::{
    extract_cases, has_title, heading_text_of, opens_test, parse_test_markdown, read_section,
    read_test, DocNode, Inline,
};
use marco::parser::nesting::check_nesting;
use marco::parser::ParseError;
use marco::test_types::{MarcoTestCase, RunnerConfig, TestHeader};
use std::path::PathBuf;

fn text(s: &str) -> Inline {
    Inline::Text(String::from(s))
}

fn heading(s: &str) -> DocNode {
    DocNode::Heading(vec![text(s)])
}

fn code(value: &str, line: usize) -> DocNode {
    DocNode::Code { value: String::from(value), line: Some(line) }
}

fn named(name: &str) -> TestHeader {
    TestHeader { name: String::from(name), author: None, runner: None, passing: None, date: None }
}

/// Reads a header of the form `name: <text>`, and refuses every other text.
fn read_name(text: &str) -> Result<TestHeader, String> {
    match text.strip_prefix("name: ") {
        Some(name) => Ok(named(name)),
        None => Err(format!("no name in {:?}", text)),
    }
}

/// Reads a header with the fields `name` and `runner` from YAML.
fn read_yaml(text: &str) -> Result<TestHeader, String> {
    let value = serde_yml::from_str::<serde_yml::Value>(text).map_err(|e| e.to_string())?;
    let name = value.get("name").and_then(|v| v.as_str()).ok_or(String::from("missing field `name`"))?;
    let runner = match value.get("runner") {
        None => None,
        Some(r) => match r.as_str() {
            Some(cmd) => Some(RunnerConfig::Simple(String::from(cmd))),
            None => Some(RunnerConfig::Platform {
                windows: r.get("windows").and_then(|v| v.as_str()).map(String::from),
                unix: r.get("unix").and_then(|v| v.as_str()).map(String::from),
                default: r.get("default").and_then(|v| v.as_str()).map(String::from),
            }),
        },
    };
    Ok(TestHeader { name: String::from(name), author: None, runner, passing: None, date: None })
}

fn one_test(name: &str, input: &str, expected: &str, line: usize) -> Vec<DocNode> {
    vec![
        heading(name),
        heading("Input"),
        code(input, line),
        heading("Expected Output"),
        code(expected, line + 6),
    ]
}

fn document(tests: Vec<Vec<DocNode>>) -> Vec<DocNode> {
    let mut nodes = vec![DocNode::ThematicBreak, heading("name: suite")];
    for t in tests {
        nodes.extend(t);
    }
    nodes
}

fn file() -> PathBuf {
    PathBuf::from("docs/a.md")
}

const ONE_CASE: &str = "---\nname: math\nrunner: {unix: cat}\n---\n\n# Test: echo\n\n## Input\n\n```\nhello\n```\n\n## Expected Output\n\n```\nhello\n```\n";

#[test]
fn structural_document_with_one_case() {
    let cases = parse_test_markdown(file(), ONE_CASE, read_yaml).unwrap();
    assert_eq!(
        cases,
        vec![MarcoTestCase {
            header: TestHeader {
                name: String::from("math"),
                author: None,
                runner: Some(RunnerConfig::Platform {
                    windows: None,
                    unix: Some(String::from("cat")),
                    default: None
                }),
                passing: None,
                date: None,
            },
            file: file(),
            input_data: String::from("hello"),
            expected_output: String::from("hello"),
            block_start_line: 10,
        }]
    );
}

#[test]
fn structural_document_missing_expected_output_heading() {
    let src = "---\nname: math\n---\n\n# Test: echo\n\n## Input\n\n```\nhello\n```\n\nsome text\n";
    let r = parse_test_markdown(file(), src, read_yaml);
    assert_eq!(r, Err(ParseError::MissingHeading(String::from("Expected Output"))));
}

#[test]
fn structural_document_with_several_cases() {
    let src = "---\nname: suite\n---\n\n# Test: one\n\n## Input\n\n```\n1\n```\n\n## Expected Output\n\n```\none\n```\n\n# Notes\n\n# Test: two\n\n## Input\n\n```\n2\n2\n```\n\n## Expected Output\n\n```json\n{\"two\": 2}\n```\n";
    let cases = parse_test_markdown(file(), src, read_name).unwrap();
    assert_eq!(cases.len(), 2);
    assert_eq!(cases[0].input_data, "1");
    assert_eq!(cases[0].expected_output, "one");
    assert_eq!(cases[0].block_start_line, 9);
    assert_eq!(cases[1].input_data, "2\n2");
    assert_eq!(cases[1].expected_output, "{\"two\": 2}");
    assert_eq!(cases[1].block_start_line, 25);
    assert_eq!(cases[0].header, named("suite"));
    assert_eq!(cases[1].header, named("suite"));
}

#[test]
fn structural_document_without_header_has_no_cases() {
    let src = "# Test: echo\n\n## Input\n\n```\nhello\n```\n\n## Expected Output\n\n```\nhello\n```\n";
    assert_eq!(parse_test_markdown(file(), src, read_name), Ok(vec![]));
    assert_eq!(parse_test_markdown(file(), "", read_name), Ok(vec![]));
    assert_eq!(parse_test_markdown(file(), "just a paragraph\n", read_name), Ok(vec![]));
}

#[test]
fn structural_document_with_header_and_no_tests_has_no_cases() {
    let src = "---\nname: empty\n---\n\nNothing to see.\n";
    assert_eq!(parse_test_markdown(file(), src, read_name), Ok(vec![]));
}

#[test]
fn structural_document_with_unreadable_header() {
    let src = "---\ntitle: math\n---\n\n# Test: echo\n";
    assert_eq!(
        parse_test_markdown(file(), src, read_name),
        Err(ParseError::MalformedHeader(String::from("no name in \"title: math\"")))
    );
}

#[test]
fn structural_document_with_invalid_yaml_header() {
    let src = "---\nname: [unclosed\n---\n\n# Test: echo\n";
    let r = parse_test_markdown(file(), src, read_yaml);
    assert!(matches!(r, Err(ParseError::MalformedHeader(_))));
    let src = "---\nauthor: someone\n---\n";
    assert_eq!(
        parse_test_markdown(file(), src, read_yaml),
        Err(ParseError::MalformedHeader(String::from("missing field `name`")))
    );
}

#[test]
fn header_text_joins_the_text_pieces() {
    let pieces = vec![text("name: "), Inline::Other, text("ma"), text("th"), Inline::Other];
    assert_eq!(heading_text_of(&pieces), "name: math");
    assert_eq!(heading_text_of(&vec![]), "");
    assert_eq!(heading_text_of(&vec![Inline::Other]), "");
}

#[test]
fn marker_is_a_heading_whose_text_starts_with_test() {
    assert!(opens_test(&heading("Test: add")));
    assert!(opens_test(&heading("  Test:")));
    assert!(opens_test(&DocNode::Heading(vec![text("Te"), text("st:")])));
    assert!(opens_test(&DocNode::Heading(vec![Inline::Other, text(" Test: "), Inline::Other])));
    assert!(!opens_test(&DocNode::Heading(vec![Inline::Other, text("x"), text("Test: y")])));
    assert!(!opens_test(&heading("test: add")));
    assert!(!opens_test(&heading("A Test: add")));
    assert!(!opens_test(&heading("Test")));
    assert!(!opens_test(&DocNode::Heading(vec![])));
    assert!(!opens_test(&code("Test: add", 1)));
    assert!(!opens_test(&DocNode::ThematicBreak));
    assert!(!opens_test(&DocNode::Other));
}

#[test]
fn title_is_the_whole_text_of_the_heading_after_trimming() {
    assert!(has_title(&heading("Input"), "Input"));
    assert!(has_title(&heading(" Input\t"), "Input"));
    assert!(has_title(&DocNode::Heading(vec![text("Expected"), text(" Output")]), "Expected Output"));
    assert!(has_title(&DocNode::Heading(vec![text("In"), Inline::Other, text("put")]), "Input"));
    assert!(!has_title(&DocNode::Heading(vec![text("no"), text("Expected Output")]), "Expected Output"));
    assert!(!has_title(&heading("input"), "Input"));
    assert!(!has_title(&heading("Input:"), "Input"));
    assert!(!has_title(&heading("Expected  Output"), "Expected Output"));
    assert!(!has_title(&code("Input", 1), "Input"));
    assert!(!has_title(&DocNode::Other, "Input"));
}

#[test]
fn read_test_takes_both_blocks_and_the_line() {
    let nodes = one_test("Test: a", "in", "out", 12);
    assert_eq!(read_test(&nodes, 1), Ok((String::from("in"), String::from("out"), 12)));
}

#[test]
fn read_test_without_a_known_line_gives_line_zero() {
    let nodes = vec![
        heading("Input"),
        DocNode::Code { value: String::from("in"), line: None },
        heading("Expected Output"),
        code("out", 9),
    ];
    assert_eq!(read_test(&nodes, 0), Ok((String::from("in"), String::from("out"), 0)));
}

#[test]
fn read_test_names_the_first_missing_part() {
    let full = one_test("Test: a", "in", "out", 1);
    let input = ParseError::MissingHeading(String::from("Input"));
    let expected = ParseError::MissingHeading(String::from("Expected Output"));
    assert_eq!(read_test(&full[..1].to_vec(), 1), Err(input));
    assert_eq!(read_test(&full[..2].to_vec(), 1), Err(ParseError::MissingCodeBlock));
    assert_eq!(read_test(&full[..3].to_vec(), 1), Err(expected));
    assert_eq!(read_test(&full[..4].to_vec(), 1), Err(ParseError::MissingCodeBlock));
    assert!(read_test(&full, 1).is_ok());
}

#[test]
fn read_test_refuses_parts_of_the_wrong_kind() {
    let mut nodes = one_test("Test: a", "in", "out", 1);
    nodes[1] = heading("Inputs");
    assert_eq!(read_test(&nodes, 1), Err(ParseError::MissingHeading(String::from("Input"))));
    nodes[1] = code("Input", 1);
    assert_eq!(read_test(&nodes, 1), Err(ParseError::MissingHeading(String::from("Input"))));
    let mut nodes = one_test("Test: a", "in", "out", 1);
    nodes[2] = DocNode::Other;
    assert_eq!(read_test(&nodes, 1), Err(ParseError::MissingCodeBlock));
    let mut nodes = one_test("Test: a", "in", "out", 1);
    nodes[3] = heading("Output");
    assert_eq!(
        read_test(&nodes, 1),
        Err(ParseError::MissingHeading(String::from("Expected Output")))
    );
    let mut nodes = one_test("Test: a", "in", "out", 1);
    nodes[4] = heading("out");
    assert_eq!(read_test(&nodes, 1), Err(ParseError::MissingCodeBlock));
}

#[test]
fn read_test_past_the_end_misses_the_input_heading() {
    let nodes = one_test("Test: a", "in", "out", 1);
    assert_eq!(read_test(&nodes, 5), Err(ParseError::MissingHeading(String::from("Input"))));
    assert_eq!(read_test(&nodes, usize::MAX), Err(ParseError::MissingHeading(String::from("Input"))));
}

#[test]
fn read_section_skips_headings_that_open_no_test() {
    let mut nodes = vec![heading("About"), heading("More")];
    nodes.extend(one_test("Test: a", "1", "one", 3));
    nodes.push(heading("Between"));
    nodes.extend(one_test("Test: b", "2", "two", 20));
    nodes.push(heading("After"));
    let (cases, end) = read_section(&file(), &named("s"), &nodes, 0).unwrap();
    assert_eq!(end, nodes.len());
    assert_eq!(cases.len(), 2);
    assert_eq!(cases[0].input_data, "1");
    assert_eq!(cases[0].block_start_line, 3);
    assert_eq!(cases[1].expected_output, "two");
    assert_eq!(cases[1].header, named("s"));
    assert_eq!(cases[1].file, file());
}

#[test]
fn read_section_passes_over_blocks_between_tests() {
    let mut nodes = one_test("Test: a", "1", "one", 3);
    nodes.push(DocNode::Other);
    nodes.push(code("loose code", 9));
    nodes.extend(one_test("Test: b", "2", "two", 20));
    nodes.push(DocNode::Other);
    let (cases, end) = read_section(&file(), &named("s"), &nodes, 0).unwrap();
    assert_eq!(cases.len(), 2);
    assert_eq!(cases[0].input_data, "1");
    assert_eq!(cases[1].input_data, "2");
    assert_eq!(cases[1].expected_output, "two");
    assert_eq!(end, nodes.len());
}

#[test]
fn read_section_ends_at_the_next_thematic_break() {
    let mut nodes = one_test("Test: a", "1", "one", 3);
    nodes.push(DocNode::Other);
    nodes.push(DocNode::ThematicBreak);
    nodes.extend(one_test("Test: b", "2", "two", 20));
    let (cases, end) = read_section(&file(), &named("s"), &nodes, 0).unwrap();
    assert_eq!(cases.len(), 1);
    assert_eq!(end, 6);
    let (cases, end) = read_section(&file(), &named("s"), &nodes, 6).unwrap();
    assert!(cases.is_empty());
    assert_eq!(end, 6);
}

#[test]
fn read_section_from_the_end_is_empty() {
    let nodes = one_test("Test: a", "1", "one", 3);
    assert_eq!(read_section(&file(), &named("s"), &nodes, 5), Ok((vec![], 5)));
    assert_eq!(read_section(&file(), &named("s"), &nodes, 9), Ok((vec![], 9)));
    assert_eq!(read_section(&file(), &named("s"), &vec![], 0), Ok((vec![], 0)));
}

#[test]
fn read_section_fails_on_an_incomplete_test() {
    let mut nodes = one_test("Test: a", "1", "one", 3);
    nodes.extend(vec![heading("Test: b"), heading("Input"), code("2", 20)]);
    assert_eq!(
        read_section(&file(), &named("s"), &nodes, 0),
        Err(ParseError::MissingHeading(String::from("Expected Output")))
    );
    let nodes = vec![heading("Test: lonely")];
    assert_eq!(
        read_section(&file(), &named("s"), &nodes, 0),
        Err(ParseError::MissingHeading(String::from("Input")))
    );
}

#[test]
fn number_of_cases_is_number_of_complete_tests() {
    for n in 0..6 {
        let mut tests = vec![];
        for i in 0..n {
            tests.push(one_test(&format!("Test: {}", i), "in", "out", 10 * i + 5));
            tests.push(vec![heading("Comment")]);
        }
        let nodes = document(tests);
        let cases = extract_cases(&file(), &nodes, &read_name).unwrap();
        assert_eq!(cases.len(), n);
    }
}

#[test]
fn extract_cases_reads_each_header_for_its_own_section() {
    let mut nodes = vec![DocNode::Other, DocNode::ThematicBreak, heading("name: first")];
    nodes.extend(one_test("Test: a", "1", "one", 3));
    nodes.push(DocNode::Other);
    nodes.extend(vec![DocNode::ThematicBreak, heading("name: second")]);
    nodes.extend(one_test("Test: b", "2", "two", 30));
    nodes.extend(one_test("Test: c", "3", "three", 40));
    let cases = extract_cases(&file(), &nodes, &read_name).unwrap();
    assert_eq!(cases.len(), 3);
    assert_eq!(cases[0].header.name, "first");
    assert_eq!(cases[1].header.name, "second");
    assert_eq!(cases[2].header.name, "second");
    assert_eq!(cases[2].input_data, "3");
}

#[test]
fn extract_cases_ignores_tests_before_the_first_header() {
    let mut nodes = one_test("Test: before", "0", "zero", 1);
    nodes.extend(vec![DocNode::ThematicBreak, heading("name: suite")]);
    nodes.extend(one_test("Test: a", "1", "one", 3));
    let cases = extract_cases(&file(), &nodes, &read_name).unwrap();
    assert_eq!(cases.len(), 1);
    assert_eq!(cases[0].input_data, "1");
}

#[test]
fn extract_cases_reads_tests_after_other_blocks() {
    let mut nodes = vec![DocNode::ThematicBreak, heading("name: suite"), DocNode::Other];
    nodes.extend(one_test("Test: a", "1", "one", 3));
    nodes.push(DocNode::Other);
    nodes.extend(one_test("Test: after", "9", "nine", 50));
    let cases = extract_cases(&file(), &nodes, &read_name).unwrap();
    assert_eq!(cases.len(), 2);
    assert_eq!(cases[0].input_data, "1");
    assert_eq!(cases[1].input_data, "9");
    assert_eq!(cases[1].block_start_line, 50);
}

#[test]
fn structural_document_with_prose_between_tests() {
    let src = "---\n## name: m\n### Test: a\n#### Input\n```\n1\n```\n#### Expected Output\n```\n1\n```\n\nsome prose\n\n### Test: b\n#### Input\n```\n2\n```\n#### Expected Output\n```\n2\n```\n";
    let cases = parse_test_markdown(PathBuf::from("t.md"), src, read_name).unwrap();
    assert_eq!(cases.len(), 2);
    assert_eq!(cases[0].input_data, "1");
    assert_eq!(cases[1].input_data, "2");
    assert_eq!(cases[1].expected_output, "2");
    assert_eq!(cases[1].header.name, "m");
}

#[test]
fn extract_cases_consumes_the_block_after_a_thematic_break() {
    let mut nodes = vec![DocNode::ThematicBreak, DocNode::ThematicBreak, heading("name: lost")];
    nodes.extend(one_test("Test: a", "1", "one", 3));
    assert_eq!(extract_cases(&file(), &nodes, &read_name), Ok(vec![]));
    let nodes = vec![DocNode::ThematicBreak];
    assert_eq!(extract_cases(&file(), &nodes, &read_name), Ok(vec![]));
    assert_eq!(extract_cases(&file(), &vec![], &read_name), Ok(vec![]));
}

#[test]
fn extract_cases_reports_the_first_error_in_document_order() {
    let mut nodes = vec![DocNode::ThematicBreak, heading("name: good")];
    nodes.extend(vec![heading("Test: broken"), heading("Input")]);
    nodes.extend(vec![DocNode::ThematicBreak, heading("bad header")]);
    assert_eq!(extract_cases(&file(), &nodes, &read_name), Err(ParseError::MissingCodeBlock));
    let mut nodes = vec![DocNode::ThematicBreak, heading("bad header")];
    nodes.extend(vec![heading("Test: broken"), heading("Input")]);
    assert_eq!(
        extract_cases(&file(), &nodes, &read_name),
        Err(ParseError::MalformedHeader(String::from("no name in \"bad header\"")))
    );
}

#[test]
fn extract_cases_hands_the_joined_header_text_to_the_reader() {
    let nodes = vec![
        DocNode::ThematicBreak,
        DocNode::Heading(vec![text("name: "), Inline::Other, text("joined")]),
        heading("Test: a"),
        heading("Input"),
        code("in", 3),
        heading("Expected Output"),
        code("out", 7),
    ];
    let cases = extract_cases(&file(), &nodes, &read_name).unwrap();
    assert_eq!(cases[0].header.name, "joined");
}

#[test]
fn markdown_headings_with_markup_keep_their_text_pieces() {
    let src = "---\nname: *styled* suite\n---\n\n# A **Test:** in bold opens none\n\n# Test: `code`\n\n## Input\n\n    indented\n\n## Expected Output\n\n~~~\nfenced\n~~~\n";
    let cases = parse_test_markdown(file(), src, read_name).unwrap();
    assert_eq!(cases.len(), 1);
    assert_eq!(cases[0].header.name, " suite");
    assert_eq!(cases[0].input_data, "indented");
    assert_eq!(cases[0].expected_output, "fenced");
}

#[test]
fn nesting_is_measured_at_the_start_of_each_line() {
    assert!(check_nesting(""));
    assert!(check_nesting("plain text\n\n- item\n  - item\n> quote\n"));
    assert!(check_nesting(&">".repeat(1024)));
    assert!(!check_nesting(&">".repeat(1025)));
    assert!(check_nesting(&" ".repeat(1024)));
    assert!(!check_nesting(&" ".repeat(1025)));
    assert!(check_nesting(&"\t".repeat(256)));
    assert!(!check_nesting(&"\t".repeat(257)));
    assert!(check_nesting(&"1. ".repeat(512)));
    assert!(!check_nesting(&"1. ".repeat(513)));
    assert!(!check_nesting(&format!("ok\r{}", "- ".repeat(513))));
    assert!(!check_nesting(&format!("ok\r\n{}", "+ ".repeat(513))));
}

#[test]
fn nesting_is_not_measured_after_the_start_of_a_line() {
    assert!(check_nesting(&format!("a{}", ">".repeat(5000))));
    assert!(check_nesting(&format!("> {}", "x - y. ".repeat(5000))));
    assert!(check_nesting(&"> > - a\n".repeat(5000)));
}

#[test]
fn markup_signs_are_counted_between_blank_lines() {
    assert!(check_nesting(&format!("a{}", "*".repeat(4096))));
    assert!(!check_nesting(&format!("a{}", "*".repeat(4097))));
    assert!(check_nesting(&format!("a{}", "[_".repeat(2048))));
    assert!(!check_nesting(&format!("a{}_", "[_".repeat(2048))));
    assert!(!check_nesting(&"a_b\n".repeat(4097)));
    assert!(check_nesting(&"a_b\n\n".repeat(5000)));
    assert!(check_nesting(&"a_b\r\n \t\r\n".repeat(5000)));
    assert!(!check_nesting(&"a_b\r\n".repeat(4097)));
}

#[test]
fn structural_document_that_nests_too_deep_is_not_read() {
    let deep = format!("{} a\n", ">".repeat(1025));
    assert_eq!(parse_test_markdown(file(), &deep, read_name), Err(ParseError::NestedTooDeep));
    let marked = format!("{}{}\n", "*a ".repeat(3000), "a* ".repeat(3000));
    assert_eq!(parse_test_markdown(file(), &marked, read_name), Err(ParseError::NestedTooDeep));
}

#[test]
fn structural_document_at_the_limit_of_nesting_is_read() {
    let deep = format!("{} a\n", ">".repeat(1023));
    assert_eq!(parse_test_markdown(file(), &deep, read_name), Ok(vec![]));
    let marked = format!("{}{}\n", "*a ".repeat(2048), "a* ".repeat(2048));
    assert_eq!(parse_test_markdown(file(), &marked, read_name), Ok(vec![]));
}
