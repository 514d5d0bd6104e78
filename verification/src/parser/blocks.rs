//! Test cases out of a document's top-level blocks: a header after a
//! thematic break, then headings that open tests, each followed by the
//! test's input and expected output.

use crate::parser::nesting::{check_nesting, nests_lightly};
use crate::parser::{
    accept_header, append_cases, extraction_view, reads_all, reads_as, Decode, ParseError,
    ParseErrorView,
};
use crate::test_types::{case_views, CaseView, HeaderView, MarcoTestCase, TestHeader};
use crate::text::{same_text, starts_with, trim, trimmed};
use markdown::mdast::Node;
use markdown::{to_mdast, ParseOptions};
use std::path::PathBuf;
use vstd::prelude::*;

verus! {

/// A piece of a heading's content: literal text, or anything else.
#[derive(Clone, Debug, PartialEq, Eq)]
pub enum Inline {
    Text(String),
    Other,
}

/// A top-level block of a document, as far as test extraction reads it.
#[derive(Clone, Debug, PartialEq, Eq)]
pub enum DocNode {
    ThematicBreak,
    Heading(Vec<Inline>),
    /// A code block with its content and, where known, the line it starts at.
    Code { value: String, line: Option<usize> },
    Other,
}

pub enum PieceView {
    Text(Seq<char>),
    Other,
}

impl View for Inline {
    type V = PieceView;

    open spec fn view(&self) -> PieceView {
        match *self {
            Inline::Text(t) => PieceView::Text(t@),
            Inline::Other => PieceView::Other,
        }
    }
}

/// The views of the pieces of a heading, in order.
pub open spec fn piece_views(pieces: Seq<Inline>) -> Seq<PieceView> {
    pieces.map_values(|p: Inline| p@)
}

pub enum BlockView {
    ThematicBreak,
    Heading(Seq<PieceView>),
    Code { value: Seq<char>, line: Option<usize> },
    Other,
}

impl View for DocNode {
    type V = BlockView;

    open spec fn view(&self) -> BlockView {
        match *self {
            DocNode::ThematicBreak => BlockView::ThematicBreak,
            DocNode::Heading(pieces) => BlockView::Heading(piece_views(pieces@)),
            DocNode::Code { value, line } => BlockView::Code { value: value@, line },
            DocNode::Other => BlockView::Other,
        }
    }
}

/// The views of the blocks of a document, in order.
pub open spec fn node_views(nodes: Seq<DocNode>) -> Seq<BlockView> {
    nodes.map_values(|n: DocNode| n@)
}

/// The literal text of a heading: its text pieces, one after the other.
pub open spec fn heading_text(pieces: Seq<PieceView>) -> Seq<char>
    decreases pieces.len(),
{
    if pieces.len() == 0 {
        Seq::empty()
    } else {
        heading_text(pieces.drop_last()) + match pieces.last() {
            PieceView::Text(t) => t,
            PieceView::Other => Seq::empty(),
        }
    }
}

/// A heading that opens a test: its text, trimmed, starts with `Test:`.
pub open spec fn is_marker(node: BlockView) -> bool {
    node matches BlockView::Heading(pieces) && "Test:"@.is_prefix_of(
        trimmed(heading_text(pieces)),
    )
}

/// A heading whose text, trimmed, is the given title.
pub open spec fn is_titled(node: BlockView, title: Seq<char>) -> bool {
    node matches BlockView::Heading(pieces) && trimmed(heading_text(pieces)) == title
}

/// The two code blocks of one test.
pub struct TestBlocks {
    pub input: Seq<char>,
    pub expected: Seq<char>,
    pub line: usize,
}

/// The line a code block starts at, 0 where it is not known.
pub open spec fn line_of(node: BlockView) -> usize {
    match node {
        BlockView::Code { value, line: Some(n) } => n,
        _ => 0,
    }
}

/// The content of a code block.
pub open spec fn code_of(node: BlockView) -> Seq<char> {
    match node {
        BlockView::Code { value, line } => value,
        _ => Seq::empty(),
    }
}

/// The test whose marker heading stands just before position `at`: a
/// heading titled `Input`, a code block, a heading titled `Expected Output`
/// and a code block must follow one another from `at` on. The first of them
/// that is missing is the error.
pub open spec fn test_at(nodes: Seq<BlockView>, at: int) -> Result<TestBlocks, ParseErrorView> {
    if !(0 <= at < nodes.len() && is_titled(nodes[at], "Input"@)) {
        Err(ParseErrorView::MissingHeading("Input"@))
    } else if !(at + 1 < nodes.len() && nodes[at + 1] is Code) {
        Err(ParseErrorView::MissingCodeBlock)
    } else if !(at + 2 < nodes.len() && is_titled(nodes[at + 2], "Expected Output"@)) {
        Err(ParseErrorView::MissingHeading("Expected Output"@))
    } else if !(at + 3 < nodes.len() && nodes[at + 3] is Code) {
        Err(ParseErrorView::MissingCodeBlock)
    } else {
        Ok(
            TestBlocks {
                input: code_of(nodes[at + 1]),
                expected: code_of(nodes[at + 3]),
                line: line_of(nodes[at + 1]),
            },
        )
    }
}

/// The tests of the section that starts at `from`, with the position at
/// which the section ends. Every heading that opens a test gives one; all
/// other blocks are passed over. The section ends at the next thematic
/// break, or with the document.
pub open spec fn section(nodes: Seq<BlockView>, from: int) -> Result<
    (Seq<TestBlocks>, int),
    ParseErrorView,
>
    decreases nodes.len() - from,
{
    if !(0 <= from < nodes.len()) || nodes[from] is ThematicBreak {
        Ok((Seq::empty(), from))
    } else if !is_marker(nodes[from]) {
        section(nodes, from + 1)
    } else {
        match test_at(nodes, from + 1) {
            Err(e) => Err(e),
            Ok(blocks) => match section(nodes, from + 5) {
                Err(e) => Err(e),
                Ok((rest, end)) => Ok((seq![blocks] + rest, end)),
            },
        }
    }
}

/// The test case that a header and a test's two blocks make.
pub open spec fn case_of(header: HeaderView, file: PathBuf, blocks: TestBlocks) -> CaseView {
    CaseView {
        header,
        file,
        input_data: blocks.input,
        expected_output: blocks.expected,
        block_start_line: blocks.line,
    }
}

/// The test cases that a header and the blocks of a section make.
pub open spec fn cases_of(header: HeaderView, file: PathBuf, tests: Seq<TestBlocks>) -> Seq<
    CaseView,
> {
    tests.map_values(|b: TestBlocks| case_of(header, file, b))
}

/// The text of the header that starts at `at`: a thematic break there, with
/// a heading right after it.
pub open spec fn header_at(nodes: Seq<BlockView>, at: int) -> Option<Seq<char>> {
    if 0 <= at && at + 1 < nodes.len() && nodes[at] is ThematicBreak {
        match nodes[at + 1] {
            BlockView::Heading(pieces) => Some(heading_text(pieces)),
            _ => None,
        }
    } else {
        None
    }
}

/// The test cases of the document from position `from` on, where `decode`
/// says how a header's text reads.
///
/// Blocks are passed over up to a thematic break. The block after it is
/// consumed with it; where that block is a heading, its text is the header
/// of the section that follows, up to the next thematic break, and the
/// section's tests become test cases under that header. A header that does
/// not read, or a test that lacks a part, is the error of the whole
/// document.
pub open spec fn document(
    nodes: Seq<BlockView>,
    from: int,
    decode: Decode,
    file: PathBuf,
) -> Result<Seq<CaseView>, ParseErrorView>
    decreases nodes.len() + 1 - from,
{
    if !(0 <= from < nodes.len()) {
        Ok(Seq::empty())
    } else if !(nodes[from] is ThematicBreak) {
        document(nodes, from + 1, decode, file)
    } else {
        match header_at(nodes, from) {
            None => document(nodes, from + 2, decode, file),
            Some(text) => match decode(text) {
                Err(reason) => Err(ParseErrorView::MalformedHeader(reason)),
                Ok(header) => match section(nodes, from + 2) {
                    Err(e) => Err(e),
                    Ok((tests, end)) => {
                        proof {
                            lemma_section_end(nodes, from + 2);
                        }
                        match document(nodes, end, decode, file) {
                            Err(e) => Err(e),
                            Ok(rest) => Ok(cases_of(header, file, tests) + rest),
                        }
                    },
                },
            },
        }
    }
}

/// Whether the document holds no header from position `from` on, so that
/// no header is ever read.
pub open spec fn headerless(nodes: Seq<BlockView>, from: int) -> bool
    decreases nodes.len() + 1 - from,
{
    if !(0 <= from < nodes.len()) {
        true
    } else if !(nodes[from] is ThematicBreak) {
        headerless(nodes, from + 1)
    } else if header_at(nodes, from) is Some {
        false
    } else {
        headerless(nodes, from + 2)
    }
}

/// A section ends at or after its start, within the document.
pub proof fn lemma_section_end(nodes: Seq<BlockView>, from: int)
    requires
        0 <= from <= nodes.len(),
    ensures
        section(nodes, from) matches Ok((tests, end)) ==> from <= end <= nodes.len(),
    decreases nodes.len() - from,
{
    if from < nodes.len() && !(nodes[from] is ThematicBreak) {
        if !is_marker(nodes[from]) {
            lemma_section_end(nodes, from + 1);
        } else if test_at(nodes, from + 1) is Ok {
            lemma_section_end(nodes, from + 5);
        }
    }
}

/// A section runs up to the next thematic break: none stands in it, and it
/// ends at one or with the document.
pub proof fn lemma_section_runs_to_next_break(nodes: Seq<BlockView>, from: int)
    requires
        0 <= from <= nodes.len(),
    ensures
        section(nodes, from) matches Ok((tests, end)) ==> {
            &&& end == nodes.len() || nodes[end] is ThematicBreak
            &&& forall|k: int| from <= k < end ==> !(#[trigger] nodes[k] is ThematicBreak)
        },
    decreases nodes.len() - from,
{
    if from < nodes.len() && !(nodes[from] is ThematicBreak) {
        if !is_marker(nodes[from]) {
            lemma_section_runs_to_next_break(nodes, from + 1);
        } else if test_at(nodes, from + 1) is Ok {
            lemma_section_runs_to_next_break(nodes, from + 5);
        }
    }
}

/// A heading that opens a test and is followed by the test's four parts.
pub open spec fn is_complete_test(nodes: Seq<BlockView>, at: int) -> bool {
    0 <= at < nodes.len() && is_marker(nodes[at]) && test_at(nodes, at + 1) is Ok
}

/// The number of complete tests that start at a position from `from` up to,
/// but not including, `to`.
pub open spec fn complete_tests(nodes: Seq<BlockView>, from: int, to: int) -> nat
    decreases to - from,
{
    if from >= to {
        0
    } else if is_complete_test(nodes, to - 1) {
        complete_tests(nodes, from, to - 1) + 1
    } else {
        complete_tests(nodes, from, to - 1)
    }
}

/// The number of complete tests in the sections of the document from
/// position `from` on: those that stand after a header and its heading.
pub open spec fn tests_in_sections(nodes: Seq<BlockView>, from: int) -> nat
    decreases nodes.len() + 1 - from,
{
    if !(0 <= from < nodes.len()) {
        0
    } else if !(nodes[from] is ThematicBreak) {
        tests_in_sections(nodes, from + 1)
    } else if header_at(nodes, from) is None {
        tests_in_sections(nodes, from + 2)
    } else {
        match section(nodes, from + 2) {
            Err(e) => 0,
            Ok((tests, end)) => {
                proof {
                    lemma_section_end(nodes, from + 2);
                }
                complete_tests(nodes, from + 2, end) + tests_in_sections(nodes, end)
            },
        }
    }
}

proof fn lemma_complete_tests_split(nodes: Seq<BlockView>, from: int, mid: int, to: int)
    requires
        from <= mid <= to,
    ensures
        complete_tests(nodes, from, to) == complete_tests(nodes, from, mid) + complete_tests(
            nodes,
            mid,
            to,
        ),
    decreases to - mid,
{
    if mid < to {
        lemma_complete_tests_split(nodes, from, mid, to - 1);
    }
}

/// A section that can be read holds as many tests as there are headings in
/// it that open a test and are followed by the test's four parts, whatever
/// other blocks stand between them.
pub proof fn lemma_section_counts_complete_tests(nodes: Seq<BlockView>, from: int)
    requires
        0 <= from <= nodes.len(),
    ensures
        section(nodes, from) matches Ok((tests, end)) ==> tests.len() == complete_tests(
            nodes,
            from,
            end,
        ),
    decreases nodes.len() - from,
{
    if from < nodes.len() && !(nodes[from] is ThematicBreak) {
        lemma_section_end(nodes, from);
        if !is_marker(nodes[from]) {
            lemma_section_counts_complete_tests(nodes, from + 1);
            lemma_section_end(nodes, from + 1);
            if let Ok((tests, end)) = section(nodes, from) {
                lemma_complete_tests_split(nodes, from, from + 1, end);
                reveal_with_fuel(complete_tests, 2);
            }
        } else if test_at(nodes, from + 1) is Ok {
            lemma_section_counts_complete_tests(nodes, from + 5);
            lemma_section_end(nodes, from + 5);
            if let Ok((tests, end)) = section(nodes, from) {
                lemma_complete_tests_split(nodes, from, from + 5, end);
                reveal_with_fuel(complete_tests, 6);
                assert(!is_complete_test(nodes, from + 1));
                assert(!is_complete_test(nodes, from + 2));
                assert(!is_complete_test(nodes, from + 3));
                assert(!is_complete_test(nodes, from + 4));
                assert(complete_tests(nodes, from, from + 5) == 1);
            }
        }
    }
}

/// A document that can be read gives as many test cases as its sections hold
/// complete tests, however its headers read.
pub proof fn lemma_document_counts_complete_tests(
    nodes: Seq<BlockView>,
    from: int,
    decode: Decode,
    file: PathBuf,
)
    requires
        0 <= from,
    ensures
        document(nodes, from, decode, file) matches Ok(cases) ==> cases.len() == tests_in_sections(
            nodes,
            from,
        ),
    decreases nodes.len() + 1 - from,
{
    if from < nodes.len() {
        if !(nodes[from] is ThematicBreak) {
            lemma_document_counts_complete_tests(nodes, from + 1, decode, file);
        } else {
            match header_at(nodes, from) {
                None => {
                    lemma_document_counts_complete_tests(nodes, from + 2, decode, file);
                },
                Some(text) => {
                    if let Ok(header) = decode(text) {
                        if let Ok((tests, end)) = section(nodes, from + 2) {
                            lemma_section_end(nodes, from + 2);
                            lemma_section_counts_complete_tests(nodes, from + 2);
                            lemma_document_counts_complete_tests(nodes, end, decode, file);
                        }
                    }
                },
            }
        }
    }
}

/// A document that starts with its header and holds no other thematic break
/// gives, where it can be read, one test case for every complete test after
/// the header.
pub proof fn lemma_single_section_counts_all_tests(
    nodes: Seq<BlockView>,
    decode: Decode,
    file: PathBuf,
)
    requires
        header_at(nodes, 0) is Some,
        forall|k: int| 2 <= k < nodes.len() ==> !(#[trigger] nodes[k] is ThematicBreak),
    ensures
        document(nodes, 0, decode, file) matches Ok(cases) ==> cases.len() == complete_tests(
            nodes,
            2,
            nodes.len() as int,
        ),
{
    lemma_section_end(nodes, 2);
    lemma_section_runs_to_next_break(nodes, 2);
    lemma_section_counts_complete_tests(nodes, 2);
    if let Ok(header) = decode(header_at(nodes, 0)->Some_0) {
        if let Ok((tests, end)) = section(nodes, 2) {
            assert(end == nodes.len());
            assert(document(nodes, end, decode, file) == Ok::<Seq<CaseView>, ParseErrorView>(
                Seq::empty(),
            ));
            assert(cases_of(header, file, tests).len() == tests.len());
        }
    }
}

/// A test that lacks a part fails its whole section: where a heading opens a
/// test and a part is missing after it, and no thematic break and no other
/// heading that opens a test stands between the section's start and that
/// heading, the section's result is the error that names the missing part.
pub proof fn lemma_incomplete_test_fails_section(nodes: Seq<BlockView>, from: int, at: int)
    requires
        0 <= from <= at < nodes.len(),
        forall|k: int|
            from <= k < at ==> !(#[trigger] nodes[k] is ThematicBreak) && !is_marker(nodes[k]),
        is_marker(nodes[at]),
        test_at(nodes, at + 1) is Err,
    ensures
        section(nodes, from) == Err::<(Seq<TestBlocks>, int), ParseErrorView>(
            test_at(nodes, at + 1)->Err_0,
        ),
    decreases at - from,
{
    if from < at {
        assert(!(nodes[from] is ThematicBreak) && !is_marker(nodes[from]));
        lemma_incomplete_test_fails_section(nodes, from + 1, at);
    }
}

/// A document without a header has no test cases, however headers read.
pub proof fn lemma_headerless_document_is_empty(
    nodes: Seq<BlockView>,
    from: int,
    decode: Decode,
    file: PathBuf,
)
    requires
        0 <= from,
        headerless(nodes, from),
    ensures
        document(nodes, from, decode, file) == Ok::<Seq<CaseView>, ParseErrorView>(Seq::empty()),
    decreases nodes.len() + 1 - from,
{
    if from < nodes.len() {
        if !(nodes[from] is ThematicBreak) {
            lemma_headerless_document_is_empty(nodes, from + 1, decode, file);
        } else {
            lemma_headerless_document_is_empty(nodes, from + 2, decode, file);
        }
    }
}

/// Collects the literal text of a heading.
pub fn heading_text_of(pieces: &Vec<Inline>) -> (r: String)
    ensures
        r@ == heading_text(piece_views(pieces@)),
{
    let mut out = String::new();
    let mut i: usize = 0;
    while i < pieces.len()
        invariant
            i <= pieces.len(),
            out@ == heading_text(piece_views(pieces@).take(i as int)),
        decreases pieces.len() - i,
    {
        proof {
            let views = piece_views(pieces@);
            assert(views.take(i + 1).drop_last() =~= views.take(i as int));
            assert(views.take(i + 1).last() == pieces@[i as int]@);
        }
        match &pieces[i] {
            Inline::Text(t) => {
                out.append(t.as_str());
            },
            Inline::Other => {
                assert(out@ + Seq::<char>::empty() =~= out@);
            },
        }
        i = i + 1;
    }
    proof {
        let views = piece_views(pieces@);
        assert(views.take(views.len() as int) =~= views);
    }
    out
}

/// Whether the block is a heading that opens a test.
pub fn opens_test(node: &DocNode) -> (r: bool)
    ensures
        r == is_marker(node@),
{
    match node {
        DocNode::Heading(pieces) => {
            let text = heading_text_of(pieces);
            starts_with(trim(text.as_str()), "Test:")
        },
        _ => false,
    }
}

/// Whether the block is a heading with the given title.
pub fn has_title(node: &DocNode, title: &str) -> (r: bool)
    ensures
        r == is_titled(node@, title@),
{
    match node {
        DocNode::Heading(pieces) => {
            let text = heading_text_of(pieces);
            same_text(trim(text.as_str()), title)
        },
        _ => false,
    }
}

/// Reads the test whose marker heading stands just before position `at`:
/// its input, its expected output and the line the input starts at.
pub fn read_test(nodes: &Vec<DocNode>, at: usize) -> (r: Result<
    (String, String, usize),
    ParseError,
>)
    ensures
        match r {
            Ok((input, expected, line)) => test_at(node_views(nodes@), at as int) == Ok::<
                TestBlocks,
                ParseErrorView,
            >(TestBlocks { input: input@, expected: expected@, line }),
            Err(e) => test_at(node_views(nodes@), at as int) == Err::<TestBlocks, ParseErrorView>(
                e@,
            ),
        },
{
    proof {
        assert(node_views(nodes@).len() == nodes@.len());
        assert forall|i: int| 0 <= i < nodes@.len() implies #[trigger] node_views(nodes@)[i]
            == nodes@[i]@ by {}
    }
    if !(at < nodes.len() && has_title(&nodes[at], "Input")) {
        return Err(ParseError::MissingHeading(String::from_str("Input")));
    }
    if !(at + 1 < nodes.len()) {
        return Err(ParseError::MissingCodeBlock);
    }
    let (input, line) = match &nodes[at + 1] {
        DocNode::Code { value, line } => (
            value.clone(),
            match line {
                Some(n) => *n,
                None => 0,
            },
        ),
        _ => {
            return Err(ParseError::MissingCodeBlock);
        },
    };
    if !(at + 2 < nodes.len() && has_title(&nodes[at + 2], "Expected Output")) {
        return Err(ParseError::MissingHeading(String::from_str("Expected Output")));
    }
    if !(at + 3 < nodes.len()) {
        return Err(ParseError::MissingCodeBlock);
    }
    match &nodes[at + 3] {
        DocNode::Code { value, line: _ } => Ok((input, value.clone(), line)),
        _ => Err(ParseError::MissingCodeBlock),
    }
}

/// The result of a section of which the tests in `done` were read and the
/// rest is `rest`.
pub open spec fn section_after(
    done: Seq<TestBlocks>,
    rest: Result<(Seq<TestBlocks>, int), ParseErrorView>,
) -> Result<(Seq<TestBlocks>, int), ParseErrorView> {
    match rest {
        Ok((more, end)) => Ok((done + more, end)),
        Err(e) => Err(e),
    }
}

/// Reads the tests of the section that starts at `from`, each as a test
/// case under `header`, and says where the section ends: at the next
/// thematic break, or with the document.
pub fn read_section(file: &PathBuf, header: &TestHeader, nodes: &Vec<DocNode>, from: usize) -> (r:
    Result<(Vec<MarcoTestCase>, usize), ParseError>)
    ensures
        match r {
            Ok((cases, end)) => section(node_views(nodes@), from as int) matches Ok(
                (tests, stop),
            ) && stop == end && cases@.len() == tests.len() && case_views(cases@) == cases_of(
                header@,
                *file,
                tests,
            ),
            Err(e) => section(node_views(nodes@), from as int) == Err::<
                (Seq<TestBlocks>, int),
                ParseErrorView,
            >(e@),
        },
{
    let ghost views = node_views(nodes@);
    let mut cases: Vec<MarcoTestCase> = Vec::new();
    let mut pos: usize = from;
    let ghost mut done: Seq<TestBlocks> = Seq::empty();
    proof {
        assert(Seq::<TestBlocks>::empty() + section(views, from as int)->Ok_0.0 =~= section(
            views,
            from as int,
        )->Ok_0.0);
        assert(case_views(cases@) =~= cases_of(header@, *file, done));
    }
    loop
        invariant
            views == node_views(nodes@),
            views.len() == nodes@.len(),
            section(views, from as int) == section_after(done, section(views, pos as int)),
            case_views(cases@) == cases_of(header@, *file, done),
        decreases nodes.len() - pos,
    {
        if pos >= nodes.len() {
            proof {
                assert(done + Seq::<TestBlocks>::empty() =~= done);
                assert(case_views(cases@).len() == cases@.len());
            }
            return Ok((cases, pos));
        }
        let is_break = match &nodes[pos] {
            DocNode::ThematicBreak => true,
            _ => false,
        };
        if is_break {
            proof {
                assert(done + Seq::<TestBlocks>::empty() =~= done);
                assert(case_views(cases@).len() == cases@.len());
            }
            return Ok((cases, pos));
        }
        if !opens_test(&nodes[pos]) {
            pos = pos + 1;
        } else {
            match read_test(nodes, pos + 1) {
                Err(e) => {
                    return Err(e);
                },
                Ok((input, expected, line)) => {
                    let ghost blocks = TestBlocks { input: input@, expected: expected@, line };
                    let ghost rest = section(views, pos + 5);
                    proof {
                        if rest is Ok {
                            assert(done + (seq![blocks] + rest->Ok_0.0) =~= done.push(blocks)
                                + rest->Ok_0.0);
                        }
                    }
                    let ghost before = cases@;
                    cases.push(
                        MarcoTestCase {
                            header: header.clone(),
                            file: file.clone(),
                            input_data: input,
                            expected_output: expected,
                            block_start_line: line,
                        },
                    );
                    proof {
                        let views = case_views(cases@);
                        let wanted = cases_of(header@, *file, done.push(blocks));
                        assert(case_views(before).len() == before.len());
                        assert(cases_of(header@, *file, done).len() == done.len());
                        assert(views.len() == wanted.len());
                        assert forall|i: int| 0 <= i < views.len() implies views[i]
                            == wanted[i] by {
                            if i < before.len() {
                                assert(case_views(before)[i] == cases_of(
                                    header@,
                                    *file,
                                    done,
                                )[i]);
                            }
                        }
                        assert(views =~= wanted);
                        done = done.push(blocks);
                    }
                    pos = pos + 5;
                },
            }
        }
    }
}

/// The result of a document of which the cases in `done` were read and the
/// rest is `rest`.
pub open spec fn document_after(done: Seq<CaseView>, rest: Result<Seq<CaseView>, ParseErrorView>)
    -> Result<Seq<CaseView>, ParseErrorView> {
    match rest {
        Ok(more) => Ok(done + more),
        Err(e) => Err(e),
    }
}

/// Extracts the test cases of a document from its top-level blocks, reading
/// each header's text with `read_header`. The result is that of the
/// document under every way of reading headers that `read_header` follows,
/// and under any way at all where the document holds no header.
pub fn extract_cases<F: Fn(&str) -> Result<TestHeader, String>>(
    file: &PathBuf,
    nodes: &Vec<DocNode>,
    read_header: &F,
) -> (r: Result<Vec<MarcoTestCase>, ParseError>)
    requires
        reads_all(*read_header),
    ensures
        forall|decode: Decode|
            headerless(node_views(nodes@), 0) || reads_as(*read_header, decode)
                ==> extraction_view(r) == #[trigger] document(
                node_views(nodes@),
                0,
                decode,
                *file,
            ),
        headerless(node_views(nodes@), 0) ==> (r matches Ok(cases) && cases@.len() == 0),
{
    let ghost views = node_views(nodes@);
    let mut cases: Vec<MarcoTestCase> = Vec::new();
    let mut pos: usize = 0;
    proof {
        assert forall|decode: Decode| true implies #[trigger] document(views, 0, decode, *file)
            == document_after(case_views(cases@), document(views, 0, decode, *file)) by {
            let whole = document(views, 0, decode, *file);
            if whole is Ok {
                assert(case_views(cases@) + whole->Ok_0 =~= whole->Ok_0);
            }
        }
    }
    while pos < nodes.len()
        invariant
            views == node_views(nodes@),
            views.len() == nodes@.len(),
            reads_all(*read_header),
            headerless(views, 0) ==> headerless(views, pos as int) && cases@.len() == 0,
            forall|decode: Decode|
                headerless(views, 0) || reads_as(*read_header, decode) ==> #[trigger] document(
                    views,
                    0,
                    decode,
                    *file,
                ) == document_after(
                    case_views(cases@),
                    document(views, pos as int, decode, *file),
                ),
        decreases nodes.len() - pos,
    {
        let is_break = match &nodes[pos] {
            DocNode::ThematicBreak => true,
            _ => false,
        };
        if !is_break {
            pos = pos + 1;
        } else if pos + 1 >= nodes.len() {
            proof {
                assert forall|decode: Decode| true implies #[trigger] document(
                    views,
                    pos as int,
                    decode,
                    *file,
                ) == document(views, views.len() as int, decode, *file) by {
                    assert(document(views, pos + 2, decode, *file) == Ok::<
                        Seq<CaseView>,
                        ParseErrorView,
                    >(Seq::empty()));
                }
            }
            pos = nodes.len();
        } else {
            match &nodes[pos + 1] {
                DocNode::Heading(pieces) => {
                    let text = heading_text_of(pieces);
                    assert(!headerless(views, pos as int));
                    let header = match accept_header(read_header(text.as_str())) {
                        Ok(header) => header,
                        Err(e) => {
                            return Err(e);
                        },
                    };
                    proof {
                        lemma_section_end(views, pos + 2);
                    }
                    match read_section(file, &header, nodes, pos + 2) {
                        Err(e) => {
                            return Err(e);
                        },
                        Ok((found, end)) => {
                            let ghost before = case_views(cases@);
                            let ghost added = case_views(found@);
                            append_cases(&mut cases, found);
                            proof {
                                assert forall|decode: Decode|
                                    reads_as(*read_header, decode) implies #[trigger] document(
                                    views,
                                    0,
                                    decode,
                                    *file,
                                ) == document_after(
                                    case_views(cases@),
                                    document(views, end as int, decode, *file),
                                ) by {
                                    let rest = document(views, end as int, decode, *file);
                                    if rest is Ok {
                                        assert(before + (added + rest->Ok_0) =~= (before + added)
                                            + rest->Ok_0);
                                    }
                                }
                            }
                            pos = end;
                        },
                    }
                },
                _ => {
                    pos = pos + 2;
                },
            }
        }
    }
    proof {
        assert forall|decode: Decode|
            headerless(views, 0) || reads_as(*read_header, decode) implies extraction_view(
            Ok(cases),
        ) == #[trigger] document(views, 0, decode, *file) by {
            assert(case_views(cases@) + Seq::<CaseView>::empty() =~= case_views(cases@));
        }
    }
    Ok(cases)
}

/// What `markdown::to_mdast` reads from a text under its default options:
/// the top-level blocks of the tree (`None` where the tree's top is no
/// root), or the reason it gave for rejecting the text.
pub uninterp spec fn markdown_blocks(src: Seq<char>) -> Result<Option<Seq<BlockView>>, Seq<char>>;

/// What the reading of a markdown text gave, with the text of what it holds.
pub open spec fn reading_view(r: Result<Option<Vec<DocNode>>, String>) -> Result<
    Option<Seq<BlockView>>,
    Seq<char>,
> {
    match r {
        Ok(Some(nodes)) => Ok(Some(node_views(nodes@))),
        Ok(None) => Ok(None),
        Err(reason) => Err(reason@),
    }
}

/// `markdown::to_mdast` with the default options, and the children of the
/// root it returns, each as a `DocNode`: a thematic break, a heading with
/// its children (text or other), a code block with its value and the line
/// of its start, or another block. The tree is a function of the text alone.
///
/// The tree is as deep as the text nests, and it is dropped level by level
/// on the stack. Only a text that nests lightly is admitted: its tree has
/// a few thousand levels at most.
#[verifier::external_body]
fn read_blocks(src: &str) -> (r: Result<Option<Vec<DocNode>>, String>)
    requires
        nests_lightly(src@),
    ensures
        reading_view(r) == markdown_blocks(src@),
{
    match to_mdast(src, &ParseOptions::default()) {
        Ok(Node::Root(root)) => Ok(Some(root.children.iter().map(|node| match node {
            Node::ThematicBreak(_) => DocNode::ThematicBreak,
            Node::Heading(h) => DocNode::Heading(h.children.iter().map(|piece| match piece {
                Node::Text(t) => Inline::Text(t.value.clone()),
                _ => Inline::Other,
            }).collect()),
            Node::Code(c) => DocNode::Code { value: c.value.clone(), line: c.position.as_ref()
                .map(|p| p.start.line) },
            _ => DocNode::Other,
        }).collect())),
        Ok(_) => Ok(None),
        Err(reason) => Err(reason.to_string()),
    }
}

/// The test cases of a markdown text read block by block, where `decode`
/// says how a header's text reads. A text that nests too deep is not read.
pub open spec fn structural(src: Seq<char>, decode: Decode, file: PathBuf) -> Result<
    Seq<CaseView>,
    ParseErrorView,
> {
    if !nests_lightly(src) {
        Err(ParseErrorView::NestedTooDeep)
    } else {
        match markdown_blocks(src) {
            Ok(Some(nodes)) => document(nodes, 0, decode, file),
            Ok(None) => Err(ParseErrorView::InvalidMarkdown("expected a root node"@)),
            Err(reason) => Err(ParseErrorView::InvalidMarkdown(reason)),
        }
    }
}

/// Whether the text is a markdown document that holds no header.
pub open spec fn holds_no_header(src: Seq<char>) -> bool {
    nests_lightly(src) && (markdown_blocks(src) matches Ok(Some(nodes)) && headerless(nodes, 0))
}

/// Whether reading the text block by block reads no header: the text nests
/// too deep or is no markdown, or its document holds no header.
pub open spec fn structural_reads_no_header(src: Seq<char>) -> bool {
    !nests_lightly(src) || match markdown_blocks(src) {
        Ok(Some(nodes)) => headerless(nodes, 0),
        _ => true,
    }
}

/// Parses a markdown text block by block and extracts its test cases,
/// reading each header's text with `read_header`. A document without a
/// header has no test cases.
pub fn parse_test_markdown<F: Fn(&str) -> Result<TestHeader, String>>(
    file: PathBuf,
    src: &str,
    read_header: F,
) -> (r: Result<Vec<MarcoTestCase>, ParseError>)
    requires
        reads_all(read_header),
    ensures
        forall|decode: Decode|
            structural_reads_no_header(src@) || reads_as(read_header, decode) ==> extraction_view(
                r,
            ) == #[trigger] structural(src@, decode, file),
        holds_no_header(src@) ==> (r matches Ok(cases) && cases@.len() == 0),
{
    parse_blocks(&file, src, &read_header)
}

pub(crate) fn parse_blocks<F: Fn(&str) -> Result<TestHeader, String>>(
    file: &PathBuf,
    src: &str,
    read_header: &F,
) -> (r: Result<Vec<MarcoTestCase>, ParseError>)
    requires
        reads_all(*read_header),
    ensures
        forall|decode: Decode|
            structural_reads_no_header(src@) || reads_as(*read_header, decode) ==> extraction_view(
                r,
            ) == #[trigger] structural(src@, decode, *file),
        holds_no_header(src@) ==> (r matches Ok(cases) && cases@.len() == 0),
{
    if !check_nesting(src) {
        return Err(ParseError::NestedTooDeep);
    }
    match read_blocks(src) {
        Ok(Some(nodes)) => extract_cases(file, &nodes, read_header),
        Ok(None) => Err(ParseError::InvalidMarkdown(String::from_str("expected a root node"))),
        Err(reason) => Err(ParseError::InvalidMarkdown(reason)),
    }
}

} // verus!
