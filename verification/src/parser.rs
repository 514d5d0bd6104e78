//! Test cases out of documents: what can go wrong, how headers are read,
//! and the run over several documents.

use crate::test_types::{case_views, CaseView, HeaderView, MarcoTestCase, TestHeader};
use std::path::PathBuf;
use vstd::prelude::*;

use crate::parser::blocks::{parse_blocks, structural, structural_reads_no_header};
use crate::parser::rendered::{parse_rendered, rendered, rendered_reads_no_header};

pub mod blocks;
pub mod nesting;
pub mod rendered;

verus! {

/// Why no test cases could be taken from a document.
#[derive(Clone, Debug, PartialEq, Eq)]
pub enum ParseError {
    /// The document has no header. Extraction passes over such a document
    /// without cases; this is for the caller that wants to say so.
    MissingHeader,
    /// The header's text could not be read as a header; the reason is given.
    MalformedHeader(String),
    /// A heading with this text was expected.
    MissingHeading(String),
    /// A code block was expected after an `Input` or `Expected Output` heading.
    MissingCodeBlock,
    /// The document's code blocks cannot be paired: their number is odd.
    UnmatchedBlockPair,
    /// The document could not be read as markdown; the reason is given.
    InvalidMarkdown(String),
    /// The document's rendering is longer than can be read.
    DocumentTooLarge,
    /// The document's blocks or markup are nested deeper than can be read.
    NestedTooDeep,
}

pub enum ParseErrorView {
    MissingHeader,
    MalformedHeader(Seq<char>),
    MissingHeading(Seq<char>),
    MissingCodeBlock,
    UnmatchedBlockPair,
    InvalidMarkdown(Seq<char>),
    DocumentTooLarge,
    NestedTooDeep,
}

impl View for ParseError {
    type V = ParseErrorView;

    open spec fn view(&self) -> ParseErrorView {
        match *self {
            ParseError::MissingHeader => ParseErrorView::MissingHeader,
            ParseError::MalformedHeader(reason) => ParseErrorView::MalformedHeader(reason@),
            ParseError::MissingHeading(text) => ParseErrorView::MissingHeading(text@),
            ParseError::MissingCodeBlock => ParseErrorView::MissingCodeBlock,
            ParseError::UnmatchedBlockPair => ParseErrorView::UnmatchedBlockPair,
            ParseError::InvalidMarkdown(reason) => ParseErrorView::InvalidMarkdown(reason@),
            ParseError::DocumentTooLarge => ParseErrorView::DocumentTooLarge,
            ParseError::NestedTooDeep => ParseErrorView::NestedTooDeep,
        }
    }
}

/// What is said of an error.
pub open spec fn message_of(e: ParseErrorView) -> Seq<char> {
    match e {
        ParseErrorView::MissingHeader => "no header found"@,
        ParseErrorView::MalformedHeader(reason) => "failed to parse header: "@ + reason,
        ParseErrorView::MissingHeading(text) => "expected '"@ + text + "' heading"@,
        ParseErrorView::MissingCodeBlock => "expected code block after heading"@,
        ParseErrorView::UnmatchedBlockPair => "unmatched input/expected output pair"@,
        ParseErrorView::InvalidMarkdown(reason) => "failed to parse markdown: "@ + reason,
        ParseErrorView::DocumentTooLarge => "document is too large"@,
        ParseErrorView::NestedTooDeep => "document is nested too deep"@,
    }
}

impl ParseError {
    /// Says in words what went wrong.
    pub fn message(&self) -> (r: String)
        ensures
            r@ == message_of(self@),
    {
        match self {
            ParseError::MissingHeader => String::from_str("no header found"),
            ParseError::MalformedHeader(reason) => {
                let mut out = String::from_str("failed to parse header: ");
                out.append(reason.as_str());
                out
            },
            ParseError::MissingHeading(text) => {
                let mut out = String::from_str("expected '");
                out.append(text.as_str());
                out.append("' heading");
                out
            },
            ParseError::MissingCodeBlock => String::from_str("expected code block after heading"),
            ParseError::UnmatchedBlockPair => String::from_str(
                "unmatched input/expected output pair",
            ),
            ParseError::InvalidMarkdown(reason) => {
                let mut out = String::from_str("failed to parse markdown: ");
                out.append(reason.as_str());
                out
            },
            ParseError::DocumentTooLarge => String::from_str("document is too large"),
            ParseError::NestedTooDeep => String::from_str("document is nested too deep"),
        }
    }
}

/// A way of reading headers: what the text of a header reads as, a header
/// or the reason why it is none.
pub type Decode = spec_fn(Seq<char>) -> Result<HeaderView, Seq<char>>;

/// What a reader of headers gave back, as plain text.
pub open spec fn reply_view(reply: Result<TestHeader, String>) -> Result<HeaderView, Seq<char>> {
    match reply {
        Ok(header) => Ok(header@),
        Err(reason) => Err(reason@),
    }
}

/// The reader can be called on every text.
pub open spec fn reads_all<F: Fn(&str) -> Result<TestHeader, String>>(read: F) -> bool {
    forall|text: &str| call_requires(read, (text,))
}

/// The reader gives for every text what `decode` says of it.
pub open spec fn reads_as<F: Fn(&str) -> Result<TestHeader, String>>(
    read: F,
    decode: Decode,
) -> bool {
    forall|text: &str, reply: Result<TestHeader, String>| #[trigger]
        call_ensures(read, (text,), reply) ==> reply_view(reply) == decode(text@)
}

/// Takes what a reader of headers gave back: the header, or the document's
/// error that its header does not read.
pub fn accept_header(reply: Result<TestHeader, String>) -> (r: Result<TestHeader, ParseError>)
    ensures
        match reply {
            Ok(header) => r == Ok::<TestHeader, ParseError>(header),
            Err(reason) => r == Err::<TestHeader, ParseError>(ParseError::MalformedHeader(reason)),
        },
{
    match reply {
        Ok(header) => Ok(header),
        Err(reason) => Err(ParseError::MalformedHeader(reason)),
    }
}

pub open spec fn extraction_view(r: Result<Vec<MarcoTestCase>, ParseError>) -> Result<
    Seq<CaseView>,
    ParseErrorView,
> {
    match r {
        Ok(cases) => Ok(case_views(cases@)),
        Err(e) => Err(e@),
    }
}

/// Moves the cases of `more` to the end of `cases`.
pub(crate) fn append_cases(cases: &mut Vec<MarcoTestCase>, more: Vec<MarcoTestCase>)
    ensures
        case_views(final(cases)@) == case_views(old(cases)@)
            + case_views(more@),
{
    let mut more = more;
    let ghost first = cases@;
    let ghost second = more@;
    cases.append(&mut more);
    assert(case_views(cases@) =~= case_views(first)
        + case_views(second));
}

/// How a document's text is read for its test cases.
#[derive(Clone, Copy, Debug, PartialEq, Eq, Structural)]
pub enum Format {
    /// Block by block: a header after a thematic break, then headings that
    /// open tests.
    Blocks,
    /// Through its rendering as HTML: a header in a heading, then the
    /// preformatted blocks two by two.
    Rendered,
}

/// The test cases of a document read in the given way, where `decode` says
/// how a header's text reads.
pub open spec fn extracted(
    format: Format,
    src: Seq<char>,
    decode: Decode,
    file: PathBuf,
) -> Result<Seq<CaseView>, ParseErrorView> {
    match format {
        Format::Blocks => structural(src, decode, file),
        Format::Rendered => rendered(src, decode, file),
    }
}

/// Whether reading the text in the given way reads no header.
pub open spec fn reads_no_header(format: Format, src: Seq<char>) -> bool {
    match format {
        Format::Blocks => structural_reads_no_header(src),
        Format::Rendered => rendered_reads_no_header(src),
    }
}

/// Extracts the test cases of one document, read in the given way, reading
/// each header's text with `read_header`. The result is that of the
/// document under every way of reading headers that `read_header` follows,
/// and under any way at all where no header is read.
pub fn extract<F: Fn(&str) -> Result<TestHeader, String>>(
    format: Format,
    file: &PathBuf,
    src: &str,
    read_header: &F,
) -> (r: Result<Vec<MarcoTestCase>, ParseError>)
    requires
        reads_all(*read_header),
    ensures
        forall|decode: Decode|
            reads_no_header(format, src@) || reads_as(*read_header, decode) ==> extraction_view(r)
                == #[trigger] extracted(format, src@, decode, *file),
{
    match format {
        Format::Blocks => parse_blocks(file, src, read_header),
        Format::Rendered => parse_rendered(file, src, read_header),
    }
}

/// What a run over several documents gave: the test cases of the documents
/// that could be read, and for each of the others its path and its error.
#[derive(Debug, PartialEq, Eq)]
pub struct Collected {
    pub cases: Vec<MarcoTestCase>,
    pub failures: Vec<(PathBuf, ParseError)>,
}

pub struct CollectedView {
    pub cases: Seq<CaseView>,
    pub failures: Seq<(PathBuf, ParseErrorView)>,
}

impl View for Collected {
    type V = CollectedView;

    open spec fn view(&self) -> CollectedView {
        CollectedView {
            cases: case_views(self.cases@),
            failures: self.failures@.map_values(|f: (PathBuf, ParseError)| (f.0, f.1@)),
        }
    }
}

/// What a run over the given documents (each a path and a text) gives: the
/// cases of every document that can be read, in the order of the documents,
/// and the error of every other one under its path.
pub open spec fn gathered(
    sources: Seq<(PathBuf, String)>,
    format: Format,
    decode: Decode,
) -> CollectedView
    decreases sources.len(),
{
    if sources.len() == 0 {
        CollectedView { cases: Seq::empty(), failures: Seq::empty() }
    } else {
        let before = gathered(sources.drop_last(), format, decode);
        let (file, src) = sources.last();
        match extracted(format, src@, decode, file) {
            Ok(cases) => CollectedView { cases: before.cases + cases, failures: before.failures },
            Err(e) => CollectedView {
                cases: before.cases,
                failures: before.failures.push((file, e)),
            },
        }
    }
}

/// Whether reading the documents in the given way reads no header at all.
pub open spec fn read_no_header(sources: Seq<(PathBuf, String)>, format: Format) -> bool {
    forall|i: int| 0 <= i < sources.len() ==> reads_no_header(format, (#[trigger] sources[i]).1@)
}

/// A document that cannot be read costs the run nothing but itself: the
/// cases of the run are those of the run without that document.
pub proof fn lemma_failed_document_is_left_out(
    sources: Seq<(PathBuf, String)>,
    format: Format,
    decode: Decode,
    at: int,
)
    requires
        0 <= at < sources.len(),
        extracted(format, sources[at].1@, decode, sources[at].0) is Err,
    ensures
        gathered(sources, format, decode).cases == gathered(
            sources.remove(at),
            format,
            decode,
        ).cases,
    decreases sources.len(),
{
    if at == sources.len() - 1 {
        assert(sources.remove(at) =~= sources.drop_last());
    } else {
        let shorter = sources.remove(at);
        assert(shorter.drop_last() =~= sources.drop_last().remove(at));
        assert(shorter.last() == sources.last());
        lemma_failed_document_is_left_out(sources.drop_last(), format, decode, at);
    }
}

/// Every document of a run is accounted for: it gave its cases or it is
/// listed with its error.
pub proof fn lemma_every_document_counts(
    sources: Seq<(PathBuf, String)>,
    format: Format,
    decode: Decode,
)
    ensures
        gathered(sources, format, decode).failures.len() <= sources.len(),
        gathered(sources, format, decode).failures.len() == 0 <==> forall|i: int|
            0 <= i < sources.len() ==> extracted(
                format,
                (#[trigger] sources[i]).1@,
                decode,
                sources[i].0,
            ) is Ok,
    decreases sources.len(),
{
    if sources.len() > 0 {
        let shorter = sources.drop_last();
        lemma_every_document_counts(shorter, format, decode);
        if gathered(sources, format, decode).failures.len() == 0 {
            assert forall|i: int| 0 <= i < sources.len() implies extracted(
                format,
                (#[trigger] sources[i]).1@,
                decode,
                sources[i].0,
            ) is Ok by {
                if i < shorter.len() {
                    assert(shorter[i] == sources[i]);
                }
            }
        }
    }
}

/// Collects the test cases of several documents, each given by its path and
/// its text. A document that cannot be read is listed with its error and
/// does not stop the others. The result is that of the run under every way
/// of reading headers that `read_header` follows, and under any way at all
/// where no header is read.
pub fn collect_tests<F: Fn(&str) -> Result<TestHeader, String>>(
    sources: &Vec<(PathBuf, String)>,
    format: Format,
    read_header: F,
) -> (r: Collected)
    requires
        reads_all(read_header),
    ensures
        forall|decode: Decode|
            read_no_header(sources@, format) || reads_as(read_header, decode) ==> r@
                == #[trigger] gathered(sources@, format, decode),
{
    let mut all = Collected { cases: Vec::new(), failures: Vec::new() };
    let mut i: usize = 0;
    proof {
        assert(all@.cases =~= Seq::<CaseView>::empty());
        assert(all@.failures =~= Seq::<(PathBuf, ParseErrorView)>::empty());
        assert(sources@.take(0).len() == 0);
    }
    while i < sources.len()
        invariant
            i <= sources.len(),
            reads_all(read_header),
            forall|decode: Decode|
                read_no_header(sources@, format) || reads_as(read_header, decode) ==> all@
                    == #[trigger] gathered(sources@.take(i as int), format, decode),
        decreases sources.len() - i,
    {
        let ghost before = all@;
        proof {
            assert(sources@.take(i + 1).drop_last() =~= sources@.take(i as int));
            assert(sources@.take(i + 1).last() == sources@[i as int]);
        }
        match extract(format, &sources[i].0, sources[i].1.as_str(), &read_header) {
            Ok(cases) => {
                append_cases(&mut all.cases, cases);
            },
            Err(e) => {
                all.failures.push((sources[i].0.clone(), e));
                proof {
                    assert(all@.failures =~= before.failures.push((sources@[i as int].0, e@)));
                }
            },
        }
        proof {
            assert forall|decode: Decode|
                read_no_header(sources@, format) || reads_as(read_header, decode) implies all@
                == #[trigger] gathered(sources@.take(i + 1), format, decode) by {
                assert(before == gathered(sources@.take(i as int), format, decode));
                if read_no_header(sources@, format) {
                    assert(reads_no_header(format, sources@[i as int].1@));
                }
            }
        }
        i = i + 1;
    }
    proof {
        assert(sources@.take(sources@.len() as int) =~= sources@);
    }
    all
}

} // verus!
