//! Test cases out of a document rendered as HTML: a header in the first
//! second-level heading, then the preformatted blocks two by two.

use crate::parser::{
    accept_header, extraction_view, reads_all, reads_as, Decode, ParseError, ParseErrorView,
};
use crate::test_types::{case_views, opt_text, CaseView, HeaderView, MarcoTestCase, TestHeader};
use crate::text::{crlf, trim, trimmed, with_crlf};
use dom_query::{Document, Selection};
use std::path::PathBuf;
use vstd::prelude::*;
use vstd::string::StringSliceAdditionalSpecFns;
use vstd::utf8::encode_utf8;

verus! {

#[verifier::external_type_specification]
#[verifier::external_body]
pub struct ExDocument(Document);

#[verifier::external_type_specification]
#[verifier::external_body]
pub struct ExSelection<'a>(Selection<'a>);

/// An element that stands before another under the same parent.
pub struct Sibling {
    /// Whether it is a heading of any of the six levels.
    pub heading: bool,
    /// Its text, that of its descendants included.
    pub text: Seq<char>,
}

/// An element of a rendered document, as far as test extraction reads it.
pub struct Element {
    /// Its text, that of its descendants included.
    pub text: Seq<char>,
    /// Whether it is a heading of any of the six levels.
    pub heading: bool,
    /// The elements before it under the same parent, the nearest last.
    pub before: Seq<Sibling>,
}

/// The HTML that `markdown::to_html` renders a markdown text to.
pub uninterp spec fn markdown_html(src: Seq<char>) -> Seq<char>;

/// The HTML text that a document was read from.
pub uninterp spec fn html_of(doc: Document) -> Seq<char>;

/// The elements that a CSS selector matches in the document that `dom_query`
/// reads from an HTML text, in the order that it finds them in; none where
/// the selector's text is no selector.
pub uninterp spec fn selection(html: Seq<char>, selector: Seq<char>) -> Seq<Element>;

/// The elements that a selection holds, in its order.
pub uninterp spec fn selected(s: Selection<'_>) -> Seq<Element>;

/// The selector that matches a heading of any level.
pub open spec fn heading_selector() -> Seq<char> {
    "h1, h2, h3, h4, h5, h6"@
}

/// The element just before `e` under the same parent.
pub open spec fn previous(e: Element) -> Element
    recommends
        e.before.len() > 0,
{
    Element {
        text: e.before.last().text,
        heading: e.before.last().heading,
        before: e.before.drop_last(),
    }
}

/// The element just before the one element of `s`, where there is one.
pub open spec fn previous_of(s: Seq<Element>) -> Seq<Element> {
    if s.len() == 1 && s[0].before.len() > 0 {
        seq![previous(s[0])]
    } else {
        Seq::empty()
    }
}

/// Whether one of the elements of `s` is a heading.
pub open spec fn some_heading(s: Seq<Element>) -> bool {
    exists|i: int| 0 <= i < s.len() && (#[trigger] s[i]).heading
}

/// The texts of the elements of `s`, one after the other.
pub open spec fn all_text(s: Seq<Element>) -> Seq<char>
    decreases s.len(),
{
    if s.len() == 0 {
        Seq::empty()
    } else {
        all_text(s.drop_last()) + s.last().text
    }
}

/// `markdown::to_html`: the text rendered to HTML as CommonMark says.
#[verifier::external_body]
fn render_html(src: &str) -> (r: String)
    ensures
        r@ == markdown_html(src@),
{
    markdown::to_html(src)
}

/// The longest HTML text that is read as a document, in bytes. `dom_query`
/// keeps text in buffers of less than four gigabytes and may write three
/// bytes for one that it reads, so a gigabyte is sure to fit.
pub const MAX_HTML_BYTES: usize = 0x4000_0000;

/// Whether an HTML text is short enough to be read as a document.
pub open spec fn html_fits(html: Seq<char>) -> bool {
    encode_utf8(html).len() <= MAX_HTML_BYTES
}

/// `Document::from`: the document that the HTML text describes. It fails
/// on a text of four gigabytes or more, so only a text that fits is
/// admitted.
#[verifier::external_body]
fn html_tree(html: String) -> (r: Document)
    requires
        html_fits(html@),
    ensures
        html_of(r) == html@,
{
    Document::from(html)
}

/// `Document::try_select`: the selection of the elements that the selector
/// matches, where it matches any.
#[verifier::external_body]
fn try_select<'a>(doc: &'a Document, selector: &str) -> (r: Option<Selection<'a>>)
    ensures
        match r {
            Some(s) => selected(s) == selection(html_of(*doc), selector@) && selected(s).len() > 0,
            None => selection(html_of(*doc), selector@).len() == 0,
        },
{
    doc.try_select(selector)
}

/// `Selection::iter`: one selection for each element of `s`, in order.
#[verifier::external_body]
fn each<'a>(s: &Selection<'a>) -> (r: Vec<Selection<'a>>)
    ensures
        r@.len() == selected(*s).len(),
        forall|i: int| 0 <= i < r@.len() ==> selected(#[trigger] r@[i]) == seq![selected(*s)[i]],
{
    s.iter().collect()
}

/// `Selection::text`: the texts of the selected elements, one after the
/// other. Taken of one element at most: the texts of several add up, and
/// the call fails on a sum that is too long.
#[verifier::external_body]
fn text_of(s: &Selection) -> (r: String)
    requires
        selected(*s).len() <= 1,
    ensures
        r@ == all_text(selected(*s)),
{
    s.text().to_string()
}

/// `Selection::is_empty`: whether the selection holds no element.
#[verifier::external_body]
fn is_empty(s: &Selection) -> (r: bool)
    ensures
        r == (selected(*s).len() == 0),
{
    s.is_empty()
}

/// `Selection::is`: whether the selector matches one of the selected
/// elements. Stated for the selector of headings only.
#[verifier::external_body]
fn is_match(s: &Selection, selector: &str) -> (r: bool)
    ensures
        selector@ == heading_selector() ==> r == some_heading(selected(*s)),
{
    s.is(selector)
}

/// `Selection::prev_sibling`: the element just before the selected one
/// under the same parent, where there is one. Stated for a selection of one
/// element at most.
#[verifier::external_body]
fn prev_sibling<'a>(s: &Selection<'a>) -> (r: Selection<'a>)
    requires
        selected(*s).len() <= 1,
    ensures
        selected(r) == previous_of(selected(*s)),
{
    s.prev_sibling()
}

/// The title that elements standing before a block give it: the trimmed
/// text of the nearest heading among them.
pub open spec fn title_before(before: Seq<Sibling>) -> Option<Seq<char>>
    decreases before.len(),
{
    if before.len() == 0 {
        None
    } else if before.last().heading {
        Some(trimmed(before.last().text))
    } else {
        title_before(before.drop_last())
    }
}

/// The title that `e` or an element before it gives.
pub open spec fn title_from(e: Element) -> Option<Seq<char>> {
    if e.heading {
        Some(trimmed(e.text))
    } else {
        title_before(e.before)
    }
}

/// The title of the heading that stands nearest before the one selected
/// element.
fn title_of(el: &Selection) -> (r: Option<String>)
    requires
        selected(*el).len() == 1,
    ensures
        opt_text(r) == title_before(selected(*el)[0].before),
{
    let mut current = prev_sibling(el);
    while !is_empty(&current)
        invariant
            selected(current).len() <= 1,
            title_before(selected(*el)[0].before) == (if selected(current).len() == 1 {
                title_from(selected(current)[0])
            } else {
                None
            }),
        decreases
                (if selected(current).len() == 0 {
                    0
                } else {
                    selected(current)[0].before.len() + 1
                }),
    {
        if is_match(&current, "h1, h2, h3, h4, h5, h6") {
            let text = text_of(&current);
            proof {
                reveal_with_fuel(all_text, 2);
                assert(all_text(selected(current)) =~= selected(current)[0].text);
            }
            return Some(String::from_str(trim(text.as_str())));
        }
        current = prev_sibling(&current);
    }
    None
}

/// Gets the title of the heading that stands nearest before an element,
/// among the elements that share its parent. Of a selection of several
/// elements the first is taken; an empty selection has no title.
pub fn get_el_title(el: Selection) -> (r: Option<String>)
    ensures
        opt_text(r) == if selected(el).len() == 0 {
            None
        } else {
            title_before(selected(el)[0].before)
        },
{
    let items = each(&el);
    if items.len() == 0 {
        None
    } else {
        title_of(&items[0])
    }
}

/// A preformatted block of a rendered document: its text, and the title of
/// the heading nearest before it, if there is one.
#[derive(Clone, Debug, PartialEq, Eq)]
pub struct PreBlock {
    pub text: String,
    pub title: Option<String>,
}

pub struct PreView {
    pub text: Seq<char>,
    pub title: Option<Seq<char>>,
}

impl View for PreBlock {
    type V = PreView;

    open spec fn view(&self) -> PreView {
        PreView { text: self.text@, title: opt_text(self.title) }
    }
}

/// The views of a list of blocks, in order.
pub open spec fn block_views(blocks: Seq<PreBlock>) -> Seq<PreView> {
    blocks.map_values(|b: PreBlock| b@)
}

/// What test extraction reads of a preformatted element.
pub open spec fn pre_of(e: Element) -> PreView {
    PreView { text: e.text, title: title_before(e.before) }
}

/// The name of a test case: the header's name, followed by the title of the
/// case's input block where it has one.
pub open spec fn titled_name(name: Seq<char>, title: Option<Seq<char>>) -> Seq<char> {
    match title {
        Some(t) => name + ": "@ + t,
        None => name,
    }
}

/// The test case that two consecutive blocks make: the first is its input
/// and names it, the second is its expected output. Line feeds become
/// carriage return and line feed, and the line is not known.
pub open spec fn pair_case(header: HeaderView, file: PathBuf, first: PreView, second: PreView)
    -> CaseView {
    CaseView {
        header: HeaderView {
            name: titled_name(header.name, first.title),
            author: header.author,
            runner: header.runner,
            passing: header.passing,
            date: header.date,
        },
        file,
        input_data: with_crlf(first.text),
        expected_output: with_crlf(second.text),
        block_start_line: 0,
    }
}

/// The test cases that the blocks of a document make, two by two; an odd
/// number of blocks is an error.
pub open spec fn paired(header: HeaderView, file: PathBuf, blocks: Seq<PreView>) -> Result<
    Seq<CaseView>,
    ParseErrorView,
> {
    if blocks.len() % 2 == 1 {
        Err(ParseErrorView::UnmatchedBlockPair)
    } else {
        Ok(
            Seq::new(
                blocks.len() / 2,
                |i: int| pair_case(header, file, blocks[2 * i], blocks[2 * i + 1]),
            ),
        )
    }
}

/// Pairs the blocks of a document into test cases under `header`.
pub fn pair_blocks(file: &PathBuf, header: &TestHeader, blocks: &Vec<PreBlock>) -> (r: Result<
    Vec<MarcoTestCase>,
    ParseError,
>)
    ensures
        extraction_view(r) == paired(header@, *file, block_views(blocks@)),
        match r {
            Ok(cases) => blocks@.len() % 2 == 0 && cases@.len() == blocks@.len() / 2,
            Err(e) => blocks@.len() % 2 == 1 && e == ParseError::UnmatchedBlockPair,
        },
{
    if blocks.len() % 2 == 1 {
        return Err(ParseError::UnmatchedBlockPair);
    }
    let mut cases: Vec<MarcoTestCase> = Vec::new();
    let mut i: usize = 0;
    while i < blocks.len()
        invariant
            blocks.len() % 2 == 0,
            i <= blocks.len(),
            i % 2 == 0,
            cases@.len() == i / 2,
            forall|k: int|
                0 <= k < cases@.len() ==> (#[trigger] cases@[k])@ == pair_case(
                    header@,
                    *file,
                    blocks@[2 * k]@,
                    blocks@[2 * k + 1]@,
                ),
        decreases blocks.len() - i,
    {
        let first = &blocks[i];
        let second = &blocks[i + 1];
        let mut name = header.name.clone();
        match &first.title {
            Some(title) => {
                name.append(": ");
                name.append(title.as_str());
            },
            None => {},
        }
        let mut own = header.clone();
        own.name = name;
        cases.push(
            MarcoTestCase {
                header: own,
                file: file.clone(),
                input_data: crlf(first.text.as_str()),
                expected_output: crlf(second.text.as_str()),
                block_start_line: 0,
            },
        );
        i = i + 2;
    }
    proof {
        let views = case_views(cases@);
        let wanted = paired(header@, *file, block_views(blocks@))->Ok_0;
        assert(views.len() == wanted.len());
        assert forall|k: int| 0 <= k < views.len() implies views[k] == wanted[k] by {
            assert(views[k] == cases@[k]@);
        }
        assert(views =~= wanted);
    }
    Ok(cases)
}

/// Reads the preformatted elements of a selection, each with its title.
fn collect_blocks(pres: &Selection) -> (r: Vec<PreBlock>)
    ensures
        block_views(r@) == selected(*pres).map_values(|e: Element| pre_of(e)),
{
    let items = each(pres);
    let mut blocks: Vec<PreBlock> = Vec::new();
    let mut i: usize = 0;
    while i < items.len()
        invariant
            i <= items.len(),
            items@.len() == selected(*pres).len(),
            forall|k: int|
                0 <= k < items@.len() ==> selected(#[trigger] items@[k]) == seq![
                    selected(*pres)[k],
                ],
            blocks@.len() == i,
            forall|k: int| 0 <= k < i ==> (#[trigger] blocks@[k])@ == pre_of(selected(*pres)[k]),
        decreases items.len() - i,
    {
        let text = text_of(&items[i]);
        let title = title_of(&items[i]);
        proof {
            reveal_with_fuel(all_text, 2);
            assert(selected(items@[i as int]) == seq![selected(*pres)[i as int]]);
            assert(all_text(selected(items@[i as int])) =~= selected(*pres)[i as int].text);
        }
        blocks.push(PreBlock { text, title });
        i = i + 1;
    }
    assert(block_views(blocks@) =~= selected(*pres).map_values(|e: Element| pre_of(e)));
    blocks
}

/// The text of the header of a rendered document: that of the first
/// second-level heading that is the first of its kind under its parent, if
/// there is one. A rendering that is too long to be read is an error.
pub open spec fn header_source(src: Seq<char>) -> Result<Option<Seq<char>>, ParseErrorView> {
    let html = markdown_html(src);
    let front = selection(html, "h2:first-of-type"@);
    if !html_fits(html) {
        Err(ParseErrorView::DocumentTooLarge)
    } else if front.len() == 0 {
        Ok(None)
    } else {
        Ok(Some(front[0].text))
    }
}

/// The test cases of a markdown text read through its rendering as HTML,
/// where `decode` says how a header's text reads.
///
/// A document without a header is passed over: it has no test cases.
/// Otherwise the preformatted elements of the document are paired into test
/// cases under its header.
pub open spec fn rendered(src: Seq<char>, decode: Decode, file: PathBuf) -> Result<
    Seq<CaseView>,
    ParseErrorView,
> {
    match header_source(src) {
        Err(e) => Err(e),
        Ok(None) => Ok(Seq::empty()),
        Ok(Some(text)) => match decode(text) {
            Err(reason) => Err(ParseErrorView::MalformedHeader(reason)),
            Ok(header) => paired(
                header,
                file,
                selection(markdown_html(src), "pre"@).map_values(|e: Element| pre_of(e)),
            ),
        },
    }
}

/// Whether reading the text through its rendering reads no header: the
/// rendering is too long, or holds no heading to take one from.
pub open spec fn rendered_reads_no_header(src: Seq<char>) -> bool {
    !(header_source(src) matches Ok(Some(text)))
}

pub open spec fn source_view(r: Result<Option<String>, ParseError>) -> Result<
    Option<Seq<char>>,
    ParseErrorView,
> {
    match r {
        Ok(text) => Ok(opt_text(text)),
        Err(e) => Err(e@),
    }
}

/// Reads a rendering as a document, unless it is too long.
fn read_html(html: String) -> (r: Option<Document>)
    ensures
        match r {
            Some(doc) => html_fits(html@) && html_of(doc) == html@,
            None => !html_fits(html@),
        },
{
    if html.as_str().as_bytes().len() <= MAX_HTML_BYTES {
        Some(html_tree(html))
    } else {
        None
    }
}

/// The text of a document's header heading, if it has one.
fn front_text(doc: &Document) -> (r: Option<String>)
    ensures
        match r {
            Some(text) => selection(html_of(*doc), "h2:first-of-type"@).len() > 0 && text@
                == selection(html_of(*doc), "h2:first-of-type"@)[0].text,
            None => selection(html_of(*doc), "h2:first-of-type"@).len() == 0,
        },
{
    match try_select(doc, "h2:first-of-type") {
        None => None,
        Some(front) => {
            let firsts = each(&front);
            let text = text_of(&firsts[0]);
            proof {
                reveal_with_fuel(all_text, 2);
                assert(all_text(selected(firsts@[0])) =~= selected(front)[0].text);
            }
            Some(text)
        },
    }
}

/// Finds the text of the header of a markdown text read through its
/// rendering as HTML. A text without one gives no test cases.
pub fn frontmatter(src: &str) -> (r: Result<Option<String>, ParseError>)
    ensures
        source_view(r) == header_source(src@),
{
    match read_html(render_html(src)) {
        None => Err(ParseError::DocumentTooLarge),
        Some(doc) => Ok(front_text(&doc)),
    }
}

/// Parses a markdown text through its rendering as HTML and extracts its
/// test cases, reading the header's text with `read_header`. A document
/// without a header is passed over: it has no test cases.
pub fn parse_test_markdown_html<F: Fn(&str) -> Result<TestHeader, String>>(
    file: PathBuf,
    src: &str,
    read_header: F,
) -> (r: Result<Vec<MarcoTestCase>, ParseError>)
    requires
        reads_all(read_header),
    ensures
        forall|decode: Decode|
            rendered_reads_no_header(src@) || reads_as(read_header, decode) ==> extraction_view(r)
                == #[trigger] rendered(src@, decode, file),
        header_source(src@) == Ok::<Option<Seq<char>>, ParseErrorView>(None) ==> (r matches Ok(
            cases,
        ) && cases@.len() == 0),
{
    parse_rendered(&file, src, &read_header)
}

pub(crate) fn parse_rendered<F: Fn(&str) -> Result<TestHeader, String>>(
    file: &PathBuf,
    src: &str,
    read_header: &F,
) -> (r: Result<Vec<MarcoTestCase>, ParseError>)
    requires
        reads_all(*read_header),
    ensures
        forall|decode: Decode|
            rendered_reads_no_header(src@) || reads_as(*read_header, decode) ==> extraction_view(r)
                == #[trigger] rendered(src@, decode, *file),
        header_source(src@) == Ok::<Option<Seq<char>>, ParseErrorView>(None) ==> (r matches Ok(
            cases,
        ) && cases@.len() == 0),
{
    let doc = match read_html(render_html(src)) {
        Some(doc) => doc,
        None => {
            return Err(ParseError::DocumentTooLarge);
        },
    };
    match front_text(&doc) {
        None => {
            let none: Vec<MarcoTestCase> = Vec::new();
            assert(case_views(none@) =~= Seq::<CaseView>::empty());
            Ok(none)
        },
        Some(text) => match accept_header(read_header(text.as_str())) {
            Err(e) => Err(e),
            Ok(header) => {
                let blocks = match try_select(&doc, "pre") {
                    Some(pres) => collect_blocks(&pres),
                    None => Vec::new(),
                };
                assert(block_views(blocks@) =~= selection(html_of(doc), "pre"@).map_values(
                    |e: Element| pre_of(e),
                ));
                pair_blocks(file, &header, &blocks)
            },
        },
    }
}

} // verus!
