//! What a report shows of a run: how many tests passed, and for a failed
//! test the lines in which its output differs from the expected one.

use crate::test_types::TestResult;
use crate::text::{trim, trimmed};
use similar::{ChangeTag, TextDiff};
use vstd::prelude::*;

verus! {

/// What a line of a comparison is: common to both texts, only in the first,
/// or only in the second.
#[derive(Clone, Copy, Debug, PartialEq, Eq, Structural)]
pub enum ChangeKind {
    Equal,
    Delete,
    Insert,
}

/// One line of a comparison of two texts.
#[derive(Clone, Debug, PartialEq, Eq)]
pub struct Change {
    pub kind: ChangeKind,
    /// The line, ended by a line feed.
    pub text: String,
}

pub struct ChangeView {
    pub kind: ChangeKind,
    pub text: Seq<char>,
}

impl View for Change {
    type V = ChangeView;

    open spec fn view(&self) -> ChangeView {
        ChangeView { kind: self.kind, text: self.text@ }
    }
}

/// The views of a list of changes, in order.
pub open spec fn change_views(changes: Seq<Change>) -> Seq<ChangeView> {
    changes.map_values(|c: Change| c@)
}

/// The changes that `similar` finds between the lines of two texts.
pub uninterp spec fn line_diff(old: Seq<char>, new: Seq<char>) -> Seq<ChangeView>;

/// `TextDiff::from_lines` and `TextDiff::iter_all_changes`: the lines of
/// both texts in order, each tagged as common, deleted or inserted, and
/// written out as `Change`'s `Display` does, which ends a line that lacks a
/// line feed with one. The changes are a function of the two texts alone.
#[verifier::external_body]
fn diff_lines(old: &str, new: &str) -> (r: Vec<Change>)
    ensures
        change_views(r@) == line_diff(old@, new@),
{
    TextDiff::from_lines(old, new).iter_all_changes().map(|change| Change {
        kind: match change.tag() {
            ChangeTag::Equal => ChangeKind::Equal,
            ChangeTag::Delete => ChangeKind::Delete,
            ChangeTag::Insert => ChangeKind::Insert,
        },
        text: change.to_string(),
    }).collect()
}

/// The colour in which a line of the given kind is shown.
pub open spec fn colour_of(kind: ChangeKind) -> Seq<char> {
    match kind {
        ChangeKind::Equal => "\x1b[90m"@,
        ChangeKind::Delete => "\x1b[97m"@,
        ChangeKind::Insert => "\x1b[97m"@,
    }
}

/// The sign that is shown before a line of the given kind.
pub open spec fn sign_of(kind: ChangeKind) -> Seq<char> {
    match kind {
        ChangeKind::Equal => "  "@,
        ChangeKind::Delete => "\x1b[91m-\x1b[0m "@,
        ChangeKind::Insert => "\x1b[92m+\x1b[0m "@,
    }
}

/// One line of a comparison as it is shown: indented, in its colour, with
/// its sign before it.
pub open spec fn shown_change(change: ChangeView) -> Seq<char> {
    "    "@ + colour_of(change.kind) + sign_of(change.kind) + change.text + "\x1b[0m"@
}

/// The lines of a comparison as they are shown, one after the other.
pub open spec fn shown(changes: Seq<ChangeView>) -> Seq<char>
    decreases changes.len(),
{
    if changes.len() == 0 {
        Seq::empty()
    } else {
        shown(changes.drop_last()) + shown_change(changes.last())
    }
}

/// Writes out the lines of a comparison as a report shows them.
pub fn render_changes(changes: &Vec<Change>) -> (r: String)
    ensures
        r@ == shown(change_views(changes@)),
{
    let mut out = String::new();
    let mut i: usize = 0;
    while i < changes.len()
        invariant
            i <= changes.len(),
            out@ == shown(change_views(changes@).take(i as int)),
        decreases changes.len() - i,
    {
        let change = &changes[i];
        proof {
            let next = change_views(changes@).take(i + 1);
            assert(next.drop_last() =~= change_views(changes@).take(i as int));
            assert(next.last() == change@);
        }
        let ghost before = out@;
        out.append("    ");
        match change.kind {
            ChangeKind::Equal => {
                out.append("\x1b[90m");
                out.append("  ");
            },
            ChangeKind::Delete => {
                out.append("\x1b[97m");
                out.append("\x1b[91m-\x1b[0m ");
            },
            ChangeKind::Insert => {
                out.append("\x1b[97m");
                out.append("\x1b[92m+\x1b[0m ");
            },
        }
        out.append(change.text.as_str());
        out.append("\x1b[0m");
        assert(out@ =~= before + shown_change(change@));
        i = i + 1;
    }
    proof {
        assert(change_views(changes@).take(changes@.len() as int) =~= change_views(changes@));
    }
    out
}

/// Writes out, line by line, how an actual output differs from the
/// expected one, both taken without surrounding white space.
pub fn format_diff(actual: &str, expected: &str) -> (r: String)
    ensures
        r@ == shown(line_diff(trimmed(actual@), trimmed(expected@))),
{
    let changes = diff_lines(trim(actual), trim(expected));
    render_changes(&changes)
}

/// The number of results that passed.
pub open spec fn passed_among(results: Seq<TestResult>) -> nat
    decreases results.len(),
{
    if results.len() == 0 {
        0
    } else if results.last().passed {
        passed_among(results.drop_last()) + 1
    } else {
        passed_among(results.drop_last())
    }
}

/// Whether every result passed.
pub open spec fn all_passed(results: Seq<TestResult>) -> bool {
    forall|i: int| 0 <= i < results.len() ==> (#[trigger] results[i]).passed
}

/// No more results passed than there are, and as many passed as there are
/// exactly when every one passed.
pub proof fn lemma_passed_among_bounds(results: Seq<TestResult>)
    ensures
        passed_among(results) <= results.len(),
        passed_among(results) == results.len() <==> all_passed(results),
    decreases results.len(),
{
    if results.len() > 0 {
        let shorter = results.drop_last();
        lemma_passed_among_bounds(shorter);
        if passed_among(results) == results.len() {
            assert forall|i: int| 0 <= i < results.len() implies (#[trigger] results[i]).passed by {
                if i < shorter.len() {
                    assert(shorter[i] == results[i]);
                }
            }
        }
    }
}

/// Counts the results that passed.
pub fn count_passed(results: &Vec<TestResult>) -> (r: usize)
    ensures
        r == passed_among(results@),
        r <= results.len(),
        r == results.len() <==> all_passed(results@),
{
    let mut n: usize = 0;
    let mut i: usize = 0;
    while i < results.len()
        invariant
            i <= results.len(),
            n == passed_among(results@.take(i as int)),
            n <= i,
        decreases results.len() - i,
    {
        proof {
            assert(results@.take(i + 1).drop_last() =~= results@.take(i as int));
            lemma_passed_among_bounds(results@.take(i + 1));
        }
        if results[i].passed {
            n = n + 1;
        }
        i = i + 1;
    }
    proof {
        assert(results@.take(results@.len() as int) =~= results@);
        lemma_passed_among_bounds(results@);
    }
    n
}

} // verus!
