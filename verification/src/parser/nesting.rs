//! A measure of how deep the blocks and the markup of a markdown text can
//! nest, taken from the text alone.
//!
//! A block quote or a list item that holds a line is opened by a marker at
//! the start of that line, or is carried on by white space there. Emphasis
//! and links nest within one paragraph, which no blank line divides, and
//! each needs a sign of its own. So the weight of the markers and white
//! space at the start of a line bounds the containers around it, and the
//! number of markup signs between two blank lines bounds the markup around
//! a piece of text.

use vstd::prelude::*;

verus! {

/// The largest weight that the start of a line may have.
pub const MAX_LINE_WEIGHT: usize = 1024;

/// The largest number of markup signs that may stand between blank lines.
pub const MAX_MARKUP_SIGNS: usize = 4096;

/// White space within a line.
pub open spec fn is_blank(c: char) -> bool {
    c == ' ' || c == '\t'
}

/// A character that a marker of a block quote or of a list item holds.
pub open spec fn is_marker_sign(c: char) -> bool {
    c == '>' || c == '-' || c == '+' || c == '*' || c == '.' || c == ')'
}

/// A character that opens emphasis or a link.
pub open spec fn is_markup_sign(c: char) -> bool {
    c == '*' || c == '_' || c == '['
}

/// A decimal digit.
pub open spec fn is_digit(c: char) -> bool {
    '0' <= c && c <= '9'
}

/// What the start of a line may hold before its content: white space,
/// marker signs, and the digits of a numbered item.
pub open spec fn is_prefix_sign(c: char) -> bool {
    is_blank(c) || is_marker_sign(c) || is_digit(c)
}

/// What a character adds to the weight of the start of a line: a tab four,
/// a space or a marker sign one.
pub open spec fn weight_of(c: char) -> nat {
    if c == '\t' {
        4
    } else if c == ' ' || is_marker_sign(c) {
        1
    } else {
        0
    }
}

/// How far a text has been read.
pub struct Gauge {
    /// Whether the last character was a carriage return.
    pub after_return: bool,
    /// Whether the line so far is all start: no content has begun.
    pub in_prefix: bool,
    /// Whether the line so far holds white space only.
    pub blank: bool,
    /// The weight of the start of the line so far.
    pub line: nat,
    /// The number of markup signs since the last blank line.
    pub run: nat,
    /// The largest weight of the start of a line so far.
    pub heaviest_line: nat,
    /// The largest number of markup signs between blank lines so far.
    pub longest_run: nat,
}

/// Before anything is read.
pub open spec fn start() -> Gauge {
    Gauge {
        after_return: false,
        in_prefix: true,
        blank: true,
        line: 0,
        run: 0,
        heaviest_line: 0,
        longest_run: 0,
    }
}

/// After one more character. A carriage return or a line feed ends the line
/// (a line feed right after a carriage return belongs to the same end), and
/// the end of a blank line ends the run of markup signs.
pub open spec fn step(g: Gauge, c: char) -> Gauge {
    if c == '\n' && g.after_return {
        Gauge { after_return: false, ..g }
    } else if c == '\n' || c == '\r' {
        Gauge {
            after_return: c == '\r',
            in_prefix: true,
            blank: true,
            line: 0,
            run: if g.blank {
                0
            } else {
                g.run
            },
            heaviest_line: g.heaviest_line,
            longest_run: g.longest_run,
        }
    } else {
        let line = if g.in_prefix {
            g.line + weight_of(c)
        } else {
            g.line
        };
        let run = if is_markup_sign(c) {
            g.run + 1
        } else {
            g.run
        };
        Gauge {
            after_return: false,
            in_prefix: g.in_prefix && is_prefix_sign(c),
            blank: g.blank && is_blank(c),
            line,
            run,
            heaviest_line: if line > g.heaviest_line {
                line
            } else {
                g.heaviest_line
            },
            longest_run: if run > g.longest_run {
                run
            } else {
                g.longest_run
            },
        }
    }
}

/// After a whole text.
pub open spec fn gauge(s: Seq<char>) -> Gauge
    decreases s.len(),
{
    if s.len() == 0 {
        start()
    } else {
        step(gauge(s.drop_last()), s.last())
    }
}

/// Whether a text nests lightly: no line starts heavier, and no run of
/// lines holds more markup signs, than is allowed.
pub open spec fn nests_lightly(s: Seq<char>) -> bool {
    gauge(s).heaviest_line <= MAX_LINE_WEIGHT && gauge(s).longest_run <= MAX_MARKUP_SIGNS
}

/// What was measured of the start of a text is not undone by the rest.
pub proof fn lemma_gauge_grows(s: Seq<char>, upto: int)
    requires
        0 <= upto <= s.len(),
    ensures
        gauge(s.take(upto)).heaviest_line <= gauge(s).heaviest_line,
        gauge(s.take(upto)).longest_run <= gauge(s).longest_run,
    decreases s.len() - upto,
{
    if upto < s.len() {
        lemma_gauge_grows(s, upto + 1);
        assert(s.take(upto + 1).drop_last() =~= s.take(upto));
    } else {
        assert(s.take(upto) =~= s);
    }
}

/// A text without any marker, markup sign or white space at the start of a
/// line nests lightly.
pub proof fn lemma_empty_text_nests_lightly()
    ensures
        nests_lightly(Seq::<char>::empty()),
{
}

/// Measures a text and says whether it nests lightly.
pub fn check_nesting(s: &str) -> (r: bool)
    ensures
        r == nests_lightly(s@),
{
    let mut after_return = false;
    let mut in_prefix = true;
    let mut blank = true;
    let mut line: usize = 0;
    let mut run: usize = 0;
    let mut heaviest_line: usize = 0;
    let mut longest_run: usize = 0;
    let ghost mut seen: Seq<char> = Seq::empty();
    for c in it: s.chars()
        invariant
            it.seq() == s@,
            seen == s@.take(it.index()),
            gauge(seen) == (Gauge {
                after_return,
                in_prefix,
                blank,
                line: line as nat,
                run: run as nat,
                heaviest_line: heaviest_line as nat,
                longest_run: longest_run as nat,
            }),
            line <= heaviest_line <= MAX_LINE_WEIGHT,
            run <= longest_run <= MAX_MARKUP_SIGNS,
    {
        proof {
            let next = s@.take(it.index() + 1);
            assert(next.drop_last() =~= seen);
            assert(next.last() == c);
            seen = next;
            lemma_gauge_grows(s@, it.index() + 1);
        }
        if c == '\n' && after_return {
            after_return = false;
        } else if c == '\n' || c == '\r' {
            after_return = c == '\r';
            in_prefix = true;
            if blank {
                run = 0;
            }
            blank = true;
            line = 0;
        } else {
            let white = c == ' ' || c == '\t';
            let marker = c == '>' || c == '-' || c == '+' || c == '*' || c == '.' || c == ')';
            let digit = '0' <= c && c <= '9';
            if in_prefix {
                if c == '\t' {
                    line = line + 4;
                } else if c == ' ' || marker {
                    line = line + 1;
                }
            }
            if c == '*' || c == '_' || c == '[' {
                run = run + 1;
            }
            after_return = false;
            in_prefix = in_prefix && (white || marker || digit);
            blank = blank && white;
            if line > MAX_LINE_WEIGHT || run > MAX_MARKUP_SIGNS {
                return false;
            }
            if line > heaviest_line {
                heaviest_line = line;
            }
            if run > longest_run {
                longest_run = run;
            }
        }
    }
    proof {
        assert(s@.take(s@.len() as int) =~= s@);
    }
    true
}

} // verus!
