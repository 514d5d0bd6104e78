//! Text primitives over `&str` with their meaning stated on `Seq<char>`.

use vstd::prelude::*;
use vstd::string::StringSliceAdditionalSpecFns;
use vstd::utf8::{decode_utf8, encode_utf8, encode_utf8_decode_utf8};

verus! {

/// The characters that Unicode counts as white space (`White_Space`).
pub open spec fn is_space(c: char) -> bool {
    let n = c as u32;
    ||| 0x09 <= n <= 0x0D
    ||| n == 0x20
    ||| n == 0x85
    ||| n == 0xA0
    ||| n == 0x1680
    ||| 0x2000 <= n <= 0x200A
    ||| n == 0x2028
    ||| n == 0x2029
    ||| n == 0x202F
    ||| n == 0x205F
    ||| n == 0x3000
}

/// The first position at or after `from` that holds no white space
/// (the length of `s` when there is none).
pub open spec fn skip_spaces(s: Seq<char>, from: int) -> int
    decreases s.len() - from,
{
    if 0 <= from < s.len() && is_space(s[from]) {
        skip_spaces(s, from + 1)
    } else {
        from
    }
}

/// The end of the last run of non-space text before `to`: the smallest
/// position such that everything from it up to `to` is white space.
pub open spec fn back_spaces(s: Seq<char>, to: int) -> int
    decreases to,
{
    if 0 < to <= s.len() && is_space(s[to - 1]) {
        back_spaces(s, to - 1)
    } else {
        to
    }
}

/// `s` without its leading and trailing white space.
pub open spec fn trimmed(s: Seq<char>) -> Seq<char> {
    let start = skip_spaces(s, 0);
    let end = back_spaces(s, s.len() as int);
    if start < end {
        s.subrange(start, end)
    } else {
        Seq::empty()
    }
}

/// `s` with every line feed preceded by a carriage return.
pub open spec fn with_crlf(s: Seq<char>) -> Seq<char>
    decreases s.len(),
{
    if s.len() == 0 {
        Seq::empty()
    } else if s.last() == '\n' {
        with_crlf(s.drop_last()).push('\r').push('\n')
    } else {
        with_crlf(s.drop_last()).push(s.last())
    }
}

pub proof fn lemma_skip_spaces(s: Seq<char>, from: int)
    requires
        0 <= from <= s.len(),
    ensures
        from <= skip_spaces(s, from) <= s.len(),
        forall|k: int| from <= k < skip_spaces(s, from) ==> is_space(#[trigger] s[k]),
        skip_spaces(s, from) < s.len() ==> !is_space(s[skip_spaces(s, from)]),
    decreases s.len() - from,
{
    if from < s.len() && is_space(s[from]) {
        lemma_skip_spaces(s, from + 1);
    }
}

pub proof fn lemma_skip_spaces_is(s: Seq<char>, from: int, stop: int)
    requires
        0 <= from <= stop <= s.len(),
        forall|k: int| from <= k < stop ==> is_space(#[trigger] s[k]),
        stop < s.len() ==> !is_space(s[stop]),
    ensures
        skip_spaces(s, from) == stop,
    decreases stop - from,
{
    if from < stop {
        assert(is_space(s[from]));
        lemma_skip_spaces_is(s, from + 1, stop);
    }
}

pub proof fn lemma_back_spaces(s: Seq<char>, to: int)
    requires
        0 <= to <= s.len(),
    ensures
        0 <= back_spaces(s, to) <= to,
        forall|k: int| back_spaces(s, to) <= k < to ==> is_space(#[trigger] s[k]),
        back_spaces(s, to) > 0 ==> !is_space(s[back_spaces(s, to) - 1]),
    decreases to,
{
    if 0 < to && is_space(s[to - 1]) {
        lemma_back_spaces(s, to - 1);
    }
}

pub proof fn lemma_back_spaces_is(s: Seq<char>, to: int, stop: int)
    requires
        0 <= stop <= to <= s.len(),
        forall|k: int| stop <= k < to ==> is_space(#[trigger] s[k]),
        stop > 0 ==> !is_space(s[stop - 1]),
    ensures
        back_spaces(s, to) == stop,
    decreases to - stop,
{
    if stop < to {
        assert(is_space(s[to - 1]));
        lemma_back_spaces_is(s, to - 1, stop);
    }
}

/// Trimmed text neither begins nor ends with white space, and trimming it
/// again changes nothing.
pub proof fn lemma_trimmed_is_tight(s: Seq<char>)
    ensures
        trimmed(s).len() > 0 ==> !is_space(trimmed(s).first()) && !is_space(trimmed(s).last()),
        trimmed(trimmed(s)) == trimmed(s),
{
    let t = trimmed(s);
    lemma_skip_spaces(s, 0);
    lemma_back_spaces(s, s.len() as int);
    if t.len() > 0 {
        lemma_skip_spaces_is(t, 0, 0);
        lemma_back_spaces_is(t, t.len() as int, t.len() as int);
        assert(t.subrange(0, t.len() as int) =~= t);
    }
}

/// In text whose line feeds were given carriage returns, every line feed
/// stands after a carriage return.
pub proof fn lemma_with_crlf_has_no_bare_line_feed(s: Seq<char>, at: int)
    requires
        0 <= at < with_crlf(s).len(),
        with_crlf(s)[at] == '\n',
    ensures
        at > 0 && with_crlf(s)[at - 1] == '\r',
    decreases s.len(),
{
    if s.len() > 0 {
        let front = with_crlf(s.drop_last());
        if at < front.len() {
            lemma_with_crlf_has_no_bare_line_feed(s.drop_last(), at);
        }
    }
}

/// Giving line feeds their carriage returns keeps a text without line feeds
/// as it is.
pub proof fn lemma_with_crlf_keeps_single_line(s: Seq<char>)
    requires
        forall|i: int| 0 <= i < s.len() ==> s[i] != '\n',
    ensures
        with_crlf(s) == s,
    decreases s.len(),
{
    if s.len() > 0 {
        lemma_with_crlf_keeps_single_line(s.drop_last());
        assert(s.drop_last().push(s.last()) =~= s);
    }
}

pub fn is_whitespace(c: char) -> (r: bool)
    ensures
        r == is_space(c),
{
    let n: u32 = c as u32;
    (0x09 <= n && n <= 0x0D) || n == 0x20 || n == 0x85 || n == 0xA0 || n == 0x1680 || (0x2000 <= n
        && n <= 0x200A) || n == 0x2028 || n == 0x2029 || n == 0x202F || n == 0x205F || n == 0x3000
}

/// Whether two texts hold the same characters.
pub fn same_text(a: &str, b: &str) -> (r: bool)
    ensures
        r == (a@ == b@),
{
    let x = a.as_bytes();
    let y = b.as_bytes();
    proof {
        encode_utf8_decode_utf8(a@);
        encode_utf8_decode_utf8(b@);
    }
    if x.len() != y.len() {
        return false;
    }
    let mut i: usize = 0;
    while i < x.len()
        invariant
            i <= x.len(),
            x.len() == y.len(),
            x@ == encode_utf8(a@),
            y@ == encode_utf8(b@),
            decode_utf8(encode_utf8(a@)) == a@,
            decode_utf8(encode_utf8(b@)) == b@,
            forall|k: int| 0 <= k < i ==> x@[k] == y@[k],
        decreases x.len() - i,
    {
        if x[i] != y[i] {
            return false;
        }
        i = i + 1;
    }
    assert(x@ =~= y@);
    true
}

/// `String::push` appends the one character to the end of the string.
pub assume_specification[ String::push ](s: &mut String, c: char)
    ensures
        final(s)@ == old(s)@.push(c),
;

pub fn trim(s: &str) -> (r: &str)
    ensures
        r@ == trimmed(s@),
{
    let total = s.unicode_len();
    let mut i: usize = 0;
    let mut start: usize = total;
    let mut end: usize = 0;
    for c in it: s.chars()
        invariant
            it.seq() == s@,
            i == it.index(),
            total == s@.len(),
            start == total || start < i,
            forall|k: int| 0 <= k < i && k < start ==> is_space(#[trigger] s@[k]),
            start < total ==> !is_space(s@[start as int]),
            end <= i,
            forall|k: int| end <= k < i ==> is_space(#[trigger] s@[k]),
            end > 0 ==> !is_space(s@[end - 1]),
    {
        if !is_whitespace(c) {
            if start == total {
                start = i;
            }
            end = i + 1;
        }
        i = i + 1;
    }
    proof {
        lemma_skip_spaces_is(s@, 0, start as int);
        lemma_back_spaces_is(s@, total as int, end as int);
    }
    if start < end {
        s.substring_char(start, end)
    } else {
        s.substring_char(0, 0)
    }
}

pub fn starts_with(s: &str, prefix: &str) -> (r: bool)
    ensures
        r == prefix@.is_prefix_of(s@),
{
    let n = prefix.unicode_len();
    if s.unicode_len() < n {
        false
    } else {
        let head = s.substring_char(0, n);
        proof {
            if head@ == prefix@ {
                assert(prefix@ =~= s@.subrange(0, n as int));
            }
            if prefix@.is_prefix_of(s@) {
                assert(head@ =~= prefix@);
            }
        }
        same_text(head, prefix)
    }
}

pub fn crlf(s: &str) -> (r: String)
    ensures
        r@ == with_crlf(s@),
{
    let mut out = String::new();
    let ghost mut seen: Seq<char> = Seq::empty();
    for c in it: s.chars()
        invariant
            it.seq() == s@,
            seen == s@.take(it.index()),
            out@ == with_crlf(seen),
    {
        proof {
            let next = s@.take(it.index() + 1);
            assert(next.drop_last() =~= seen);
            assert(next.last() == c);
            seen = next;
        }
        if c == '\n' {
            out.push('\r');
            out.push('\n');
        } else {
            out.push(c);
        }
    }
    proof {
        assert(s@.take(s@.len() as int) =~= s@);
    }
    out
}

} // verus!
