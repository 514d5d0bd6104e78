//! Command lines and the comparison of outputs.

use crate::text::{is_space, same_text, trim, trimmed};
use vstd::prelude::*;

verus! {

/// The texts of a list of strings, in order.
pub open spec fn texts(v: Seq<String>) -> Seq<Seq<char>> {
    v.map_values(|s: String| s@)
}

/// The words that `shell_words::split` makes of a command line, `None` where
/// it reports an error.
pub uninterp spec fn shell_split(cmd: Seq<char>) -> Option<Seq<Seq<char>>>;

/// `shell_words::split`: the words of `cmd` under the quoting rules of a
/// POSIX shell, or nothing when a quote is left open. The words are a
/// function of the text alone.
#[verifier::external_body]
fn split_words(cmd: &str) -> (r: Option<Vec<String>>)
    ensures
        match r {
            Some(words) => shell_split(cmd@) == Some(texts(words@)),
            None => shell_split(cmd@) is None,
        },
{
    shell_words::split(cmd).ok()
}

/// The program and its arguments among the words of a command line: the
/// first word and the rest, when there is a first word.
pub open spec fn command_of(words: Option<Seq<Seq<char>>>) -> Option<(Seq<char>, Seq<Seq<char>>)> {
    match words {
        Some(w) => if w.len() > 0 {
            Some((w[0], w.skip(1)))
        } else {
            None
        },
        None => None,
    }
}

/// The text of a program with its arguments.
pub open spec fn command_view(c: Option<(String, Vec<String>)>) -> Option<
    (Seq<char>, Seq<Seq<char>>),
> {
    match c {
        Some((prog, args)) => Some((prog@, texts(args@))),
        None => None,
    }
}

/// Splits a list of words into the program and its arguments.
pub fn command_from_words(words: Option<Vec<String>>) -> (r: Option<(String, Vec<String>)>)
    ensures
        command_view(r) == command_of(
            match words {
                Some(w) => Some(texts(w@)),
                None => None,
            },
        ),
        match r {
            Some((prog, args)) => words matches Some(w) && w@.len() > 0 && prog == w@[0] && args@
                == w@.skip(1),
            None => words matches Some(w) ==> w@.len() == 0,
        },
{
    match words {
        Some(w) => {
            if w.len() == 0 {
                None
            } else {
                let prog = w[0].clone();
                let mut args: Vec<String> = Vec::new();
                let mut i: usize = 1;
                while i < w.len()
                    invariant
                        1 <= i <= w.len(),
                        args@.len() == i - 1,
                        forall|k: int| 0 <= k < args@.len() ==> args@[k] == w@[k + 1],
                    decreases w.len() - i,
                {
                    args.push(w[i].clone());
                    i = i + 1;
                }
                assert(texts(args@) =~= texts(w@).skip(1));
                assert(args@ =~= w@.skip(1));
                Some((prog, args))
            }
        },
        None => None,
    }
}

/// Parses a command line into a program and its arguments. There is no
/// result when the line cannot be split or holds no word.
pub fn parse_shell_cmd(cmd: &str) -> (r: Option<(String, Vec<String>)>)
    ensures
        command_view(r) == command_of(shell_split(cmd@)),
{
    command_from_words(split_words(cmd))
}

/// Text that starts, after leading white space, with `{` or `[`.
pub open spec fn looks_like_json(s: Seq<char>) -> bool {
    let t = trimmed(s);
    t.len() > 0 && (t[0] == '{' || t[0] == '[')
}

/// Checks whether a text is probably JSON, by its first visible character.
pub fn is_json(s: &str) -> (r: bool)
    ensures
        r == looks_like_json(s@),
{
    let t = trim(s);
    if t.unicode_len() == 0 {
        false
    } else {
        let c = t.get_char(0);
        c == '{' || c == '['
    }
}

#[verifier::external_type_specification]
#[verifier::external_body]
pub struct ExJsonValue(serde_json::Value);

/// A JSON number as `serde_json` keeps it: an integer that is not negative,
/// a negative integer, or the bits of a finite floating-point number (those
/// of positive zero for either zero).
pub enum JsonNumber {
    PosInt(u64),
    NegInt(i64),
    Float(u64),
}

/// What a JSON value holds. An object holds its members by name, in no
/// order.
pub enum JsonData {
    Null,
    Bool(bool),
    Number(JsonNumber),
    Text(Seq<char>),
    Array(Seq<JsonData>),
    Object(Map<Seq<char>, JsonData>),
}

/// What a `serde_json::Value` holds.
pub uninterp spec fn json_data(value: serde_json::Value) -> JsonData;

/// What `serde_json` reads from a text: the value that the text is, `None`
/// where it reports an error.
pub uninterp spec fn json_value(s: Seq<char>) -> Option<JsonData>;

/// What an optional value holds.
pub open spec fn opt_data(value: Option<serde_json::Value>) -> Option<JsonData> {
    match value {
        Some(v) => Some(json_data(v)),
        None => None,
    }
}

/// `serde_json::from_str` at the type `Value`: the JSON value written in `s`,
/// or nothing when `s` is not one JSON text. What the value holds is a
/// function of the text alone.
#[verifier::external_body]
fn parse_json(s: &str) -> (r: Option<serde_json::Value>)
    ensures
        opt_data(r) == json_value(s@),
{
    serde_json::from_str::<serde_json::Value>(s).ok()
}

/// `Value`'s own `==`: two values are equal exactly when they hold the
/// same: the same null, boolean, number or string, arrays of equal items in
/// the same order, objects with the same names and equal values under them.
#[verifier::external_body]
fn same_json(a: &serde_json::Value, b: &serde_json::Value) -> (r: bool)
    ensures
        r == (json_data(*a) == json_data(*b)),
{
    a == b
}

/// Whether both values are there and hold the same.
pub fn values_equal(a: &Option<serde_json::Value>, b: &Option<serde_json::Value>) -> (r: bool)
    ensures
        r == (opt_data(*a) is Some && opt_data(*a) == opt_data(*b)),
{
    match (a, b) {
        (Some(x), Some(y)) => same_json(x, y),
        _ => false,
    }
}

/// Compares two texts as JSON: true exactly when both are JSON texts that
/// hold the same value.
pub fn normalized_json_eq(a: &str, b: &str) -> (r: bool)
    ensures
        r == (json_value(a@) is Some && json_value(a@) == json_value(b@)),
{
    let v1 = parse_json(a);
    let v2 = parse_json(b);
    values_equal(&v1, &v2)
}

/// Whether an actual output counts as the expected one, given what the two
/// texts hold as JSON: texts that both look like JSON and both hold a value
/// agree when the values are the same; all other texts agree when they are
/// the same text.
pub open spec fn outputs_agree_given(
    expected: Seq<char>,
    actual: Seq<char>,
    expected_value: Option<JsonData>,
    actual_value: Option<JsonData>,
) -> bool {
    if looks_like_json(expected) && looks_like_json(actual) && expected_value is Some
        && actual_value is Some {
        expected_value == actual_value
    } else {
        expected == actual
    }
}

/// Whether an actual output counts as the expected one.
pub open spec fn outputs_agree(expected: Seq<char>, actual: Seq<char>) -> bool {
    outputs_agree_given(expected, actual, json_value(expected), json_value(actual))
}

/// Decides a comparison from the two texts and the values read from them.
pub fn compare_outputs(
    expected: &str,
    actual: &str,
    expected_value: &Option<serde_json::Value>,
    actual_value: &Option<serde_json::Value>,
) -> (r: bool)
    ensures
        r == outputs_agree_given(
            expected@,
            actual@,
            opt_data(*expected_value),
            opt_data(*actual_value),
        ),
{
    if is_json(expected) && is_json(actual) && expected_value.is_some() && actual_value.is_some() {
        values_equal(expected_value, actual_value)
    } else {
        same_text(expected, actual)
    }
}

/// Compares an actual output with the expected one: as JSON values where
/// both texts look like JSON and can be read as such, as plain text
/// otherwise.
pub fn output_matches(expected: &str, actual: &str) -> (r: bool)
    ensures
        r == outputs_agree(expected@, actual@),
{
    let expected_value = parse_json(expected);
    let actual_value = parse_json(actual);
    compare_outputs(expected, actual, &expected_value, &actual_value)
}

/// Every text agrees with itself, whether or not it looks like JSON.
pub proof fn lemma_outputs_agree_reflexive(s: Seq<char>)
    ensures
        outputs_agree(s, s),
{
}

/// Texts that look like JSON and hold the same value agree, however they
/// are written; texts that hold different values do not.
pub proof fn lemma_json_outputs_agree_by_value(expected: Seq<char>, actual: Seq<char>)
    requires
        looks_like_json(expected),
        looks_like_json(actual),
        json_value(expected) is Some,
        json_value(actual) is Some,
    ensures
        outputs_agree(expected, actual) <==> json_value(expected) == json_value(actual),
{
}

/// Texts of which one does not look like JSON agree only when they are the
/// same text.
pub proof fn lemma_plain_outputs_agree_only_when_equal(expected: Seq<char>, actual: Seq<char>)
    requires
        !looks_like_json(expected) || !looks_like_json(actual),
    ensures
        outputs_agree(expected, actual) <==> expected == actual,
{
}

/// Text whose first character is `{` or `[`, possibly after white space,
/// looks like JSON.
pub proof fn lemma_looks_like_json_by_first_char(s: Seq<char>, at: int)
    requires
        0 <= at < s.len(),
        forall|k: int| 0 <= k < at ==> is_space(#[trigger] s[k]),
        s[at] == '{' || s[at] == '[',
    ensures
        looks_like_json(s),
{
    crate::text::lemma_skip_spaces_is(s, 0, at);
    crate::text::lemma_back_spaces(s, s.len() as int);
    let end = crate::text::back_spaces(s, s.len() as int);
    if end <= at {
        assert(is_space(s[at]));
    }
}

} // verus!
