//! Matching text: compiled regular expressions, which the `regex` crate
//! provides, and the search for a literal text, which stands in where no
//! expression can be compiled.

use crate::utils::text::{occurs_at, occurs_in};
use regex::Regex;
use vstd::prelude::*;
use vstd::string::StringSliceAdditionalSpecFns;

verus! {

/// A compiled regular expression of the `regex` crate.
#[verifier::external_type_specification]
#[verifier::external_body]
pub struct ExRegex(Regex);

/// The error with which the `regex` crate refuses a pattern.
#[verifier::external_type_specification]
#[verifier::external_body]
pub struct ExRegexError(regex::Error);

/// Whether `Regex::new` accepts `pattern`.
pub uninterp spec fn regex_compiles(pattern: Seq<char>) -> bool;

/// The pattern that a compiled expression was made from, which it holds
/// and `Regex::as_str` gives back.
pub uninterp spec fn regex_source(re: Regex) -> Seq<char>;

/// Whether the expression compiled from `pattern` matches somewhere in
/// `text`: what `Regex::is_match` returns.
pub uninterp spec fn regex_is_match(pattern: Seq<char>, text: Seq<char>) -> bool;

/// The matches of the expression compiled from `pattern` in `text`, as
/// half-open ranges of byte offsets: what `Regex::find_iter` yields.
pub uninterp spec fn regex_spans(pattern: Seq<char>, text: Seq<char>) -> Seq<(usize, usize)>;

/// Whether each span is a range within `len` and none begins before the
/// one ahead of it has ended.
pub open spec fn spans_in_order(spans: Seq<(usize, usize)>, len: int) -> bool {
    &&& forall|i: int| 0 <= i < spans.len() ==> (#[trigger] spans[i]).0 <= spans[i].1 <= len
    &&& forall|i: int, j: int|
        0 <= i < j < spans.len() ==> (#[trigger] spans[i]).1 <= (#[trigger] spans[j]).0
}

/// The characters that have a meaning of their own in a pattern.
pub open spec fn is_meta_character(c: char) -> bool {
    ||| c == '\\'
    ||| c == '.'
    ||| c == '+'
    ||| c == '*'
    ||| c == '?'
    ||| c == '('
    ||| c == ')'
    ||| c == '|'
    ||| c == '['
    ||| c == ']'
    ||| c == '{'
    ||| c == '}'
    ||| c == '^'
    ||| c == '$'
    ||| c == '#'
    ||| c == '&'
    ||| c == '-'
    ||| c == '~'
}

/// `text` with a backslash before each character that has a meaning of its
/// own in a pattern.
pub open spec fn escaped(text: Seq<char>) -> Seq<char>
    decreases text.len(),
{
    if text.len() == 0 {
        text
    } else if is_meta_character(text.last()) {
        escaped(text.drop_last()).push('\\').push(text.last())
    } else {
        escaped(text.drop_last()).push(text.last())
    }
}

/// `Regex::new`: compiles `pattern` with the crate's default options. It
/// succeeds on the patterns that the crate accepts, and the expression
/// that comes back holds the pattern it was made from.
#[verifier::external_body]
pub(crate) fn compile(pattern: &str) -> (r: Result<Regex, regex::Error>)
    ensures
        r is Ok <==> regex_compiles(pattern@),
        r matches Ok(re) ==> regex_source(re) == pattern@,
{
    Regex::new(pattern)
}

/// `regex::escape`: puts a backslash before each meta character of `text`
/// and leaves the other characters as they are.
#[verifier::external_body]
pub(crate) fn escape(text: &str) -> (r: String)
    ensures
        r@ == escaped(text@),
{
    regex::escape(text)
}

/// `Regex::is_match`: whether the expression matches somewhere in `text`.
/// The answer depends on the pattern and the text alone; the library
/// makes every expression with `compile`, so with the default options.
#[verifier::external_body]
pub(crate) fn is_match(re: &Regex, text: &str) -> (b: bool)
    ensures
        b == regex_is_match(regex_source(*re), text@),
{
    re.is_match(text)
}

/// `Regex::clone`: a second handle on the same compiled expression, which
/// holds the same pattern.
#[verifier::external_body]
pub(crate) fn clone_regex(re: &Regex) -> (r: Regex)
    ensures
        regex_source(r) == regex_source(*re),
{
    re.clone()
}

/// `Regex::find_iter`: the successive matches of the expression in `text`,
/// each as the pair of `Match::start` and `Match::end`. The crate documents
/// that the matches do not overlap, that a match starts no later than it
/// ends, and that both offsets can be used to slice `text`.
#[verifier::external_body]
pub(crate) fn find_spans(re: &Regex, text: &str) -> (spans: Vec<(usize, usize)>)
    ensures
        spans@ == regex_spans(regex_source(*re), text@),
        spans_in_order(spans@, text.spec_bytes().len() as int),
{
    re.find_iter(text).map(|m| (m.start(), m.end())).collect()
}

/// Where `needle` stands in `hay`, from the left and without overlap, at
/// or after `from`. An empty needle is found nowhere.
pub open spec fn literal_spans_from(hay: Seq<u8>, needle: Seq<u8>, from: int) -> Seq<
    (usize, usize),
>
    decreases hay.len() - from,
{
    if needle.len() == 0 || from < 0 || from + needle.len() > hay.len() {
        Seq::empty()
    } else if occurs_at(hay, needle, from) {
        seq![(from as usize, (from + needle.len()) as usize)] + literal_spans_from(
            hay,
            needle,
            from + needle.len(),
        )
    } else {
        literal_spans_from(hay, needle, from + 1)
    }
}

/// Where `needle` stands in `hay`, from the left and without overlap.
pub open spec fn literal_spans(hay: Seq<u8>, needle: Seq<u8>) -> Seq<(usize, usize)> {
    literal_spans_from(hay, needle, 0)
}

/// Whether `needle` stands in `hay` at byte `at`.
fn bytes_at(hay: &[u8], needle: &[u8], at: usize) -> (b: bool)
    ensures
        b == occurs_at(hay@, needle@, at as int),
{
    if needle.len() > hay.len() || at > hay.len() - needle.len() {
        return false;
    }
    let mut k: usize = 0;
    while k < needle.len()
        invariant
            at + needle@.len() <= hay@.len() <= usize::MAX,
            k <= needle@.len(),
            forall|j: int| 0 <= j < k ==> hay@[at + j] == needle@[j],
        decreases needle@.len() - k,
    {
        if hay[at + k] != needle[k] {
            return false;
        }
        k += 1;
    }
    assert(hay@.subrange(at as int, at + needle@.len()) =~= needle@);
    true
}

/// Whether the literal text `needle` stands somewhere in `hay`.
pub fn literal_is_match(hay: &str, needle: &str) -> (b: bool)
    ensures
        b == occurs_in(hay.spec_bytes(), needle.spec_bytes()),
{
    let h = hay.as_bytes();
    let n = needle.as_bytes();
    if n.len() > h.len() {
        return false;
    }
    let last: usize = h.len() - n.len();
    let mut i: usize = 0;
    while i <= last
        invariant
            h@ == hay.spec_bytes(),
            n@ == needle.spec_bytes(),
            last == h@.len() - n@.len(),
            forall|j: int| 0 <= j < i ==> !occurs_at(h@, n@, j),
        decreases last + 1 - i,
    {
        if bytes_at(h, n, i) {
            return true;
        }
        if i == last {
            return false;
        }
        i += 1;
    }
    false
}

/// Where the literal text `needle` stands in `hay`, from the left and
/// without overlap, as half-open ranges of byte offsets.
pub fn literal_find_spans(hay: &str, needle: &str) -> (spans: Vec<(usize, usize)>)
    ensures
        spans@ == literal_spans(hay.spec_bytes(), needle.spec_bytes()),
        spans_in_order(spans@, hay.spec_bytes().len() as int),
{
    let h = hay.as_bytes();
    let n = needle.as_bytes();
    let mut spans: Vec<(usize, usize)> = Vec::new();
    if n.len() == 0 || n.len() > h.len() {
        return spans;
    }
    let last: usize = h.len() - n.len();
    let mut i: usize = 0;
    while i <= last
        invariant
            0 < n@.len() <= h@.len() <= usize::MAX,
            last == h@.len() - n@.len(),
            literal_spans(h@, n@) == spans@ + literal_spans_from(h@, n@, i as int),
            spans_in_order(spans@, i as int),
            i <= h@.len(),
        decreases h@.len() - i,
    {
        if bytes_at(h, n, i) {
            let ghost rest = literal_spans_from(h@, n@, i + n@.len());
            assert(spans@.push((i, (i + n.len()) as usize)) + rest == spans@ + (seq![
                (i, (i + n.len()) as usize),
            ] + rest));
            spans.push((i, i + n.len()));
            i += n.len();
        } else {
            i += 1;
        }
    }
    spans
}

} // verus!
