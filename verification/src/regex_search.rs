use vstd::prelude::*;

verus! {

/// The matches of a regular expression in a text, as pairs of the byte offsets at which each
/// begins and ends, in the order of the text; `None` where the pattern is no regular expression.
pub uninterp spec fn regex_matches(pattern: Seq<char>, text: Seq<char>) -> Option<Seq<(usize, usize)>>;

/// A pattern that matches the characters of `literal` and nothing else.
pub uninterp spec fn regex_escaped(literal: Seq<char>) -> Seq<char>;

/// The lower-case form of a text.
pub uninterp spec fn lowercase(s: Seq<char>) -> Seq<char>;

/// Whether matches come one after the other: none ends before it starts, and none starts
/// before the one before it has ended.
pub open spec fn successive(matches: Seq<(usize, usize)>) -> bool {
    &&& forall|i: int| 0 <= i < matches.len() ==> (#[trigger] matches[i]).0 <= matches[i].1
    &&& forall|i: int, j: int|
        0 <= i < j < matches.len() ==> (#[trigger] matches[i]).1 <= (#[trigger] matches[j]).0
}

/// `regex::Regex::new` and `regex::Regex::find_iter`: the matches of the pattern in the text,
/// each as the byte offsets of its start and end. The crate's documentation says of them that
/// they are successive and do not overlap; the contract claims that, and that the same
/// pattern and text give the same matches.
#[verifier::external_body]
pub(crate) fn find_all(pattern: &str, text: &str) -> (r: Option<Vec<(usize, usize)>>)
    ensures
        match r {
            Some(v) => regex_matches(pattern@, text@) == Some(v@) && successive(v@),
            None => regex_matches(pattern@, text@).is_none(),
        },
{
    let regex = regex::Regex::new(pattern).ok()?;
    Some(regex.find_iter(text).map(|m| (m.start(), m.end())).collect())
}

/// `regex::escape`: the pattern that matches `literal` as it is written.
#[verifier::external_body]
pub(crate) fn escape(literal: &str) -> (pattern: String)
    ensures
        pattern@ == regex_escaped(literal@),
{
    regex::escape(literal)
}

/// `str::to_lowercase`.
#[verifier::external_body]
pub(crate) fn to_lowercase(s: &str) -> (lower: String)
    ensures
        lower@ == lowercase(s@),
{
    s.to_lowercase()
}

} // verus!
