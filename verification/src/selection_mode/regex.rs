use vstd::prelude::*;
use vstd::string::StringExecFns;
use crate::char_index::ByteRange;
use crate::error::EditorError;
use crate::list::grep::GrepConfig;
use crate::regex_search::{escape, find_all, regex_escaped, regex_matches, successive};
use crate::selection_mode::{
    apart, keep_valid, lemma_valid_ranges_ascend, strictly_ascending, valid_ranges,
};

verus! {

/// The ranges of a list of matches.
pub open spec fn match_ranges(matches: Seq<(usize, usize)>) -> Seq<ByteRange> {
    Seq::new(matches.len(), |i: int| ByteRange { start: matches[i].0, end: matches[i].1 })
}

/// The matches of `pattern` in `text` that are not empty and lie within a text of `len_bytes`
/// bytes; `None` where the pattern is no regular expression.
pub open spec fn regex_ranges(pattern: Seq<char>, text: Seq<char>, len_bytes: usize) -> Option<
    Seq<ByteRange>,
> {
    match regex_matches(pattern, text) {
        Some(m) => Some(valid_ranges(match_ranges(m), len_bytes)),
        None => None,
    }
}

/// The regular expression for a search: the text itself where it is to be taken as written,
/// between word boundaries where whole words are wanted, without regard to case unless the
/// case matters.
pub open spec fn search_pattern(search: Seq<char>, config: GrepConfig) -> Seq<char> {
    let base = if config.escaped {
        regex_escaped(search)
    } else {
        search
    };
    let worded = if config.match_whole_word {
        "\\b"@ + base + "\\b"@
    } else {
        base
    };
    if config.case_sensitive {
        worded
    } else {
        "(?i)"@ + worded
    }
}

/// The regular expression for a search.
pub fn get_regex(search: &str, config: GrepConfig) -> (pattern: String)
    ensures
        pattern@ == search_pattern(search@, config),
{
    let base: String = if config.escaped {
        escape(search)
    } else {
        String::from_str(search)
    };
    let worded: String = if config.match_whole_word {
        let mut w: String = String::from_str("\\b");
        w.append(base.as_str());
        w.append("\\b");
        w
    } else {
        base
    };
    if config.case_sensitive {
        worded
    } else {
        let mut p: String = String::from_str("(?i)");
        p.append(worded.as_str());
        p
    }
}

/// The matches of `pattern` in `text`, in order, but for those that are empty or do not lie
/// within `len_bytes` bytes. Refused where the pattern is no regular expression.
pub fn find_ranges(pattern: &str, text: &str, len_bytes: usize) -> (r: Result<
    Vec<ByteRange>,
    EditorError,
>)
    ensures
        match regex_ranges(pattern@, text@, len_bytes) {
            Some(ranges) => r.is_ok() && r.unwrap()@ == ranges,
            None => r == Err::<Vec<ByteRange>, EditorError>(EditorError::FilterRegexInvalid),
        },
        r.is_ok() ==> strictly_ascending(r.unwrap()@),
{
    match find_all(pattern, text) {
        None => Err(EditorError::FilterRegexInvalid),
        Some(matches) => {
            let mut ranges: Vec<ByteRange> = Vec::new();
            let mut i: usize = 0;
            while i < matches.len()
                invariant
                    i <= matches.len(),
                    ranges@.len() == i,
                    forall|k: int|
                        0 <= k < i ==> ranges@[k] == (ByteRange {
                            start: matches@[k].0,
                            end: matches@[k].1,
                        }),
                decreases matches.len() - i,
            {
                ranges.push(ByteRange { start: matches[i].0, end: matches[i].1 });
                i += 1;
            }
            assert(ranges@ =~= match_ranges(matches@));
            proof {
                assert(apart(ranges@)) by {
                    assert forall|i: int, j: int| 0 <= i < j < ranges@.len() implies (
                    #[trigger] ranges@[i]).end <= (#[trigger] ranges@[j]).start by {
                        assert(matches@[i].1 <= matches@[j].0);
                    }
                    assert forall|i: int| 0 <= i < ranges@.len() implies (
                    #[trigger] ranges@[i]).start <= ranges@[i].end by {
                        assert(matches@[i].0 <= matches@[i].1);
                    }
                }
                lemma_valid_ranges_ascend(ranges@, len_bytes);
            }
            Ok(keep_valid(&ranges, len_bytes))
        },
    }
}

} // verus!
