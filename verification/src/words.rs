use vstd::prelude::*;
use crate::text::str_chars;

verus! {

/// Whether `needle` occurs in `hay` at place `i`.
pub open spec fn occurs_at(hay: Seq<char>, needle: Seq<char>, i: int) -> bool {
    0 <= i && i + needle.len() <= hay.len() && hay.subrange(i, i + needle.len()) == needle
}

/// Whether `needle` occurs somewhere in `hay`.
pub open spec fn contains_text(hay: Seq<char>, needle: Seq<char>) -> bool {
    exists|i: int| occurs_at(hay, needle, i)
}

/// Whether `needle` occurs somewhere in `hay`.
pub fn text_contains(hay: &str, needle: &str) -> (b: bool)
    ensures
        b == contains_text(hay@, needle@),
{
    let h: Vec<char> = str_chars(hay);
    let n: Vec<char> = str_chars(needle);
    if n.len() > h.len() {
        assert(forall|i: int| !occurs_at(hay@, needle@, i));
        return false;
    }
    let last: usize = h.len() - n.len();
    let mut i: usize = 0;
    loop
        invariant
            i <= last,
            last == h@.len() - n@.len(),
            n@.len() <= h@.len() <= usize::MAX,
            h@ == hay@,
            n@ == needle@,
            forall|k: int| 0 <= k < i ==> !occurs_at(hay@, needle@, k),
        decreases last - i,
    {
        let mut j: usize = 0;
        while j < n.len() && h[i + j] == n[j]
            invariant
                j <= n.len(),
                i <= last,
                last == h@.len() - n@.len(),
                n@.len() <= h@.len() <= usize::MAX,
                forall|k: int| 0 <= k < j ==> h@[i + k] == n@[k],
            decreases n.len() - j,
        {
            j += 1;
        }
        if j == n.len() {
            assert(h@.subrange(i as int, i + n@.len()) =~= n@);
            assert(occurs_at(hay@, needle@, i as int));
            return true;
        }
        assert(!occurs_at(hay@, needle@, i as int)) by {
            if occurs_at(hay@, needle@, i as int) {
                assert(h@.subrange(i as int, i + n@.len())[j as int] == n@[j as int]);
            }
        }
        if i == last {
            assert(forall|k: int| !occurs_at(hay@, needle@, k));
            return false;
        }
        i += 1;
    }
}

/// The texts of a list without those that stand in it earlier.
pub open spec fn unique_texts(texts: Seq<Seq<char>>) -> Seq<Seq<char>>
    decreases texts.len(),
{
    if texts.len() == 0 {
        Seq::empty()
    } else {
        let rest = unique_texts(texts.drop_last());
        if rest.contains(texts.last()) {
            rest
        } else {
            rest.push(texts.last())
        }
    }
}

/// The views of the strings of a list.
pub open spec fn texts_view(strings: Seq<String>) -> Seq<Seq<char>> {
    Seq::new(strings.len(), |i: int| strings[i]@)
}

/// The strings of a list without those that stand in it earlier.
pub fn unique(strings: Vec<String>) -> (r: Vec<String>)
    ensures
        texts_view(r@) == unique_texts(texts_view(strings@)),
{
    let ghost all = texts_view(strings@);
    let mut r: Vec<String> = Vec::new();
    let mut i: usize = 0;
    proof {
        assert(all.take(0) =~= Seq::<Seq<char>>::empty());
    }
    while i < strings.len()
        invariant
            i <= strings.len(),
            all == texts_view(strings@),
            texts_view(r@) == unique_texts(all.take(i as int)),
        decreases strings.len() - i,
    {
        let ghost kept = texts_view(r@);
        let mut found: bool = false;
        let mut j: usize = 0;
        while j < r.len()
            invariant
                j <= r.len(),
                i < strings.len(),
                kept == texts_view(r@),
                found == (exists|k: int| 0 <= k < j && kept[k] == strings@[i as int]@),
            decreases r.len() - j,
        {
            if r[j] == strings[i] {
                assert(kept[j as int] == strings@[i as int]@);
                found = true;
            }
            j += 1;
        }
        proof {
            assert(all.take(i + 1).drop_last() =~= all.take(i as int));
            assert(all.take(i + 1).last() == strings@[i as int]@);
            assert(found == kept.contains(strings@[i as int]@));
        }
        if !found {
            let copy: String = strings[i].clone();
            r.push(copy);
            assert(texts_view(r@) =~= kept.push(copy@));
        }
        i += 1;
    }
    assert(all.take(strings@.len() as int) =~= all);
    r
}

/// Nothing stands twice in what `unique_texts` gives, and it holds just the texts of the list.
pub proof fn lemma_unique_texts(texts: Seq<Seq<char>>)
    ensures
        forall|i: int, j: int|
            0 <= i < j < unique_texts(texts).len() ==> unique_texts(texts)[i] != unique_texts(
                texts,
            )[j],
        forall|t: Seq<char>| unique_texts(texts).contains(t) <==> texts.contains(t),
    decreases texts.len(),
{
    if texts.len() > 0 {
        let front = texts.drop_last();
        lemma_unique_texts(front);
        let rest = unique_texts(front);
        let all = unique_texts(texts);
        assert forall|t: Seq<char>| all.contains(t) <==> texts.contains(t) by {
            if texts.contains(t) {
                let k = choose|k: int| 0 <= k < texts.len() && texts[k] == t;
                if k < texts.len() - 1 {
                    assert(front[k] == t);
                    assert(front.contains(t));
                    assert(rest.contains(t));
                    let m = choose|m: int| 0 <= m < rest.len() && rest[m] == t;
                    assert(all[m] == t);
                } else if !rest.contains(texts.last()) {
                    assert(all[all.len() - 1] == t);
                } else {
                    let m = choose|m: int| 0 <= m < rest.len() && rest[m] == t;
                    assert(all[m] == t);
                }
            }
            if all.contains(t) {
                let m = choose|m: int| 0 <= m < all.len() && all[m] == t;
                if m < rest.len() {
                    assert(rest[m] == t);
                    assert(rest.contains(t));
                    assert(front.contains(t));
                    let k = choose|k: int| 0 <= k < front.len() && front[k] == t;
                    assert(texts[k] == t);
                } else {
                    assert(texts[texts.len() - 1] == t);
                }
            }
        }
        assert forall|i: int, j: int| 0 <= i < j < all.len() implies all[i] != all[j] by {
            if j == rest.len() {
                assert(rest[i] == all[i]);
                assert(rest.contains(all[i]));
            }
        }
    }
}

} // verus!
