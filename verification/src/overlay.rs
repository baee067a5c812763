use vstd::prelude::*;
use crate::char_index::{CharIndex, CharIndexRange};
use crate::edit::{Action, ActionView, Edit, EditView, actions_view};
use crate::text::string_from_chars;

verus! {

/// Where index `i` of the text lies after an edit: unchanged before the replaced range; moved by
/// the change of length at or after its end; at its start where `i` lay inside it. An edit whose
/// range ends before it starts moves nothing.
pub open spec fn map_index(i: usize, e: EditView) -> usize {
    let s = e.range.start.0;
    let t = e.range.end.0;
    if t < s || i < s {
        i
    } else if i >= t {
        if i - (t - s) + e.new.len() <= usize::MAX {
            (i - (t - s) + e.new.len()) as usize
        } else {
            usize::MAX
        }
    } else {
        s
    }
}

/// Both ends of a range after an edit.
pub open spec fn map_range(r: CharIndexRange, e: EditView) -> CharIndexRange {
    CharIndexRange {
        start: CharIndex(map_index(r.start.0, e)),
        end: CharIndex(map_index(r.end.0, e)),
    }
}

/// A range after the edits among the first `n` actions, one after the other.
pub open spec fn map_range_through(r: CharIndexRange, actions: Seq<ActionView>, n: int) -> CharIndexRange
    decreases n,
{
    if n <= 0 {
        r
    } else {
        match actions[n - 1] {
            ActionView::Edit(e) => map_range(map_range_through(r, actions, n - 1), e),
            ActionView::Select(_) => map_range_through(r, actions, n - 1),
        }
    }
}

/// Each range of a list after the edits of `actions`.
pub open spec fn map_ranges(ranges: Seq<CharIndexRange>, actions: Seq<ActionView>) -> Seq<
    CharIndexRange,
> {
    Seq::new(ranges.len(), |i: int| map_range_through(ranges[i], actions, actions.len() as int))
}

/// An edit keeps the order of indices.
pub proof fn lemma_map_index_monotonic(i: usize, j: usize, e: EditView)
    requires
        i <= j,
    ensures
        map_index(i, e) <= map_index(j, e),
{
}

/// An index after the replaced range moves by the change of length.
pub proof fn lemma_map_index_after(i: usize, e: EditView)
    requires
        e.range.start.0 <= e.range.end.0 <= i,
        i - e.range.spec_len() + e.new.len() <= usize::MAX,
    ensures
        map_index(i, e) == i - e.range.spec_len() + e.new.len(),
{
}

/// An index before the replaced range stays.
pub proof fn lemma_map_index_before(i: usize, e: EditView)
    requires
        i < e.range.start.0,
    ensures
        map_index(i, e) == i,
{
}

/// The number of characters that two texts share at their start, counted on from `i`.
pub open spec fn shared_start(a: Seq<char>, b: Seq<char>, i: int) -> int
    decreases a.len() - i,
{
    if 0 <= i < a.len() && i < b.len() && a[i] == b[i] {
        shared_start(a, b, i + 1)
    } else {
        i
    }
}

/// The character that stands `j` places before the last of a text.
pub open spec fn from_end(a: Seq<char>, j: int) -> char {
    a[a.len() - 1 - j]
}

/// The number of characters that two texts share at their end, beyond the first `p` of each,
/// counted on from `k`.
pub open spec fn shared_end(a: Seq<char>, b: Seq<char>, p: int, k: int) -> int
    decreases a.len() - k,
{
    if 0 <= p && 0 <= k && p + k < a.len() && p + k < b.len() && from_end(a, k) == from_end(
        b,
        k,
    ) {
        shared_end(a, b, p, k + 1)
    } else {
        k
    }
}

/// The one edit that makes `b` of `a` and leaves alone what the two share at the start and,
/// beyond that, at the end.
pub open spec fn replacement(a: Seq<char>, b: Seq<char>) -> EditView {
    let p = shared_start(a, b, 0);
    let s = shared_end(a, b, p, 0);
    EditView {
        range: CharIndexRange { start: CharIndex(p as usize), end: CharIndex((a.len() - s) as usize) },
        new: b.subrange(p, b.len() - s),
    }
}

/// The one edit that makes `b` of `a`, as a list of actions.
pub open spec fn replaced(a: Seq<char>, b: Seq<char>) -> Seq<ActionView> {
    seq![ActionView::Edit(replacement(a, b))]
}

/// Ranges laid over the text `a` after it became `b`: each goes through the one edit that
/// makes `b` of `a`.
pub open spec fn followed(ranges: Seq<CharIndexRange>, a: Seq<char>, b: Seq<char>) -> Seq<
    CharIndexRange,
> {
    map_ranges(ranges, replaced(a, b))
}

/// The characters counted as shared at the start are the same in both texts, and there are no more
/// of them than either text has.
proof fn lemma_shared_start(a: Seq<char>, b: Seq<char>, i: int)
    requires
        0 <= i <= a.len(),
        i <= b.len(),
        forall|k: int| 0 <= k < i ==> a[k] == b[k],
    ensures
        i <= shared_start(a, b, i) <= a.len(),
        shared_start(a, b, i) <= b.len(),
        forall|k: int| 0 <= k < shared_start(a, b, i) ==> a[k] == b[k],
    decreases a.len() - i,
{
    if i < a.len() && i < b.len() && a[i] == b[i] {
        lemma_shared_start(a, b, i + 1);
    }
}

/// The characters counted as shared at the end are the same in both texts, and together with the
/// first `p` there are no more of them than either text has.
proof fn lemma_shared_end(a: Seq<char>, b: Seq<char>, p: int, k: int)
    requires
        0 <= p,
        0 <= k,
        p + k <= a.len(),
        p + k <= b.len(),
        forall|j: int| 0 <= j < k ==> from_end(a, j) == #[trigger] from_end(b, j),
    ensures
        k <= shared_end(a, b, p, k),
        p + shared_end(a, b, p, k) <= a.len(),
        p + shared_end(a, b, p, k) <= b.len(),
        forall|j: int|
            0 <= j < shared_end(a, b, p, k) ==> from_end(a, j) == #[trigger] from_end(b, j),
    decreases a.len() - k,
{
    if p + k < a.len() && p + k < b.len() && from_end(a, k) == from_end(b, k) {
        lemma_shared_end(a, b, p, k + 1);
    }
}

/// The replacement lies within `a`, and makes `b` of it.
pub proof fn lemma_replacement(a: Seq<char>, b: Seq<char>)
    requires
        a.len() <= usize::MAX,
    ensures
        replacement(a, b).range.start.0 <= replacement(a, b).range.end.0 <= a.len(),
        a.subrange(0, replacement(a, b).range.start.0 as int) + replacement(a, b).new + a.subrange(
            replacement(a, b).range.end.0 as int,
            a.len() as int,
        ) == b,
{
    lemma_shared_start(a, b, 0);
    let p = shared_start(a, b, 0);
    lemma_shared_end(a, b, p, 0);
    let s = shared_end(a, b, p, 0);
    let made = a.subrange(0, p) + b.subrange(p, b.len() - s) + a.subrange(a.len() - s, a.len() as int);
    assert(made.len() == b.len());
    assert forall|i: int| 0 <= i < b.len() implies made[i] == b[i] by {
        if i >= b.len() - s {
            let j = b.len() - 1 - i;
            assert(from_end(a, j) == from_end(b, j));
        }
    }
    assert(made =~= b);
}

/// The one edit that makes `b` of `a` and leaves alone what the two share at the start and,
/// beyond that, at the end.
pub fn replacement_of(a: &Vec<char>, b: &Vec<char>) -> (e: Edit)
    ensures
        e@ == replacement(a@, b@),
{
    let n: usize = a.len();
    let m: usize = b.len();
    let mut p: usize = 0;
    while p < n && p < m && a[p] == b[p]
        invariant
            p <= n,
            p <= m,
            n == a.len(),
            m == b.len(),
            shared_start(a@, b@, 0) == shared_start(a@, b@, p as int),
        decreases n - p,
    {
        p += 1;
    }
    let mut s: usize = 0;
    while s < n - p && s < m - p && a[n - 1 - s] == b[m - 1 - s]
        invariant
            p <= n,
            p <= m,
            p + s <= n,
            p + s <= m,
            n == a.len(),
            m == b.len(),
            shared_end(a@, b@, p as int, 0) == shared_end(a@, b@, p as int, s as int),
        decreases n - s,
    {
        s += 1;
    }
    let mut new: Vec<char> = Vec::new();
    let mut i: usize = p;
    while i < m - s
        invariant
            p <= i <= m - s,
            m == b.len(),
            new@ == b@.subrange(p as int, i as int),
        decreases m - i,
    {
        new.push(b[i]);
        assert(new@ =~= b@.subrange(p as int, i + 1));
        i += 1;
    }
    Edit {
        range: CharIndexRange { start: CharIndex(p), end: CharIndex(n - s) },
        new: string_from_chars(&new),
    }
}

/// Where index `i` of the text lies after an edit.
fn map_index_exec(i: usize, e: &Edit) -> (r: usize)
    ensures
        r == map_index(i, e@),
{
    let s: usize = e.range.start.0;
    let t: usize = e.range.end.0;
    if t < s || i < s {
        i
    } else if i >= t {
        let base: usize = i - (t - s);
        match base.checked_add(e.new_len()) {
            Some(v) => v,
            None => usize::MAX,
        }
    } else {
        s
    }
}

/// Both ends of a range after an edit.
pub fn map_range_exec(r: CharIndexRange, e: &Edit) -> (m: CharIndexRange)
    ensures
        m == map_range(r, e@),
{
    CharIndexRange {
        start: CharIndex(map_index_exec(r.start.0, e)),
        end: CharIndex(map_index_exec(r.end.0, e)),
    }
}

/// A range after the edits of `actions`, one after the other.
pub fn map_range_through_exec(range: CharIndexRange, actions: &Vec<Action>) -> (r: CharIndexRange)
    ensures
        r == map_range_through(range, actions_view(actions@), actions@.len() as int),
{
    let ghost views = actions_view(actions@);
    let mut r: CharIndexRange = range;
    let mut j: usize = 0;
    while j < actions.len()
        invariant
            j <= actions.len(),
            views == actions_view(actions@),
            r == map_range_through(range, views, j as int),
        decreases actions.len() - j,
    {
        if let Action::Edit(e) = &actions[j] {
            r = map_range_exec(r, e);
        }
        j += 1;
    }
    r
}

/// Each range of a list after the edits of `actions`, one after the other.
pub fn map_ranges_exec(ranges: &Vec<CharIndexRange>, actions: &Vec<Action>) -> (r: Vec<CharIndexRange>)
    ensures
        r@ == map_ranges(ranges@, actions_view(actions@)),
{
    let mut r: Vec<CharIndexRange> = Vec::new();
    let mut i: usize = 0;
    while i < ranges.len()
        invariant
            i <= ranges.len(),
            r@.len() == i,
            forall|k: int|
                0 <= k < i ==> r@[k] == map_range_through(
                    ranges@[k],
                    actions_view(actions@),
                    actions@.len() as int,
                ),
        decreases ranges.len() - i,
    {
        r.push(map_range_through_exec(ranges[i], actions));
        i += 1;
    }
    assert(r@ =~= map_ranges(ranges@, actions_view(actions@)));
    r
}

/// By how many characters the edits among the first `n` actions move a range that none of
/// them touches: the sum, over the edits that end at or before the range as it then lies, of
/// what each puts in less what it takes out.
pub open spec fn shift_before(r: CharIndexRange, actions: Seq<ActionView>, n: int) -> int
    decreases n,
{
    if n <= 0 {
        0
    } else {
        let so_far = shift_before(r, actions, n - 1);
        match actions[n - 1] {
            ActionView::Edit(e) => if e.range.end.0 <= r.start.0 + so_far {
                so_far + e.new.len() - (e.range.end.0 - e.range.start.0)
            } else {
                so_far
            },
            ActionView::Select(_) => so_far,
        }
    }
}

/// Whether none of the edits among the first `n` actions touches a range: each ends at or
/// before the start of the range as it lies when the edit is made, or starts behind its end;
/// and the range stays among the indices.
pub open spec fn untouched(r: CharIndexRange, actions: Seq<ActionView>, n: int) -> bool
    decreases n,
{
    n <= 0 || {
        let so_far = shift_before(r, actions, n - 1);
        &&& untouched(r, actions, n - 1)
        &&& match actions[n - 1] {
            ActionView::Edit(e) => e.range.start.0 <= e.range.end.0 && (e.range.end.0 <= r.start.0
                + so_far || r.end.0 + so_far < e.range.start.0),
            ActionView::Select(_) => true,
        }
        &&& 0 <= r.start.0 + shift_before(r, actions, n)
        &&& r.end.0 + shift_before(r, actions, n) <= usize::MAX
    }
}

/// A range that no edit of a list touches moves as a whole, by the sum of the changes of
/// length that the edits before it make.
pub proof fn lemma_untouched_range_shifts(r: CharIndexRange, actions: Seq<ActionView>, n: int)
    requires
        0 <= n <= actions.len(),
        r.start.0 <= r.end.0,
        untouched(r, actions, n),
    ensures
        0 <= r.start.0 + shift_before(r, actions, n),
        r.end.0 + shift_before(r, actions, n) <= usize::MAX,
        map_range_through(r, actions, n) == (CharIndexRange {
            start: CharIndex((r.start.0 + shift_before(r, actions, n)) as usize),
            end: CharIndex((r.end.0 + shift_before(r, actions, n)) as usize),
        }),
    decreases n,
{
    if n > 0 {
        lemma_untouched_range_shifts(r, actions, n - 1);
    }
}

} // verus!
