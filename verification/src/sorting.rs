use vstd::prelude::*;

verus! {

/// Pairs in the order of their first parts, then of their second parts.
pub open spec fn pair_le(a: (usize, usize), b: (usize, usize)) -> bool {
    a.0 < b.0 || (a.0 == b.0 && a.1 <= b.1)
}

/// `order` with index `g` put in behind the last index whose key is at most that of `g`.
pub open spec fn insert_by_key(keys: Seq<(usize, usize)>, order: Seq<usize>, g: usize) -> Seq<usize>
    decreases order.len(),
{
    if order.len() == 0 {
        seq![g]
    } else if pair_le(keys[order.last() as int], keys[g as int]) {
        order.push(g)
    } else {
        insert_by_key(keys, order.drop_last(), g).push(order.last())
    }
}

/// The first `n` indices in the order of their keys, equal keys in the order of the indices.
pub open spec fn order_by_key(keys: Seq<(usize, usize)>, n: int) -> Seq<usize>
    decreases n,
{
    if n <= 0 {
        Seq::empty()
    } else {
        insert_by_key(keys, order_by_key(keys, n - 1), (n - 1) as usize)
    }
}

/// The keys along `order` never fall, and equal keys keep the order of their indices.
pub open spec fn is_stably_sorted(keys: Seq<(usize, usize)>, order: Seq<usize>) -> bool {
    forall|a: int, b: int|
        0 <= a < b < order.len() ==> pair_le(keys[#[trigger] order[a] as int], keys[#[trigger] order[b] as int])
            && (keys[order[a] as int] == keys[order[b] as int] ==> order[a] < order[b])
}

/// Inserting by key puts `g` at the place behind the last index whose key is not greater.
proof fn lemma_insert_by_key(keys: Seq<(usize, usize)>, order: Seq<usize>, g: usize, pos: int)
    requires
        0 <= pos <= order.len(),
        pos > 0 ==> pair_le(keys[order[pos - 1] as int], keys[g as int]),
        forall|k: int|
            pos <= k < order.len() ==> !pair_le(keys[#[trigger] order[k] as int], keys[g as int]),
    ensures
        insert_by_key(keys, order, g) == order.insert(pos, g),
    decreases order.len(),
{
    if order.len() == 0 {
        assert(order.insert(pos, g) =~= seq![g]);
    } else if pos == order.len() {
        assert(order.insert(pos, g) =~= order.push(g));
    } else {
        assert(!pair_le(keys[order[order.len() - 1] as int], keys[g as int]));
        lemma_insert_by_key(keys, order.drop_last(), g, pos);
        assert(order.drop_last().insert(pos, g).push(order.last()) =~= order.insert(pos, g));
    }
}

/// Inserting a later index into a stably sorted order keeps it stably sorted, and adds that index
/// and no other.
proof fn lemma_insert_keeps(keys: Seq<(usize, usize)>, order: Seq<usize>, g: usize)
    requires
        forall|k: int| 0 <= k < order.len() ==> 0 <= #[trigger] order[k] < g,
        is_stably_sorted(keys, order),
    ensures
        insert_by_key(keys, order, g).len() == order.len() + 1,
        forall|k: int|
            0 <= k < order.len() + 1 ==> 0 <= #[trigger] insert_by_key(keys, order, g)[k] <= g,
        is_stably_sorted(keys, insert_by_key(keys, order, g)),
        forall|x: usize|
            #[trigger] insert_by_key(keys, order, g).contains(x) <==> (order.contains(x) || x == g),
    decreases order.len(),
{
    let r = insert_by_key(keys, order, g);
    if order.len() == 0 {
        assert(r[0] == g);
        assert forall|x: usize| #[trigger] r.contains(x) <==> (order.contains(x) || x == g) by {
            if x == g {
                assert(r[0] == x);
            }
        }
    } else if pair_le(keys[order.last() as int], keys[g as int]) {
        assert forall|a: int, b: int| 0 <= a < b < r.len() implies pair_le(
            keys[#[trigger] r[a] as int],
            keys[#[trigger] r[b] as int],
        ) && (keys[r[a] as int] == keys[r[b] as int] ==> r[a] < r[b]) by {
            if b == order.len() {
                if a < order.len() - 1 {
                    assert(pair_le(keys[order[a] as int], keys[order[order.len() - 1] as int]));
                }
            }
        }
        assert forall|x: usize| #[trigger] r.contains(x) <==> (order.contains(x) || x == g) by {
            if x == g {
                assert(r[order.len() as int] == x);
            }
            if order.contains(x) {
                let i = choose|i: int| 0 <= i < order.len() && order[i] == x;
                assert(r[i] == x);
            }
        }
    } else {
        let front = order.drop_last();
        assert forall|a: int, b: int| 0 <= a < b < front.len() implies pair_le(
            keys[#[trigger] front[a] as int],
            keys[#[trigger] front[b] as int],
        ) && (keys[front[a] as int] == keys[front[b] as int] ==> front[a] < front[b]) by {
            assert(front[a] == order[a] && front[b] == order[b]);
        }
        lemma_insert_keeps(keys, front, g);
        let inner = insert_by_key(keys, front, g);
        assert forall|a: int, b: int| 0 <= a < b < r.len() implies pair_le(
            keys[#[trigger] r[a] as int],
            keys[#[trigger] r[b] as int],
        ) && (keys[r[a] as int] == keys[r[b] as int] ==> r[a] < r[b]) by {
            if b == r.len() - 1 {
                assert(r[b] == order.last());
                assert(r[a] == inner[a]);
                assert(inner.contains(inner[a]));
                if inner[a] != g {
                    assert(front.contains(inner[a]));
                    let i = choose|i: int| 0 <= i < front.len() && front[i] == inner[a];
                    assert(order[i] == inner[a]);
                    assert(pair_le(keys[order[i] as int], keys[order[order.len() - 1] as int]));
                }
            } else {
                assert(r[a] == inner[a] && r[b] == inner[b]);
            }
        }
        assert forall|x: usize| #[trigger] r.contains(x) <==> (order.contains(x) || x == g) by {
            if r.contains(x) {
                let i = choose|i: int| 0 <= i < r.len() && r[i] == x;
                if i < r.len() - 1 {
                    assert(inner[i] == x);
                    assert(inner.contains(x));
                    if x != g {
                        assert(front.contains(x));
                        let j = choose|j: int| 0 <= j < front.len() && front[j] == x;
                        assert(order[j] == x);
                    }
                } else {
                    assert(order[order.len() - 1] == x);
                }
            }
            if x == g {
                assert(inner.contains(g));
                let i = choose|i: int| 0 <= i < inner.len() && inner[i] == g;
                assert(r[i] == g);
            }
            if order.contains(x) {
                let j = choose|j: int| 0 <= j < order.len() && order[j] == x;
                if j < order.len() - 1 {
                    assert(front[j] == x);
                    assert(front.contains(x));
                    assert(inner.contains(x));
                    let i = choose|i: int| 0 <= i < inner.len() && inner[i] == x;
                    assert(r[i] == x);
                } else {
                    assert(r[r.len() - 1] == x);
                }
            }
        }
    }
}

/// Ordering by key gives every index once, with keys that never fall and equal keys in the
/// order of their indices.
pub proof fn lemma_order_by_key(keys: Seq<(usize, usize)>, n: int)
    requires
        0 <= n <= usize::MAX,
    ensures
        order_by_key(keys, n).len() == n,
        forall|k: int| 0 <= k < n ==> 0 <= #[trigger] order_by_key(keys, n)[k] < n,
        forall|x: usize| 0 <= x < n ==> #[trigger] order_by_key(keys, n).contains(x),
        is_stably_sorted(keys, order_by_key(keys, n)),
    decreases n,
{
    if n > 0 {
        lemma_order_by_key(keys, n - 1);
        lemma_insert_keeps(keys, order_by_key(keys, n - 1), (n - 1) as usize);
        let prev = order_by_key(keys, n - 1);
        let r = order_by_key(keys, n);
        assert forall|x: usize| 0 <= x < n implies #[trigger] r.contains(x) by {
            if x < n - 1 {
                assert(prev.contains(x));
            }
        }
    }
}

/// The indices of `keys` in the order of the keys, equal keys in the order of their indices.
pub fn sort_indices(keys: &Vec<(usize, usize)>) -> (order: Vec<usize>)
    ensures
        order@ == order_by_key(keys@, keys@.len() as int),
        order@.len() == keys@.len(),
        forall|k: int| 0 <= k < order@.len() ==> 0 <= #[trigger] order@[k] < keys@.len(),
{
    let mut order: Vec<usize> = Vec::new();
    let mut g: usize = 0;
    while g < keys.len()
        invariant
            g <= keys.len(),
            order@ == order_by_key(keys@, g as int),
            order@.len() == g,
            forall|k: int| 0 <= k < order@.len() ==> 0 <= #[trigger] order@[k] < g,
        decreases keys.len() - g,
    {
        let mut pos: usize = order.len();
        while pos > 0 && !pair_le_exec(keys[order[pos - 1]], keys[g])
            invariant
                pos <= order@.len(),
                g < keys@.len(),
                forall|k: int| 0 <= k < order@.len() ==> 0 <= #[trigger] order@[k] < g,
                forall|k: int|
                    pos <= k < order@.len() ==> !pair_le(
                        keys@[#[trigger] order@[k] as int],
                        keys@[g as int],
                    ),
            decreases pos,
        {
            pos -= 1;
        }
        proof {
            lemma_insert_by_key(keys@, order@, g, pos as int);
            lemma_order_by_key(keys@, g + 1);
        }
        order.insert(pos, g);
        g += 1;
    }
    order
}

/// Whether `a` is not greater than `b`, first components first.
fn pair_le_exec(a: (usize, usize), b: (usize, usize)) -> (r: bool)
    ensures
        r == pair_le(a, b),
{
    a.0 < b.0 || (a.0 == b.0 && a.1 <= b.1)
}

} // verus!
