use vstd::prelude::*;
use crate::char_index::ByteRange;
use std::collections::HashMap;

verus! {

broadcast use vstd::std_specs::hash::group_hash_axioms;

/// What the parser tells of one node of the concrete syntax tree. Nodes come parent first; a
/// node names its parent by the parent's `id`.
#[derive(Clone, Copy, Debug, PartialEq, Eq, Structural)]
pub struct RawNode {
    pub id: usize,
    pub parent: Option<usize>,
    pub start_byte: usize,
    pub end_byte: usize,
    pub kind_id: u16,
    pub is_named: bool,
    pub has_error: bool,
}

/// A node of the syntax tree. `parent` is the place of the parent among the nodes of the tree.
#[derive(Clone, Copy, Debug, PartialEq, Eq, Structural)]
pub struct SyntaxNode {
    pub start_byte: usize,
    pub end_byte: usize,
    pub kind_id: u16,
    pub is_named: bool,
    pub has_error: bool,
    pub parent: Option<usize>,
}

/// The concrete syntax tree of a text: its nodes, each parent before its children.
#[derive(Debug)]
pub struct SyntaxTree {
    nodes: Vec<SyntaxNode>,
    len_bytes: usize,
}

/// The last place before `n` of a node with this `id`.
pub open spec fn last_with_id(raw: Seq<RawNode>, id: usize, n: int) -> Option<int>
    decreases n,
{
    if n <= 0 {
        None
    } else if raw[n - 1].id == id {
        Some(n - 1)
    } else {
        last_with_id(raw, id, n - 1)
    }
}

/// The place of the parent of node `i`: the last node before it that has the id which node `i`
/// gives for its parent.
pub open spec fn parent_place(raw: Seq<RawNode>, i: int) -> Option<int> {
    match raw[i].parent {
        Some(id) => last_with_id(raw, id, i),
        None => None,
    }
}

/// Node `i` lies within the text; it is the first node and has no parent, or it has a parent
/// that stands before it and covers it.
pub open spec fn raw_node_valid(raw: Seq<RawNode>, len_bytes: usize, i: int) -> bool {
    &&& raw[i].start_byte <= raw[i].end_byte <= len_bytes
    &&& (i == 0 ==> raw[i].parent.is_none())
    &&& (i > 0 ==> match parent_place(raw, i) {
        Some(p) => raw[p].start_byte <= raw[i].start_byte && raw[i].end_byte <= raw[p].end_byte,
        None => false,
    })
}

/// The nodes are those of a tree over a text of `len_bytes` bytes.
pub open spec fn raw_valid(raw: Seq<RawNode>, len_bytes: usize) -> bool {
    raw.len() > 0 && forall|i: int| 0 <= i < raw.len() ==> raw_node_valid(raw, len_bytes, i)
}

/// The node made of raw node `i`: what the parser tells of it, with the place of its parent
/// for the parent's id. A node that names a parent which does not stand before it counts as
/// its own parent, which no tree allows.
pub open spec fn node_of_raw(raw: Seq<RawNode>, i: int) -> SyntaxNode {
    SyntaxNode {
        start_byte: raw[i].start_byte,
        end_byte: raw[i].end_byte,
        kind_id: raw[i].kind_id,
        is_named: raw[i].is_named,
        has_error: raw[i].has_error,
        parent: match raw[i].parent {
            Some(_) => match parent_place(raw, i) {
                Some(p) => Some(p as usize),
                None => Some(i as usize),
            },
            None => None,
        },
    }
}

/// The nodes made of raw nodes: the same nodes without their ids.
pub open spec fn shape_of(raw: Seq<RawNode>) -> Seq<SyntaxNode> {
    Seq::new(raw.len(), |i: int| node_of_raw(raw, i))
}

/// The nodes of a tree: the first has no parent, every other has a parent that stands before it
/// and covers it, and all lie within the text.
pub open spec fn nodes_wf(nodes: Seq<SyntaxNode>, len_bytes: usize) -> bool {
    &&& nodes.len() > 0
    &&& nodes[0].parent.is_none()
    &&& forall|i: int|
        0 <= i < nodes.len() ==> (#[trigger] nodes[i]).start_byte <= nodes[i].end_byte <= len_bytes
    &&& forall|i: int|
        0 < i < nodes.len() ==> match (#[trigger] nodes[i]).parent {
            Some(p) => p < i && nodes[p as int].start_byte <= nodes[i].start_byte
                && nodes[i].end_byte <= nodes[p as int].end_byte,
            None => false,
        }
}

/// The place found for an id lies among the first `n` nodes and holds a node of that id.
proof fn lemma_last_with_id(raw: Seq<RawNode>, id: usize, n: int)
    requires
        0 <= n <= raw.len(),
    ensures
        match last_with_id(raw, id, n) {
            Some(p) => 0 <= p < n && raw[p].id == id,
            None => true,
        },
    decreases n,
{
    if n > 0 && raw[n - 1].id != id {
        lemma_last_with_id(raw, id, n - 1);
    }
}

/// Raw nodes are those of a tree exactly where the nodes made of them are.
pub proof fn lemma_shape_valid(raw: Seq<RawNode>, len_bytes: usize)
    requires
        raw.len() <= usize::MAX,
    ensures
        raw_valid(raw, len_bytes) <==> nodes_wf(shape_of(raw), len_bytes),
{
    let nodes = shape_of(raw);
    assert forall|i: int| 0 <= i < raw.len() implies match #[trigger] parent_place(raw, i) {
        Some(p) => 0 <= p < i,
        None => true,
    } by {
        if let Some(id) = raw[i].parent {
            lemma_last_with_id(raw, id, i);
        }
    }
    if raw_valid(raw, len_bytes) {
        assert(raw_node_valid(raw, len_bytes, 0));
        assert forall|i: int| 0 <= i < nodes.len() implies (#[trigger] nodes[i]).start_byte
            <= nodes[i].end_byte <= len_bytes by {
            assert(raw_node_valid(raw, len_bytes, i));
        }
        assert forall|i: int| 0 < i < nodes.len() implies match (#[trigger] nodes[i]).parent {
            Some(p) => p < i && nodes[p as int].start_byte <= nodes[i].start_byte
                && nodes[i].end_byte <= nodes[p as int].end_byte,
            None => false,
        } by {
            assert(raw_node_valid(raw, len_bytes, i));
        }
    }
    if nodes_wf(nodes, len_bytes) {
        assert forall|i: int| 0 <= i < raw.len() implies raw_node_valid(raw, len_bytes, i) by {
            assert(nodes[i].start_byte <= nodes[i].end_byte <= len_bytes);
            if i > 0 {
                assert(nodes[i].parent.is_some());
                let p = nodes[i].parent.unwrap();
                assert(p < i);
                assert(nodes[p as int].start_byte == raw[p as int].start_byte);
            }
        }
    }
}

impl SyntaxTree {
    /// The nodes, each parent before its children.
    pub closed spec fn view(&self) -> Seq<SyntaxNode> {
        self.nodes@
    }

    /// The length in bytes of the text that the tree was made for.
    pub closed spec fn text_len(&self) -> usize {
        self.len_bytes
    }

    /// The tree holds the nodes of a tree over a text of `text_len()` bytes.
    pub closed spec fn wf(&self) -> bool {
        nodes_wf(self.nodes@, self.len_bytes)
    }

    /// Unfolds `wf`.
    pub proof fn lemma_wf(&self)
        requires
            self.wf(),
        ensures
            nodes_wf(self@, self.text_len()),
    {
    }

    /// The tree of the nodes that a parser gave for a text of `len_bytes` bytes; `None` where
    /// they are not the nodes of a tree over such a text.
    pub fn from_raw(raw: &Vec<RawNode>, len_bytes: usize) -> (r: Option<SyntaxTree>)
        ensures
            match r {
                Some(t) => raw_valid(raw@, len_bytes) && t.wf() && t.text_len() == len_bytes
                    && t@.len() == raw@.len() && forall|i: int|
                    0 <= i < raw@.len() ==> #[trigger] t@[i] == node_of_raw(raw@, i),
                None => !raw_valid(raw@, len_bytes),
            },
    {
        if raw.len() == 0 {
            return None;
        }
        let mut places: HashMap<usize, usize> = HashMap::new();
        let mut nodes: Vec<SyntaxNode> = Vec::new();
        let mut i: usize = 0;
        while i < raw.len()
            invariant
                i <= raw.len(),
                nodes@.len() == i,
                forall|k: int| 0 <= k < i ==> raw_node_valid(raw@, len_bytes, k),
                forall|k: int| 0 <= k < i ==> #[trigger] nodes@[k] == node_of_raw(raw@, k),
                forall|id: usize|
                    #[trigger] last_with_id(raw@, id, i as int) == (if places@.contains_key(id) {
                        Some(places@[id] as int)
                    } else {
                        None
                    }),
            decreases raw.len() - i,
        {
            let node: RawNode = raw[i];
            if node.start_byte > node.end_byte || node.end_byte > len_bytes {
                assert(!raw_node_valid(raw@, len_bytes, i as int));
                return None;
            }
            let parent: Option<usize> = match node.parent {
                Some(id) => match places.get(&id) {
                    Some(p) => Some(*p),
                    None => None,
                },
                None => None,
            };
            proof {
                if node.parent.is_some() {
                    lemma_last_with_id(raw@, node.parent.unwrap(), i as int);
                }
            }
            match parent {
                Some(p) => {
                    if i == 0 || raw[p].start_byte > node.start_byte || node.end_byte
                        > raw[p].end_byte {
                        assert(!raw_node_valid(raw@, len_bytes, i as int));
                        return None;
                    }
                },
                None => {
                    if i > 0 || node.parent.is_some() {
                        assert(!raw_node_valid(raw@, len_bytes, i as int));
                        return None;
                    }
                },
            }
            nodes.push(
                SyntaxNode {
                    start_byte: node.start_byte,
                    end_byte: node.end_byte,
                    kind_id: node.kind_id,
                    is_named: node.is_named,
                    has_error: node.has_error,
                    parent,
                },
            );
            let ghost before = places@;
            places.insert(node.id, i);
            proof {
                assert(places@ == before.insert(node.id, i));
                assert forall|id: usize| #[trigger]
                    last_with_id(raw@, id, i + 1) == (if places@.contains_key(id) {
                        Some(places@[id] as int)
                    } else {
                        None
                    }) by {
                    assert(last_with_id(raw@, id, i as int) == (if before.contains_key(id) {
                        Some(before[id] as int)
                    } else {
                        None
                    }));
                }
            }
            i += 1;
        }
        proof {
            assert forall|k: int| 0 < k < nodes@.len() implies match (#[trigger] nodes@[k]).parent {
                Some(p) => p < k && nodes@[p as int].start_byte <= nodes@[k].start_byte
                    && nodes@[k].end_byte <= nodes@[p as int].end_byte,
                None => false,
            } by {
                assert(raw_node_valid(raw@, len_bytes, k));
                assert(nodes@[k] == node_of_raw(raw@, k));
                lemma_last_with_id(raw@, raw@[k].parent.unwrap(), k);
                let p = parent_place(raw@, k).unwrap();
                assert(nodes@[p] == node_of_raw(raw@, p));
            }
            assert forall|k: int| 0 <= k < nodes@.len() implies (#[trigger] nodes@[k]).start_byte
                <= nodes@[k].end_byte <= len_bytes by {
                assert(raw_node_valid(raw@, len_bytes, k));
                assert(nodes@[k] == node_of_raw(raw@, k));
            }
            assert(raw_node_valid(raw@, len_bytes, 0));
            assert(nodes@[0] == node_of_raw(raw@, 0));
        }
        Some(SyntaxTree { nodes, len_bytes })
    }

    /// The number of nodes.
    pub fn len(&self) -> (n: usize)
        ensures
            n == self@.len(),
    {
        self.nodes.len()
    }

    /// A well-formed tree has a root.
    pub proof fn lemma_nonempty(&self)
        requires
            self.wf(),
        ensures
            self@.len() > 0,
    {
        self.lemma_wf();
    }

    /// The bytes that the node at place `i` covers; they lie within the text.
    pub fn range_of(&self, i: usize) -> (r: ByteRange)
        requires
            self.wf(),
            i < self@.len(),
        ensures
            r.start == self@[i as int].start_byte,
            r.end == self@[i as int].end_byte,
            r.start <= r.end <= self.text_len(),
    {
        proof {
            self.lemma_wf();
        }
        ByteRange { start: self.nodes[i].start_byte, end: self.nodes[i].end_byte }
    }

    /// The node at place `i`.
    pub fn node(&self, i: usize) -> (n: SyntaxNode)
        requires
            i < self@.len(),
        ensures
            n == self@[i as int],
    {
        self.nodes[i]
    }

    /// A copy of the tree.
    pub fn duplicate(&self) -> (r: SyntaxTree)
        ensures
            r@ == self@,
            r.text_len() == self.text_len(),
            r.wf() == self.wf(),
    {
        let mut nodes: Vec<SyntaxNode> = Vec::new();
        let mut i: usize = 0;
        while i < self.nodes.len()
            invariant
                i <= self.nodes.len(),
                nodes@ == self.nodes@.take(i as int),
            decreases self.nodes.len() - i,
        {
            nodes.push(self.nodes[i]);
            proof {
                assert(self.nodes@.take(i + 1) =~= self.nodes@.take(i as int).push(
                    self.nodes@[i as int],
                ));
            }
            i += 1;
        }
        assert(self.nodes@.take(self.nodes@.len() as int) =~= self.nodes@);
        SyntaxTree { nodes, len_bytes: self.len_bytes }
    }
}

/// Whether a node covers the bytes from `start` to `end`.
pub open spec fn covers(node: SyntaxNode, start: usize, end: usize) -> bool {
    node.start_byte <= start && end <= node.end_byte
}

/// Whether node `i` is one that a search for the bytes from `start` to `end` can come to: the
/// root, where every search begins, or a node that covers the bytes and ends behind their
/// start. A node that ends where the bytes start is passed over, so an empty range right
/// behind a token does not belong to that token.
pub open spec fn holds(nodes: Seq<SyntaxNode>, i: int, start: usize, end: usize) -> bool {
    i == 0 || (covers(nodes[i], start, end) && nodes[i].end_byte > start)
}

/// The length of a node in bytes.
pub open spec fn node_len(node: SyntaxNode) -> int {
    node.end_byte - node.start_byte
}

/// Among the first `n` nodes, the shortest that a search for the bytes from `start` to `end`
/// can come to; of several such, the last.
pub open spec fn smallest_cover_upto(nodes: Seq<SyntaxNode>, start: usize, end: usize, n: int) -> Option<
    int,
>
    decreases n,
{
    if n <= 0 {
        None
    } else {
        let rest = smallest_cover_upto(nodes, start, end, n - 1);
        if holds(nodes, n - 1, start, end) && (match rest {
            Some(b) => node_len(nodes[n - 1]) <= node_len(nodes[b]),
            None => true,
        }) {
            Some(n - 1)
        } else {
            rest
        }
    }
}

/// The node that a search for the bytes from `start` to `end` ends at: the shortest node that
/// covers them and ends behind their start, of several such the last; the root where there is
/// none. `None` only for no nodes at all.
pub open spec fn smallest_cover(nodes: Seq<SyntaxNode>, start: usize, end: usize) -> Option<int> {
    smallest_cover_upto(nodes, start, end, nodes.len() as int)
}

/// What `smallest_cover_upto` finds is a node that the search can come to, and no such node
/// before `n` is shorter; it finds one wherever there is a node.
pub proof fn lemma_smallest_cover(nodes: Seq<SyntaxNode>, start: usize, end: usize, n: int)
    requires
        0 <= n <= nodes.len(),
    ensures
        match smallest_cover_upto(nodes, start, end, n) {
            Some(b) => 0 <= b < n && holds(nodes, b, start, end) && forall|k: int|
                0 <= k < n && #[trigger] holds(nodes, k, start, end) ==> node_len(nodes[b])
                    <= node_len(nodes[k]),
            None => n == 0,
        },
    decreases n,
{
    if n > 0 {
        lemma_smallest_cover(nodes, start, end, n - 1);
    }
}

/// Whether two nodes cover the same bytes.
pub open spec fn same_range(a: SyntaxNode, b: SyntaxNode) -> bool {
    a.start_byte == b.start_byte && a.end_byte == b.end_byte
}

/// The topmost of the ancestors of node `i`, itself included, that cover the same bytes as it
/// with nothing but such nodes between.
pub open spec fn topmost_same_range(nodes: Seq<SyntaxNode>, i: int) -> int
    decreases i,
{
    match nodes[i].parent {
        Some(p) if p < i && same_range(nodes[p as int], nodes[i]) => topmost_same_range(
            nodes,
            p as int,
        ),
        _ => i,
    }
}

/// The nearest ancestor of node `i` that does not cover the same bytes as it.
pub open spec fn outer_ancestor(nodes: Seq<SyntaxNode>, i: int, from: int) -> Option<int>
    decreases from,
{
    match nodes[from].parent {
        Some(p) if p < from => if same_range(nodes[p as int], nodes[i]) {
            outer_ancestor(nodes, i, p as int)
        } else {
            Some(p as int)
        },
        _ => None,
    }
}

/// Whether node `i` has no child: the node after it, if any, is not its child.
pub open spec fn is_leaf(nodes: Seq<SyntaxNode>, i: int) -> bool {
    i + 1 >= nodes.len() || nodes[i + 1].parent != Some(i as usize)
}

/// The first node from `from` on that satisfies `wanted`.
pub open spec fn first_node_from(
    nodes: Seq<SyntaxNode>,
    wanted: spec_fn(int) -> bool,
    from: int,
) -> Option<int>
    decreases nodes.len() - from,
{
    if from >= nodes.len() {
        None
    } else if wanted(from) {
        Some(from)
    } else {
        first_node_from(nodes, wanted, from + 1)
    }
}

/// The last node before `n` that satisfies `wanted`.
pub open spec fn last_node_before(wanted: spec_fn(int) -> bool, n: int) -> Option<int>
    decreases n,
{
    if n <= 0 {
        None
    } else if wanted(n - 1) {
        Some(n - 1)
    } else {
        last_node_before(wanted, n - 1)
    }
}

/// The first node from `from` on satisfies `wanted` and none between does; `None` means that
/// none from `from` on does.
pub proof fn lemma_first_node_from(nodes: Seq<SyntaxNode>, wanted: spec_fn(int) -> bool, from: int)
    requires
        0 <= from,
    ensures
        match first_node_from(nodes, wanted, from) {
            Some(j) => from <= j < nodes.len() && wanted(j) && forall|k: int|
                from <= k < j ==> !#[trigger] wanted(k),
            None => forall|k: int| from <= k < nodes.len() ==> !#[trigger] wanted(k),
        },
    decreases nodes.len() - from,
{
    if from < nodes.len() && !wanted(from) {
        lemma_first_node_from(nodes, wanted, from + 1);
    }
}

/// The last node before `n` satisfies `wanted` and none between does; `None` means that none
/// before `n` does.
pub proof fn lemma_last_node_before(wanted: spec_fn(int) -> bool, n: int)
    ensures
        match last_node_before(wanted, n) {
            Some(j) => 0 <= j < n && wanted(j) && forall|k: int| j < k < n ==> !#[trigger] wanted(k),
            None => forall|k: int| 0 <= k < n ==> !#[trigger] wanted(k),
        },
    decreases n,
{
    if n > 0 && !wanted(n - 1) {
        lemma_last_node_before(wanted, n - 1);
    }
}

/// Whether node `j` is a named child of the parent of node `i`.
pub open spec fn is_named_sibling(nodes: Seq<SyntaxNode>, i: int, j: int) -> bool {
    nodes[j].is_named && nodes[j].parent == nodes[i].parent
}

/// The next named child of the parent of node `i`.
pub open spec fn next_named_sibling(nodes: Seq<SyntaxNode>, i: int) -> Option<int> {
    first_node_from(nodes, |j: int| is_named_sibling(nodes, i, j), i + 1)
}

/// The named child before node `i` of its parent.
pub open spec fn prev_named_sibling(nodes: Seq<SyntaxNode>, i: int) -> Option<int> {
    last_node_before(|j: int| is_named_sibling(nodes, i, j), i)
}

/// The first named child of node `i`.
pub open spec fn first_named_child(nodes: Seq<SyntaxNode>, i: int) -> Option<int> {
    first_node_from(nodes, |j: int| nodes[j].is_named && nodes[j].parent == Some(i as usize), i + 1)
}

/// The first named node down the chain of first named children of node `from` that does not
/// cover the same bytes as node `i`.
pub open spec fn inner_child(nodes: Seq<SyntaxNode>, i: int, from: int) -> Option<int>
    decreases nodes.len() - from,
{
    match first_named_child(nodes, from) {
        Some(c) => if from < c < nodes.len() {
            if same_range(nodes[c], nodes[i]) {
                inner_child(nodes, i, c)
            } else {
                Some(c)
            }
        } else {
            None
        },
        None => None,
    }
}

/// Going from a named node to its next named sibling and back to the sibling before that gives
/// the node again.
pub proof fn lemma_sibling_round_trip(nodes: Seq<SyntaxNode>, i: int)
    requires
        0 <= i < nodes.len(),
        nodes[i].is_named,
        next_named_sibling(nodes, i).is_some(),
    ensures
        prev_named_sibling(nodes, next_named_sibling(nodes, i).unwrap()) == Some(i),
{
    let forward = |j: int| is_named_sibling(nodes, i, j);
    lemma_first_node_from(nodes, forward, i + 1);
    let n = next_named_sibling(nodes, i).unwrap();
    let backward = |j: int| is_named_sibling(nodes, n, j);
    lemma_last_node_before(backward, n);
    assert(backward(i));
    match last_node_before(backward, n) {
        Some(p) => {
            if p > i {
                assert(forward(p));
            }
        },
        None => {},
    }
}

/// Going from a named node to the named sibling before it and on to the next gives the node
/// again.
pub proof fn lemma_sibling_round_trip_back(nodes: Seq<SyntaxNode>, i: int)
    requires
        0 <= i < nodes.len(),
        nodes[i].is_named,
        prev_named_sibling(nodes, i).is_some(),
    ensures
        next_named_sibling(nodes, prev_named_sibling(nodes, i).unwrap()) == Some(i),
{
    let backward = |j: int| is_named_sibling(nodes, i, j);
    lemma_last_node_before(backward, i);
    let p = prev_named_sibling(nodes, i).unwrap();
    let forward = |j: int| is_named_sibling(nodes, p, j);
    lemma_first_node_from(nodes, forward, p + 1);
    assert(forward(i));
    match first_node_from(nodes, forward, p + 1) {
        Some(n) => {
            if n < i {
                assert(backward(n));
            }
        },
        None => {},
    }
}

impl SyntaxTree {
    /// The node that a search for the bytes from `start` to `end` ends at: the shortest node
    /// that covers them and ends behind their start, of several such the last, which is the
    /// innermost; the root where no node does.
    pub fn descendant_for_byte_range(&self, start: usize, end: usize) -> (r: Option<usize>)
        ensures
            match r {
                Some(i) => smallest_cover(self@, start, end) == Some(i as int) && i < self@.len(),
                None => smallest_cover(self@, start, end).is_none(),
            },
    {
        let mut best: Option<usize> = None;
        let mut i: usize = 0;
        while i < self.nodes.len()
            invariant
                i <= self.nodes.len(),
                match best {
                    Some(b) => smallest_cover_upto(self@, start, end, i as int) == Some(b as int)
                        && b < i,
                    None => smallest_cover_upto(self@, start, end, i as int).is_none(),
                },
            decreases self.nodes.len() - i,
        {
            let node: SyntaxNode = self.nodes[i];
            if i == 0 || (node.start_byte <= start && end <= node.end_byte && node.end_byte > start) {
                let better: bool = match best {
                    Some(b) => {
                        let other: SyntaxNode = self.nodes[b];
                        if node.end_byte >= node.start_byte && other.end_byte >= other.start_byte {
                            node.end_byte - node.start_byte <= other.end_byte - other.start_byte
                        } else {
                            lengths_le(node, other)
                        }
                    },
                    None => true,
                };
                if better {
                    best = Some(i);
                }
            }
            i += 1;
        }
        best
    }

    /// The topmost of the ancestors of node `i`, itself included, that cover the same bytes.
    pub fn topmost_same_range(&self, i: usize) -> (r: usize)
        requires
            i < self@.len(),
        ensures
            r == topmost_same_range(self@, i as int),
            r <= i,
    {
        let mut current: usize = i;
        loop
            invariant
                current <= i,
                i < self@.len(),
                topmost_same_range(self@, current as int) == topmost_same_range(self@, i as int),
            decreases current,
        {
            let node: SyntaxNode = self.nodes[current];
            match node.parent {
                Some(p) => {
                    if p < current {
                        let parent: SyntaxNode = self.nodes[p];
                        if parent.start_byte == node.start_byte && parent.end_byte == node.end_byte {
                            current = p;
                            continue ;
                        }
                    }
                    return current;
                },
                None => {
                    return current;
                },
            }
        }
    }

    /// The nearest ancestor of node `i` that does not cover the same bytes as it.
    pub fn outer_ancestor(&self, i: usize) -> (r: Option<usize>)
        requires
            i < self@.len(),
        ensures
            match r {
                Some(p) => outer_ancestor(self@, i as int, i as int) == Some(p as int) && p < i,
                None => outer_ancestor(self@, i as int, i as int).is_none(),
            },
    {
        let target: SyntaxNode = self.nodes[i];
        let mut current: usize = i;
        loop
            invariant
                current <= i,
                i < self@.len(),
                target == self@[i as int],
                outer_ancestor(self@, i as int, current as int) == outer_ancestor(
                    self@,
                    i as int,
                    i as int,
                ),
            decreases current,
        {
            match self.nodes[current].parent {
                Some(p) => {
                    if p < current {
                        let parent: SyntaxNode = self.nodes[p];
                        if parent.start_byte == target.start_byte && parent.end_byte
                            == target.end_byte {
                            current = p;
                            continue ;
                        }
                        return Some(p);
                    }
                    return None;
                },
                None => {
                    return None;
                },
            }
        }
    }

    /// Whether node `i` has no child.
    pub fn is_leaf(&self, i: usize) -> (b: bool)
        requires
            i < self@.len(),
        ensures
            b == is_leaf(self@, i as int),
    {
        let n: usize = self.nodes.len();
        if i + 1 >= n {
            true
        } else {
            match self.nodes[i + 1].parent {
                Some(p) => p != i,
                None => true,
            }
        }
    }

    /// The next named child of the parent of node `i`.
    pub fn next_named_sibling(&self, i: usize) -> (r: Option<usize>)
        requires
            i < self@.len(),
        ensures
            match r {
                Some(j) => next_named_sibling(self@, i as int) == Some(j as int) && i < j
                    < self@.len(),
                None => next_named_sibling(self@, i as int).is_none(),
            },
    {
        let parent: Option<usize> = self.nodes[i].parent;
        let ghost wanted = |j: int| is_named_sibling(self@, i as int, j);
        let n: usize = self.nodes.len();
        let mut j: usize = i + 1;
        while j < self.nodes.len()
            invariant
                i < j <= self.nodes.len(),
                parent == self@[i as int].parent,
                wanted == (|j: int| is_named_sibling(self@, i as int, j)),
                first_node_from(self@, wanted, j as int) == first_node_from(self@, wanted, i + 1),
            decreases self.nodes.len() - j,
        {
            let node: SyntaxNode = self.nodes[j];
            if node.is_named && node.parent == parent {
                assert(wanted(j as int));
                return Some(j);
            }
            assert(!wanted(j as int));
            j += 1;
        }
        None
    }

    /// The named child before node `i` of its parent.
    pub fn prev_named_sibling(&self, i: usize) -> (r: Option<usize>)
        requires
            i < self@.len(),
        ensures
            match r {
                Some(j) => prev_named_sibling(self@, i as int) == Some(j as int) && j < i,
                None => prev_named_sibling(self@, i as int).is_none(),
            },
    {
        let parent: Option<usize> = self.nodes[i].parent;
        let ghost wanted = |j: int| is_named_sibling(self@, i as int, j);
        let mut j: usize = i;
        while j > 0
            invariant
                j <= i < self.nodes.len(),
                parent == self@[i as int].parent,
                wanted == (|j: int| is_named_sibling(self@, i as int, j)),
                last_node_before(wanted, j as int) == last_node_before(wanted, i as int),
            decreases j,
        {
            let node: SyntaxNode = self.nodes[j - 1];
            if node.is_named && node.parent == parent {
                assert(wanted(j - 1));
                return Some(j - 1);
            }
            assert(!wanted(j - 1));
            j -= 1;
        }
        None
    }

    /// The first named child of node `i`.
    pub fn first_named_child(&self, i: usize) -> (r: Option<usize>)
        requires
            i < self@.len(),
        ensures
            match r {
                Some(j) => first_named_child(self@, i as int) == Some(j as int) && i < j
                    < self@.len(),
                None => first_named_child(self@, i as int).is_none(),
            },
    {
        let ghost wanted = |j: int| self@[j].is_named && self@[j].parent == Some(i);
        let n: usize = self.nodes.len();
        let mut j: usize = i + 1;
        while j < self.nodes.len()
            invariant
                i < j <= self.nodes.len(),
                wanted == (|j: int| self@[j].is_named && self@[j].parent == Some(i)),
                first_node_from(self@, wanted, j as int) == first_node_from(self@, wanted, i + 1),
            decreases self.nodes.len() - j,
        {
            let node: SyntaxNode = self.nodes[j];
            if node.is_named && node.parent == Some(i) {
                assert(wanted(j as int));
                return Some(j);
            }
            assert(!wanted(j as int));
            j += 1;
        }
        None
    }
}

impl SyntaxTree {
    /// The first named node down the chain of first named children of node `i` that does not
    /// cover the same bytes as it.
    pub fn inner_child(&self, i: usize) -> (r: Option<usize>)
        requires
            i < self@.len(),
        ensures
            match r {
                Some(c) => inner_child(self@, i as int, i as int) == Some(c as int) && i < c
                    < self@.len(),
                None => inner_child(self@, i as int, i as int).is_none(),
            },
    {
        let target: SyntaxNode = self.nodes[i];
        let mut current: usize = i;
        loop
            invariant
                i <= current < self@.len(),
                target == self@[i as int],
                inner_child(self@, i as int, current as int) == inner_child(
                    self@,
                    i as int,
                    i as int,
                ),
            decreases self@.len() - current,
        {
            match self.first_named_child(current) {
                Some(c) => {
                    let child: SyntaxNode = self.nodes[c];
                    if child.start_byte == target.start_byte && child.end_byte == target.end_byte {
                        current = c;
                        continue ;
                    }
                    return Some(c);
                },
                None => {
                    return None;
                },
            }
        }
    }
}

/// Whether the first node is no longer than the second, where a node may end before it starts.
fn lengths_le(a: SyntaxNode, b: SyntaxNode) -> (r: bool)
    ensures
        r == (node_len(a) <= node_len(b)),
{
    if a.end_byte >= a.start_byte {
        if b.end_byte >= b.start_byte {
            a.end_byte - a.start_byte <= b.end_byte - b.start_byte
        } else {
            false
        }
    } else if b.end_byte >= b.start_byte {
        true
    } else {
        a.start_byte - a.end_byte >= b.start_byte - b.end_byte
    }
}

/// The node at a place, if there is a place.
pub open spec fn node_at(nodes: Seq<SyntaxNode>, place: Option<int>) -> Option<SyntaxNode> {
    match place {
        Some(i) => Some(nodes[i]),
        None => None,
    }
}

/// Whether node `i` has no children, and is named where that is asked for.
pub open spec fn is_token(nodes: Seq<SyntaxNode>, i: int, is_named: bool) -> bool {
    is_leaf(nodes, i) && (!is_named || nodes[i].is_named)
}

/// The first node, parents before children, that starts at or after `byte`.
pub open spec fn first_starting_at(nodes: Seq<SyntaxNode>, byte: usize) -> Option<int> {
    first_node_from(nodes, |i: int| nodes[i].start_byte >= byte, 0)
}

/// The first node without children that ends after `byte`.
pub open spec fn next_token(nodes: Seq<SyntaxNode>, byte: usize, is_named: bool) -> Option<int> {
    first_node_from(nodes, |i: int| is_token(nodes, i, is_named) && nodes[i].end_byte > byte, 0)
}

/// The last node without children before the first node that starts at or after `byte`.
pub open spec fn prev_token(nodes: Seq<SyntaxNode>, byte: usize, is_named: bool) -> Option<int> {
    last_node_before(
        |i: int| is_token(nodes, i, is_named),
        match first_starting_at(nodes, byte) {
            Some(stop) => stop,
            None => nodes.len() as int,
        },
    )
}

impl SyntaxTree {
    /// The first node, parents before children, that starts at or after `byte`.
    pub fn first_starting_at(&self, byte: usize) -> (r: Option<usize>)
        ensures
            match r {
                Some(i) => first_starting_at(self@, byte) == Some(i as int) && i < self@.len(),
                None => first_starting_at(self@, byte).is_none(),
            },
    {
        let ghost wanted = |i: int| self@[i].start_byte >= byte;
        let mut i: usize = 0;
        while i < self.nodes.len()
            invariant
                i <= self.nodes.len(),
                wanted == (|i: int| self@[i].start_byte >= byte),
                first_node_from(self@, wanted, i as int) == first_node_from(self@, wanted, 0),
            decreases self.nodes.len() - i,
        {
            if self.nodes[i].start_byte >= byte {
                assert(wanted(i as int));
                return Some(i);
            }
            assert(!wanted(i as int));
            i += 1;
        }
        None
    }

    /// The first node without children that ends after `byte`; only named nodes count where
    /// `is_named` is set.
    pub fn next_token(&self, byte: usize, is_named: bool) -> (r: Option<usize>)
        ensures
            match r {
                Some(i) => next_token(self@, byte, is_named) == Some(i as int) && i < self@.len(),
                None => next_token(self@, byte, is_named).is_none(),
            },
    {
        let ghost wanted = |i: int| is_token(self@, i, is_named) && self@[i].end_byte > byte;
        let mut i: usize = 0;
        while i < self.nodes.len()
            invariant
                i <= self.nodes.len(),
                wanted == (|i: int| is_token(self@, i, is_named) && self@[i].end_byte > byte),
                first_node_from(self@, wanted, i as int) == first_node_from(self@, wanted, 0),
            decreases self.nodes.len() - i,
        {
            let node: SyntaxNode = self.nodes[i];
            if self.is_leaf(i) && (!is_named || node.is_named) && node.end_byte > byte {
                assert(wanted(i as int));
                return Some(i);
            }
            assert(!wanted(i as int));
            i += 1;
        }
        None
    }

    /// The last node without children before the first node that starts at or after `byte`;
    /// only named nodes count where `is_named` is set.
    pub fn prev_token(&self, byte: usize, is_named: bool) -> (r: Option<usize>)
        ensures
            match r {
                Some(i) => prev_token(self@, byte, is_named) == Some(i as int) && i < self@.len(),
                None => prev_token(self@, byte, is_named).is_none(),
            },
    {
        let stop: usize = match self.first_starting_at(byte) {
            Some(s) => s,
            None => self.nodes.len(),
        };
        let ghost wanted = |i: int| is_token(self@, i, is_named);
        let mut i: usize = stop;
        while i > 0
            invariant
                i <= stop <= self.nodes.len(),
                stop as int == (match first_starting_at(self@, byte) {
                    Some(s) => s,
                    None => self@.len() as int,
                }),
                wanted == (|i: int| is_token(self@, i, is_named)),
                last_node_before(wanted, i as int) == last_node_before(wanted, stop as int),
            decreases i,
        {
            let node: SyntaxNode = self.nodes[i - 1];
            if self.is_leaf(i - 1) && (!is_named || node.is_named) {
                assert(wanted(i - 1));
                return Some(i - 1);
            }
            assert(!wanted(i - 1));
            i -= 1;
        }
        None
    }
}

/// The children of node `p` among the first `n` nodes, in the order of the text.
pub open spec fn children_upto(nodes: Seq<SyntaxNode>, p: usize, n: int) -> Seq<usize>
    decreases n,
{
    if n <= 0 {
        Seq::empty()
    } else if nodes[n - 1].parent == Some(p) {
        children_upto(nodes, p, n - 1).push((n - 1) as usize)
    } else {
        children_upto(nodes, p, n - 1)
    }
}

/// The children of node `p`, named or not, in the order of the text.
pub open spec fn children_of(nodes: Seq<SyntaxNode>, p: usize) -> Seq<usize> {
    children_upto(nodes, p, nodes.len() as int)
}

impl SyntaxTree {
    /// The children of node `p`, named or not, in the order of the text.
    pub fn children(&self, p: usize) -> (r: Vec<usize>)
        ensures
            r@ == children_of(self@, p),
            forall|k: int| 0 <= k < r@.len() ==> r@[k] < self@.len(),
    {
        let mut r: Vec<usize> = Vec::new();
        let mut i: usize = 0;
        while i < self.nodes.len()
            invariant
                i <= self.nodes.len(),
                r@ == children_upto(self@, p, i as int),
                forall|k: int| 0 <= k < r@.len() ==> r@[k] < self@.len(),
            decreases self.nodes.len() - i,
        {
            if self.nodes[i].parent == Some(p) {
                r.push(i);
            }
            i += 1;
        }
        r
    }
}

} // verus!
