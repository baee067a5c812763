use vstd::prelude::*;
use crate::char_index::ByteRange;
use crate::selection_mode::{keep_valid, valid_ranges};
use crate::syntax::{SyntaxNode, SyntaxTree, is_leaf, smallest_cover, topmost_same_range};

verus! {

/// The bytes that a node covers.
pub open spec fn node_range(node: SyntaxNode) -> ByteRange {
    ByteRange { start: node.start_byte, end: node.end_byte }
}

/// The ranges of those among the first `n` nodes that satisfy `wanted`, in order.
pub open spec fn ranges_of_nodes(nodes: Seq<SyntaxNode>, wanted: spec_fn(int) -> bool, n: int) -> Seq<
    ByteRange,
>
    decreases n,
{
    if n <= 0 {
        Seq::empty()
    } else if wanted(n - 1) {
        ranges_of_nodes(nodes, wanted, n - 1).push(node_range(nodes[n - 1]))
    } else {
        ranges_of_nodes(nodes, wanted, n - 1)
    }
}

/// The node that a selection of the bytes from `start` to `end` stands for: the topmost of the
/// nodes that cover the same bytes as the node that a search for the selection ends at.
pub open spec fn current_node(nodes: Seq<SyntaxNode>, start: usize, end: usize) -> int {
    match smallest_cover(nodes, start, end) {
        Some(i) => topmost_same_range(nodes, i),
        None => 0,
    }
}

/// Whether node `j` is a named child of `parent`.
pub open spec fn is_named_child_of(nodes: Seq<SyntaxNode>, parent: Option<usize>, j: int) -> bool {
    nodes[j].is_named && nodes[j].parent == parent
}

/// The named nodes that have the same parent as node `i`, not empty and within the text.
pub open spec fn sibling_ranges(nodes: Seq<SyntaxNode>, i: int, len_bytes: usize) -> Seq<ByteRange> {
    valid_ranges(
        ranges_of_nodes(
            nodes,
            |j: int| is_named_child_of(nodes, nodes[i].parent, j),
            nodes.len() as int,
        ),
        len_bytes,
    )
}

/// Whether node `j` is named, is not the root, and has no ancestor but the root that starts at
/// the same byte.
pub open spec fn is_top_node(nodes: Seq<SyntaxNode>, j: int) -> bool {
    nodes[j].is_named && match nodes[j].parent {
        Some(p) => p == 0 || (p < nodes.len() && nodes[p as int].start_byte != nodes[j].start_byte),
        None => false,
    }
}

/// The outermost named nodes below the root, not empty and within the text.
pub open spec fn top_node_ranges(nodes: Seq<SyntaxNode>, len_bytes: usize) -> Seq<ByteRange> {
    valid_ranges(ranges_of_nodes(nodes, |j: int| is_top_node(nodes, j), nodes.len() as int), len_bytes)
}

/// The nodes without children, not empty and within the text.
pub open spec fn bottom_node_ranges(nodes: Seq<SyntaxNode>, len_bytes: usize) -> Seq<ByteRange> {
    valid_ranges(ranges_of_nodes(nodes, |j: int| is_leaf(nodes, j), nodes.len() as int), len_bytes)
}

/// The node that a selection of the bytes from `start` to `end` stands for.
pub fn get_current_node(tree: &SyntaxTree, start: usize, end: usize) -> (i: usize)
    requires
        tree@.len() > 0,
    ensures
        i == current_node(tree@, start, end),
        i < tree@.len(),
{
    match tree.descendant_for_byte_range(start, end) {
        Some(i) => tree.topmost_same_range(i),
        None => 0,
    }
}

/// The named nodes that have the same parent as node `i`.
pub fn siblings(tree: &SyntaxTree, i: usize, len_bytes: usize) -> (ranges: Vec<ByteRange>)
    requires
        i < tree@.len(),
    ensures
        ranges@ == sibling_ranges(tree@, i as int, len_bytes),
{
    let parent: Option<usize> = tree.node(i).parent;
    let ghost wanted = |j: int| is_named_child_of(tree@, tree@[i as int].parent, j);
    let mut ranges: Vec<ByteRange> = Vec::new();
    let mut j: usize = 0;
    while j < tree.len()
        invariant
            j <= tree@.len(),
            parent == tree@[i as int].parent,
            wanted == (|j: int| is_named_child_of(tree@, tree@[i as int].parent, j)),
            ranges@ == ranges_of_nodes(tree@, wanted, j as int),
        decreases tree@.len() - j,
    {
        let node: SyntaxNode = tree.node(j);
        if node.is_named && node.parent == parent {
            assert(wanted(j as int));
            ranges.push(ByteRange { start: node.start_byte, end: node.end_byte });
        } else {
            assert(!wanted(j as int));
        }
        j += 1;
    }
    keep_valid(&ranges, len_bytes)
}

/// The outermost named nodes below the root.
pub fn top_nodes(tree: &SyntaxTree, len_bytes: usize) -> (ranges: Vec<ByteRange>)
    ensures
        ranges@ == top_node_ranges(tree@, len_bytes),
{
    let ghost wanted = |j: int| is_top_node(tree@, j);
    let mut ranges: Vec<ByteRange> = Vec::new();
    let mut j: usize = 0;
    while j < tree.len()
        invariant
            j <= tree@.len(),
            wanted == (|j: int| is_top_node(tree@, j)),
            ranges@ == ranges_of_nodes(tree@, wanted, j as int),
        decreases tree@.len() - j,
    {
        let node: SyntaxNode = tree.node(j);
        let top: bool = node.is_named && match node.parent {
            Some(p) => p == 0 || (p < tree.len() && tree.node(p).start_byte != node.start_byte),
            None => false,
        };
        if top {
            assert(wanted(j as int));
            ranges.push(ByteRange { start: node.start_byte, end: node.end_byte });
        } else {
            assert(!wanted(j as int));
        }
        j += 1;
    }
    keep_valid(&ranges, len_bytes)
}

/// The nodes without children.
pub fn bottom_nodes(tree: &SyntaxTree, len_bytes: usize) -> (ranges: Vec<ByteRange>)
    ensures
        ranges@ == bottom_node_ranges(tree@, len_bytes),
{
    let ghost wanted = |j: int| is_leaf(tree@, j);
    let mut ranges: Vec<ByteRange> = Vec::new();
    let mut j: usize = 0;
    while j < tree.len()
        invariant
            j <= tree@.len(),
            wanted == (|j: int| is_leaf(tree@, j)),
            ranges@ == ranges_of_nodes(tree@, wanted, j as int),
        decreases tree@.len() - j,
    {
        let node: SyntaxNode = tree.node(j);
        if tree.is_leaf(j) {
            assert(wanted(j as int));
            ranges.push(ByteRange { start: node.start_byte, end: node.end_byte });
        } else {
            assert(!wanted(j as int));
        }
        j += 1;
    }
    keep_valid(&ranges, len_bytes)
}

} // verus!
