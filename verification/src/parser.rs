use vstd::prelude::*;
use crate::syntax::{RawNode, SyntaxNode, shape_of};

verus! {

/// `tree_sitter::Language`, a grammar. It is handed to the parser and never looked into.
#[verifier::external_type_specification]
#[verifier::external_body]
pub struct ExLanguage(tree_sitter::Language);

/// The nodes of the syntax tree that the parser makes of a text with a grammar, each parent
/// before its children and each with the place of its parent; `None` where it makes no tree.
pub uninterp spec fn parsed(language: tree_sitter::Language, text: Seq<char>) -> Option<
    Seq<SyntaxNode>,
>;

/// `tree_sitter::Parser::parse` with `language` set, and the nodes of the tree it gives, each
/// parent before its children, as `tree_sitter_traversal::traverse` hands them out in
/// `Order::Pre`. `None` where the parser does not take the language or gives no tree. The parse
/// depends on the grammar and the text alone, but for the ids of the nodes, which are unique
/// within a tree and serve only to name parents: the contract claims that the nodes without
/// their ids are the same for the same grammar and text.
#[verifier::external_body]
pub(crate) fn parse_nodes(language: &tree_sitter::Language, text: &str) -> (r: Option<Vec<RawNode>>)
    ensures
        match r {
            Some(raw) => parsed(*language, text@) == Some(shape_of(raw@)),
            None => parsed(*language, text@).is_none(),
        },
{
    let mut parser = tree_sitter::Parser::new();
    parser.set_language(*language).ok()?;
    let tree = parser.parse(text, None)?;
    let nodes = tree_sitter_traversal::traverse(tree.walk(), tree_sitter_traversal::Order::Pre);
    Some(nodes.map(|n| RawNode {
        id: n.id(), parent: n.parent().map(|p| p.id()),
        start_byte: n.start_byte(), end_byte: n.end_byte(),
        kind_id: n.kind_id(), is_named: n.is_named(), has_error: n.has_error(),
    }).collect())
}

} // verus!
