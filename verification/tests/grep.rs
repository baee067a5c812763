use editor_core::buffer::Buffer;
use editor_core::components::keymap_legend::{dedent, lines_of};
use editor_core::char_index::Position;
use editor_core::diagnostic::PositionRange;
use editor_core::error::EditorError;
use editor_core::list::grep::{locations_of, to_location, GrepConfig, Location};
use editor_core::lsp::documentation::Documentation;
use editor_core::selection_mode::regex::get_regex;
use editor_core::syntax::{RawNode, SyntaxTree};

fn location(path: &str, from: (usize, usize), to: (usize, usize)) -> Location {
    Location {
        path: path.to_string(),
        range: PositionRange {
            start: Position::new(from.0, from.1),
            end: Position::new(to.0, to.1),
        },
    }
}

#[test]
fn matches_in_a_line_become_locations() {
    let buffer = Buffer::new(tree_sitter_md::language(), "one\nfoo é foo\nlast");
    let found = to_location(&buffer, "a.md", 2, "foo é foo\n", "foo").unwrap();
    assert_eq!(
        found,
        vec![
            location("a.md", (1, 0), (1, 3)),
            location("a.md", (1, 6), (1, 9))
        ]
    );
    let first = to_location(&buffer, "a.md", 0, "one\n", "o").unwrap();
    assert_eq!(first, vec![location("a.md", (0, 0), (0, 1))]);
    let none = to_location(&buffer, "a.md", 3, "last", "x").unwrap();
    assert_eq!(none, vec![]);
}

#[test]
fn a_line_or_a_pattern_that_is_not_there_is_refused() {
    let buffer = Buffer::new(tree_sitter_md::language(), "one\ntwo");
    assert_eq!(
        to_location(&buffer, "a.md", 9, "two", "t").unwrap_err(),
        EditorError::OutOfBounds
    );
    assert_eq!(
        to_location(&buffer, "a.md", 1, "one", "(").unwrap_err(),
        EditorError::FilterRegexInvalid
    );
}

#[test]
fn matches_beyond_the_text_are_left_out() {
    let buffer = Buffer::new(tree_sitter_md::language(), "one\ntwo");
    let found = locations_of(&buffer, "a.md", 2, &vec![(0, 3), (2, 9), (usize::MAX, 1)]).unwrap();
    assert_eq!(found, vec![location("a.md", (1, 0), (1, 3))]);
}

#[test]
fn the_pattern_of_a_search_follows_its_settings() {
    let config = |escaped, case_sensitive, match_whole_word| GrepConfig {
        escaped,
        case_sensitive,
        match_whole_word,
    };
    assert_eq!(get_regex("a.b", GrepConfig::default()), "(?i)a\\.b");
    assert_eq!(get_regex("a.b", config(false, true, false)), "a.b");
    assert_eq!(get_regex("a.b", config(true, true, true)), "\\ba\\.b\\b");
    assert_eq!(get_regex("a.b", config(false, false, true)), "(?i)\\ba.b\\b");
}

#[test]
fn documentation_holds_its_text() {
    let documentation = Documentation::new("spongebob".to_string());
    assert_eq!(documentation.content(), "spongebob");
    assert_eq!(
        documentation,
        Documentation {
            content: "spongebob".to_string()
        }
    );
}

fn raw(id: usize, parent: Option<usize>, start_byte: usize, end_byte: usize) -> RawNode {
    RawNode {
        id,
        parent,
        start_byte,
        end_byte,
        kind_id: 0,
        is_named: true,
        has_error: false,
    }
}

#[test]
fn a_tree_is_made_of_nodes_that_name_their_parents() {
    let nodes = vec![
        raw(10, None, 0, 9),
        raw(20, Some(10), 0, 4),
        raw(30, Some(20), 0, 2),
        raw(40, Some(10), 5, 9),
    ];
    let tree = SyntaxTree::from_raw(&nodes, 9).unwrap();
    assert_eq!(tree.len(), 4);
    assert_eq!(tree.node(3).parent, Some(0));
    assert_eq!(tree.children(0), vec![1, 3]);
    assert_eq!(tree.children(1), vec![2]);
    assert_eq!(tree.children(3), Vec::<usize>::new());
    assert_eq!(tree.next_named_sibling(1), Some(3));
    assert_eq!(tree.prev_named_sibling(3), Some(1));
    assert_eq!(tree.prev_named_sibling(1), None);
    assert_eq!(tree.first_named_child(0), Some(1));
    assert_eq!(tree.descendant_for_byte_range(1, 2), Some(2));
    assert_eq!(tree.descendant_for_byte_range(1, 7), Some(0));
    assert_eq!(tree.descendant_for_byte_range(1, 70), Some(0));
    assert_eq!(tree.descendant_for_byte_range(4, 4), Some(0));
    assert_eq!(tree.descendant_for_byte_range(2, 2), Some(1));
    assert_eq!(tree.descendant_for_byte_range(5, 5), Some(3));
    assert_eq!(tree.descendant_for_byte_range(9, 9), Some(0));
    assert_eq!(tree.outer_ancestor(2), Some(1));
    assert_eq!(tree.inner_child(0), Some(1));
    assert!(tree.is_leaf(2));
    assert!(!tree.is_leaf(1));
    let range = tree.range_of(3);
    assert_eq!((range.start, range.end), (5, 9));
}

#[test]
fn nodes_that_make_no_tree_are_refused() {
    assert!(SyntaxTree::from_raw(&vec![], 0).is_none());
    assert!(SyntaxTree::from_raw(&vec![raw(1, Some(7), 0, 1)], 1).is_none());
    assert!(SyntaxTree::from_raw(&vec![raw(1, None, 0, 5)], 1).is_none());
    assert!(SyntaxTree::from_raw(&vec![raw(1, None, 3, 1)], 5).is_none());
    assert!(
        SyntaxTree::from_raw(&vec![raw(1, None, 0, 5), raw(2, Some(1), 2, 9)], 9).is_none()
    );
    assert!(
        SyntaxTree::from_raw(&vec![raw(1, None, 0, 5), raw(2, Some(3), 2, 4)], 5).is_none()
    );
    assert!(SyntaxTree::from_raw(&vec![raw(1, None, 0, 5), raw(2, None, 2, 4)], 5).is_none());
}

#[test]
fn dedent_takes_the_shared_indentation_away() {
    assert_eq!(dedent("  a\n    b\n\n  c"), "a\n  b\n\nc");
    assert_eq!(dedent("    a\n  b\n"), "  a\nb");
    assert_eq!(dedent("a\n  b"), "a\n  b");
    assert_eq!(dedent("  a\r\n   b\r\n"), "a\n b");
    assert_eq!(dedent(""), "");
    assert_eq!(dedent("\n\n"), "\n");
    assert_eq!(dedent("   \n  x"), " \nx");
    assert_eq!(dedent(" \n   x"), " \nx");
    assert_eq!(dedent("\t\t\t\n   x"), "\nx");
    assert_eq!(dedent("  é\n   ü"), "é\n ü");
}

#[test]
fn lines_end_at_line_feeds() {
    let lines = |s: &str| -> Vec<String> {
        lines_of(&s.chars().collect())
            .iter()
            .map(|line| line.iter().collect())
            .collect()
    };
    assert_eq!(lines("foo\nbar\n\r\nbaz\r"), ["foo", "bar", "", "baz\r"]);
    assert_eq!(lines("a\n"), ["a"]);
    assert_eq!(lines("a\n\n"), ["a", ""]);
    assert_eq!(lines(""), Vec::<String>::new());
    for text in ["foo\nbar\n\r\nbaz\r", "a\n", "", "\n\n", " x\r\r\n y"] {
        let expected: Vec<String> = text.lines().map(|line| line.to_string()).collect();
        assert_eq!(lines(text), expected);
    }
}

#[test]
fn the_search_for_a_node_ends_where_the_parser_says() {
    let texts = [
        "fn main() { x + 1 }",
        "fn main(a:A,b:B) {}",
        "  fn f(){ let x = S(a); let y = S(b); }  // end ",
        "struct A(usize, char)",
        "fn é() { \"😀\" }",
        "fn main( {",
        "",
    ];
    for text in texts {
        let mut parser = tree_sitter::Parser::new();
        parser.set_language(tree_sitter_rust::language()).unwrap();
        let parsed = parser.parse(text, None).unwrap();
        let buffer = Buffer::new(tree_sitter_rust::language(), text);
        let tree = buffer.tree().unwrap();
        for start in 0..=text.len() + 1 {
            for end in start..=text.len() + 1 {
                let theirs = parsed
                    .root_node()
                    .descendant_for_byte_range(start, end)
                    .unwrap();
                let ours = tree.node(tree.descendant_for_byte_range(start, end).unwrap());
                assert_eq!(
                    (ours.start_byte, ours.end_byte, ours.kind_id, ours.has_error),
                    (
                        theirs.start_byte(),
                        theirs.end_byte(),
                        theirs.kind_id(),
                        theirs.has_error()
                    ),
                    "{:?} {}..{}",
                    text,
                    start,
                    end
                );
            }
        }
    }
}
