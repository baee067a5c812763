use editor_core::buffer::{Buffer, Decoration, HighlightedSpan};
use editor_core::char_index::{ByteRange, CharIndex, CharIndexRange, Position};
use editor_core::diagnostic::{Diagnostic, PositionRange};
use editor_core::edit::{Action, ActionGroup, Edit, EditTransaction};
use editor_core::error::EditorError;
use editor_core::selection::{Selection, SelectionSet};

fn buffer(text: &str) -> Buffer {
    Buffer::new(tree_sitter_rust::language(), text)
}

fn edit(start: usize, end: usize, new: &str) -> Action {
    Action::Edit(Edit {
        range: CharIndexRange::new(start, end),
        new: new.to_string(),
    })
}

fn select(start: usize, end: usize) -> Action {
    Action::Select(Selection::new(CharIndexRange::new(start, end)))
}

fn position_range(a: (usize, usize), b: (usize, usize)) -> PositionRange {
    PositionRange {
        start: Position::new(a.0, a.1),
        end: Position::new(b.0, b.1),
    }
}

#[test]
fn find_words() {
    let buffer = Buffer::new(tree_sitter_md::language(), "foo bar baz baz");
    let words = buffer.find_words("Ba");
    assert_eq!(words, vec!["bar", "baz"]);
}

#[test]
fn words_come_once_each_in_order() {
    let buffer = buffer("b a b c a");
    assert_eq!(buffer.words(), vec!["b", "a", "c"]);
    assert_eq!(buffer.find_words("zzz"), Vec::<String>::new());
    assert_eq!(
        buffer.get_word_before_char_index(CharIndex(5)).unwrap(),
        "b"
    );
    assert_eq!(buffer.get_word_before_char_index(CharIndex(0)).unwrap(), "");
    assert_eq!(
        buffer.get_word_before_char_index(CharIndex(10)).unwrap_err(),
        EditorError::OutOfBounds
    );
}

#[test]
fn set_diagnostics_should_sort() {
    let mut buffer = Buffer::new(tree_sitter_md::language(), "");
    let patrick = Diagnostic::new(position_range((1, 2), (1, 4)), "patrick".to_string());
    let spongebob = Diagnostic::new(position_range((0, 0), (0, 1)), "spongebob".to_string());
    buffer.set_diagnostics(vec![patrick.clone(), spongebob.clone()]);
    assert_eq!(buffer.diagnostics().clone(), vec![spongebob, patrick]);
}

#[test]
fn diagnostics_are_found_by_their_range() {
    let mut buffer = buffer("ab\ncd");
    let first = Diagnostic::new(position_range((1, 0), (1, 2)), "second line".to_string());
    let second = Diagnostic::new(position_range((0, 1), (0, 2)), "first line".to_string());
    let beyond = Diagnostic::new(position_range((7, 0), (7, 2)), "nowhere".to_string());
    buffer.set_diagnostics(vec![first, beyond, second]);
    assert_eq!(
        buffer.diagnostic_ranges().clone(),
        vec![
            CharIndexRange::new(1, 2),
            CharIndexRange::new(3, 5),
            CharIndexRange::new(5, 5)
        ]
    );
    assert_eq!(
        buffer
            .find_diagnostic(&CharIndexRange::new(3, 5))
            .unwrap()
            .message(),
        "second line"
    );
    assert!(buffer.find_diagnostic(&CharIndexRange::new(0, 1)).is_none());
}

#[test]
fn should_format_code() {
    let mut buffer = buffer("");
    buffer.update(" fn main\n() {}");
    assert!(buffer.can_be_formatted());
    let content = buffer.apply_formatted(Ok("fn main() {}\n".to_string()), SelectionSet::default());
    assert_eq!(content, "fn main() {}\n");
    assert_eq!(buffer.content(), "fn main() {}\n");
    let token = buffer.get_next_token(CharIndex::default(), false).unwrap();
    assert_eq!(token.start_byte..token.end_byte, 0..2);
}

#[test]
fn should_be_undoable() {
    let mut buffer = buffer("");
    let unformatted = " fn main\n() {}";
    buffer.update(unformatted);
    buffer.apply_formatted(Ok("fn main() {}\n".to_string()), SelectionSet::default());
    assert_ne!(buffer.content(), unformatted);
    buffer.undo(SelectionSet::default()).unwrap();
    assert_eq!(buffer.content(), " fn main\n() {}");
}

#[test]
fn should_not_run_when_syntax_tree_is_malformed() {
    let mut buffer = buffer("");
    buffer.update("fn main() {");
    assert!(!buffer.can_be_formatted());
    assert_eq!(buffer.content(), "fn main() {");
}

#[test]
fn should_not_update_buffer_if_formatter_returns_error() {
    let code = "\n            let x = \"1\";\n                ";
    let mut buffer = buffer("");
    buffer.update(code);
    assert!(buffer.can_be_formatted());
    let content = buffer.apply_formatted(Err("unformattable".to_string()), SelectionSet::default());
    assert_eq!(content, code);
    assert_eq!(buffer.content(), code);
    assert_eq!(buffer.undo(SelectionSet::default()).unwrap(), None);
}

#[test]
fn positions_and_indices_agree() {
    let buffer = buffer("aé\n😀b\n");
    assert_eq!(buffer.len_chars(), 6);
    assert_eq!(buffer.len_bytes(), 10);
    assert_eq!(buffer.len_lines(), 3);
    let bytes = [0, 1, 3, 4, 8, 9, 10];
    let positions = [(0, 0), (0, 1), (0, 2), (1, 0), (1, 1), (1, 2), (2, 0)];
    for c in 0..=6 {
        let index = CharIndex(c);
        assert_eq!(buffer.char_to_byte(index).unwrap(), bytes[c]);
        assert_eq!(buffer.byte_to_char(bytes[c]).unwrap(), index);
        let position = buffer.char_to_position(index).unwrap();
        assert_eq!((position.line, position.column), positions[c]);
        assert_eq!(buffer.position_to_char(position).unwrap(), index);
        assert_eq!(buffer.char_to_line(index).unwrap(), positions[c].0);
        assert_eq!(buffer.byte_to_position(bytes[c]).unwrap(), position);
    }
    assert_eq!(buffer.byte_to_char(2).unwrap(), CharIndex(1));
    assert_eq!(buffer.byte_to_char(6).unwrap(), CharIndex(3));
    assert_eq!(buffer.line_to_char(0).unwrap(), CharIndex(0));
    assert_eq!(buffer.line_to_char(1).unwrap(), CharIndex(3));
    assert_eq!(buffer.line_to_char(2).unwrap(), CharIndex(6));
    assert_eq!(buffer.line_to_char(3).unwrap(), CharIndex(6));
    assert_eq!(buffer.line_to_byte(1).unwrap(), 4);
    assert_eq!(buffer.line_len(0), 2);
    assert_eq!(buffer.line_len(1), 2);
    assert_eq!(buffer.line_len(2), 0);
    assert_eq!(buffer.line_len(9), 0);
}

#[test]
fn indices_beyond_the_text_are_refused() {
    let buffer = buffer("ab\nc");
    assert_eq!(
        buffer.char_to_byte(CharIndex(5)).unwrap_err(),
        EditorError::OutOfBounds
    );
    assert_eq!(buffer.byte_to_char(5).unwrap_err(), EditorError::OutOfBounds);
    assert_eq!(
        buffer.char_to_line(CharIndex(5)).unwrap_err(),
        EditorError::OutOfBounds
    );
    assert_eq!(buffer.line_to_char(3).unwrap_err(), EditorError::OutOfBounds);
    assert_eq!(
        buffer.char_to_position(CharIndex(5)).unwrap_err(),
        EditorError::OutOfBounds
    );
    assert_eq!(
        buffer.position_to_char(Position::new(3, 0)).unwrap_err(),
        EditorError::OutOfBounds
    );
    assert_eq!(
        buffer.slice(&CharIndexRange::new(1, 9)).unwrap_err(),
        EditorError::OutOfBounds
    );
    assert_eq!(
        buffer.slice(&CharIndexRange::new(3, 1)).unwrap_err(),
        EditorError::InvalidRange
    );
    assert_eq!(
        buffer
            .byte_range_to_char_index_range(ByteRange::new(0, 9))
            .unwrap_err(),
        EditorError::OutOfBounds
    );
    assert_eq!(buffer.try_position_to_char_index(Position::new(3, 0)), None);
}

#[test]
fn a_column_beyond_the_line_counts_as_its_end() {
    let buffer = buffer("ab\ncde\n");
    assert_eq!(
        buffer.position_to_char(Position::new(0, 7)).unwrap(),
        CharIndex(2)
    );
    assert_eq!(
        buffer.position_to_char(Position::new(1, 3)).unwrap(),
        CharIndex(6)
    );
    assert_eq!(
        buffer.position_to_char(Position::new(2, 4)).unwrap(),
        CharIndex(7)
    );
    assert_eq!(
        buffer.position_to_char(Position::new(3, 4)).unwrap(),
        CharIndex(7)
    );
    assert_eq!(buffer.get_char_at_position(Position::new(1, 1)), Some('d'));
    assert_eq!(buffer.get_char_at_position(Position::new(2, 0)), None);
    assert!(buffer.contains_position_range(&position_range((0, 0), (1, 1))));
    assert!(!buffer.contains_position_range(&position_range((0, 0), (2, 0))));
    assert_eq!(
        buffer.try_position_to_char_index(Position::new(1, 1)),
        Some(CharIndex(4))
    );
}

#[test]
fn lines_are_handed_out_with_their_line_feed() {
    let buffer = buffer("ab\ncde\nf");
    assert_eq!(buffer.get_line(CharIndex(4)).unwrap(), "cde\n");
    assert_eq!(buffer.get_line(CharIndex(2)).unwrap(), "ab\n");
    assert_eq!(buffer.get_line(CharIndex(8)).unwrap(), "f");
    assert_eq!(
        buffer.get_line_range_by_char_index(CharIndex(3)).unwrap(),
        CharIndexRange::new(3, 7)
    );
    assert_eq!(
        buffer.get_line(CharIndex(9)).unwrap_err(),
        EditorError::OutOfBounds
    );
    assert_eq!(buffer.slice(&CharIndexRange::new(1, 4)).unwrap(), "b\nc");
    assert_eq!(buffer.byte_range_text(ByteRange::new(3, 6)), "cde");
    assert_eq!(buffer.byte_range_text(ByteRange::new(3, 60)), "");
}

#[test]
fn a_transaction_applies_all_edits_or_none() {
    let mut b = buffer("hello world");
    let transaction = EditTransaction::from_action_groups(vec![
        ActionGroup::new(vec![edit(6, 11, "there"), select(6, 11)]),
        ActionGroup::new(vec![edit(0, 5, "hi"), select(0, 2)]),
    ])
    .unwrap();
    let selections = b
        .apply_edit_transaction(&transaction, SelectionSet::default())
        .unwrap();
    assert_eq!(b.content(), "hi there");
    assert_eq!(selections.primary.range, CharIndexRange::new(3, 8));
    assert_eq!(selections.secondary.len(), 1);
    assert_eq!(selections.secondary[0].range, CharIndexRange::new(0, 2));

    let beyond =
        EditTransaction::from_action_groups(vec![ActionGroup::new(vec![edit(2, 40, "")])]).unwrap();
    assert_eq!(
        b.apply_edit_transaction(&beyond, SelectionSet::default())
            .unwrap_err(),
        EditorError::OutOfBounds
    );
    assert_eq!(b.content(), "hi there");
    let backwards =
        EditTransaction::from_action_groups(vec![ActionGroup::new(vec![edit(4, 2, "")])]).unwrap();
    assert_eq!(
        b.apply_edit_transaction(&backwards, SelectionSet::default())
            .unwrap_err(),
        EditorError::InvalidRange
    );
    let second_fails = EditTransaction::from_action_groups(vec![
        ActionGroup::new(vec![edit(0, 2, "")]),
        ActionGroup::new(vec![edit(7, 9, "")]),
    ])
    .unwrap();
    assert_eq!(
        b.apply_edit_transaction(&second_fails, SelectionSet::default())
            .unwrap_err(),
        EditorError::OutOfBounds
    );
    assert_eq!(b.content(), "hi there");
}

#[test]
fn undo_and_redo_go_back_and_forth() {
    let mut b = buffer("one");
    let mut before = SelectionSet::default();
    before.primary = Selection::new(CharIndexRange::new(1, 2));
    let transaction = EditTransaction::from_action_groups(vec![ActionGroup::new(vec![
        edit(3, 3, " two"),
        select(3, 7),
    ])])
    .unwrap();
    let after = b.apply_edit_transaction(&transaction, before.clone()).unwrap();
    assert_eq!(b.content(), "one two");
    let undone = b.undo(after.clone()).unwrap();
    assert_eq!(b.content(), "one");
    assert_eq!(undone, Some(before.clone()));
    assert_eq!(b.undo(before.clone()).unwrap(), None);
    assert_eq!(b.content(), "one");
    let redone = b.redo(before.clone()).unwrap();
    assert_eq!(b.content(), "one two");
    assert_eq!(redone, Some(after));
    assert_eq!(b.redo(before).unwrap(), None);
    assert_eq!(b.content(), "one two");
}

#[test]
fn an_edit_that_changes_nothing_leaves_no_history() {
    let mut b = buffer("same");
    let transaction =
        EditTransaction::from_action_groups(vec![ActionGroup::new(vec![edit(0, 4, "same")])])
            .unwrap();
    b.apply_edit_transaction(&transaction, SelectionSet::default())
        .unwrap();
    assert_eq!(b.undo(SelectionSet::default()).unwrap(), None);
}

#[test]
fn a_diff_that_does_not_apply_is_reported() {
    let mut b = buffer("alpha\nbeta\ngamma\n");
    let transaction =
        EditTransaction::from_action_groups(vec![ActionGroup::new(vec![edit(6, 10, "BETA")])])
            .unwrap();
    b.apply_edit_transaction(&transaction, SelectionSet::default())
        .unwrap();
    b.update("something\nelse\nentirely\n");
    assert_eq!(
        b.undo(SelectionSet::default()).unwrap_err(),
        EditorError::PatchApplyFailed
    );
    assert_eq!(b.content(), "something\nelse\nentirely\n");
}

#[test]
fn bookmarks_toggle_and_move_with_edits() {
    let mut b = buffer("foo bar spim");
    b.save_bookmarks(vec![CharIndexRange::new(0, 3), CharIndexRange::new(8, 12)]);
    assert_eq!(
        b.bookmarks().clone(),
        vec![CharIndexRange::new(0, 3), CharIndexRange::new(8, 12)]
    );
    b.save_bookmarks(vec![
        CharIndexRange::new(0, 3),
        CharIndexRange::new(4, 7),
        CharIndexRange::new(4, 7),
    ]);
    assert_eq!(
        b.bookmarks().clone(),
        vec![CharIndexRange::new(8, 12), CharIndexRange::new(4, 7)]
    );
    let transaction = EditTransaction::from_action_groups(vec![ActionGroup::new(vec![edit(
        0, 4, "",
    )])])
    .unwrap();
    b.apply_edit_transaction(&transaction, SelectionSet::default())
        .unwrap();
    assert_eq!(b.content(), "bar spim");
    assert_eq!(
        b.bookmarks().clone(),
        vec![CharIndexRange::new(4, 8), CharIndexRange::new(0, 3)]
    );
    let delete_inside =
        EditTransaction::from_action_groups(vec![ActionGroup::new(vec![edit(3, 8, "")])]).unwrap();
    b.apply_edit_transaction(&delete_inside, SelectionSet::default())
        .unwrap();
    assert_eq!(
        b.bookmarks().clone(),
        vec![CharIndexRange::new(3, 3), CharIndexRange::new(0, 3)]
    );
}

#[test]
fn nodes_are_found_by_range() {
    let b = buffer("fn main() { x + 1 }");
    let mut selection = Selection::new(CharIndexRange::new(12, 13));
    let node = b.get_current_node(&selection).unwrap();
    assert_eq!((node.start_byte, node.end_byte), (12, 13));
    assert!(b.given_range_is_node(&CharIndexRange::new(12, 17)));
    assert!(!b.given_range_is_node(&CharIndexRange::new(12, 16)));
    assert!(!b.given_range_is_node(&CharIndexRange::new(12, 99)));
    assert!(!b.has_syntax_error_at(CharIndexRange::new(12, 17)));
    selection.range = CharIndexRange::new(0, 99);
    assert!(b.get_current_node(&selection).is_none());
    let broken = buffer("fn main( {");
    assert!(broken.has_syntax_error_at(CharIndexRange::new(0, 10)));
    let next = b.get_next_token(CharIndex(3), true).unwrap();
    assert_eq!((next.start_byte, next.end_byte), (3, 7));
    let previous = b.get_prev_token(CharIndex(12), false).unwrap();
    assert_eq!((previous.start_byte, previous.end_byte), (10, 11));
    let after = b.get_nearest_node_after_char(CharIndex(11)).unwrap();
    assert_eq!(after.start_byte, 12);
    assert!(b.get_next_token(CharIndex(99), false).is_none());
}

#[test]
fn a_copy_of_a_buffer_stands_alone() {
    let mut b = buffer("abc");
    b.set_path("/tmp/x.rs".to_string());
    let copy = b.duplicate();
    b.update("changed");
    assert_eq!(copy.content(), "abc");
    assert_eq!(copy.path(), Some("/tmp/x.rs".to_string()));
    assert_eq!(b.content(), "changed");
}

#[test]
fn any_change_of_the_text_can_be_taken_back_and_done_again() {
    let texts = [
        "",
        "a",
        "a\n",
        "\n",
        "\n\n",
        "a\nb",
        "a\nb\n",
        "a\r\nb\r\n",
        "a\rb",
        "--- a\n+++ b\n@@ -1 +1 @@\n-x\n+y\n",
        "\\ No newline at end of file",
        "\\ No newline at end of file\n",
        "+added\n-removed\n context\n",
        "é😀\n\t x \n",
        "one\ntwo\nthree\nfour\nfive\nsix\nseven\neight\nnine\nten\n",
        "one\ntwo\n3\nfour\nfive\nsix\nseven\neight\n9\nten",
        "same\nsame\nsame\nsame\n",
        "same\nsame\nsame",
    ];
    for before in texts {
        for after in texts {
            let mut b = buffer(before);
            b.apply_formatted(Ok(after.to_string()), SelectionSet::default());
            assert_eq!(b.content(), after);
            let undone = b.undo(SelectionSet::default());
            if before == after {
                assert_eq!(undone, Ok(None));
                continue;
            }
            assert_eq!(undone, Ok(Some(SelectionSet::default())), "{:?} {:?}", before, after);
            assert_eq!(b.content(), before, "{:?} {:?}", before, after);
            let redone = b.redo(SelectionSet::default());
            assert_eq!(redone, Ok(Some(SelectionSet::default())), "{:?} {:?}", before, after);
            assert_eq!(b.content(), after, "{:?} {:?}", before, after);
        }
    }
}

#[test]
fn the_rope_of_a_buffer_holds_its_text() {
    let mut b = buffer("ab\ncd");
    assert_eq!(b.rope().to_string(), "ab\ncd");
    assert_eq!(b.rope().len_lines(), 2);
    b.update("x\r\ny\u{2028}z\n");
    assert_eq!(b.rope().len_lines(), 3);
    assert_eq!(b.len_lines(), 3);
    assert_eq!(b.char_to_line(CharIndex(5)).unwrap(), 1);
    assert_eq!(b.line_to_char(1).unwrap(), CharIndex(3));
}

#[test]
fn colours_and_decorations_move_with_the_text() {
    let mut b = buffer("fn main() { let x = 123 }");
    let keyword = HighlightedSpan {
        byte_range: ByteRange::new(0, 2),
        style_key: 1,
    };
    let number = HighlightedSpan {
        byte_range: ByteRange::new(20, 23),
        style_key: 2,
    };
    let beyond = HighlightedSpan {
        byte_range: ByteRange::new(90, 99),
        style_key: 3,
    };
    let decoration = Decoration {
        range: CharIndexRange::new(3, 7),
        style_key: 4,
    };
    b.update_highlighted_spans(vec![keyword, number, beyond]);
    b.set_decorations(vec![decoration]);
    let transaction = EditTransaction::from_action_groups(vec![ActionGroup::new(vec![edit(
        0, 0, "hellö",
    )])])
    .unwrap();
    b.apply_edit_transaction(&transaction, SelectionSet::default())
        .unwrap();
    assert_eq!(b.content(), "hellöfn main() { let x = 123 }");
    let spans: Vec<(usize, usize)> = b
        .highlighted_spans()
        .iter()
        .map(|span| (span.byte_range.start, span.byte_range.end))
        .collect();
    assert_eq!(spans, vec![(6, 8), (26, 29), (31, 31)]);
    assert_eq!(b.decorations()[0].range, CharIndexRange::new(8, 12));
    assert_eq!(b.decorations()[0].style_key, 4);
    b.undo(SelectionSet::default()).unwrap();
    let spans: Vec<(usize, usize)> = b
        .highlighted_spans()
        .iter()
        .map(|span| (span.byte_range.start, span.byte_range.end))
        .collect();
    assert_eq!(spans, vec![(0, 2), (20, 23), (25, 25)]);
    assert_eq!(b.decorations()[0].range, CharIndexRange::new(3, 7));
}

#[test]
fn a_diagnostic_that_no_edit_touches_moves_by_the_sum_of_the_changes() {
    let mut b = buffer("fn main() { let x = 123 }");
    b.set_diagnostics(vec![Diagnostic::new(
        position_range((0, 16), (0, 17)),
        "unused".to_string(),
    )]);
    assert_eq!(b.slice(&b.diagnostic_ranges()[0]).unwrap(), "x");
    let transaction = EditTransaction::from_action_groups(vec![
        ActionGroup::new(vec![edit(3, 7, "start")]),
        ActionGroup::new(vec![edit(0, 0, "pub ")]),
        ActionGroup::new(vec![edit(12, 15, "")]),
        ActionGroup::new(vec![edit(20, 23, "4")]),
    ])
    .unwrap();
    b.apply_edit_transaction(&transaction, SelectionSet::default())
        .unwrap();
    assert_eq!(b.content(), "pub fn start() {  x = 4 }");
    assert_eq!(
        b.diagnostic_ranges().clone(),
        vec![CharIndexRange::new(18, 19)]
    );
    assert_eq!(b.slice(&b.diagnostic_ranges()[0]).unwrap(), "x");
}
