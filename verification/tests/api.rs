use editor_core::app::{Dimension, RequestParams, Scope};
use editor_core::buffer::{Buffer, Decoration, HighlightedSpan};
use editor_core::char_index::{ByteRange, CharIndex, CharIndexRange, Position};
use editor_core::components::actions::{get_smart_separator, is_blank_text};
use editor_core::components::editor::{Direction, Editor, Jump, Mode, Movement, ViewAlignment};
use editor_core::components::messages::{Message, Payload};
use editor_core::components::editor::PositionalEdit;
use editor_core::diagnostic::Diagnostic;
use editor_core::components::jumps::{
    jump_characters, label_candidates, narrow_jumps, to_ascii_lower,
};
use editor_core::context::Context;
use editor_core::diagnostic::PositionRange;
use editor_core::error::EditorError;
use editor_core::rectangle::Rectangle;
use editor_core::selection::{
    Filter, FilterKind, FilterMechanism, FilterTarget, Filters, Info, InsideKind, Selection,
    SelectionMode, SelectionSet,
};
use editor_core::selection_mode::{get_candidates, get_selection, passes, vertical_target};
use editor_core::text::{char_is_whitespace, char_utf8_width, str_chars, to_decimal, trimmed};
use editor_core::words::{text_contains, unique};

fn rust(text: &str) -> Buffer {
    Buffer::new(tree_sitter_rust::language(), text)
}

fn range(start: usize, end: usize) -> CharIndexRange {
    CharIndexRange::new(start, end)
}

fn texts(buffer: &Buffer, ranges: &[ByteRange]) -> Vec<String> {
    ranges.iter().map(|r| buffer.byte_range_text(*r)).collect()
}

fn keep(pattern: &str) -> Filter {
    Filter {
        kind: FilterKind::Keep,
        target: FilterTarget::Content,
        mechanism: FilterMechanism::Literal(pattern.to_string()),
    }
}

#[test]
fn positions_and_ranges_compare_and_move() {
    assert!(Position::new(1, 2).precedes(&Position::new(1, 3)));
    assert!(Position::new(1, 9).precedes(&Position::new(2, 0)));
    assert!(!Position::new(2, 0).precedes(&Position::new(1, 9)));
    assert!(!Position::new(1, 2).precedes(&Position::new(1, 2)));
    assert_eq!(range(2, 5).hull(&range(4, 9)), range(2, 9));
    assert_eq!(range(4, 9).hull(&range(2, 5)), range(2, 9));
    assert_eq!(range(2, 5).shift_left(1), range(1, 4));
    assert_eq!(range(2, 5).shift_left(3), range(0, 2));
    assert_eq!(range(2, 5).shift_right(3), range(5, 8));
    assert_eq!(
        range(2, 5).shift_right(usize::MAX),
        range(usize::MAX, usize::MAX)
    );
    assert_eq!(range(2, 5).len(), 3);
    assert_eq!(range(5, 2).len(), 0);
    assert!(range(2, 5).intersects(&range(4, 9)));
    assert!(!range(2, 5).intersects(&range(5, 9)));
    assert!(range(2, 2).intersects(&range(0, 9)));
    assert!(!range(2, 2).intersects(&range(2, 9)));
}

#[test]
fn what_is_laid_over_a_buffer_can_be_replaced() {
    let mut buffer = rust("fn main() {}");
    assert!(buffer.decorations().is_empty());
    assert!(buffer.highlighted_spans().is_empty());
    let decoration = Decoration {
        range: range(0, 2),
        style_key: 7,
    };
    let span = HighlightedSpan {
        byte_range: ByteRange::new(3, 7),
        style_key: 9,
    };
    buffer.set_decorations(vec![decoration]);
    buffer.update_highlighted_spans(vec![span]);
    assert_eq!(buffer.decorations().clone(), vec![decoration]);
    assert_eq!(buffer.highlighted_spans().clone(), vec![span]);
    assert!(buffer.treesitter_language().node_kind_count() > 0);
    assert_eq!(*buffer.treesitter_language(), tree_sitter_rust::language());
    assert_ne!(*buffer.treesitter_language(), tree_sitter_md::language());
    buffer.update("fn other() {}");
    let copy = buffer.duplicate();
    assert_eq!(*copy.treesitter_language(), tree_sitter_rust::language());
    let markdown = Buffer::new(tree_sitter_md::language(), "# title");
    assert_eq!(*markdown.treesitter_language(), tree_sitter_md::language());
    buffer.update("fn main() {}");
    assert_eq!(buffer.content(), "fn main() {}");
}

#[test]
fn ranges_of_characters_and_of_bytes_answer_each_other() {
    let buffer = rust("aé😀b");
    assert_eq!(
        buffer.char_index_range_to_byte_range(range(1, 3)).unwrap(),
        ByteRange::new(1, 7)
    );
    assert_eq!(
        buffer
            .byte_range_to_char_index_range(ByteRange::new(1, 7))
            .unwrap(),
        range(1, 3)
    );
    assert_eq!(
        buffer
            .char_index_range_to_byte_range(range(1, 9))
            .unwrap_err(),
        EditorError::OutOfBounds
    );
    let lines = rust("ab\ncd");
    assert_eq!(lines.get_line_by_char_index(CharIndex(4)).unwrap(), "cd");
    assert_eq!(lines.get_line_by_char_index(CharIndex(0)).unwrap(), "ab\n");
}

#[test]
fn a_context_keeps_the_clipboard() {
    let mut context = Context::default();
    assert_eq!(context.get_clipboard_content(), None);
    context.set_clipboard_content("kept".to_string());
    assert_eq!(context.get_clipboard_content(), Some("kept".to_string()));
    assert_eq!(context.mode(), None);
}

#[test]
fn a_selection_tells_its_cursor_and_its_reach() {
    let selection = Selection::new(range(4, 7));
    assert_eq!(selection.to_char_index(&Direction::Start), CharIndex(4));
    assert_eq!(selection.to_char_index(&Direction::End), CharIndex(6));
    assert_eq!(selection.get_anchor(&Direction::Start), CharIndex(4));
    assert_eq!(selection.get_anchor(&Direction::End), CharIndex(7));
    let empty = Selection::new(range(4, 4));
    assert_eq!(empty.to_char_index(&Direction::End), CharIndex(4));
    let anchored = selection.clone().set_initial_range(Some(range(0, 2)));
    assert_eq!(anchored.extended_range(), range(0, 7));
    assert_eq!(anchored.clone().set_range(range(1, 2)).extended_range(), range(0, 2));
    assert_eq!(anchored.clamp(CharIndex(5)).range, range(4, 5));
    assert_eq!(anchored.clamp(CharIndex(1)).initial_range, Some(range(0, 1)));
    let noted = selection
        .clone()
        .set_copied_text(Some("x".to_string()))
        .set_info(Some(Info {
            title: "t".to_string(),
            content: "c".to_string(),
        }));
    assert_eq!(noted.copied_text, Some("x".to_string()));
    assert_eq!(noted.info.unwrap().title, "t");
    let mut toggled = selection.clone();
    toggled.toggle_highlight_mode();
    assert_eq!(toggled.initial_range, Some(range(4, 7)));
    toggled.range = range(9, 10);
    toggled.toggle_highlight_mode();
    assert_eq!(toggled.range, range(4, 7));
    assert_eq!(toggled.initial_range, Some(range(9, 10)));
    toggled.escape_highlight_mode();
    assert_eq!(toggled.initial_range, None);
}

#[test]
fn modes_tell_whether_their_elements_touch() {
    let contiguous = [
        SelectionMode::Character,
        SelectionMode::WordShort,
        SelectionMode::Word,
        SelectionMode::LineTrimmed,
        SelectionMode::LineFull,
        SelectionMode::SyntaxTree,
        SelectionMode::TopNode,
        SelectionMode::BottomNode,
    ];
    for mode in contiguous {
        assert!(mode.is_contiguous());
    }
    let apart = [
        SelectionMode::Inside(InsideKind::Parentheses),
        SelectionMode::Bookmark,
        SelectionMode::Diagnostic,
        SelectionMode::Custom,
    ];
    for mode in apart {
        assert!(!mode.is_contiguous());
    }
    assert!(SelectionMode::SyntaxTree.is_node());
    assert!(!SelectionMode::Character.is_node());
    assert_eq!(InsideKind::Parentheses.delimiters(), ('(', ')'));
    assert_eq!(InsideKind::BackQuotes.delimiters(), ('`', '`'));
    assert!(SelectionMode::TopNode.is_node());
    assert!(SelectionMode::BottomNode.is_node());
    assert_eq!(SelectionMode::SyntaxTree.display(), "SYNTAX TREE");
    assert_eq!(SelectionMode::WordShort.display(), "WORD(SHORT)");
    assert_eq!(
        SelectionMode::Inside(InsideKind::Parentheses).display(),
        "INSIDE"
    );
}

#[test]
fn small_helpers_on_text() {
    assert_eq!(to_decimal(0), "0");
    assert_eq!(to_decimal(12345), "12345");
    assert_eq!(to_decimal(usize::MAX), usize::MAX.to_string());
    assert_eq!(char_utf8_width('a'), 1);
    assert_eq!(char_utf8_width('é'), 2);
    assert_eq!(char_utf8_width('€'), 3);
    assert_eq!(char_utf8_width('😀'), 4);
    assert_eq!(str_chars("aé"), vec!['a', 'é']);
    assert!(char_is_whitespace('\u{3000}'));
    assert!(char_is_whitespace('\t'));
    assert!(!char_is_whitespace('_'));
    for c in (0..0x3100u32).filter_map(char::from_u32) {
        assert_eq!(char_is_whitespace(c), c.is_whitespace());
        assert_eq!(char_utf8_width(c), c.len_utf8());
    }
    assert_eq!(trimmed(" \t a b \n"), "a b");
    assert_eq!(trimmed("   "), "");
    assert!(is_blank_text(" \n\t"));
    assert!(is_blank_text(""));
    assert!(!is_blank_text(" , "));
    assert!(text_contains("hello", "ell"));
    assert!(text_contains("hello", ""));
    assert!(text_contains("hello", "hello"));
    assert!(!text_contains("hello", "hellos"));
    assert!(!text_contains("", "a"));
    assert_eq!(
        unique(vec!["a".to_string(), "b".to_string(), "a".to_string()]),
        vec!["a", "b"]
    );
}

#[test]
fn labels_for_jumps() {
    let alphabet = jump_characters();
    assert_eq!(alphabet.len(), 62);
    assert_eq!(alphabet[0], 'a');
    assert_eq!(alphabet[26], 'A');
    assert_eq!(alphabet[61], '9');
    assert_eq!(to_ascii_lower('A'), 'a');
    assert_eq!(to_ascii_lower('z'), 'z');
    assert_eq!(to_ascii_lower('É'), 'É');
    assert_eq!(to_ascii_lower('?'), '?');
    assert_eq!(
        label_candidates(&vec!['w', 'l', 's'], &alphabet),
        vec!['w', 'l', 's']
    );
    let same = label_candidates(&vec!['s', 's'], &alphabet);
    assert_eq!(same, alphabet[..2].to_vec());
    assert_eq!(label_candidates(&vec![], &alphabet), Vec::<char>::new());
    let jumps = vec![
        Jump::new('w', Selection::new(range(0, 3))),
        Jump::new('s', Selection::new(range(13, 16))),
        Jump::new('s', Selection::new(range(17, 22))),
    ];
    let (left, target) = narrow_jumps(&jumps, 'w', &alphabet);
    assert_eq!(left, None);
    assert_eq!(target, Some(range(0, 3)));
    let (left, target) = narrow_jumps(&jumps, 's', &alphabet);
    assert_eq!(target, None);
    let left = left.unwrap();
    assert_eq!(left.len(), 2);
    assert_eq!(left[0].character, alphabet[0]);
    assert_eq!(left[1].character, alphabet[1]);
    assert_eq!(left[1].selection.range, range(17, 22));
    let (left, target) = narrow_jumps(&jumps, 'q', &alphabet);
    assert_eq!((left, target), (None, None));
}

#[test]
fn candidates_go_through_the_filters() {
    let buffer = rust("foo bar baz");
    let cursor = ByteRange::new(0, 0);
    let none = Filters::default();
    let all = get_candidates(&buffer, &SelectionMode::WordShort, cursor, &none).unwrap();
    assert_eq!(texts(&buffer, &all), ["foo", "bar", "baz"]);
    let with_ba = Filters::default().push(keep("ba"));
    let kept = get_candidates(&buffer, &SelectionMode::WordShort, cursor, &with_ba).unwrap();
    assert_eq!(texts(&buffer, &kept), ["bar", "baz"]);
    let without_z = with_ba.clone().push(Filter {
        kind: FilterKind::Remove,
        target: FilterTarget::Content,
        mechanism: FilterMechanism::Regex("z$".to_string()),
    });
    let kept = get_candidates(&buffer, &SelectionMode::WordShort, cursor, &without_z).unwrap();
    assert_eq!(texts(&buffer, &kept), ["bar"]);
    assert_eq!(passes(&buffer, ByteRange::new(4, 7), &without_z), Some(true));
    assert_eq!(passes(&buffer, ByteRange::new(8, 11), &without_z), Some(false));
    let broken = Filters::default().push(Filter {
        kind: FilterKind::Keep,
        target: FilterTarget::Content,
        mechanism: FilterMechanism::Regex("(".to_string()),
    });
    assert_eq!(passes(&buffer, ByteRange::new(4, 7), &broken), None);
    assert_eq!(
        get_candidates(&buffer, &SelectionMode::WordShort, cursor, &broken).unwrap_err(),
        EditorError::FilterRegexInvalid
    );
}

#[test]
fn a_movement_in_a_mode_gives_the_next_selection() {
    let buffer = rust("fn main() { x + 1 }");
    let none = Filters::default();
    let at = |start: usize, end: usize| Selection::new(range(start, end));
    let go = |selection: &Selection, mode: SelectionMode, movement: Movement| {
        let moved = get_selection(&buffer, selection, &mode, &movement, &none).unwrap();
        buffer.slice(&moved.range).unwrap()
    };
    assert_eq!(go(&at(0, 0), SelectionMode::WordShort, Movement::Current), "fn");
    assert_eq!(go(&at(0, 2), SelectionMode::WordShort, Movement::Next), "main");
    assert_eq!(go(&at(3, 7), SelectionMode::WordShort, Movement::Previous), "fn");
    assert_eq!(go(&at(3, 7), SelectionMode::WordShort, Movement::Last), "1");
    assert_eq!(go(&at(3, 7), SelectionMode::WordShort, Movement::First), "fn");
    assert_eq!(go(&at(3, 7), SelectionMode::WordShort, Movement::Index(2)), "x");
    assert_eq!(go(&at(0, 2), SelectionMode::WordShort, Movement::Previous), "fn");
    assert_eq!(go(&at(12, 13), SelectionMode::SyntaxTree, Movement::Parent), "x + 1");
    assert_eq!(go(&at(12, 17), SelectionMode::SyntaxTree, Movement::FirstChild), "x");
    assert_eq!(go(&at(12, 13), SelectionMode::SyntaxTree, Movement::Next), "1");
    assert_eq!(
        go(&at(3, 7), SelectionMode::Character, Movement::Jump(range(16, 17))),
        "1"
    );
    assert_eq!(
        get_selection(&buffer, &at(3, 70), &SelectionMode::Character, &Movement::Next, &none)
            .unwrap_err(),
        EditorError::OutOfBounds
    );
    assert_eq!(
        vertical_target(
            &buffer,
            &SelectionMode::SyntaxTree,
            ByteRange::new(12, 13),
            &Movement::Parent
        ),
        Some(ByteRange::new(12, 17))
    );
    assert_eq!(
        vertical_target(
            &buffer,
            &SelectionMode::WordShort,
            ByteRange::new(12, 13),
            &Movement::Next
        ),
        None
    );
}

#[test]
fn separators_for_pasting_beside_an_element() {
    let buffer = rust("f(a, b)");
    let separator = |contiguous: bool, direction: Direction, pasted: &str| {
        get_smart_separator(
            &buffer,
            range(2, 3),
            range(5, 6),
            range(2, 3),
            &direction,
            contiguous,
            pasted,
        )
    };
    assert_eq!(separator(true, Direction::End, "c"), ", ");
    assert_eq!(separator(false, Direction::End, "c"), "");
    assert_eq!(separator(true, Direction::End, " c"), "");
    assert_eq!(separator(true, Direction::End, ""), "");
    assert_eq!(separator(true, Direction::Start, "c"), ", ");
    let last = get_smart_separator(
        &buffer,
        range(5, 6),
        range(5, 6),
        range(2, 3),
        &Direction::End,
        true,
        "c",
    );
    assert_eq!(last, ", ");
}

#[test]
fn an_editor_tells_about_its_cursor() {
    let mut buffer = rust("fn main() {\n    let x = 1;\n}\n");
    buffer.set_path("/tmp/main.rs".to_string());
    let mut editor = Editor::from_buffer(buffer);
    editor.set_rectangle(Rectangle {
        origin: Position::default(),
        width: 80,
        height: 10,
    });
    assert_eq!(
        editor.dimension(),
        Dimension {
            height: 10,
            width: 80
        }
    );
    assert_eq!(editor.mode_name(), "MOVE");
    assert_eq!(editor.set_cursor_position(1, 8).unwrap(), vec![]);
    assert_eq!(editor.get_cursor_char_index(), CharIndex(20));
    assert_eq!(editor.cursor_row(), 1);
    assert_eq!(editor.current_line().unwrap(), "let x = 1;");
    assert_eq!(editor.get_current_word().unwrap(), "let");
    assert_eq!(editor.get_selected_texts(), vec![""]);
    assert_eq!(
        editor.get_request_params(),
        Some(RequestParams {
            component_id: editor.id,
            path: "/tmp/main.rs".to_string(),
            position: Position::new(1, 8)
        })
    );
    assert_eq!(
        editor.set_cursor_position(9, 0).unwrap_err(),
        EditorError::OutOfBounds
    );
    let node = editor
        .position_range_to_selection_set(PositionRange {
            start: Position::new(1, 4),
            end: Position::new(1, 14),
        })
        .unwrap();
    assert_eq!(node.mode, SelectionMode::SyntaxTree);
    assert_eq!(node.primary.range, range(16, 26));
    let loose = editor
        .position_range_to_selection_set(PositionRange {
            start: Position::new(1, 5),
            end: Position::new(1, 9),
        })
        .unwrap();
    assert_eq!(loose.mode, SelectionMode::Custom);
    assert_eq!(
        editor
            .position_range_to_selection_set(PositionRange {
                start: Position::new(1, 5),
                end: Position::new(8, 9),
            })
            .unwrap_err(),
        EditorError::OutOfBounds
    );
    editor.align_cursor_to_top();
    assert_eq!(editor.scroll_offset, 1);
    editor.align_cursor_to_center();
    assert_eq!(editor.scroll_offset, 0);
    editor.align_cursor_to_bottom();
    assert_eq!(editor.scroll_offset, 0);
    assert_eq!(editor.current_view_alignment(), None);
    editor.switch_view_alignment();
    assert_eq!(editor.current_view_alignment(), Some(ViewAlignment::Top));
    assert_eq!(
        Editor::find_submenu_title("Word", Scope::Local),
        "Find (Local): Word"
    );
    assert_eq!(
        Editor::find_submenu_title("", Scope::Global),
        "Find (Global): "
    );
}

#[test]
fn a_copy_of_an_editor_forgets_jumps_and_alignment() {
    let mut editor = Editor::from_text(tree_sitter_rust::language(), "alpha beta");
    assert_eq!(editor.text(), "alpha beta");
    assert_eq!(editor.mode, Mode::Normal);
    assert_eq!(editor.selection_set, SelectionSet::default());
    editor.switch_view_alignment();
    editor.jumps = Some(vec![Jump::new('a', Selection::new(range(0, 5)))]);
    editor.set_title("title".to_string());
    let copy = editor.duplicate();
    assert_eq!(copy.jumps, None);
    assert_eq!(copy.current_view_alignment(), None);
    assert_eq!(copy.text(), "alpha beta");
    assert_eq!(copy.title, Some("title".to_string()));
    assert_eq!(copy.selection_set, editor.selection_set);
    editor.show_info(Info {
        title: "About".to_string(),
        content: "x".to_string(),
    });
    assert_eq!(editor.title, Some("About".to_string()));
    assert_eq!(editor.text(), "x");
    assert_eq!(copy.text(), "alpha beta");
    editor.enter_undo_tree_mode();
    assert_eq!(editor.mode, Mode::UndoTree);
    assert_eq!(editor.mode_name(), "UNDO TREE");
}

#[test]
fn messages_reach_the_editor_of_their_file_only() {
    let mut buffer = rust("fn main() {}");
    buffer.set_path("/tmp/main.rs".to_string());
    let mut editor = Editor::from_buffer(buffer);
    let id = editor.id;
    let diagnostics = vec![
        Diagnostic::new(
            PositionRange {
                start: Position::new(0, 3),
                end: Position::new(0, 7),
            },
            "second".to_string(),
        ),
        Diagnostic::new(
            PositionRange {
                start: Position::new(0, 0),
                end: Position::new(0, 2),
            },
            "first".to_string(),
        ),
    ];
    let to = |component_id: usize, path: &str, payload: Payload| Message {
        component_id,
        path: path.to_string(),
        payload,
    };
    assert!(editor.accepts(id, &"/tmp/main.rs".to_string()));
    assert!(!editor.accepts(id + 1, &"/tmp/main.rs".to_string()));
    assert!(!editor.accepts(id, &"/tmp/other.rs".to_string()));

    let stale = to(id, "/tmp/other.rs", Payload::Diagnostics(diagnostics.clone()));
    assert_eq!(editor.receive(stale), Ok(vec![]));
    assert!(editor.buffer().diagnostics().is_empty());
    let stale = to(id + 1, "/tmp/main.rs", Payload::Diagnostics(diagnostics.clone()));
    assert_eq!(editor.receive(stale), Ok(vec![]));
    assert!(editor.buffer().diagnostics().is_empty());

    let fresh = to(id, "/tmp/main.rs", Payload::Diagnostics(diagnostics));
    assert_eq!(editor.receive(fresh), Ok(vec![]));
    assert_eq!(editor.buffer().diagnostics()[0].message(), "first");
    assert_eq!(
        editor.buffer().diagnostic_ranges().clone(),
        vec![range(0, 2), range(3, 7)]
    );

    let span = HighlightedSpan {
        byte_range: ByteRange::new(0, 2),
        style_key: 1,
    };
    let colours = to(id, "/tmp/main.rs", Payload::Highlights(vec![span]));
    assert_eq!(editor.receive(colours), Ok(vec![]));
    assert_eq!(editor.buffer().highlighted_spans().clone(), vec![span]);

    let edits = vec![
        PositionalEdit {
            range: PositionRange {
                start: Position::new(0, 3),
                end: Position::new(0, 7),
            },
            new_text: "start".to_string(),
        },
        PositionalEdit {
            range: PositionRange {
                start: Position::new(0, 10),
                end: Position::new(0, 10),
            },
            new_text: " ".to_string(),
        },
    ];
    let stale = to(id, "/tmp/other.rs", Payload::PositionalEdits(edits.clone()));
    assert_eq!(editor.receive(stale), Ok(vec![]));
    assert_eq!(editor.text(), "fn main() {}");
    let fresh = to(id, "/tmp/main.rs", Payload::PositionalEdits(edits));
    let dispatches = editor.receive(fresh).unwrap();
    assert_eq!(editor.text(), "fn start()  {}");
    assert_eq!(dispatches.len(), 1);
    assert_eq!(
        editor.buffer().diagnostic_ranges().clone(),
        vec![range(0, 2), range(3, 8)]
    );
    let beyond = to(
        id,
        "/tmp/main.rs",
        Payload::PositionalEdits(vec![PositionalEdit {
            range: PositionRange {
                start: Position::new(7, 0),
                end: Position::new(7, 1),
            },
            new_text: "x".to_string(),
        }]),
    );
    assert!(editor.receive(beyond).is_ok());
    assert_eq!(editor.text(), "fn start()  {}");
}
