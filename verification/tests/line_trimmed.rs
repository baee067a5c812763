use editor_core::buffer::Buffer;
use editor_core::char_index::ByteRange;
use editor_core::selection_mode::character::Character;
use editor_core::selection_mode::inside::Inside;
use editor_core::selection_mode::line_full::LineFull;
use editor_core::selection_mode::line_trimmed::{scan_lines, trim_leading_spaces, LineTrimmed};
use editor_core::selection_mode::word::Word;
use editor_core::selection::InsideKind;

fn assert_all_selections(text: &str, expected: &[(std::ops::Range<usize>, &str)]) {
    let buffer = Buffer::new(tree_sitter_rust::language(), text);
    let ranges = LineTrimmed.iter(&buffer.chars());
    let actual: Vec<(std::ops::Range<usize>, String)> = ranges
        .iter()
        .map(|r| (r.start..r.end, buffer.byte_range_text(*r)))
        .collect();
    let expected: Vec<(std::ops::Range<usize>, String)> = expected
        .iter()
        .map(|(r, s)| (r.clone(), s.to_string()))
        .collect();
    assert_eq!(actual, expected);
}

#[test]
fn case_1() {
    assert_all_selections(
        "a\n\n\nb\nc\n  hello",
        &[
            (0..1, "a"),
            (2..2, ""),
            (3..3, ""),
            (4..5, "b"),
            (6..7, "c"),
            (10..15, "hello"),
        ],
    );
}

#[test]
fn single_line_without_trailing_newline_character() {
    assert_all_selections("a", &[(0..1, "a")]);
}

#[test]
fn a_final_line_feed_gives_no_line_after_it() {
    assert_all_selections("a\nb\n", &[(0..1, "a"), (2..3, "b")]);
    assert_all_selections("a\nb", &[(0..1, "a"), (2..3, "b")]);
    assert_all_selections("", &[(0..0, "")]);
    assert_all_selections("\n", &[(0..0, "")]);
}

#[test]
fn a_blank_line_gives_the_empty_range_at_its_end() {
    assert_all_selections("a\n   \nb", &[(0..1, "a"), (5..5, ""), (6..7, "b")]);
}

#[test]
fn trimmed_lines_count_bytes_not_characters() {
    assert_all_selections("é\n  ü x", &[(0..2, "é"), (5..9, "ü x")]);
}

#[test]
fn trim_leading_spaces_skips_white_space() {
    assert_eq!(trim_leading_spaces(10, "  hello"), 12);
    assert_eq!(trim_leading_spaces(10, "hello"), 10);
    assert_eq!(trim_leading_spaces(10, "\n"), 10);
    assert_eq!(trim_leading_spaces(10, " \t\n"), 12);
    assert_eq!(trim_leading_spaces(0, "  \n"), 2);
    assert_eq!(trim_leading_spaces(0, "\u{3000}a"), 3);
    assert_eq!(trim_leading_spaces(4, " \u{a0}\u{2003}é"), 10);
    assert_eq!(trim_leading_spaces(10, ""), 10);
    assert_eq!(trim_leading_spaces(10, "   "), 13);
    assert_eq!(trim_leading_spaces(usize::MAX, "  x"), usize::MAX);
    assert_eq!(trim_leading_spaces(usize::MAX - 1, "\u{3000}x"), usize::MAX);
}

#[test]
fn scan_lines_tells_starts_and_ends() {
    let text: Vec<char> = "ab\n  c".chars().collect();
    let spans = scan_lines(&text);
    assert_eq!(spans.len(), 2);
    assert_eq!((spans[0].start, spans[0].trimmed, spans[0].end), (0, 0, 2));
    assert!(spans[0].newline);
    assert_eq!((spans[1].start, spans[1].trimmed, spans[1].end), (3, 5, 6));
    assert_eq!(
        (spans[1].start_byte, spans[1].trimmed_byte, spans[1].end_byte),
        (3, 5, 6)
    );
    assert!(!spans[1].newline);
}

#[test]
fn line_full_takes_the_line_feed() {
    let text: Vec<char> = "a\n\nbc".chars().collect();
    assert_eq!(
        LineFull.iter(&text),
        vec![
            ByteRange::new(0, 2),
            ByteRange::new(2, 3),
            ByteRange::new(3, 5)
        ]
    );
    assert_eq!(LineFull.name(), "LINE(FULL)");
    assert_eq!(LineTrimmed.name(), "LINE(TRIMMED)");
}

#[test]
fn characters_take_their_bytes() {
    let text: Vec<char> = "aé😀".chars().collect();
    assert_eq!(
        Character.iter(&text),
        vec![
            ByteRange::new(0, 1),
            ByteRange::new(1, 3),
            ByteRange::new(3, 7)
        ]
    );
}

#[test]
fn words_are_runs_without_white_space() {
    let text: Vec<char> = "  foo_bar  b.z\n x".chars().collect();
    assert_eq!(
        Word.iter(&text),
        vec![
            ByteRange::new(2, 9),
            ByteRange::new(11, 14),
            ByteRange::new(16, 17)
        ]
    );
    let none: Vec<char> = " \n ".chars().collect();
    assert_eq!(Word.iter(&none), vec![]);
}

#[test]
fn inside_gives_what_stands_between_delimiters() {
    let text: Vec<char> = "f(a, (b)) () \"x\" 'y'".chars().collect();
    let inside = Inside {
        kind: InsideKind::Parentheses,
    };
    assert_eq!(
        inside.iter(&text),
        vec![ByteRange::new(2, 8), ByteRange::new(6, 7)]
    );
    let quotes = Inside {
        kind: InsideKind::DoubleQuotes,
    };
    assert_eq!(quotes.iter(&text), vec![ByteRange::new(14, 15)]);
    assert_eq!(
        inside.parent(ByteRange::new(6, 7)),
        Some(ByteRange::new(5, 8))
    );
    assert_eq!(inside.parent(ByteRange::new(0, 7)), None);
}

#[test]
fn every_element_of_a_mode_lies_within_the_text() {
    let text = "fn é() {\n  \"😀\" (a, [b])\n}\n\n  x";
    let buffer = Buffer::new(tree_sitter_rust::language(), text);
    let modes = [
        editor_core::selection::SelectionMode::Character,
        editor_core::selection::SelectionMode::WordShort,
        editor_core::selection::SelectionMode::Word,
        editor_core::selection::SelectionMode::LineTrimmed,
        editor_core::selection::SelectionMode::LineFull,
        editor_core::selection::SelectionMode::SyntaxTree,
        editor_core::selection::SelectionMode::TopNode,
        editor_core::selection::SelectionMode::BottomNode,
        editor_core::selection::SelectionMode::Inside(InsideKind::Parentheses),
        editor_core::selection::SelectionMode::Inside(InsideKind::SquareBrackets),
        editor_core::selection::SelectionMode::Inside(InsideKind::DoubleQuotes),
        editor_core::selection::SelectionMode::Bookmark,
        editor_core::selection::SelectionMode::Custom,
    ];
    for mode in modes {
        for start in [0, 3, 12, text.len()] {
            let cursor = ByteRange::new(start, start);
            let elements = editor_core::selection_mode::iter(&buffer, &mode, cursor).unwrap();
            for element in &elements {
                assert!(element.start <= element.end, "{:?}", mode);
                assert!(element.end <= text.len(), "{:?}", mode);
                assert!(text.is_char_boundary(element.start), "{:?}", mode);
                assert!(text.is_char_boundary(element.end), "{:?}", mode);
                let line = matches!(
                    mode,
                    editor_core::selection::SelectionMode::LineTrimmed
                        | editor_core::selection::SelectionMode::LineFull
                );
                assert!(line || element.start < element.end, "{:?}", mode);
            }
        }
    }
}
