use editor_core::app::Dispatch;
use editor_core::buffer::{Buffer, HighlightedSpan};
use editor_core::char_index::{ByteRange, CharIndexRange, Position};
use editor_core::components::dispatching::HandleEventResult;
use editor_core::components::editor::DispatchEditor::{
    Surround, ShowJumps, ScrollPageDown, ScrollPageUp, SetSelectionMode, Exchange, MoveSelection,
    SwitchViewAlignment, Cut, ReplaceSelectionWithCopiedText, ReplaceWithClipboard, SetContent,
    SetRectangle, ToggleHighlightMode, Change, EnterInsertMode, Backspace, Kill, Insert,
    MoveToLineStart, MoveToLineEnd, MatchLiteral, OpenNewLine, ToggleBookmark, SelectKids,
    ReplacePreviousWord, EnterNormalMode, EnterExchangeMode, FilterPush, FilterClear,
    CursorAddToAllSelections, CursorKeepPrimaryOnly, Raise, Undo, Redo, KillLine, Reset,
    DeleteWordBackward, Paste, Save, SetLanguage,
};
use editor_core::components::editor::Movement::{
    Next, Previous, Last, Current, Index, Jump, FirstChild,
};
use editor_core::components::editor::{Direction, DispatchEditor, Editor, Mode, ViewAlignment};
use editor_core::components::events::{Event, MouseEvent};
use editor_core::context::Context;
use editor_core::diagnostic::{Diagnostic, PositionRange};
use editor_core::key_event_parser::parse_key_event;
use editor_core::list::grep::GrepConfig;
use editor_core::rectangle::Rectangle;
use editor_core::selection::SelectionMode::{
    Character, Word, WordShort, LineTrimmed, SyntaxTree, TopNode, BottomNode, Inside, Find,
    Bookmark,
};
use editor_core::selection::{
    Filter, FilterKind, FilterMechanism, FilterTarget, InsideKind, Search,
};

struct Env {
    editor: Editor,
    context: Context,
}

fn open(content: &str) -> Env {
    let mut env = Env {
        editor: Editor::from_buffer(Buffer::new(tree_sitter_rust::language(), "")),
        context: Context::default(),
    };
    run(&mut env, SetContent(content.to_string()));
    env
}

fn handle(env: &mut Env, dispatches: Vec<Dispatch>) {
    for dispatch in dispatches {
        match dispatch {
            Dispatch::ToEditor(dispatch) => run(env, dispatch),
            Dispatch::SetClipboardContent(text) => env.context.set_clipboard_content(text),
            Dispatch::SetGlobalMode(mode) => env.context.set_mode(mode),
            _ => {}
        }
    }
}

fn run(env: &mut Env, dispatch: DispatchEditor) {
    let dispatches = env.editor.apply_dispatch(&env.context, dispatch).unwrap();
    handle(env, dispatches)
}

fn key(env: &mut Env, name: &str) {
    let event = parse_key_event(name).unwrap();
    match env.editor.handle_key_event(&env.context, event).unwrap() {
        HandleEventResult::Handled(dispatches) => handle(env, dispatches),
        HandleEventResult::Ignored(_) => {}
    }
}

fn content(env: &Env) -> String {
    env.editor.text()
}

fn selected(env: &Env) -> Vec<String> {
    let mut ranges: Vec<CharIndexRange> = env
        .editor
        .selection_set
        .selections()
        .iter()
        .map(|s| s.extended_range())
        .collect();
    ranges.sort_by_key(|r| r.start.0);
    ranges
        .iter()
        .map(|r| env.editor.buffer().slice(r).unwrap())
        .collect()
}

fn rectangle(width: u16, height: u16) -> Rectangle {
    Rectangle {
        origin: Position::default(),
        width,
        height,
    }
}

#[test]
fn raise_bottom_node() {
    let mut env = open("fn main() { x + 1 }");
    run(&mut env, MatchLiteral("x".to_string()));
    run(&mut env, SetSelectionMode(BottomNode));
    run(&mut env, Raise);
    assert_eq!(content(&env), "fn main() { x }");
}

#[test]
fn test_editor_raise_inside() {
    let mut env = open("fn main() { (a, b) }");
    run(&mut env, MatchLiteral("b".to_string()));
    run(&mut env, SetSelectionMode(Inside(InsideKind::Parentheses)));
    assert_eq!(selected(&env), ["a, b"]);
    run(&mut env, Raise);
    assert_eq!(content(&env), "fn main() { a, b }");
}

#[test]
fn test_editor_delete_should_kill_if_possible_1() {
    let mut env = open("fn main() {}");
    run(&mut env, SetSelectionMode(BottomNode));
    run(&mut env, Kill);
    assert_eq!(content(&env), "main() {}");
    assert_eq!(selected(&env), ["main"]);
}

#[test]
fn test_editor_delete_should_kill_if_possible_2() {
    let mut env = open("fn main() {}");
    run(&mut env, SetSelectionMode(Character));
    run(&mut env, Kill);
    assert_eq!(content(&env), "n main() {}");
    assert_eq!(selected(&env), ["n"]);
}

#[test]
fn test_editor_delete_should_kill_if_possible_3() {
    let mut env = open("fn main() {}");
    run(&mut env, SetSelectionMode(BottomNode));
    run(&mut env, MoveSelection(Last));
    run(&mut env, Kill);
    assert_eq!(content(&env), "fn main() {");
}

#[test]
fn test_editor_delete_should_kill_if_possible_4() {
    let mut env = open("fn main(a:A,b:B) {}");
    run(&mut env, MatchLiteral("a:A".to_string()));
    run(&mut env, SetSelectionMode(SyntaxTree));
    run(&mut env, Kill);
    assert_eq!(content(&env), "fn main(b:B) {}");
    assert_eq!(selected(&env), ["b:B"]);
}

#[test]
fn delete_should_kill_if_possible_5() {
    let mut env = open("fn main(a:A,b:B) {}");
    run(&mut env, MatchLiteral("b:B".to_string()));
    run(&mut env, SetSelectionMode(SyntaxTree));
    run(&mut env, Kill);
    assert_eq!(content(&env), "fn main(a:A) {}");
    assert_eq!(selected(&env), ["a:A"]);
}

#[test]
fn delete_should_not_kill_if_not_possible_1() {
    let mut env = open("fn maima() {}");
    run(&mut env, MatchLiteral("ma".to_string()));
    run(&mut env, Kill);
    assert_eq!(content(&env), "fn ima() {}");
    assert_eq!(selected(&env), ["i"]);
}

#[test]
fn delete_should_not_kill_if_not_possible_2() {
    let mut env = open("fn main(a:A) {}");
    run(&mut env, MatchLiteral("a:A".to_string()));
    run(&mut env, SetSelectionMode(SyntaxTree));
    run(&mut env, Kill);
    assert_eq!(content(&env), "fn main() {}");
    assert_eq!(selected(&env), [")"]);
}

#[test]
fn test_editor_toggle_untoggle_bookmark() {
    let mut env = open("foo bar spam");
    run(&mut env, SetSelectionMode(WordShort));
    run(&mut env, ToggleBookmark);
    run(&mut env, MoveSelection(Next));
    run(&mut env, MoveSelection(Next));
    run(&mut env, ToggleBookmark);
    run(&mut env, SetSelectionMode(Bookmark));
    run(&mut env, CursorAddToAllSelections);
    assert_eq!(selected(&env), ["foo", "spam"]);
    run(&mut env, CursorKeepPrimaryOnly);
    assert_eq!(selected(&env), ["spam"]);
    run(&mut env, ToggleBookmark);
    run(&mut env, MoveSelection(Current));
    run(&mut env, CursorAddToAllSelections);
    assert_eq!(selected(&env), ["foo"]);
}

#[test]
fn test_delete_word_long() {
    let mut env = open("hello_world itsMe");
    run(&mut env, SetSelectionMode(LineTrimmed));
    run(&mut env, EnterInsertMode(Direction::End));
    run(&mut env, DeleteWordBackward);
    assert_eq!(content(&env), "hello_world ");
    run(&mut env, DeleteWordBackward);
    assert_eq!(content(&env), "");
}

#[test]
fn kill_line_to_end() {
    let mut env = open("lala\nfoo bar spam\nyoyo");
    run(&mut env, MatchLiteral("bar".to_string()));
    run(&mut env, KillLine(Direction::End));
    run(&mut env, Insert("sparta".to_string()));
    assert_eq!(content(&env), "lala\nfoo sparta\nyoyo");
    assert_eq!(env.editor.mode, Mode::Insert);
    assert_eq!(selected(&env), [""]);
    run(&mut env, KillLine(Direction::End));
    assert_eq!(content(&env), "lala\nfoo spartayoyo");
    run(&mut env, KillLine(Direction::End));
    assert_eq!(content(&env), "lala\nfoo sparta");
}

#[test]
fn kill_line_to_start() {
    let mut env = open("lala\nfoo bar spam\nyoyo");
    run(&mut env, MatchLiteral("bar".to_string()));
    run(&mut env, KillLine(Direction::Start));
    run(&mut env, Insert("sparta".to_string()));
    assert_eq!(content(&env), "lala\nspartabar spam\nyoyo");
    assert_eq!(env.editor.mode, Mode::Insert);
    run(&mut env, KillLine(Direction::Start));
    assert_eq!(content(&env), "lala\nbar spam\nyoyo");
    run(&mut env, KillLine(Direction::Start));
    assert_eq!(content(&env), "lalabar spam\nyoyo");
    assert_eq!(
        env.editor
            .buffer()
            .char_to_position(env.editor.get_cursor_char_index())
            .unwrap(),
        Position { line: 0, column: 4 }
    );
    run(&mut env, KillLine(Direction::Start));
    assert_eq!(content(&env), "bar spam\nyoyo");
}

#[test]
fn multi_exchange_sibling() {
    let mut env = open("fn f(x:a,y:b){} fn g(x:a,y:b){}");
    run(&mut env, MatchLiteral("fn f(x:a,y:b){}".to_string()));
    assert_eq!(selected(&env), ["fn f(x:a,y:b){}"]);
    run(&mut env, SetSelectionMode(SyntaxTree));
    run(&mut env, CursorAddToAllSelections);
    assert_eq!(selected(&env), ["fn f(x:a,y:b){}", "fn g(x:a,y:b){}"]);
    run(&mut env, MoveSelection(FirstChild));
    run(&mut env, MoveSelection(Next));
    run(&mut env, MoveSelection(FirstChild));
    assert_eq!(selected(&env), ["x:a", "x:a"]);
    run(&mut env, SetSelectionMode(SyntaxTree));
    run(&mut env, EnterExchangeMode);
    run(&mut env, MoveSelection(Next));
    assert_eq!(content(&env), "fn f(y:b,x:a){} fn g(y:b,x:a){}");
    assert_eq!(selected(&env), ["x:a", "x:a"]);
    run(&mut env, MoveSelection(Previous));
    assert_eq!(content(&env), "fn f(x:a,y:b){} fn g(x:a,y:b){}");
}

#[test]
fn update_bookmark_position() {
    let mut env = open("foo bar spim");
    run(&mut env, SetSelectionMode(WordShort));
    run(&mut env, MoveSelection(Next));
    run(&mut env, MoveSelection(Next));
    run(&mut env, ToggleBookmark);
    run(&mut env, SetSelectionMode(Bookmark));
    assert_eq!(selected(&env), ["spim"]);
    run(&mut env, SetSelectionMode(WordShort));
    run(&mut env, MoveSelection(Previous));
    run(&mut env, MoveSelection(Previous));
    run(&mut env, Kill);
    assert_eq!(content(&env), "bar spim");
    run(&mut env, SetSelectionMode(Bookmark));
    assert_eq!(selected(&env), ["spim"]);
    run(&mut env, Change);
    assert_eq!(content(&env), "bar ");
    run(&mut env, EnterNormalMode);
    run(&mut env, SetSelectionMode(WordShort));
    assert_eq!(selected(&env), ["bar"]);
    run(&mut env, SetSelectionMode(Bookmark));
    assert_eq!(selected(&env), ["bar"]);
}

#[test]
fn move_to_line_start_end() {
    let mut env = open("hello\n");
    run(&mut env, EnterInsertMode(Direction::Start));
    run(&mut env, MoveToLineEnd);
    run(&mut env, Insert(" world".to_string()));
    assert_eq!(content(&env), "hello world\n");
    run(&mut env, MoveToLineStart);
    run(&mut env, Insert("hey ".to_string()));
    assert_eq!(content(&env), "hey hello world\n");
}

#[test]
fn exchange_sibling() {
    let mut env = open("fn main(x: usize, y: Vec<A>) {}");
    run(&mut env, MatchLiteral("x: usize".to_string()));
    run(&mut env, SetSelectionMode(SyntaxTree));
    run(&mut env, EnterExchangeMode);
    run(&mut env, MoveSelection(Next));
    assert_eq!(content(&env), "fn main(y: Vec<A>, x: usize) {}");
    run(&mut env, MoveSelection(Previous));
    assert_eq!(content(&env), "fn main(x: usize, y: Vec<A>) {}");
}

#[test]
fn exchange_sibling_2() {
    let mut env = open("use a;\nuse b;\nuse c;");
    run(&mut env, SetSelectionMode(TopNode));
    run(&mut env, SetSelectionMode(SyntaxTree));
    assert_eq!(selected(&env), ["use a;"]);
    run(&mut env, EnterExchangeMode);
    run(&mut env, MoveSelection(Next));
    assert_eq!(content(&env), "use b;\nuse a;\nuse c;");
    run(&mut env, MoveSelection(Next));
    assert_eq!(content(&env), "use b;\nuse c;\nuse a;");
}

#[test]
fn select_character() {
    let mut env = open("fn main() { let x = 1; }");
    run(&mut env, SetSelectionMode(Character));
    assert_eq!(selected(&env), ["f"]);
    run(&mut env, MoveSelection(Next));
    assert_eq!(selected(&env), ["n"]);
    run(&mut env, MoveSelection(Previous));
    assert_eq!(selected(&env), ["f"]);
}

#[test]
fn raise() {
    let mut env = open("fn main() { let x = a.b(c()); }");
    run(&mut env, MatchLiteral("c()".to_string()));
    run(&mut env, SetSelectionMode(SyntaxTree));
    run(&mut env, Raise);
    assert_eq!(content(&env), "fn main() { let x = c(); }");
    run(&mut env, Raise);
    assert_eq!(content(&env), "fn main() { c() }");
}

#[test]
fn raise_preserve_current_node_structure() {
    let mut env = open("fn main() { Some((a).b()) }");
    run(&mut env, MatchLiteral("(a).b()".to_string()));
    run(&mut env, SetSelectionMode(SyntaxTree));
    run(&mut env, Raise);
    assert_eq!(content(&env), "fn main() { (a).b() }");
}

#[test]
fn multi_raise() {
    let mut env = open("fn f(){ let x = S(a); let y = S(b); }");
    run(&mut env, MatchLiteral("let x = S(a);".to_string()));
    run(&mut env, SetSelectionMode(SyntaxTree));
    run(&mut env, CursorAddToAllSelections);
    run(&mut env, MoveSelection(FirstChild));
    run(&mut env, MoveSelection(Next));
    run(&mut env, MoveSelection(FirstChild));
    run(&mut env, MoveSelection(Next));
    run(&mut env, MoveSelection(FirstChild));
    run(&mut env, MoveSelection(Next));
    assert_eq!(selected(&env), ["a", "b"]);
    run(&mut env, Raise);
    assert_eq!(content(&env), "fn f(){ let x = a; let y = b; }");
    run(&mut env, Undo);
    assert_eq!(content(&env), "fn f(){ let x = S(a); let y = S(b); }");
    assert_eq!(selected(&env), ["a", "b"]);
    run(&mut env, Redo);
    assert_eq!(content(&env), "fn f(){ let x = a; let y = b; }");
    assert_eq!(selected(&env), ["a", "b"]);
}

#[test]
fn open_new_line() {
    let mut env = open("fn f() {\n    let x = S(a);\n}");
    run(&mut env, MatchLiteral("let x = ".to_string()));
    run(&mut env, OpenNewLine);
    run(&mut env, Insert("let y = S(b);".to_string()));
    assert_eq!(
        content(&env),
        "fn f() {\n    let x = S(a);\n    let y = S(b);\n}"
    );
}

#[test]
fn exchange_line() {
    let text = "fn main() {\n    let x = 1;\n    let y = 2;\n}";
    let mut env = open(text);
    run(&mut env, SetSelectionMode(LineTrimmed));
    assert_eq!(content(&env), text);
    run(&mut env, Exchange(Next));
    assert_eq!(
        content(&env),
        "let x = 1;\n    fn main() {\n    let y = 2;\n}"
    );
    run(&mut env, Exchange(Previous));
    assert_eq!(content(&env), text);
}

#[test]
fn exchange_character() {
    let mut env = open("fn main() { let x = 1; }");
    run(&mut env, SetSelectionMode(Character));
    run(&mut env, EnterExchangeMode);
    run(&mut env, MoveSelection(Next));
    assert_eq!(content(&env), "nf main() { let x = 1; }");
    run(&mut env, MoveSelection(Next));
    assert_eq!(content(&env), "n fmain() { let x = 1; }");
    run(&mut env, MoveSelection(Previous));
    assert_eq!(content(&env), "nf main() { let x = 1; }");
    run(&mut env, MoveSelection(Previous));
    assert_eq!(content(&env), "fn main() { let x = 1; }");
}

#[test]
fn multi_insert() {
    let mut env = open("struct A(usize, char)");
    run(&mut env, MatchLiteral("usize".to_string()));
    run(&mut env, SetSelectionMode(SyntaxTree));
    run(&mut env, CursorAddToAllSelections);
    assert_eq!(selected(&env), ["usize", "char"]);
    run(&mut env, EnterInsertMode(Direction::Start));
    run(&mut env, Insert("pub ".to_string()));
    assert_eq!(content(&env), "struct A(pub usize, pub char)");
    run(&mut env, Backspace);
    assert_eq!(content(&env), "struct A(pubusize, pubchar)");
    assert_eq!(selected(&env), ["", ""]);
}

#[test]
fn paste_in_insert_mode() {
    let mut env = open("foo bar spam");
    env.context.set_clipboard_content("haha".to_string());
    run(&mut env, MatchLiteral("bar".to_string()));
    run(&mut env, EnterInsertMode(Direction::End));
    run(&mut env, Paste(Direction::End));
    assert_eq!(content(&env), "foo barhaha spam");
    run(&mut env, Insert("Hello".to_string()));
    assert_eq!(content(&env), "foo barhahaHello spam");
}

#[test]
fn paste_after() {
    let mut env = open("foo bar spam");
    env.context.set_clipboard_content("haha".to_string());
    run(&mut env, MatchLiteral("bar".to_string()));
    run(&mut env, Paste(Direction::End));
    assert_eq!(content(&env), "foo barhaha spam");
    assert_eq!(selected(&env), ["haha"]);
}

fn smart_paste_case(direction: Direction, expected: &str) {
    let mut env = open("fn main(a:A, b:B) {}");
    run(&mut env, MatchLiteral("a:A".to_string()));
    env.context.set_clipboard_content("c:C".to_string());
    run(&mut env, SetSelectionMode(SyntaxTree));
    run(&mut env, Paste(direction));
    assert_eq!(content(&env), expected);
    assert_eq!(selected(&env), ["c:C"]);
}

#[test]
fn smart_paste() {
    smart_paste_case(Direction::End, "fn main(a:A, c:C, b:B) {}");
    smart_paste_case(Direction::Start, "fn main(c:C, a:A, b:B) {}");
}

#[test]
fn paste_before() {
    let mut env = open("foo bar spam");
    env.context.set_clipboard_content("haha".to_string());
    run(&mut env, MatchLiteral("bar".to_string()));
    run(&mut env, Paste(Direction::Start));
    assert_eq!(content(&env), "foo hahabar spam");
    assert_eq!(selected(&env), ["haha"]);
}

#[test]
fn replace_from_clipboard() {
    let mut env = open("fn f(){ let x = S(a); let y = S(b); }");
    env.context.set_clipboard_content("let z = S(c);".to_string());
    run(&mut env, ReplaceWithClipboard);
    assert_eq!(
        content(&env),
        "let z = S(c);fn f(){ let x = S(a); let y = S(b); }"
    );
}

#[test]
fn enter_newline() {
    let mut env = open("");
    run(&mut env, EnterInsertMode(Direction::Start));
    run(&mut env, Insert("hello".to_string()));
    key(&mut env, "enter");
    run(&mut env, Insert("world".to_string()));
    assert_eq!(content(&env), "hello\nworld");
    key(&mut env, "left");
    key(&mut env, "enter");
    assert_eq!(content(&env), "hello\nworl\nd");
}

#[test]
fn insert_mode_start() {
    let mut env = open("fn main() {}");
    run(&mut env, SetSelectionMode(WordShort));
    run(&mut env, EnterInsertMode(Direction::Start));
    run(&mut env, Insert("hello".to_string()));
    assert_eq!(content(&env), "hellofn main() {}");
}

#[test]
fn insert_mode_end() {
    let mut env = open("fn main() {}");
    run(&mut env, SetSelectionMode(WordShort));
    run(&mut env, EnterInsertMode(Direction::End));
    run(&mut env, Insert("hello".to_string()));
    assert_eq!(content(&env), "fnhello main() {}");
}

#[test]
fn highlight_kill() {
    let mut env = open("fn main() {}");
    run(&mut env, SetSelectionMode(BottomNode));
    run(&mut env, ToggleHighlightMode);
    run(&mut env, MoveSelection(Next));
    assert_eq!(selected(&env), ["fn main"]);
    run(&mut env, Kill);
    assert_eq!(selected(&env), ["("]);
}

#[test]
fn multicursor_add_all() {
    let mut env = open("mod m { fn a(j:J){} fn b(k:K,l:L){} fn c(m:M,n:N,o:O){} }");
    run(&mut env, MatchLiteral("fn a".to_string()));
    run(&mut env, SetSelectionMode(SyntaxTree));
    assert_eq!(selected(&env), ["fn a(j:J){}"]);
    run(&mut env, CursorAddToAllSelections);
    run(&mut env, MoveSelection(FirstChild));
    run(&mut env, MoveSelection(Next));
    run(&mut env, MoveSelection(FirstChild));
    assert_eq!(selected(&env), ["j:J", "k:K", "m:M"]);
}

#[test]
fn enter_normal_mode_should_highlight_one_character() {
    let mut env = open("fn\nmain()\n{ x.y(); x.y(); x.y(); }");
    run(&mut env, MatchLiteral("x.y()".to_string()));
    run(&mut env, EnterInsertMode(Direction::End));
    run(&mut env, EnterNormalMode);
    assert_eq!(selected(&env), [")"]);
}

#[test]
fn highlight_change() {
    let mut env = open("hello world yo");
    run(&mut env, SetSelectionMode(WordShort));
    run(&mut env, ToggleHighlightMode);
    run(&mut env, MoveSelection(Next));
    assert_eq!(selected(&env), ["hello world"]);
    run(&mut env, Change);
    run(&mut env, Insert("wow".to_string()));
    assert_eq!(selected(&env), [""]);
    assert_eq!(content(&env), "wow yo");
}

#[test]
fn scroll_page() {
    let mut env = open("1\n2 hey\n3");
    run(&mut env, SetRectangle(rectangle(100, 3)));
    run(&mut env, ScrollPageDown);
    assert_eq!(env.editor.current_line().unwrap(), "2 hey");
    run(&mut env, ScrollPageDown);
    run(&mut env, MatchLiteral("hey".to_string()));
    assert_eq!(selected(&env), ["hey"]);
    run(&mut env, ScrollPageDown);
    assert_eq!(env.editor.current_line().unwrap(), "3");
    run(&mut env, ScrollPageUp);
    assert_eq!(env.editor.current_line().unwrap(), "2 hey");
    run(&mut env, ScrollPageUp);
    assert_eq!(env.editor.current_line().unwrap(), "1");
    run(&mut env, ScrollPageUp);
    assert_eq!(env.editor.current_line().unwrap(), "1");
}

#[test]
fn jump_all_selection_start_with_same_char() {
    let mut env = open("who who who who");
    run(&mut env, SetRectangle(rectangle(100, 1)));
    run(&mut env, SetSelectionMode(WordShort));
    run(&mut env, ShowJumps);
    assert_eq!(env.editor.jump_chars(), ['a', 'b', 'c', 'd']);
}

#[test]
fn jump_by_first_characters_then_by_letters() {
    let mut env = open("Who lives on sea shore?\n yonky donkey");
    run(&mut env, SetRectangle(rectangle(100, 1)));
    assert_eq!(env.editor.jump_chars(), Vec::<char>::new());
    run(&mut env, SetSelectionMode(WordShort));
    run(&mut env, ShowJumps);
    assert_eq!(env.editor.jump_chars(), ['w', 'l', 'o', 's', 's']);
    key(&mut env, "s");
    assert_eq!(env.editor.jump_chars(), ['a', 'b']);
    key(&mut env, "a");
    assert_eq!(env.editor.jump_chars(), Vec::<char>::new());
    assert_eq!(selected(&env), ["sea"]);
}

#[test]
fn escape_takes_the_jumps_away() {
    let mut env = open("one two");
    run(&mut env, SetRectangle(rectangle(100, 2)));
    run(&mut env, SetSelectionMode(WordShort));
    run(&mut env, ShowJumps);
    assert_eq!(env.editor.jump_chars(), ['o', 't']);
    key(&mut env, "esc");
    assert_eq!(env.editor.jump_chars(), Vec::<char>::new());
    assert_eq!(selected(&env), ["one"]);
}

#[test]
fn switch_view_alignment() {
    let mut env = open("a\nb\nc\nd\ne");
    run(&mut env, SetRectangle(rectangle(100, 4)));
    run(&mut env, SetSelectionMode(WordShort));
    run(&mut env, MoveSelection(Next));
    run(&mut env, MoveSelection(Next));
    assert_eq!(selected(&env), ["c"]);
    assert_eq!(env.editor.current_view_alignment(), None);
    run(&mut env, SwitchViewAlignment);
    assert_eq!(env.editor.current_view_alignment(), Some(ViewAlignment::Top));
    run(&mut env, SwitchViewAlignment);
    assert_eq!(
        env.editor.current_view_alignment(),
        Some(ViewAlignment::Center)
    );
    run(&mut env, SwitchViewAlignment);
    assert_eq!(
        env.editor.current_view_alignment(),
        Some(ViewAlignment::Bottom)
    );
    run(&mut env, MoveSelection(Previous));
    assert_eq!(env.editor.current_view_alignment(), None);
}

#[test]
fn diagnostics_range_updated_by_edit() {
    let mut env = open("fn main() { let x = 123 }");
    env.editor.buffer.set_diagnostics(vec![Diagnostic::new(
        PositionRange {
            start: Position { line: 0, column: 3 },
            end: Position { line: 0, column: 7 },
        },
        String::new(),
    )]);
    assert_eq!(
        env.editor.buffer().diagnostic_ranges().clone(),
        [CharIndexRange::new(3, 7)]
    );
    run(&mut env, MatchLiteral("fn".to_string()));
    run(&mut env, EnterInsertMode(Direction::Start));
    run(&mut env, Insert("hello".to_string()));
    assert_eq!(
        env.editor.buffer().diagnostic_ranges().clone(),
        [CharIndexRange::new(3 + 5, 7 + 5)]
    );
}

fn omit_case(
    input: &str,
    kind: FilterKind,
    target: FilterTarget,
    mechanism: FilterMechanism,
    expected: &[&str],
) {
    let mut env = open(input);
    run(&mut env, SetSelectionMode(WordShort));
    run(&mut env, FilterPush(Filter::new(kind, target, mechanism)));
    run(&mut env, CursorAddToAllSelections);
    assert_eq!(selected(&env), expected);
    run(&mut env, FilterClear);
    run(&mut env, CursorKeepPrimaryOnly);
    run(&mut env, CursorAddToAllSelections);
    assert_ne!(selected(&env), expected);
}

#[test]
fn omit() {
    omit_case(
        "foo bar spam",
        FilterKind::Keep,
        FilterTarget::Content,
        FilterMechanism::Literal("a".to_string()),
        &["bar", "spam"],
    );
    omit_case(
        "foo bar spam",
        FilterKind::Remove,
        FilterTarget::Content,
        FilterMechanism::Literal("a".to_string()),
        &["foo"],
    );
    omit_case(
        "hello wehello",
        FilterKind::Keep,
        FilterTarget::Content,
        FilterMechanism::Regex("^he".to_string()),
        &["hello"],
    );
    omit_case(
        "hello wehello",
        FilterKind::Remove,
        FilterTarget::Content,
        FilterMechanism::Regex("^he".to_string()),
        &["wehello"],
    );
}

#[test]
fn surround() {
    let mut env = open("fn main() { x.y() }");
    run(&mut env, MatchLiteral("x.y()".to_string()));
    run(&mut env, Surround("(".to_string(), ")".to_string()));
    assert_eq!(content(&env), "fn main() { (x.y()) }");
    assert_eq!(selected(&env), ["(x.y())"]);
}

#[test]
fn delete_cut() {
    let mut env = open("hello world");
    run(&mut env, SetSelectionMode(WordShort));
    assert_eq!(selected(&env), ["hello"]);
    let dispatches = env.editor.kill(true).unwrap();
    handle(&mut env, dispatches);
    assert_eq!(selected(&env), ["world"]);
    run(&mut env, Paste(Direction::End));
    assert_eq!(content(&env), "worldhello");
}

#[test]
fn entering_insert_mode_from_visual_mode() {
    let mut env = open("hello world hey");
    run(&mut env, MatchLiteral("world".to_string()));
    run(&mut env, SetSelectionMode(WordShort));
    run(&mut env, ToggleHighlightMode);
    run(&mut env, MoveSelection(Next));
    assert_eq!(selected(&env), ["world hey"]);
    run(&mut env, EnterInsertMode(Direction::Start));
    key(&mut env, "x");
    key(&mut env, "x");
    key(&mut env, "space");
    assert_eq!(content(&env), "hello xx world hey");
    assert_eq!(selected(&env), [""]);
}

#[test]
fn undo_till_empty_should_not_crash_in_insert_mode() {
    let mut env = open("");
    env.context.set_clipboard_content("foo".to_string());
    run(&mut env, EnterInsertMode(Direction::Start));
    run(&mut env, Paste(Direction::End));
    assert_eq!(content(&env), "foo");
    run(&mut env, Undo);
    assert_eq!(content(&env), "");
}

#[test]
fn copy_replace() {
    let mut env = open("fn main() { let x = 1; }");
    run(&mut env, SetSelectionMode(BottomNode));
    run(&mut env, DispatchEditor::Copy);
    run(&mut env, MoveSelection(Next));
    run(&mut env, ReplaceSelectionWithCopiedText);
    assert_eq!(content(&env), "fn fn() { let x = 1; }");
    run(&mut env, ReplaceSelectionWithCopiedText);
    assert_eq!(selected(&env), ["main"]);
}

#[test]
fn copy_paste() {
    let mut env = open("fn main() { let x = 1; }");
    run(&mut env, SetSelectionMode(BottomNode));
    run(&mut env, DispatchEditor::Copy);
    run(&mut env, MoveSelection(Next));
    run(&mut env, ReplaceWithClipboard);
    assert_eq!(content(&env), "fn fn() { let x = 1; }");
    assert_eq!(selected(&env), [""]);
    run(&mut env, MoveSelection(Next));
    run(&mut env, ReplaceWithClipboard);
    assert_eq!(content(&env), "fn fn(fn { let x = 1; }");
}

#[test]
fn cut_paste() {
    let mut env = open("fn main() { let x = 1; }");
    run(&mut env, SetSelectionMode(BottomNode));
    run(&mut env, Cut);
    run(&mut env, EnterNormalMode);
    assert_eq!(content(&env), " main() { let x = 1; }");
    run(&mut env, MoveSelection(Current));
    assert_eq!(selected(&env), ["main"]);
    run(&mut env, ReplaceWithClipboard);
    assert_eq!(content(&env), " fn() { let x = 1; }");
}

#[test]
fn highlight_mode_cut() {
    let mut env = open("fn f(){ let x = S(a); let y = S(b); }");
    run(&mut env, SetSelectionMode(BottomNode));
    run(&mut env, ToggleHighlightMode);
    run(&mut env, MoveSelection(Next));
    run(&mut env, MoveSelection(Next));
    run(&mut env, MoveSelection(Next));
    assert_eq!(selected(&env), ["fn f()"]);
    run(&mut env, Cut);
    assert_eq!(content(&env), "{ let x = S(a); let y = S(b); }");
    run(&mut env, ReplaceWithClipboard);
    assert_eq!(content(&env), "fn f(){ let x = S(a); let y = S(b); }");
}

#[test]
fn highlight_mode_copy() {
    let mut env = open("fn f(){ let x = S(a); let y = S(b); }");
    run(&mut env, SetSelectionMode(BottomNode));
    run(&mut env, ToggleHighlightMode);
    run(&mut env, MoveSelection(Next));
    run(&mut env, MoveSelection(Next));
    run(&mut env, MoveSelection(Next));
    assert_eq!(selected(&env), ["fn f()"]);
    run(&mut env, DispatchEditor::Copy);
    run(&mut env, Reset);
    run(&mut env, MoveSelection(Next));
    assert_eq!(selected(&env), ["{"]);
    run(&mut env, ReplaceWithClipboard);
    assert_eq!(content(&env), "fn f()fn f() let x = S(a); let y = S(b); }");
}

#[test]
fn highlight_mode_replace() {
    let mut env = open("fn f(){ let x = S(a); let y = S(b); }");
    run(&mut env, SetSelectionMode(BottomNode));
    run(&mut env, ToggleHighlightMode);
    run(&mut env, MoveSelection(Next));
    run(&mut env, MoveSelection(Next));
    run(&mut env, MoveSelection(Next));
    assert_eq!(selected(&env), ["fn f()"]);
    run(&mut env, DispatchEditor::Copy);
    run(&mut env, Reset);
    run(&mut env, MatchLiteral("{".to_string()));
    run(&mut env, SetSelectionMode(TopNode));
    assert_eq!(selected(&env), ["{ let x = S(a); let y = S(b); }"]);
    run(&mut env, ReplaceSelectionWithCopiedText);
    assert_eq!(content(&env), "fn f()fn f()");
}

#[test]
fn highlight_mode_paste() {
    let mut env = open("fn f(){ let x = S(a); let y = S(b); }");
    run(&mut env, SetSelectionMode(BottomNode));
    run(&mut env, DispatchEditor::Copy);
    assert_eq!(selected(&env), ["fn"]);
    run(&mut env, ToggleHighlightMode);
    run(&mut env, MoveSelection(Next));
    run(&mut env, MoveSelection(Next));
    run(&mut env, MoveSelection(Next));
    assert_eq!(selected(&env), ["fn f()"]);
    run(&mut env, ReplaceWithClipboard);
    assert_eq!(content(&env), "fn{ let x = S(a); let y = S(b); }");
}

#[test]
fn find_with_a_regular_expression_moves_between_matches() {
    let mut env = open("1 a 2 b 3 c");
    run(
        &mut env,
        SetSelectionMode(Find {
            search: Search {
                search: "\\d+".to_string(),
                config: GrepConfig {
                    escaped: false,
                    case_sensitive: false,
                    match_whole_word: false,
                },
            },
        }),
    );
    assert_eq!(selected(&env), ["1"]);
    run(&mut env, MoveSelection(Next));
    assert_eq!(selected(&env), ["2"]);
    run(&mut env, MoveSelection(Last));
    assert_eq!(selected(&env), ["3"]);
    run(&mut env, MoveSelection(Previous));
    assert_eq!(selected(&env), ["2"]);
    run(&mut env, MoveSelection(Index(0)));
    assert_eq!(selected(&env), ["1"]);
    run(&mut env, MoveSelection(Jump(CharIndexRange::new(2, 3))));
    assert_eq!(selected(&env), ["a"]);
}

#[test]
fn a_search_that_is_no_regular_expression_is_refused() {
    let mut env = open("abc");
    let result = env.editor.apply_dispatch(
        &env.context,
        SetSelectionMode(Find {
            search: Search {
                search: "(".to_string(),
                config: GrepConfig {
                    escaped: false,
                    case_sensitive: true,
                    match_whole_word: false,
                },
            },
        }),
    );
    assert_eq!(
        result.unwrap_err(),
        editor_core::error::EditorError::FilterRegexInvalid
    );
    let result = env.editor.apply_dispatch(
        &env.context,
        FilterPush(Filter::new(
            FilterKind::Keep,
            FilterTarget::Content,
            FilterMechanism::Regex("(".to_string()),
        )),
    );
    assert_eq!(
        result.unwrap_err(),
        editor_core::error::EditorError::FilterRegexInvalid
    );
    assert!(env.editor.selection_set.filters.is_empty());
}

#[test]
fn kill_at_the_last_element_of_a_search_deletes_that_element() {
    let mut env = open("foo bar foo");
    run(&mut env, MatchLiteral("foo".to_string()));
    run(&mut env, MoveSelection(Last));
    assert_eq!(
        env.editor.selection_set.primary.range,
        CharIndexRange::new(8, 11)
    );
    run(&mut env, Kill);
    assert_eq!(content(&env), "foo bar ");
    assert_eq!(selected(&env), ["foo"]);
}

#[test]
fn paste_into_an_empty_buffer_inserts_at_the_start() {
    let mut env = open("");
    env.context.set_clipboard_content("hello".to_string());
    run(&mut env, Paste(Direction::End));
    assert_eq!(content(&env), "hello");
    assert_eq!(
        env.editor.selection_set.primary.range,
        CharIndexRange::new(0, 5)
    );
}

#[test]
fn undo_past_the_start_of_history_does_nothing() {
    let mut env = open("abc");
    run(&mut env, SetSelectionMode(LineTrimmed));
    run(&mut env, EnterInsertMode(Direction::End));
    run(&mut env, Insert("d".to_string()));
    assert_eq!(content(&env), "abcd");
    run(&mut env, Undo);
    assert_eq!(content(&env), "abc");
    run(&mut env, Undo);
    assert_eq!(content(&env), "abc");
    run(&mut env, Redo);
    assert_eq!(content(&env), "abcd");
    run(&mut env, Redo);
    assert_eq!(content(&env), "abcd");
}

#[test]
fn display_mode_shows_modes_and_cursors() {
    let mut env = open("foo bar");
    run(&mut env, SetSelectionMode(WordShort));
    assert_eq!(env.editor.display_mode(), "MOVE:WORD(SHORT) x 1");
    run(&mut env, CursorAddToAllSelections);
    assert_eq!(env.editor.display_mode(), "MOVE:WORD(SHORT) x 2");
    run(&mut env, EnterInsertMode(Direction::Start));
    assert_eq!(env.editor.display_mode(), "INSERT:WORD(SHORT) x 2");
    run(&mut env, EnterNormalMode);
    run(&mut env, ShowJumps);
    assert_eq!(env.editor.display_mode(), "MOVE:WORD(SHORT) x 2 (JUMPING)");
}

#[test]
fn save_takes_the_formatted_text_and_can_be_undone() {
    let mut env = open(" fn main\n() {}");
    env.editor.buffer.set_path("/tmp/main.rs".to_string());
    assert!(env.editor.buffer().can_be_formatted());
    let (written, dispatches) = env.editor.save(Some(Ok("fn main() {}\n".to_string())));
    assert_eq!(written, Some("fn main() {}\n".to_string()));
    assert_eq!(content(&env), "fn main() {}\n");
    assert_eq!(
        dispatches[0],
        Dispatch::DocumentDidSave {
            saved_path: "/tmp/main.rs".to_string()
        }
    );
    run(&mut env, Undo);
    assert_eq!(content(&env), " fn main\n() {}");
}

#[test]
fn save_keeps_the_text_where_the_formatter_fails_or_the_tree_is_broken() {
    let mut env = open("let x = \"1\";");
    env.editor.buffer.set_path("/tmp/main.rs".to_string());
    let (written, _) = env.editor.save(Some(Err("no".to_string())));
    assert_eq!(written, Some("let x = \"1\";".to_string()));
    assert_eq!(content(&env), "let x = \"1\";");

    let mut broken = open("fn main() {");
    broken.editor.buffer.set_path("/tmp/main.rs".to_string());
    assert!(!broken.editor.buffer().can_be_formatted());
    let (written, _) = broken.editor.save(Some(Ok("fn main() {}\n".to_string())));
    assert_eq!(written, Some("fn main() {".to_string()));
    assert_eq!(content(&broken), "fn main() {");

    let mut nowhere = open("fn main() {}");
    let (written, dispatches) = nowhere.editor.save(None);
    assert_eq!(written, None);
    assert!(dispatches.is_empty());
    let (written, dispatches) = nowhere
        .editor
        .save(Some(Ok("fn main() {\n}\n".to_string())));
    assert_eq!(written, None);
    assert!(dispatches.is_empty());
    assert_eq!(content(&nowhere), "fn main() {}");
    run(&mut nowhere, Undo);
    assert_eq!(content(&nowhere), "fn main() {}");
}

#[test]
fn test_app_raise_inside() {
    let mut env = open("fn main() { (a, b) }");
    run(&mut env, MatchLiteral("b".to_string()));
    run(&mut env, SetSelectionMode(Inside(InsideKind::Parentheses)));
    assert_eq!(selected(&env), ["a, b"]);
    run(&mut env, Raise);
    assert_eq!(content(&env), "fn main() { a, b }");
}

fn highlight_and_move(env: &mut Env) {
    run(env, SetSelectionMode(BottomNode));
    run(env, ToggleHighlightMode);
    run(env, MoveSelection(Next));
    run(env, MoveSelection(Next));
    assert_eq!(selected(env), ["fn f("]);
    run(env, ToggleHighlightMode);
    run(env, MoveSelection(Next));
    assert_eq!(selected(env), ["f("]);
    run(env, Reset);
    assert_eq!(selected(env), ["f"]);
    run(env, MoveSelection(Next));
    assert_eq!(selected(env), ["("]);
}

#[test]
fn toggle_visual_mode() {
    let mut env = open("fn f(){ let x = S(a); let y = S(b); }");
    highlight_and_move(&mut env);
}

#[test]
fn toggle_highlight_mode() {
    let mut env = open("fn f(){ let x = S(a); let y = S(b); }");
    highlight_and_move(&mut env);
}

#[test]
fn test_app_delete_should_kill_if_possible_1() {
    let mut env = open("fn main() {}");
    run(&mut env, SetSelectionMode(BottomNode));
    run(&mut env, Kill);
    assert_eq!(content(&env), "main() {}");
    assert_eq!(selected(&env), vec!["main"]);
}

#[test]
fn test_app_delete_should_kill_if_possible_2() {
    let mut env = open("fn main() {}");
    run(&mut env, SetSelectionMode(Character));
    run(&mut env, Kill);
    assert_eq!(content(&env), "n main() {}");
    assert_eq!(selected(&env), vec!["n"]);
}

#[test]
fn test_app_delete_should_kill_if_possible_3() {
    let mut env = open("fn main() {}");
    run(&mut env, SetSelectionMode(BottomNode));
    run(&mut env, MoveSelection(Last));
    run(&mut env, Kill);
    assert_eq!(content(&env), "fn main() {");
}

#[test]
fn test_app_delete_should_kill_if_possible_4() {
    let mut env = open("fn main(a:A,b:B) {}");
    run(&mut env, MatchLiteral("a:A".to_string()));
    run(&mut env, SetSelectionMode(SyntaxTree));
    run(&mut env, Kill);
    assert_eq!(content(&env), "fn main(b:B) {}");
    assert_eq!(selected(&env), vec!["b:B"]);
}

#[test]
fn delete_should_not_kill_if_not_possible() {
    let mut env = open("fn maima() {}");
    run(&mut env, MatchLiteral("ma".to_string()));
    run(&mut env, Kill);
    assert_eq!(content(&env), "fn ima() {}");
    assert_eq!(selected(&env), vec!["i"]);
}

#[test]
fn test_app_toggle_untoggle_bookmark() {
    let mut env = open("foo bar spam");
    run(&mut env, SetSelectionMode(Word));
    run(&mut env, ToggleBookmark);
    run(&mut env, MoveSelection(Next));
    run(&mut env, MoveSelection(Next));
    run(&mut env, ToggleBookmark);
    run(&mut env, SetSelectionMode(Bookmark));
    run(&mut env, CursorAddToAllSelections);
    assert_eq!(selected(&env), ["foo", "spam"]);
    run(&mut env, CursorKeepPrimaryOnly);
    assert_eq!(selected(&env), ["spam"]);
    run(&mut env, ToggleBookmark);
    run(&mut env, MoveSelection(Current));
    run(&mut env, CursorAddToAllSelections);
    assert_eq!(selected(&env), ["foo"]);
}

fn digits() -> Search {
    Search {
        search: "\\d+".to_string(),
        config: GrepConfig {
            escaped: false,
            case_sensitive: false,
            match_whole_word: false,
        },
    }
}

#[test]
fn after_a_kill_in_a_search_the_next_match_is_found() {
    let mut env = open("1 a 2 b 3 c");
    run(&mut env, MatchLiteral("1".to_string()));
    run(&mut env, SetSelectionMode(Find { search: digits() }));
    run(&mut env, Kill);
    assert_eq!(content(&env), " a 2 b 3 c");
    assert_eq!(selected(&env), [" "]);
    run(&mut env, MoveSelection(Next));
    assert_eq!(selected(&env), ["2"]);
}

#[test]
fn update_bookmark_position_with_undo_and_redo() {
    let mut env = open("foo bar spim");
    run(&mut env, SetSelectionMode(WordShort));
    run(&mut env, MoveSelection(Next));
    run(&mut env, MoveSelection(Next));
    run(&mut env, ToggleBookmark);
    run(&mut env, SetSelectionMode(Bookmark));
    assert_eq!(selected(&env), ["spim"]);
    run(&mut env, SetSelectionMode(WordShort));
    run(&mut env, MoveSelection(Previous));
    run(&mut env, MoveSelection(Previous));
    run(&mut env, Kill);
    assert_eq!(content(&env), "bar spim");
    run(&mut env, SetSelectionMode(Bookmark));
    assert_eq!(selected(&env), ["spim"]);
    run(&mut env, Undo);
    assert_eq!(content(&env), "foo bar spim");
    run(&mut env, SetSelectionMode(Bookmark));
    assert_eq!(selected(&env), ["spim"]);
    run(&mut env, Redo);
    run(&mut env, SetSelectionMode(Bookmark));
    assert_eq!(selected(&env), ["spim"]);
}

#[test]
fn saving_should_not_destroy_bookmark_if_selections_not_modified() {
    let mut env = open("// foo bar spim\n    fn foo() {}\n");
    env.editor.buffer.set_path("/tmp/main.rs".to_string());
    run(&mut env, MatchLiteral("bar".to_string()));
    run(&mut env, ToggleBookmark);
    run(&mut env, SetSelectionMode(Bookmark));
    let (_, dispatches) = env
        .editor
        .save(Some(Ok("// foo bar spim\nfn foo() {}\n".to_string())));
    handle(&mut env, dispatches);
    assert_eq!(content(&env), "// foo bar spim\nfn foo() {}\n");
    run(&mut env, SetSelectionMode(Character));
    assert_eq!(selected(&env), ["b"]);
    run(&mut env, SetSelectionMode(Bookmark));
    assert_eq!(selected(&env), ["bar"]);
}

#[test]
fn select_kids() {
    let mut env = open("fn main(x: usize, y: Vec<A>) {}");
    run(&mut env, MatchLiteral("x".to_string()));
    run(&mut env, MoveSelection(Next));
    assert_eq!(selected(&env), ["x"]);
    run(&mut env, SelectKids);
    assert_eq!(selected(&env), ["x: usize, y: Vec<A>"]);
}

#[test]
fn kids_are_what_stands_between_the_first_and_the_last_child() {
    let mut env = open("fn main() {}");
    run(&mut env, MatchLiteral("main".to_string()));
    run(&mut env, SelectKids);
    assert_eq!(selected(&env), ["main()"]);
    let mut env = open("fn main() {}");
    run(&mut env, MatchLiteral("}".to_string()));
    run(&mut env, SelectKids);
    assert_eq!(selected(&env), ["}"]);
    let mut env = open("x");
    env.editor.buffer.update("");
    run(&mut env, SelectKids);
    assert_eq!(selected(&env), [""]);
}

#[test]
fn replacing_the_previous_word_selects_it_first() {
    let mut env = open("let spongebob = squid");
    run(&mut env, MatchLiteral("bob".to_string()));
    run(&mut env, ReplacePreviousWord("patrick".to_string()));
    assert_eq!(content(&env), "let patrick = squid");
}

#[test]
fn the_jumps_that_show_can_be_read() {
    let mut env = open("alpha beta");
    assert!(env.editor.jumps().is_empty());
    run(&mut env, SetRectangle(rectangle(100, 3)));
    run(&mut env, SetSelectionMode(WordShort));
    run(&mut env, ShowJumps);
    let jumps = env.editor.jumps();
    let labels: Vec<char> = jumps.iter().map(|jump| jump.character).collect();
    assert_eq!(labels, env.editor.jump_chars());
    assert_eq!(labels, vec!['a', 'b']);
    assert_eq!(jumps[1].selection.range, CharIndexRange::new(6, 10));
}

#[test]
fn events_other_than_keys_reach_the_editor_too() {
    let mut env = open("ab");
    env.editor.set_scroll_offset(1);
    let handled = |result| matches!(result, Ok(HandleEventResult::Handled(dispatches)) if dispatches.is_empty());
    let context = Context::default();
    assert!(handled(env.editor.handle_event(&context, Event::Mouse(MouseEvent::ScrollDown))));
    assert_eq!(env.editor.scroll_offset, 2);
    assert!(handled(env.editor.handle_event(&context, Event::Mouse(MouseEvent::ScrollUp))));
    assert!(handled(env.editor.handle_event(&context, Event::Mouse(MouseEvent::ScrollUp))));
    assert!(handled(env.editor.handle_event(&context, Event::Mouse(MouseEvent::ScrollUp))));
    assert_eq!(env.editor.scroll_offset, 0);
    assert!(handled(env.editor.handle_event(&context, Event::Mouse(MouseEvent::Other))));
    assert!(handled(env.editor.handle_event(&context, Event::Other)));
    env.editor.apply_scroll(Direction::End, u16::MAX);
    env.editor.apply_scroll(Direction::End, 7);
    assert_eq!(env.editor.scroll_offset, u16::MAX);
    env.editor.set_scroll_offset(0);
    run(&mut env, EnterInsertMode(Direction::End));
    let pasted = env
        .editor
        .handle_event(&context, Event::Paste("cd".to_string()))
        .unwrap();
    assert!(matches!(pasted, HandleEventResult::Handled(_)));
    assert_eq!(content(&env), "cdab");
    let key = parse_key_event("x").unwrap();
    env.editor.handle_event(&context, Event::Key(key)).unwrap();
    assert_eq!(content(&env), "cdxab");
    let escape = parse_key_event("esc").unwrap();
    env.editor.handle_event(&context, Event::Key(escape)).unwrap();
    assert_eq!(env.editor.mode, Mode::Normal);
    let ignored = env.editor.handle_event(&context, Event::Key(key)).unwrap();
    assert_eq!(ignored, HandleEventResult::Ignored(key));
}

#[test]
fn syntax_highlight_spans_updated_by_edit() {
    let keyword_function: u16 = 1;
    let mut env = open("fn main() { let x = 123 }");
    run(&mut env, SetRectangle(rectangle(100, 2)));
    env.editor.buffer.update_highlighted_spans(vec![HighlightedSpan {
        byte_range: ByteRange::new(0, 2),
        style_key: keyword_function,
    }]);
    assert_eq!(
        env.editor.buffer().highlighted_spans().clone(),
        vec![HighlightedSpan {
            byte_range: ByteRange::new(0, 2),
            style_key: keyword_function,
        }]
    );
    run(&mut env, MatchLiteral("fn".to_string()));
    run(&mut env, EnterInsertMode(Direction::Start));
    run(&mut env, Insert("hello".to_string()));
    assert_eq!(
        env.editor.buffer().highlighted_spans().clone(),
        vec![HighlightedSpan {
            byte_range: ByteRange::new(5, 7),
            style_key: keyword_function,
        }]
    );
}

#[test]
fn asking_to_save_hands_the_request_on() {
    let mut env = open("fn main() {}");
    let dispatches = env.editor.apply_dispatch(&env.context, Save).unwrap();
    assert_eq!(dispatches, vec![Dispatch::RequestSave]);
    assert_eq!(content(&env), "fn main() {}");
}

fn nodes(env: &Env) -> Vec<(usize, usize, u16)> {
    let tree = env.editor.buffer().tree().unwrap();
    (0..tree.len())
        .map(|i| {
            let node = tree.node(i);
            (node.start_byte, node.end_byte, node.kind_id)
        })
        .collect()
}

#[test]
fn another_grammar_gives_another_tree() {
    let mut env = open("# fn main() {}");
    let rust = nodes(&env);
    run(&mut env, SetLanguage(tree_sitter_md::language()));
    assert_eq!(
        *env.editor.buffer().treesitter_language(),
        tree_sitter_md::language()
    );
    let markdown = nodes(&env);
    assert_ne!(rust, markdown);
    assert_eq!(content(&env), "# fn main() {}");
    run(&mut env, SetLanguage(tree_sitter_rust::language()));
    assert_eq!(nodes(&env), rust);
    let other = Editor::from_buffer(Buffer::new(tree_sitter_md::language(), "# fn main() {}"));
    let tree = other.buffer().tree().unwrap();
    assert_eq!(tree.len(), markdown.len());
    assert_eq!(tree.node(0).kind_id, markdown[0].2);
}

#[test]
fn previous_undoes_next_for_a_selection_in_the_text_modes() {
    for mode in [Character, LineTrimmed] {
        let mut env = open("ab\n  cd\n\nef");
        run(&mut env, SetSelectionMode(mode.clone()));
        loop {
            let before = env.editor.selection_set.primary.range;
            run(&mut env, MoveSelection(Next));
            let moved = env.editor.selection_set.primary.range;
            if moved == before {
                break;
            }
            run(&mut env, MoveSelection(Previous));
            assert_eq!(env.editor.selection_set.primary.range, before);
            run(&mut env, MoveSelection(Next));
        }
    }
}

#[test]
fn a_cursor_behind_a_token_does_not_stand_for_that_token() {
    let env = open("fn main() { x + 1 }");
    let at = |start: usize, end: usize| {
        let selection = editor_core::selection::Selection::new(CharIndexRange::new(start, end));
        let node = env.editor.buffer().get_current_node(&selection).unwrap();
        (node.start_byte, node.end_byte)
    };
    assert_eq!(at(12, 13), (12, 13));
    assert_eq!(at(12, 12), (12, 13));
    assert_eq!(at(13, 13), (12, 17));
    assert_eq!(at(14, 14), (14, 15));
    assert_eq!(at(2, 2), (0, 19));
    assert_eq!(at(3, 3), (3, 7));
}
